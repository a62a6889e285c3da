//! The unit of exchange between devices and the relay.
use vstd::prelude::*;

verus! {

/// What a clipboard holds, as the contracts see it.
pub enum ContentModel {
    Text(Seq<char>),
    Image(Seq<u8>),
    Empty,
}

/// A message, as the contracts see it.
pub enum MessageModel {
    Clipboard(ContentModel),
    Action(ActionModel),
}

/// A named action with its ordered arguments, as the contracts see it.
pub struct ActionModel {
    pub action: Seq<char>,
    pub args: Seq<Seq<char>>,
}

/// The content of a clipboard: text, an encoded image, or nothing.
#[derive(Debug)]
pub enum ClipboardContent {
    Text(String),
    Image(Vec<u8>),
    Empty,
}

/// A request to run the action `action` with the arguments `args`.
#[derive(Debug)]
pub struct Action {
    pub action: String,
    pub args: Vec<String>,
}

/// A message exchanged between a device and the relay.
#[derive(Debug)]
pub enum ActionMessage {
    Clipboard(ClipboardContent),
    Action(Action),
}

pub open spec fn strings_view(v: Seq<String>) -> Seq<Seq<char>> {
    v.map_values(|s: String| s@)
}

impl View for ClipboardContent {
    type V = ContentModel;

    open spec fn view(&self) -> ContentModel {
        match self {
            ClipboardContent::Text(t) => ContentModel::Text(t@),
            ClipboardContent::Image(b) => ContentModel::Image(b@),
            ClipboardContent::Empty => ContentModel::Empty,
        }
    }
}

impl View for Action {
    type V = ActionModel;

    open spec fn view(&self) -> ActionModel {
        ActionModel { action: self.action@, args: strings_view(self.args@) }
    }
}

impl View for ActionMessage {
    type V = MessageModel;

    open spec fn view(&self) -> MessageModel {
        match self {
            ActionMessage::Clipboard(c) => MessageModel::Clipboard(c@),
            ActionMessage::Action(a) => MessageModel::Action(a@),
        }
    }
}

/// Whether two byte sequences are equal.
pub fn bytes_equal(a: &Vec<u8>, b: &Vec<u8>) -> (r: bool)
    ensures
        r == (a@ == b@),
{
    if a.len() != b.len() {
        return false;
    }
    let mut i: usize = 0;
    while i < a.len()
        invariant
            a@.len() == b@.len(),
            i <= a@.len(),
            forall|k: int| 0 <= k < i ==> a@[k] == b@[k],
        decreases a@.len() - i,
    {
        if a[i] != b[i] {
            return false;
        }
        i = i + 1;
    }
    assert(a@ =~= b@);
    true
}

/// Whether two lists of strings are equal, element by element.
pub fn strings_equal(a: &Vec<String>, b: &Vec<String>) -> (r: bool)
    ensures
        r == (strings_view(a@) == strings_view(b@)),
{
    if a.len() != b.len() {
        proof {
            assert(strings_view(a@).len() != strings_view(b@).len());
        }
        return false;
    }
    let mut i: usize = 0;
    while i < a.len()
        invariant
            a@.len() == b@.len(),
            i <= a@.len(),
            forall|k: int| 0 <= k < i ==> a@[k]@ == b@[k]@,
        decreases a@.len() - i,
    {
        if !a[i].eq(&b[i]) {
            proof {
                assert(strings_view(a@)[i as int] != strings_view(b@)[i as int]);
            }
            return false;
        }
        i = i + 1;
    }
    assert(strings_view(a@) =~= strings_view(b@));
    true
}

impl ClipboardContent {
    /// Structural equality of two clipboard contents.
    pub fn same_as(&self, other: &ClipboardContent) -> (r: bool)
        ensures
            r == (self@ == other@),
    {
        match self {
            ClipboardContent::Text(a) => match other {
                ClipboardContent::Text(b) => a.eq(b),
                _ => false,
            },
            ClipboardContent::Image(a) => match other {
                ClipboardContent::Image(b) => bytes_equal(a, b),
                _ => false,
            },
            ClipboardContent::Empty => match other {
                ClipboardContent::Empty => true,
                _ => false,
            },
        }
    }

    /// A copy of this content.
    pub fn duplicate(&self) -> (r: ClipboardContent)
        ensures
            r@ == self@,
    {
        match self {
            ClipboardContent::Text(t) => ClipboardContent::Text(t.clone()),
            ClipboardContent::Image(b) => ClipboardContent::Image(b.clone()),
            ClipboardContent::Empty => ClipboardContent::Empty,
        }
    }
}

/// A copy of a list of strings.
pub fn copy_strings(v: &Vec<String>) -> (r: Vec<String>)
    ensures
        strings_view(r@) == strings_view(v@),
        r@.len() == v@.len(),
{
    let mut r: Vec<String> = Vec::new();
    let mut i: usize = 0;
    while i < v.len()
        invariant
            i <= v@.len(),
            r@.len() == i,
            forall|k: int| 0 <= k < i ==> r@[k]@ == v@[k]@,
        decreases v@.len() - i,
    {
        r.push(v[i].clone());
        i = i + 1;
    }
    assert(strings_view(r@) =~= strings_view(v@));
    r
}

impl Action {
    /// Structural equality of two actions.
    pub fn same_as(&self, other: &Action) -> (r: bool)
        ensures
            r == (self@ == other@),
    {
        self.action.eq(&other.action) && strings_equal(&self.args, &other.args)
    }

    /// A copy of this action.
    pub fn duplicate(&self) -> (r: Action)
        ensures
            r@ == self@,
    {
        Action { action: self.action.clone(), args: copy_strings(&self.args) }
    }
}

impl ActionMessage {
    /// Structural equality of two messages.
    pub fn same_as(&self, other: &ActionMessage) -> (r: bool)
        ensures
            r == (self@ == other@),
    {
        match self {
            ActionMessage::Clipboard(a) => match other {
                ActionMessage::Clipboard(b) => a.same_as(b),
                _ => false,
            },
            ActionMessage::Action(a) => match other {
                ActionMessage::Action(b) => a.same_as(b),
                _ => false,
            },
        }
    }

    /// A copy of this message.
    pub fn duplicate(&self) -> (r: ActionMessage)
        ensures
            r@ == self@,
    {
        match self {
            ActionMessage::Clipboard(c) => ActionMessage::Clipboard(c.duplicate()),
            ActionMessage::Action(a) => ActionMessage::Action(a.duplicate()),
        }
    }
}

impl PartialEq for ClipboardContent {
    fn eq(&self, other: &ClipboardContent) -> (r: bool) {
        self.same_as(other)
    }
}

impl vstd::std_specs::cmp::PartialEqSpecImpl for ClipboardContent {
    open spec fn obeys_eq_spec() -> bool {
        true
    }

    open spec fn eq_spec(&self, other: &ClipboardContent) -> bool {
        self@ == other@
    }
}

impl PartialEq for Action {
    fn eq(&self, other: &Action) -> (r: bool) {
        self.same_as(other)
    }
}

impl vstd::std_specs::cmp::PartialEqSpecImpl for Action {
    open spec fn obeys_eq_spec() -> bool {
        true
    }

    open spec fn eq_spec(&self, other: &Action) -> bool {
        self@ == other@
    }
}

impl PartialEq for ActionMessage {
    fn eq(&self, other: &ActionMessage) -> (r: bool) {
        self.same_as(other)
    }
}

impl vstd::std_specs::cmp::PartialEqSpecImpl for ActionMessage {
    open spec fn obeys_eq_spec() -> bool {
        true
    }

    open spec fn eq_spec(&self, other: &ActionMessage) -> bool {
        self@ == other@
    }
}

impl Clone for ClipboardContent {
    fn clone(&self) -> (r: ClipboardContent)
        ensures
            r@ == self@,
    {
        self.duplicate()
    }
}

impl Clone for Action {
    fn clone(&self) -> (r: Action)
        ensures
            r@ == self@,
    {
        self.duplicate()
    }
}

impl Clone for ActionMessage {
    fn clone(&self) -> (r: ActionMessage)
        ensures
            r@ == self@,
    {
        self.duplicate()
    }
}

} // verus!
