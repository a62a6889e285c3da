//! The relay's registry of connected devices.
//!
//! Each session owns an outbound queue; the registry only ever appends to
//! those queues, and the transport drains them with `take_outbound`, so that
//! a slow or vanished peer never blocks the sender.
use vstd::prelude::*;
use vstd::string::StrSliceExecFns;

use crate::message::{ActionMessage, ClipboardContent, ContentModel, MessageModel};

verus! {

/// A supported action as a device declares it: its name and how many
/// arguments it needs.
pub open spec fn actions_view(v: Seq<(String, usize)>) -> Seq<(Seq<char>, usize)> {
    v.map_values(|p: (String, usize)| (p.0@, p.1))
}

/// One connected device, as the contracts see it.
pub struct SessionModel {
    pub id: usize,
    pub name: Seq<char>,
    pub connected_at: u64,
    pub actions: Seq<(Seq<char>, usize)>,
    pub outbound: Seq<MessageModel>,
}

/// The registry, as the contracts see it.
pub struct RegistryModel {
    pub sessions: Seq<SessionModel>,
    pub counter: usize,
    pub last_clipboard: ContentModel,
    pub last_message: Option<MessageModel>,
}

/// One connected device: its identity, what it can do, and the messages
/// waiting to be written to its transport.
pub struct ConnectionInfo {
    id: usize,
    name: String,
    /// Seconds since the Unix epoch at which the device connected.
    pub connected_at: u64,
    supported_actions: Vec<(String, usize)>,
    outbound: Vec<ActionMessage>,
}

impl View for ConnectionInfo {
    type V = SessionModel;

    closed spec fn view(&self) -> SessionModel {
        SessionModel {
            id: self.id,
            name: self.name@,
            connected_at: self.connected_at,
            actions: actions_view(self.supported_actions@),
            outbound: self.outbound@.map_values(|m: ActionMessage| m@),
        }
    }
}

/// What the registry tells about one connected device.
#[derive(Debug)]
pub struct ConnectedClientInfo {
    pub name: String,
    pub id: usize,
    /// Seconds since the Unix epoch at which the device connected.
    pub connected_at: u64,
    pub supported_actions: Vec<(String, usize)>,
}

/// The relay's registry: the live sessions, the identifier counter, the last
/// clipboard content and the message kept for the devices that join late.
pub struct Manager {
    connections: Vec<ConnectionInfo>,
    counter: usize,
    last_clipboard_content: ClipboardContent,
    last_message: Option<ActionMessage>,
}

impl View for Manager {
    type V = RegistryModel;

    closed spec fn view(&self) -> RegistryModel {
        RegistryModel {
            sessions: self.connections@.map_values(|c: ConnectionInfo| c@),
            counter: self.counter,
            last_clipboard: self.last_clipboard_content@,
            last_message: match self.last_message {
                Some(m) => Some(m@),
                None => None,
            },
        }
    }
}

/// The clipboard content that a fresh registry holds: empty text.
pub open spec fn default_clipboard() -> ContentModel {
    ContentModel::Text(Seq::empty())
}

/// Identifiers increase along the sessions and all lie below the counter.
pub open spec fn registry_wf(r: RegistryModel) -> bool {
    &&& forall|i: int, j: int|
        0 <= i < j < r.sessions.len() ==> #[trigger] r.sessions[i].id < #[trigger] r.sessions[j].id
    &&& forall|i: int| 0 <= i < r.sessions.len() ==> #[trigger] r.sessions[i].id < r.counter
}

/// Whether a session with identifier `id` is registered.
pub open spec fn has_session(r: RegistryModel, id: usize) -> bool {
    exists|i: int| 0 <= i < r.sessions.len() && #[trigger] r.sessions[i].id == id
}

/// `s` with `m` appended to its outbound queue.
pub open spec fn enqueue(s: SessionModel, m: MessageModel) -> SessionModel {
    SessionModel { outbound: s.outbound.push(m), ..s }
}

/// What a session that connects is sent first: the kept message, if any,
/// then the last clipboard content unless it is the default.
pub open spec fn welcome_queue(r: RegistryModel) -> Seq<MessageModel> {
    let first: Seq<MessageModel> = match r.last_message {
        Some(m) => seq![m],
        None => Seq::empty(),
    };
    if r.last_clipboard == default_clipboard() {
        first
    } else {
        first.push(MessageModel::Clipboard(r.last_clipboard))
    }
}

/// The registry after a device named `name` connects at `at`; its identifier
/// is the counter's value.
pub open spec fn connect_spec(
    r: RegistryModel,
    name: Seq<char>,
    actions: Seq<(Seq<char>, usize)>,
    at: u64,
) -> RegistryModel {
    let s = SessionModel {
        id: r.counter,
        name,
        connected_at: at,
        actions,
        outbound: welcome_queue(r),
    };
    RegistryModel { sessions: r.sessions.push(s), counter: (r.counter + 1) as usize, ..r }
}

/// The registry after the session `id` is removed.
pub open spec fn disconnect_spec(r: RegistryModel, id: usize) -> RegistryModel {
    RegistryModel { sessions: r.sessions.filter(|s: SessionModel| s.id != id), ..r }
}

/// The registry after `m` is queued for the session `id`, if it exists.
pub open spec fn send_to_spec(r: RegistryModel, id: usize, m: MessageModel) -> RegistryModel {
    RegistryModel {
        sessions: Seq::new(
            r.sessions.len(),
            |i: int| if r.sessions[i].id == id { enqueue(r.sessions[i], m) } else { r.sessions[i] },
        ),
        ..r
    }
}

/// Whether a broadcast reaches the session `id`: every session but the sender.
pub open spec fn reaches(sender: Option<usize>, id: usize) -> bool {
    sender != Some(id)
}

/// The sessions after `m` is queued for every session but the sender.
pub open spec fn deliver_all(
    ss: Seq<SessionModel>,
    m: MessageModel,
    sender: Option<usize>,
) -> Seq<SessionModel> {
    Seq::new(
        ss.len(),
        |i: int| if reaches(sender, ss[i].id) { enqueue(ss[i], m) } else { ss[i] },
    )
}

/// Whether a broadcast of `m` is dropped as a repeat of the cached clipboard.
pub open spec fn is_repeat(r: RegistryModel, m: MessageModel) -> bool {
    m matches MessageModel::Clipboard(c) && c == r.last_clipboard
}

/// The registry after a broadcast of `m` from `sender`.
pub open spec fn broadcast_spec(
    r: RegistryModel,
    m: MessageModel,
    sender: Option<usize>,
) -> RegistryModel {
    if is_repeat(r, m) {
        r
    } else {
        let r1 = match m {
            MessageModel::Clipboard(c) => RegistryModel { last_clipboard: c, ..r },
            _ => r,
        };
        if r1.sessions.len() == 0 {
            match m {
                MessageModel::Clipboard(_) => r1,
                _ => RegistryModel { last_message: Some(m), ..r1 },
            }
        } else {
            RegistryModel { sessions: deliver_all(r1.sessions, m, sender), ..r1 }
        }
    }
}

/// The text whose arrival should set off the relay's clipboard actions: that
/// of a clipboard text that a broadcast has newly cached.
pub open spec fn fresh_text(r: RegistryModel, m: MessageModel) -> Option<Seq<char>> {
    if is_repeat(r, m) {
        None
    } else {
        match m {
            MessageModel::Clipboard(ContentModel::Text(t)) => Some(t),
            _ => None,
        }
    }
}

/// A copy of a list of supported actions.
fn copy_actions(v: &Vec<(String, usize)>) -> (r: Vec<(String, usize)>)
    ensures
        actions_view(r@) == actions_view(v@),
{
    let mut r: Vec<(String, usize)> = Vec::new();
    let mut i: usize = 0;
    while i < v.len()
        invariant
            i <= v@.len(),
            r@.len() == i,
            forall|k: int| 0 <= k < i ==> r@[k].0@ == v@[k].0@ && r@[k].1 == v@[k].1,
        decreases v@.len() - i,
    {
        r.push((v[i].0.clone(), v[i].1));
        i = i + 1;
    }
    assert(actions_view(r@) =~= actions_view(v@));
    r
}

impl Manager {
    /// The registry's invariant.
    pub open spec fn wf(&self) -> bool {
        registry_wf(self@)
    }

    /// An empty registry whose clipboard holds empty text.
    pub fn new() -> (r: Manager)
        ensures
            r.wf(),
            r@.sessions.len() == 0,
            r@.counter == 0,
            r@.last_clipboard == default_clipboard(),
            r@.last_message.is_none(),
    {
        let r = Manager {
            connections: Vec::new(),
            counter: 0,
            last_clipboard_content: ClipboardContent::Text(String::new()),
            last_message: None,
        };
        assert(r@.sessions =~= Seq::<SessionModel>::empty());
        r
    }

    /// Whether every identifier has been handed out, so that no device can
    /// connect any more.
    pub fn ids_exhausted(&self) -> (r: bool)
        ensures
            r == (self@.counter == usize::MAX),
    {
        self.counter == usize::MAX
    }

    /// Registers a device that has completed the handshake and returns its
    /// identifier. Its queue starts with the kept message, if any, then the
    /// last clipboard content unless it is the default empty text.
    pub fn add_connection(
        &mut self,
        name: &String,
        supported_actions: Vec<(String, usize)>,
        connected_at: u64,
    ) -> (id: usize)
        requires
            old(self).wf(),
            old(self)@.counter < usize::MAX,
        ensures
            final(self).wf(),
            id == old(self)@.counter,
            final(self)@ == connect_spec(
                old(self)@,
                name@,
                actions_view(supported_actions@),
                connected_at,
            ),
    {
        let id = self.counter;
        let mut outbound: Vec<ActionMessage> = Vec::new();
        match &self.last_message {
            Some(m) => outbound.push(m.duplicate()),
            None => {},
        }
        let is_default = match &self.last_clipboard_content {
            ClipboardContent::Text(t) => {
                let empty = t.as_str().unicode_len() == 0;
                proof {
                    if empty {
                        assert(t@ =~= Seq::<char>::empty());
                    }
                }
                empty
            },
            _ => false,
        };
        if !is_default {
            outbound.push(ActionMessage::Clipboard(self.last_clipboard_content.duplicate()));
        }
        let info = ConnectionInfo {
            id,
            name: name.clone(),
            connected_at,
            supported_actions,
            outbound,
        };
        proof {
            assert(info@.outbound =~= welcome_queue(self@));
        }
        let ghost before = self@;
        self.connections.push(info);
        self.counter = self.counter + 1;
        assert(self@.sessions =~= before.sessions.push(info@));
        id
    }

    /// How many devices are connected.
    pub fn client_count(&self) -> (n: usize)
        ensures
            n == self@.sessions.len(),
    {
        self.connections.len()
    }

    /// A description of every connected device, in the registry's order.
    pub fn list_clients(&self) -> (r: Vec<ConnectedClientInfo>)
        ensures
            r@.len() == self@.sessions.len(),
            forall|i: int|
                0 <= i < r@.len() ==> {
                    &&& #[trigger] r@[i].id == self@.sessions[i].id
                    &&& r@[i].name@ == self@.sessions[i].name
                    &&& r@[i].connected_at == self@.sessions[i].connected_at
                    &&& actions_view(r@[i].supported_actions@) == self@.sessions[i].actions
                },
    {
        let mut r: Vec<ConnectedClientInfo> = Vec::new();
        let mut i: usize = 0;
        while i < self.connections.len()
            invariant
                i <= self.connections@.len(),
                r@.len() == i,
                forall|k: int|
                    0 <= k < i ==> {
                        &&& #[trigger] r@[k].id == self.connections@[k].id
                        &&& r@[k].name@ == self.connections@[k].name@
                        &&& r@[k].connected_at == self.connections@[k].connected_at
                        &&& actions_view(r@[k].supported_actions@) == actions_view(
                            self.connections@[k].supported_actions@,
                        )
                    },
            decreases self.connections@.len() - i,
        {
            let c = &self.connections[i];
            r.push(
                ConnectedClientInfo {
                    name: c.name.clone(),
                    id: c.id,
                    connected_at: c.connected_at,
                    supported_actions: copy_actions(&c.supported_actions),
                },
            );
            i = i + 1;
        }
        r
    }

    /// Removes the session `id`; nothing happens if there is none.
    pub fn remove_connection(&mut self, id: usize)
        requires
            old(self).wf(),
        ensures
            final(self).wf(),
            final(self)@ == disconnect_spec(old(self)@, id),
    {
        let ghost before = self@;
        let mut i: usize = 0;
        while i < self.connections.len()
            invariant
                i <= self.connections@.len(),
                registry_wf(self@),
                self@.counter == before.counter,
                self@.last_clipboard == before.last_clipboard,
                self@.last_message == before.last_message,
                self@.sessions.filter(|s: SessionModel| s.id != id) == before.sessions.filter(
                    |s: SessionModel| s.id != id,
                ),
                forall|k: int| 0 <= k < i ==> #[trigger] self@.sessions[k].id != id,
            decreases self.connections@.len() - i,
        {
            if self.connections[i].id == id {
                let ghost s0 = self@.sessions;
                self.connections.remove(i);
                proof {
                    let f = |s: SessionModel| s.id != id;
                    assert(self@.sessions =~= s0.remove(i as int));
                    lemma_filter_remove_dropped(s0, i as int, f);
                    assert forall|a: int, b: int|
                        0 <= a < b < self@.sessions.len() implies #[trigger] self@.sessions[a].id
                        < #[trigger] self@.sessions[b].id by {
                        if b < i {
                        } else if a < i {
                            assert(self@.sessions[b] == s0[b + 1]);
                        } else {
                            assert(self@.sessions[a] == s0[a + 1]);
                            assert(self@.sessions[b] == s0[b + 1]);
                        }
                    }
                    assert forall|a: int| 0 <= a < self@.sessions.len() implies #[trigger] self@.sessions[a].id
                        < self@.counter by {
                        if a >= i {
                            assert(self@.sessions[a] == s0[a + 1]);
                        }
                    }
                    assert forall|a: int| 0 <= a < i implies #[trigger] self@.sessions[a].id
                        != id by {
                        assert(self@.sessions[a] == s0[a]);
                    }
                }
            } else {
                i = i + 1;
            }
        }
        proof {
            let f = |s: SessionModel| s.id != id;
            lemma_filter_all_kept(self@.sessions, f);
        }
        assert(self@ =~= disconnect_spec(before, id));
    }

    /// Queues `message` for the session `id`; nothing happens if there is none.
    pub fn send_to_specific(&mut self, id: usize, message: &ActionMessage)
        requires
            old(self).wf(),
        ensures
            final(self).wf(),
            final(self)@ == send_to_spec(old(self)@, id, message@),
    {
        let ghost before = self@;
        let mut i: usize = 0;
        while i < self.connections.len()
            invariant
                i <= self.connections@.len(),
                self.connections@.len() == before.sessions.len(),
                self@.counter == before.counter,
                self@.last_clipboard == before.last_clipboard,
                self@.last_message == before.last_message,
                forall|k: int|
                    0 <= k < i ==> #[trigger] self@.sessions[k] == (if before.sessions[k].id == id {
                        enqueue(before.sessions[k], message@)
                    } else {
                        before.sessions[k]
                    }),
                forall|k: int| i <= k < self@.sessions.len() ==> #[trigger] self@.sessions[k] == before.sessions[k],
            decreases self.connections@.len() - i,
        {
            if self.connections[i].id == id {
                let ghost s0 = self@.sessions;
                self.connections[i].outbound.push(message.duplicate());
                proof {
                    assert(self@.sessions[i as int].outbound =~= s0[i as int].outbound.push(message@));
                    assert(self@.sessions[i as int] == enqueue(s0[i as int], message@));
                    assert forall|k: int| 0 <= k < self@.sessions.len() && k != i implies #[trigger] self@.sessions[k] == s0[k] by {}
                }
            }
            i = i + 1;
        }
        assert(self@.sessions =~= send_to_spec(before, id, message@).sessions);
        assert(self@ =~= send_to_spec(before, id, message@));
    }

    /// Hands over, in order, the messages queued for the session `id`, and
    /// empties its queue; nothing if there is no such session.
    pub fn take_outbound(&mut self, id: usize) -> (r: Vec<ActionMessage>)
        requires
            old(self).wf(),
        ensures
            final(self).wf(),
            final(self)@.counter == old(self)@.counter,
            final(self)@.last_clipboard == old(self)@.last_clipboard,
            final(self)@.last_message == old(self)@.last_message,
            final(self)@.sessions.len() == old(self)@.sessions.len(),
            forall|k: int|
                0 <= k < old(self)@.sessions.len() ==> #[trigger] final(self)@.sessions[k] == (if old(
                    self,
                )@.sessions[k].id == id {
                    SessionModel { outbound: Seq::empty(), ..old(self)@.sessions[k] }
                } else {
                    old(self)@.sessions[k]
                }),
            forall|k: int|
                0 <= k < old(self)@.sessions.len() && #[trigger] old(self)@.sessions[k].id == id
                    ==> r@.map_values(|m: ActionMessage| m@) == old(self)@.sessions[k].outbound,
            !has_session(old(self)@, id) ==> r@.len() == 0,
    {
        let ghost before = self@;
        let mut i: usize = 0;
        while i < self.connections.len()
            invariant
                i <= self.connections@.len(),
                self.connections@.len() == before.sessions.len(),
                self@ == before,
                before == old(self)@,
                registry_wf(before),
                forall|k: int| 0 <= k < i ==> #[trigger] before.sessions[k].id != id,
            decreases self.connections@.len() - i,
        {
            if self.connections[i].id == id {
                let ghost s0 = self@.sessions;
                let mut r: Vec<ActionMessage> = Vec::new();
                std::mem::swap(&mut r, &mut self.connections[i].outbound);
                proof {
                    assert(self@.counter == before.counter);
                    assert(self@.last_clipboard == before.last_clipboard);
                    assert(self@.last_message == before.last_message);
                    assert(self@.sessions[i as int].outbound =~= Seq::<MessageModel>::empty());
                    assert forall|k: int| 0 <= k < before.sessions.len() implies #[trigger] self@.sessions[k] == (if before.sessions[k].id == id {
                        SessionModel { outbound: Seq::empty(), ..before.sessions[k] }
                    } else {
                        before.sessions[k]
                    }) by {
                        if k != i && before.sessions[k].id == id {
                            if k < i {
                            } else {
                                assert(before.sessions[i as int].id < before.sessions[k].id);
                            }
                        }
                    }
                    assert(r@.map_values(|m: ActionMessage| m@) == before.sessions[i as int].outbound);
                    assert forall|k: int|
                        0 <= k < before.sessions.len() && #[trigger] before.sessions[k].id == id
                            implies k == i by {
                        if k < i {
                            assert(before.sessions[k].id < before.sessions[i as int].id);
                        } else if k > i {
                            assert(before.sessions[i as int].id < before.sessions[k].id);
                        }
                    }
                    assert forall|a: int| 0 <= a < self@.sessions.len() implies #[trigger] self@.sessions[a].id == before.sessions[a].id by {}
                    assert(registry_wf(self@));
                }
                return r;
            }
            i = i + 1;
        }
        assert(self@.sessions =~= before.sessions);
        Vec::new()
    }

    /// The clipboard content that the registry last accepted.
    pub fn last_clipboard_content(&self) -> (r: &ClipboardContent)
        ensures
            r@ == self@.last_clipboard,
    {
        &self.last_clipboard_content
    }

    /// Sends `message` to every session but `sender`.
    ///
    /// A clipboard content equal to the last one is dropped whole; a new one
    /// replaces the cache. With no session connected, a message that is not
    /// a clipboard content is kept: every device that connects from then on
    /// is sent it, until another such broadcast replaces it; it is never
    /// cleared.
    /// Returns the text of a clipboard text that was newly accepted, on which
    /// the relay runs its clipboard actions.
    pub fn broadcast(&mut self, message: &ActionMessage, sender: Option<usize>) -> (fresh: Option<
        String,
    >)
        requires
            old(self).wf(),
        ensures
            final(self).wf(),
            final(self)@ == broadcast_spec(old(self)@, message@, sender),
            match fresh {
                Some(t) => fresh_text(old(self)@, message@) == Some(t@),
                None => fresh_text(old(self)@, message@).is_none(),
            },
    {
        let ghost before = self@;
        let mut fresh: Option<String> = None;
        match message {
            ActionMessage::Clipboard(content) => {
                if content.same_as(&self.last_clipboard_content) {
                    return None;
                }
                self.last_clipboard_content = content.duplicate();
                match content {
                    ClipboardContent::Text(t) => {
                        fresh = Some(t.clone());
                    },
                    _ => {},
                }
            },
            ActionMessage::Action(_) => {},
        }
        if self.connections.len() == 0 {
            match message {
                ActionMessage::Clipboard(_) => {},
                ActionMessage::Action(_) => {
                    self.last_message = Some(message.duplicate());
                },
            }
            proof {
                assert(self@.sessions =~= before.sessions);
            }
            return fresh;
        }
        let ghost mid = self@;
        let mut i: usize = 0;
        while i < self.connections.len()
            invariant
                i <= self.connections@.len(),
                self.connections@.len() == mid.sessions.len(),
                self@.counter == mid.counter,
                self@.last_clipboard == mid.last_clipboard,
                self@.last_message == mid.last_message,
                forall|k: int|
                    0 <= k < i ==> #[trigger] self@.sessions[k] == deliver_all(
                        mid.sessions,
                        message@,
                        sender,
                    )[k],
                forall|k: int| i <= k < self@.sessions.len() ==> #[trigger] self@.sessions[k] == mid.sessions[k],
            decreases self.connections@.len() - i,
        {
            let to = match sender {
                Some(s) => s != self.connections[i].id,
                None => true,
            };
            if to {
                let ghost s0 = self@.sessions;
                self.connections[i].outbound.push(message.duplicate());
                proof {
                    assert(self@.sessions[i as int].outbound =~= s0[i as int].outbound.push(message@));
                    assert forall|k: int| 0 <= k < self@.sessions.len() && k != i implies #[trigger] self@.sessions[k] == s0[k] by {}
                }
            }
            i = i + 1;
        }
        proof {
            assert(self@.sessions =~= deliver_all(mid.sessions, message@, sender));
        }
        fresh
    }
}

/// A broadcast that is not a repeated clipboard, with sessions connected,
/// queues the message once for every session but the sender, queues nothing
/// for the sender, and keeps the sessions and their order.
pub proof fn lemma_broadcast_excludes_sender(r: RegistryModel, m: MessageModel, sender: usize)
    requires
        registry_wf(r),
        !is_repeat(r, m),
        r.sessions.len() > 0,
    ensures
        broadcast_spec(r, m, Some(sender)).sessions.len() == r.sessions.len(),
        forall|i: int|
            0 <= i < r.sessions.len() ==> {
                let after = #[trigger] broadcast_spec(r, m, Some(sender)).sessions[i];
                &&& after.id == r.sessions[i].id
                &&& r.sessions[i].id == sender ==> after.outbound == r.sessions[i].outbound
                &&& r.sessions[i].id != sender ==> after.outbound == r.sessions[i].outbound.push(m)
            },
{
}

/// Broadcasting the same clipboard content twice in a row delivers it at
/// most once: the second call changes nothing, and the cache holds the
/// content after both. When the content was new and sessions are connected,
/// the first call queues it for every session but its sender.
pub proof fn lemma_clipboard_dedup(
    r: RegistryModel,
    c: ContentModel,
    first_sender: Option<usize>,
    second_sender: Option<usize>,
)
    ensures
        ({
            let m = MessageModel::Clipboard(c);
            let r1 = broadcast_spec(r, m, first_sender);
            let r2 = broadcast_spec(r1, m, second_sender);
            &&& r2 == r1
            &&& r1.last_clipboard == c
            &&& r2.last_clipboard == c
            &&& r1.last_message == r.last_message
            &&& r.last_clipboard == c ==> r1 == r
            &&& (r.last_clipboard != c && r.sessions.len() > 0) ==> r1.sessions == deliver_all(
                r.sessions,
                m,
                first_sender,
            )
            &&& (r.last_clipboard != c && r.sessions.len() == 0) ==> r1.sessions == r.sessions
        }),
{
}

/// An action broadcast while no session is connected is kept, and a device
/// that connects next finds it as the single first message of its queue,
/// followed by the cached clipboard content unless that is the default. The
/// kept message stays: later devices are sent it too, until another
/// broadcast with no session connected replaces it.
pub proof fn lemma_late_join_caching(
    r: RegistryModel,
    a: crate::message::ActionModel,
    sender: Option<usize>,
    name: Seq<char>,
    actions: Seq<(Seq<char>, usize)>,
    at: u64,
)
    requires
        r.sessions.len() == 0,
    ensures
        ({
            let m = MessageModel::Action(a);
            let r1 = broadcast_spec(r, m, sender);
            let r2 = connect_spec(r1, name, actions, at);
            let joined = r2.sessions[r2.sessions.len() - 1];
            &&& r1.last_message == Some(m)
            &&& r1.sessions == r.sessions
            &&& r1.last_clipboard == r.last_clipboard
            &&& r2.sessions.len() == 1
            &&& joined.id == r.counter
            &&& joined.outbound[0] == m
            &&& r.last_clipboard == default_clipboard() ==> joined.outbound == seq![m]
            &&& r.last_clipboard != default_clipboard() ==> joined.outbound == seq![
                m,
                MessageModel::Clipboard(r.last_clipboard),
            ]
        }),
{
    let m = MessageModel::Action(a);
    let r1 = broadcast_spec(r, m, sender);
    assert(welcome_queue(r1) =~= (if r.last_clipboard == default_clipboard() {
        seq![m]
    } else {
        seq![m, MessageModel::Clipboard(r.last_clipboard)]
    }));
}

/// An image copied on one device reaches every other connected device once,
/// and not the device it came from; the cache then holds the image, and the
/// message travels as a binary frame of the image tag and the raw bytes.
pub proof fn lemma_image_shared(r: RegistryModel, bytes: Seq<u8>, sender: usize)
    requires
        registry_wf(r),
        r.sessions.len() > 0,
        r.last_clipboard != ContentModel::Image(bytes),
    ensures
        ({
            let m = MessageModel::Clipboard(ContentModel::Image(bytes));
            let r1 = broadcast_spec(r, m, Some(sender));
            &&& r1.last_clipboard == ContentModel::Image(bytes)
            &&& r1.sessions.len() == r.sessions.len()
            &&& forall|i: int|
                0 <= i < r.sessions.len() ==> {
                    let after = #[trigger] r1.sessions[i];
                    &&& after.id == r.sessions[i].id
                    &&& r.sessions[i].id == sender ==> after.outbound == r.sessions[i].outbound
                    &&& r.sessions[i].id != sender ==> after.outbound == r.sessions[i].outbound.push(m)
                }
            &&& crate::codec::binary_frame_of(m) == Some(seq![crate::codec::BINARY_IMAGE_MESSAGE_TYPE] + bytes)
        }),
{
}

proof fn lemma_filter_remove_dropped(s: Seq<SessionModel>, i: int, f: spec_fn(SessionModel) -> bool)
    requires
        0 <= i < s.len(),
        !f(s[i]),
    ensures
        s.remove(i).filter(f) == s.filter(f),
    decreases s.len(),
{
    if i == s.len() - 1 {
        assert(s.remove(i) =~= s.drop_last());
        reveal(Seq::filter);
        assert(s.filter(f) == s.drop_last().filter(f));
    } else {
        lemma_filter_remove_dropped(s.drop_last(), i, f);
        assert(s.remove(i).drop_last() =~= s.drop_last().remove(i));
        assert(s.remove(i).last() == s.last());
        reveal(Seq::filter);
    }
}

proof fn lemma_filter_all_kept(s: Seq<SessionModel>, f: spec_fn(SessionModel) -> bool)
    requires
        forall|k: int| 0 <= k < s.len() ==> f(#[trigger] s[k]),
    ensures
        s.filter(f) == s,
    decreases s.len(),
{
    reveal(Seq::filter);
    if s.len() > 0 {
        lemma_filter_all_kept(s.drop_last(), f);
        assert(s.drop_last().push(s.last()) =~= s);
    } else {
        assert(s.filter(f) =~= s);
    }
}

} // verus!
