//! The device side: its configuration and the multiplexer that turns each
//! merged event into the one thing to do about it.
use vstd::prelude::*;

use crate::action::{
    command_outcome, command_view, ActionDefinition, CommandError, CommandLine, Platform,
};
use crate::message::{strings_view, ActionMessage, ClipboardContent};
use crate::text::{chars_of, decimal, decimal_chars, string_of};

verus! {

/// A device's configuration.
#[derive(Debug)]
pub struct ClientConfig {
    pub server_host: String,
    pub token: String,
    pub wol_shortcut: Option<String>,
    pub actions: Vec<ActionDefinition>,
}

/// Whether some action name in `actions` appears twice.
pub open spec fn has_duplicate_name(actions: Seq<ActionDefinition>) -> bool {
    exists|i: int, j: int|
        0 <= i < j < actions.len() && #[trigger] actions[i].name@ == #[trigger] actions[j].name@
}

/// The first action name, in order of second appearance, that is defined
/// twice, if any.
pub fn find_duplicate_action(actions: &Vec<ActionDefinition>) -> (r: Option<String>)
    ensures
        r.is_some() == has_duplicate_name(actions@),
        r matches Some(n) ==> exists|i: int, j: int|
            0 <= i < j < actions@.len() && #[trigger] actions@[i].name@ == n@
                && #[trigger] actions@[j].name@ == n@,
{
    let mut j: usize = 0;
    while j < actions.len()
        invariant
            j <= actions@.len(),
            forall|a: int, b: int|
                0 <= a < b < j ==> #[trigger] actions@[a].name@ != #[trigger] actions@[b].name@,
        decreases actions@.len() - j,
    {
        let mut i: usize = 0;
        while i < j
            invariant
                i <= j < actions@.len(),
                forall|a: int| 0 <= a < i ==> #[trigger] actions@[a].name@ != actions@[j as int].name@,
            decreases j - i,
        {
            if actions[i].name.eq(&actions[j].name) {
                return Some(actions[j].name.clone());
            }
            i = i + 1;
        }
        j = j + 1;
    }
    None
}

impl ClientConfig {
    /// Checks that no two actions share a name; the error names a repeated one.
    pub fn check_unique_actions(&self) -> (r: Result<(), String>)
        ensures
            r.is_ok() == !has_duplicate_name(self.actions@),
    {
        match find_duplicate_action(&self.actions) {
            Some(n) => Err(n),
            None => Ok(()),
        }
    }
}

/// The actions offered on `platform`, in order: those with a command for it,
/// with the number of arguments each needs.
pub open spec fn offered(defs: Seq<ActionDefinition>, platform: Platform) -> Seq<(Seq<char>, nat)>
    decreases defs.len(),
{
    if defs.len() == 0 {
        Seq::empty()
    } else {
        let rest = offered(defs.drop_last(), platform);
        let d = defs.last();
        if d.command_for(platform).is_some() {
            rest.push((d.name@, d.required_args_spec(platform)))
        } else {
            rest
        }
    }
}

/// `name:count` pairs joined by commas.
pub open spec fn pairs_text(ps: Seq<(Seq<char>, nat)>) -> Seq<char>
    decreases ps.len(),
{
    if ps.len() == 0 {
        Seq::empty()
    } else {
        let p = ps.last();
        let item = p.0 + seq![':'] + decimal(p.1);
        if ps.len() == 1 {
            item
        } else {
            pairs_text(ps.drop_last()) + seq![','] + item
        }
    }
}

fn push_all(out: &mut Vec<char>, s: &Vec<char>)
    ensures
        final(out)@ == old(out)@ + s@,
{
    let ghost start = out@;
    let mut i: usize = 0;
    while i < s.len()
        invariant
            i <= s@.len(),
            out@ == start + s@.take(i as int),
        decreases s@.len() - i,
    {
        out.push(s[i]);
        i = i + 1;
        assert(out@ =~= start + s@.take(i as int));
    }
    assert(s@.take(s@.len() as int) =~= s@);
}

/// What a device announces it can do on `platform`: `name:count` for each
/// action with a command there, joined by commas.
pub fn supported_actions_query(actions: &Vec<ActionDefinition>, platform: Platform) -> (r: String)
    ensures
        r@ == pairs_text(offered(actions@, platform)),
{
    let mut out: Vec<char> = Vec::new();
    let mut count: usize = 0;
    let mut i: usize = 0;
    while i < actions.len()
        invariant
            i <= actions@.len(),
            count <= i,
            count == offered(actions@.take(i as int), platform).len(),
            out@ == pairs_text(offered(actions@.take(i as int), platform)),
        decreases actions@.len() - i,
    {
        proof {
            assert(actions@.take(i + 1).drop_last() =~= actions@.take(i as int));
        }
        let d = &actions[i];
        if d.is_available(platform) {
            let ghost before = out@;
            if count > 0 {
                out.push(',');
            }
            let name = chars_of(d.name.as_str());
            push_all(&mut out, &name);
            out.push(':');
            let n = d.required_args(platform);
            let digits = decimal_chars(n);
            push_all(&mut out, &digits);
            proof {
                let item = d.name@ + seq![':'] + decimal(n as nat);
                let prev = offered(actions@.take(i as int), platform);
                let p = (d.name@, d.required_args_spec(platform));
                assert(offered(actions@.take(i + 1), platform) == prev.push(p));
                assert(prev.push(p).drop_last() =~= prev);
                assert(prev.push(p).last() == p);
                if count > 0 {
                    assert(out@ =~= before + seq![','] + item);
                } else {
                    assert(out@ =~= item);
                }
            }
            count = count + 1;
        }
        i = i + 1;
    }
    proof {
        assert(actions@.take(actions@.len() as int) =~= actions@);
    }
    string_of(&out)
}


/// An event captured on this device.
#[derive(Debug)]
pub enum LocalEvent {
    ClipboardEvent(ClipboardContent),
}

impl From<ClipboardContent> for LocalEvent {
    fn from(content: ClipboardContent) -> (r: LocalEvent) {
        LocalEvent::ClipboardEvent(content)
    }
}

impl vstd::std_specs::convert::FromSpecImpl<ClipboardContent> for LocalEvent {
    open spec fn obeys_from_spec() -> bool {
        true
    }

    open spec fn from_spec(content: ClipboardContent) -> LocalEvent {
        LocalEvent::ClipboardEvent(content)
    }
}

/// One event of the merged processing loop.
#[derive(Debug)]
pub enum Event {
    /// Captured on this device.
    LocalEvent(LocalEvent),
    /// Received from the relay.
    RemoteEvent(ActionMessage),
    /// To be sent to the relay.
    OutgoingEvent(ActionMessage),
}

/// What the processing loop does about one event.
#[derive(Debug)]
pub enum Step {
    /// Put this event back at the end of the merged queue.
    Requeue(Event),
    /// Hand this message to the connection agent for sending.
    Transmit(ActionMessage),
    /// Write this content to the system clipboard.
    ApplyClipboard(ClipboardContent),
    /// Start this command line.
    RunCommand(CommandLine),
    /// The named action could not be turned into a command line.
    CommandFailed(String, CommandError),
    /// No action of this name is configured; it is reported and ignored.
    UnknownAction(String),
}

/// The index of the first definition named `name`, if any.
pub open spec fn first_named(actions: Seq<ActionDefinition>, name: Seq<char>) -> Option<int> {
    if exists|i: int| 0 <= i < actions.len() && #[trigger] actions[i].name@ == name {
        Some(
            choose|i: int|
                0 <= i < actions.len() && #[trigger] actions[i].name@ == name && forall|k: int|
                    0 <= k < i ==> #[trigger] actions[k].name@ != name,
        )
    } else {
        None
    }
}

/// What a remote action request comes to against the table `actions`.
pub open spec fn action_step_ok(
    actions: Seq<ActionDefinition>,
    platform: Platform,
    name: Seq<char>,
    args: Seq<Seq<char>>,
    s: Step,
) -> bool {
    match first_named(actions, name) {
        None => s matches Step::UnknownAction(n) && n@ == name,
        Some(i) => {
            let d = actions[i];
            match s {
                Step::RunCommand(cl) => command_outcome(
                    d,
                    platform,
                    args,
                    command_view(Ok(cl)),
                ),
                Step::CommandFailed(n, e) => n@ == name && command_outcome(
                    d,
                    platform,
                    args,
                    Err(e),
                ),
                _ => false,
            }
        },
    }
}

/// The device's processing loop: its configuration and the platform it runs on.
pub struct MystiClient {
    config: ClientConfig,
    platform: Platform,
}

impl MystiClient {
    pub fn new(config: ClientConfig, platform: Platform) -> (r: MystiClient)
        ensures
            r.actions() == config.actions@,
            r.platform() == platform,
    {
        MystiClient { config, platform }
    }

    pub closed spec fn actions(&self) -> Seq<ActionDefinition> {
        self.config.actions@
    }

    pub closed spec fn platform(&self) -> Platform {
        self.platform
    }

    /// The configuration the client runs with.
    pub fn config(&self) -> (r: &ClientConfig)
        ensures
            r.actions@ == self.actions(),
    {
        &self.config
    }

    /// A clipboard change on this device becomes a message for the relay.
    fn on_local_clipboard_change(&self, content: ClipboardContent) -> (r: Event)
        ensures
            r matches Event::OutgoingEvent(ActionMessage::Clipboard(c)) && c@ == content@,
    {
        Event::OutgoingEvent(ActionMessage::Clipboard(content))
    }

    fn process_local_event(&self, event: LocalEvent) -> (r: Event)
        ensures
            event matches LocalEvent::ClipboardEvent(content) ==> (
            r matches Event::OutgoingEvent(ActionMessage::Clipboard(c)) && c@ == content@),
    {
        match event {
            LocalEvent::ClipboardEvent(content) => self.on_local_clipboard_change(content),
        }
    }

    /// What a message from the relay asks of this device: clipboard content
    /// to apply, or the command of the first configured action of that name.
    pub fn process_action_message(&self, message: &ActionMessage) -> (r: Step)
        ensures
            message matches ActionMessage::Clipboard(c) ==> (r matches Step::ApplyClipboard(a)
                && a@ == c@),
            message matches ActionMessage::Action(a) ==> action_step_ok(
                self.actions(),
                self.platform(),
                a.action@,
                strings_view(a.args@),
                r,
            ),
    {
        match message {
            ActionMessage::Clipboard(content) => Step::ApplyClipboard(content.duplicate()),
            ActionMessage::Action(action) => {
                match ActionDefinition::find_by_name(&action.action, &self.config.actions) {
                    Some(definition) => {
                        let ghost i = first_named(self.actions(), action.action@).unwrap();
                        proof {
                            let j = choose|j: int|
                                0 <= j < self.actions().len()
                                    && #[trigger] self.actions()[j].name@ == action.action@
                                    && forall|k: int|
                                    0 <= k < j ==> #[trigger] self.actions()[k].name@
                                        != action.action@;
                            assert(i == j);
                        }
                        match definition.to_command(&action.args, self.platform) {
                            Ok(cl) => Step::RunCommand(cl),
                            Err(e) => Step::CommandFailed(action.action.clone(), e),
                        }
                    },
                    None => Step::UnknownAction(action.action.clone()),
                }
            },
        }
    }

    /// What to do about one event of the merged loop. A local capture goes
    /// back on the queue as an outgoing message; an outgoing message goes to
    /// the connection agent; a remote message is handled as above.
    pub fn process_event(&self, event: Event) -> (r: Step)
        ensures
            event matches Event::LocalEvent(LocalEvent::ClipboardEvent(c)) ==> (r matches Step::Requeue(
                Event::OutgoingEvent(ActionMessage::Clipboard(o)),
            ) && o@ == c@),
            event matches Event::OutgoingEvent(m) ==> (r matches Step::Transmit(t) && t@ == m@),
            event matches Event::RemoteEvent(ActionMessage::Clipboard(c)) ==> (
            r matches Step::ApplyClipboard(a) && a@ == c@),
            event matches Event::RemoteEvent(ActionMessage::Action(a)) ==> action_step_ok(
                self.actions(),
                self.platform(),
                a.action@,
                strings_view(a.args@),
                r,
            ),
    {
        match event {
            Event::LocalEvent(local) => Step::Requeue(self.process_local_event(local)),
            Event::OutgoingEvent(m) => Step::Transmit(m),
            Event::RemoteEvent(m) => self.process_action_message(&m),
        }
    }
}

} // verus!
