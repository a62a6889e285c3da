//! The device-side connection agent: it establishes the transport to the
//! relay, keeps it alive with pings and re-establishes it after any failure.
//!
//! The agent is a transition function from state, event and the current time
//! (in milliseconds) to the next state and the action to perform. The
//! transport layer performs the action, reports what happened as the next
//! event, and wakes the agent with `Tick` at `next_deadline`.
use vstd::prelude::*;

use crate::codec::FrameKind;

verus! {

/// Pause between two failed connection attempts.
pub const RETRY_INTERVAL_MS: u64 = 5000;

/// Pause between the end of a connection and the next attempt.
pub const RECONNECT_DELAY_MS: u64 = 5000;

/// Delay of the first ping after connecting, so that it does not race the
/// relay's first messages.
pub const FIRST_PING_DELAY_MS: u64 = 5000;

/// Period of the pings.
pub const PING_INTERVAL_MS: u64 = 60000;

/// How long the agent waits for a pong, and for a ping to be written.
pub const PONG_TIMEOUT_MS: u64 = 5000;

/// A failed attempt is reported once in this many.
pub const WARN_EVERY: u64 = 12;

/// Where the agent stands.
#[derive(Debug, Clone, Copy, PartialEq, Eq, Structural)]
pub enum AgentState {
    /// No transport. `reconnect_at` is when the next attempt starts; `None`
    /// before the agent has started.
    Disconnected { reconnect_at: Option<u64> },
    /// Establishing the transport after `failures` failed attempts; while
    /// `retry_at` holds a time the agent waits for it, else an attempt is
    /// under way.
    Connecting { failures: u64, retry_at: Option<u64> },
    /// The transport is up. A ping is due at `next_ping_at`; while
    /// `pong_deadline` holds a time a ping is waiting for its pong.
    Connected { next_ping_at: u64, pong_deadline: Option<u64> },
    /// Cancelled: the agent does nothing more.
    ShuttingDown,
}

/// What happened, as the transport layer reports it.
#[derive(Debug, Clone, Copy, PartialEq, Eq, Structural)]
pub enum AgentEvent {
    /// The agent is asked to run.
    Start,
    /// Time has passed.
    Tick,
    /// The transport handshake succeeded.
    ConnectSucceeded,
    /// The transport handshake failed.
    ConnectFailed,
    /// The application has a message to send.
    OutgoingMessage,
    /// Writing a message or a ping failed or timed out.
    SendFailed,
    /// A frame of the given kind arrived.
    FrameReceived(FrameKind),
    /// Reading from the transport failed, or the stream ended.
    ReceiveFailed,
    /// Cancellation was signalled.
    Cancelled,
}

/// What the transport layer is to do.
#[derive(Debug, Clone, Copy, PartialEq, Eq, Structural)]
pub enum AgentAction {
    Nothing,
    /// Start a connection attempt.
    Connect,
    /// The attempt failed; report it in the log, then wait for the retry.
    WarnConnectFailed,
    /// Write the application's message to the transport.
    SendMessage,
    /// Write a ping, giving up after `PONG_TIMEOUT_MS`.
    SendPing,
    /// Decode the frame that arrived and hand the message to the application;
    /// a frame that does not decode is dropped with a warning.
    Deliver,
    /// Drop the transport; a new attempt follows after the reconnect delay.
    CloseTransport,
    /// Stop every task of the agent.
    Stop,
}

/// `now` plus `delay`, held at the largest time.
pub open spec fn later(now: u64, delay: u64) -> u64 {
    if now + delay > u64::MAX {
        u64::MAX
    } else {
        (now + delay) as u64
    }
}

/// Whether a failed attempt after `failures` earlier ones is reported.
pub open spec fn warns(failures: u64) -> bool {
    failures % WARN_EVERY == 0
}

/// The state after the connection ends at `now`.
pub open spec fn ended(now: u64) -> AgentState {
    AgentState::Disconnected { reconnect_at: Some(later(now, RECONNECT_DELAY_MS)) }
}

/// The agent's transition: the next state and the action for `event` at `now`.
pub open spec fn step_spec(s: AgentState, event: AgentEvent, now: u64) -> (AgentState, AgentAction) {
    match (s, event) {
        (AgentState::ShuttingDown, _) => (AgentState::ShuttingDown, AgentAction::Nothing),
        (_, AgentEvent::Cancelled) => (AgentState::ShuttingDown, AgentAction::Stop),
        (AgentState::Disconnected { reconnect_at: None }, AgentEvent::Start) => (
            AgentState::Connecting { failures: 0, retry_at: None },
            AgentAction::Connect,
        ),
        (AgentState::Disconnected { reconnect_at: Some(t) }, AgentEvent::Tick) => if now >= t {
            (AgentState::Connecting { failures: 0, retry_at: None }, AgentAction::Connect)
        } else {
            (s, AgentAction::Nothing)
        },
        (AgentState::Connecting { failures, retry_at: None }, AgentEvent::ConnectSucceeded) => (
            AgentState::Connected {
                next_ping_at: later(now, FIRST_PING_DELAY_MS),
                pong_deadline: None,
            },
            AgentAction::Nothing,
        ),
        (AgentState::Connecting { failures, retry_at: None }, AgentEvent::ConnectFailed) => (
            AgentState::Connecting {
                failures: if failures == u64::MAX {
                    failures
                } else {
                    (failures + 1) as u64
                },
                retry_at: Some(later(now, RETRY_INTERVAL_MS)),
            },
            if warns(failures) {
                AgentAction::WarnConnectFailed
            } else {
                AgentAction::Nothing
            },
        ),
        (AgentState::Connecting { failures, retry_at: Some(t) }, AgentEvent::Tick) => if now >= t {
            (AgentState::Connecting { failures, retry_at: None }, AgentAction::Connect)
        } else {
            (s, AgentAction::Nothing)
        },
        (AgentState::Connected { next_ping_at, pong_deadline }, _) => connected_step(
            next_ping_at,
            pong_deadline,
            event,
            now,
        ),
        _ => (s, AgentAction::Nothing),
    }
}

/// The transition of a connected agent.
pub open spec fn connected_step(
    next_ping_at: u64,
    pong_deadline: Option<u64>,
    event: AgentEvent,
    now: u64,
) -> (AgentState, AgentAction) {
    let s = AgentState::Connected { next_ping_at, pong_deadline };
    match event {
        AgentEvent::OutgoingMessage => (s, AgentAction::SendMessage),
        AgentEvent::SendFailed => (ended(now), AgentAction::CloseTransport),
        AgentEvent::ReceiveFailed => (ended(now), AgentAction::CloseTransport),
        AgentEvent::FrameReceived(FrameKind::Close) => (ended(now), AgentAction::CloseTransport),
        AgentEvent::FrameReceived(FrameKind::Pong) => (
            AgentState::Connected { next_ping_at, pong_deadline: None },
            AgentAction::Nothing,
        ),
        AgentEvent::FrameReceived(FrameKind::Ping) => (s, AgentAction::Nothing),
        AgentEvent::FrameReceived(_) => (
            AgentState::Connected { next_ping_at, pong_deadline: None },
            AgentAction::Deliver,
        ),
        AgentEvent::Tick => match pong_deadline {
            Some(d) => if now >= d {
                (ended(now), AgentAction::CloseTransport)
            } else {
                (s, AgentAction::Nothing)
            },
            None => if now >= next_ping_at {
                (
                    AgentState::Connected {
                        next_ping_at: later(now, PING_INTERVAL_MS),
                        pong_deadline: Some(later(now, PONG_TIMEOUT_MS)),
                    },
                    AgentAction::SendPing,
                )
            } else {
                (s, AgentAction::Nothing)
            },
        },
        _ => (s, AgentAction::Nothing),
    }
}

/// When the agent wants the next `Tick`, if it waits for a time.
pub open spec fn next_deadline_spec(s: AgentState) -> Option<u64> {
    match s {
        AgentState::Disconnected { reconnect_at } => reconnect_at,
        AgentState::Connecting { retry_at, .. } => retry_at,
        AgentState::Connected { next_ping_at, pong_deadline } => match pong_deadline {
            Some(d) => Some(d),
            None => Some(next_ping_at),
        },
        AgentState::ShuttingDown => None,
    }
}

/// The state and time after `n` rounds of a failed attempt followed by the
/// wake-up at the retry time.
pub open spec fn retry_rounds(s: AgentState, now: u64, n: nat) -> (AgentState, u64)
    decreases n,
{
    if n == 0 {
        (s, now)
    } else {
        let s1 = step_spec(s, AgentEvent::ConnectFailed, now).0;
        let t = match next_deadline_spec(s1) {
            Some(t) => t,
            None => now,
        };
        retry_rounds(step_spec(s1, AgentEvent::Tick, t).0, t, (n - 1) as nat)
    }
}

/// A failed attempt schedules the next one exactly one retry interval later
/// and reports the failure once in `WARN_EVERY` attempts; waking at that time
/// starts the next attempt. However many attempts fail, the agent keeps
/// trying, one retry interval apart.
pub proof fn lemma_retry_forever(failures: u64, now: u64, n: nat)
    ensures
        ({
            let s = AgentState::Connecting { failures, retry_at: None };
            let (s1, a1) = step_spec(s, AgentEvent::ConnectFailed, now);
            &&& s1 matches AgentState::Connecting { retry_at: Some(t), .. } && t == later(
                now,
                RETRY_INTERVAL_MS,
            )
            &&& next_deadline_spec(s1) == Some(later(now, RETRY_INTERVAL_MS))
            &&& (a1 == AgentAction::WarnConnectFailed) == warns(failures)
            &&& a1 == AgentAction::WarnConnectFailed || a1 == AgentAction::Nothing
            &&& forall|t: u64|
                now <= t < later(now, RETRY_INTERVAL_MS) ==> #[trigger] step_spec(
                    s1,
                    AgentEvent::Tick,
                    t,
                ) == (s1, AgentAction::Nothing)
            &&& step_spec(s1, AgentEvent::Tick, later(now, RETRY_INTERVAL_MS)).1
                == AgentAction::Connect
        }),
        retry_rounds(AgentState::Connecting { failures, retry_at: None }, now, n).0 matches AgentState::Connecting { retry_at: None, .. },
        now + n * RETRY_INTERVAL_MS <= u64::MAX ==> retry_rounds(
            AgentState::Connecting { failures, retry_at: None },
            now,
            n,
        ).1 == now + n * RETRY_INTERVAL_MS,
    decreases n,
{
    if n > 0 {
        let s = AgentState::Connecting { failures, retry_at: None };
        let s1 = step_spec(s, AgentEvent::ConnectFailed, now).0;
        let t = later(now, RETRY_INTERVAL_MS);
        let next = if failures == u64::MAX {
            failures
        } else {
            (failures + 1) as u64
        };
        assert(step_spec(s1, AgentEvent::Tick, t).0 == AgentState::Connecting {
            failures: next,
            retry_at: None,
        });
        lemma_retry_forever(next, t, (n - 1) as nat);
        if now + n * RETRY_INTERVAL_MS <= u64::MAX {
            assert(now + n * RETRY_INTERVAL_MS == now + RETRY_INTERVAL_MS + (n - 1)
                * RETRY_INTERVAL_MS) by (nonlinear_arith);
            assert(t + (n - 1) * RETRY_INTERVAL_MS <= u64::MAX);
        }
    }
}

/// Cancellation stops the agent from any state at once, and a stopped agent
/// stays stopped: it starts no attempt, asks for no wake-up and does nothing.
pub proof fn lemma_cancellation_stops(s: AgentState, e: AgentEvent, now: u64)
    ensures
        step_spec(s, AgentEvent::Cancelled, now).0 == AgentState::ShuttingDown,
        !(s is ShuttingDown) ==> step_spec(s, AgentEvent::Cancelled, now).1 == AgentAction::Stop,
        step_spec(AgentState::ShuttingDown, e, now) == (
            AgentState::ShuttingDown,
            AgentAction::Nothing,
        ),
        next_deadline_spec(AgentState::ShuttingDown).is_none(),
{
}

/// Pings are due `FIRST_PING_DELAY_MS` after connecting, which is within one
/// ping interval, and one ping interval after each ping.
pub proof fn lemma_ping_schedule(failures: u64, now: u64, pong_deadline: u64, next_ping_at: u64)
    requires
        now + PING_INTERVAL_MS <= u64::MAX,
    ensures
        step_spec(
            AgentState::Connecting { failures, retry_at: None },
            AgentEvent::ConnectSucceeded,
            now,
        ) == (
            AgentState::Connected {
                next_ping_at: (now + FIRST_PING_DELAY_MS) as u64,
                pong_deadline: None,
            },
            AgentAction::Nothing,
        ),
        FIRST_PING_DELAY_MS <= PING_INTERVAL_MS,
        now >= next_ping_at ==> (step_spec(
            AgentState::Connected { next_ping_at, pong_deadline: None },
            AgentEvent::Tick,
            now,
        ).0 matches AgentState::Connected { next_ping_at: p, .. } && p == now + PING_INTERVAL_MS),
        step_spec(
            AgentState::Connected { next_ping_at, pong_deadline: Some(pong_deadline) },
            AgentEvent::FrameReceived(FrameKind::Pong),
            now,
        ) == (AgentState::Connected { next_ping_at, pong_deadline: None }, AgentAction::Nothing),
{
}

/// A peer that never answers a ping loses the connection one pong timeout
/// after the ping is due; the agent then waits the reconnect delay and starts
/// a new attempt. With the schedule above, a silent peer is dropped within a
/// ping interval plus a pong timeout of connecting or of the last answered
/// ping.
pub proof fn lemma_keepalive_timeout(p: u64)
    requires
        p + PING_INTERVAL_MS + RECONNECT_DELAY_MS <= u64::MAX,
    ensures
        ({
            let s = AgentState::Connected { next_ping_at: p, pong_deadline: None };
            let (s1, a1) = step_spec(s, AgentEvent::Tick, p);
            let end = (p + PONG_TIMEOUT_MS) as u64;
            &&& a1 == AgentAction::SendPing
            &&& next_deadline_spec(s1) == Some(end)
            &&& forall|t: u64|
                p <= t < end ==> #[trigger] step_spec(s1, AgentEvent::Tick, t) == (
                    s1,
                    AgentAction::Nothing,
                )
            &&& step_spec(s1, AgentEvent::Tick, end) == (ended(end), AgentAction::CloseTransport)
            &&& next_deadline_spec(ended(end)) == Some((end + RECONNECT_DELAY_MS) as u64)
            &&& step_spec(ended(end), AgentEvent::Tick, (end + RECONNECT_DELAY_MS) as u64) == (
                AgentState::Connecting { failures: 0, retry_at: None },
                AgentAction::Connect,
            )
            &&& end <= p + PING_INTERVAL_MS + PONG_TIMEOUT_MS
        }),
{
}

fn after(now: u64, delay: u64) -> (r: u64)
    ensures
        r == later(now, delay),
{
    now.saturating_add(delay)
}

impl AgentState {
    /// The state of an agent that has not started.
    pub fn new() -> (r: AgentState)
        ensures
            r == (AgentState::Disconnected { reconnect_at: None }),
    {
        AgentState::Disconnected { reconnect_at: None }
    }

    /// Whether the agent has stopped for good.
    pub fn is_shut_down(&self) -> (r: bool)
        ensures
            r == (*self is ShuttingDown),
    {
        match self {
            AgentState::ShuttingDown => true,
            _ => false,
        }
    }

    /// When the agent wants to be woken with `Tick`.
    pub fn next_deadline(&self) -> (r: Option<u64>)
        ensures
            r == next_deadline_spec(*self),
    {
        match self {
            AgentState::Disconnected { reconnect_at } => *reconnect_at,
            AgentState::Connecting { retry_at, .. } => *retry_at,
            AgentState::Connected { next_ping_at, pong_deadline } => match pong_deadline {
                Some(d) => Some(*d),
                None => Some(*next_ping_at),
            },
            AgentState::ShuttingDown => None,
        }
    }

    /// The next state and the action for `event` at `now`.
    pub fn step(&self, event: AgentEvent, now: u64) -> (r: (AgentState, AgentAction))
        ensures
            r == step_spec(*self, event, now),
    {
        match (*self, event) {
            (AgentState::ShuttingDown, _) => (AgentState::ShuttingDown, AgentAction::Nothing),
            (_, AgentEvent::Cancelled) => (AgentState::ShuttingDown, AgentAction::Stop),
            (AgentState::Disconnected { reconnect_at: None }, AgentEvent::Start) => (
                AgentState::Connecting { failures: 0, retry_at: None },
                AgentAction::Connect,
            ),
            (AgentState::Disconnected { reconnect_at: Some(t) }, AgentEvent::Tick) => {
                if now >= t {
                    (AgentState::Connecting { failures: 0, retry_at: None }, AgentAction::Connect)
                } else {
                    (*self, AgentAction::Nothing)
                }
            },
            (AgentState::Connecting { failures, retry_at: None }, AgentEvent::ConnectSucceeded) => (
                AgentState::Connected {
                    next_ping_at: after(now, FIRST_PING_DELAY_MS),
                    pong_deadline: None,
                },
                AgentAction::Nothing,
            ),
            (AgentState::Connecting { failures, retry_at: None }, AgentEvent::ConnectFailed) => {
                let next = if failures == u64::MAX {
                    failures
                } else {
                    failures + 1
                };
                let action = if failures % WARN_EVERY == 0 {
                    AgentAction::WarnConnectFailed
                } else {
                    AgentAction::Nothing
                };
                (
                    AgentState::Connecting {
                        failures: next,
                        retry_at: Some(after(now, RETRY_INTERVAL_MS)),
                    },
                    action,
                )
            },
            (AgentState::Connecting { failures, retry_at: Some(t) }, AgentEvent::Tick) => {
                if now >= t {
                    (AgentState::Connecting { failures, retry_at: None }, AgentAction::Connect)
                } else {
                    (*self, AgentAction::Nothing)
                }
            },
            (AgentState::Connected { next_ping_at, pong_deadline }, _) => {
                Self::step_connected(next_ping_at, pong_deadline, event, now)
            },
            _ => (*self, AgentAction::Nothing),
        }
    }

    fn step_connected(
        next_ping_at: u64,
        pong_deadline: Option<u64>,
        event: AgentEvent,
        now: u64,
    ) -> (r: (AgentState, AgentAction))
        ensures
            r == connected_step(next_ping_at, pong_deadline, event, now),
    {
        let s = AgentState::Connected { next_ping_at, pong_deadline };
        let closed = AgentState::Disconnected {
            reconnect_at: Some(after(now, RECONNECT_DELAY_MS)),
        };
        match event {
            AgentEvent::OutgoingMessage => (s, AgentAction::SendMessage),
            AgentEvent::SendFailed => (closed, AgentAction::CloseTransport),
            AgentEvent::ReceiveFailed => (closed, AgentAction::CloseTransport),
            AgentEvent::FrameReceived(FrameKind::Close) => (closed, AgentAction::CloseTransport),
            AgentEvent::FrameReceived(FrameKind::Pong) => (
                AgentState::Connected { next_ping_at, pong_deadline: None },
                AgentAction::Nothing,
            ),
            AgentEvent::FrameReceived(FrameKind::Ping) => (s, AgentAction::Nothing),
            AgentEvent::FrameReceived(_) => (
                AgentState::Connected { next_ping_at, pong_deadline: None },
                AgentAction::Deliver,
            ),
            AgentEvent::Tick => match pong_deadline {
                Some(d) => {
                    if now >= d {
                        (closed, AgentAction::CloseTransport)
                    } else {
                        (s, AgentAction::Nothing)
                    }
                },
                None => {
                    if now >= next_ping_at {
                        (
                            AgentState::Connected {
                                next_ping_at: after(now, PING_INTERVAL_MS),
                                pong_deadline: Some(after(now, PONG_TIMEOUT_MS)),
                            },
                            AgentAction::SendPing,
                        )
                    } else {
                        (s, AgentAction::Nothing)
                    }
                },
            },
            _ => (s, AgentAction::Nothing),
        }
    }
}

} // verus!
