use mysti::agent::{
    AgentAction, AgentEvent, AgentState, FIRST_PING_DELAY_MS, PING_INTERVAL_MS, PONG_TIMEOUT_MS,
    RECONNECT_DELAY_MS, RETRY_INTERVAL_MS,
};
use mysti::codec::FrameKind;

fn connected_at(now: u64) -> AgentState {
    let (s, a) = AgentState::new().step(AgentEvent::Start, now);
    assert_eq!(a, AgentAction::Connect);
    let (s, a) = s.step(AgentEvent::ConnectSucceeded, now);
    assert_eq!(a, AgentAction::Nothing);
    s
}

#[test]
fn reconnect_liveness() {
    let (mut s, a) = AgentState::new().step(AgentEvent::Start, 0);
    assert_eq!(a, AgentAction::Connect);
    let mut now = 0u64;
    let mut warnings = 0;
    for attempt in 0..30u64 {
        let (next, a) = s.step(AgentEvent::ConnectFailed, now);
        if a == AgentAction::WarnConnectFailed {
            warnings += 1;
            assert_eq!(attempt % 12, 0);
        }
        s = next;
        assert_eq!(s.next_deadline(), Some(now + RETRY_INTERVAL_MS));
        let (same, a) = s.step(AgentEvent::Tick, now + RETRY_INTERVAL_MS - 1);
        assert_eq!((same, a), (s, AgentAction::Nothing));
        now += RETRY_INTERVAL_MS;
        let (next, a) = s.step(AgentEvent::Tick, now);
        assert_eq!(a, AgentAction::Connect);
        s = next;
    }
    assert_eq!(warnings, 3);
    let (s, a) = s.step(AgentEvent::Cancelled, now);
    assert_eq!((s, a), (AgentState::ShuttingDown, AgentAction::Stop));
    assert!(s.is_shut_down());
    assert_eq!(s.next_deadline(), None);
    for e in [AgentEvent::Tick, AgentEvent::ConnectFailed, AgentEvent::Start] {
        assert_eq!(s.step(e, now + 1), (AgentState::ShuttingDown, AgentAction::Nothing));
    }
}

#[test]
fn keepalive_timeout() {
    let t0 = 1_000;
    let s = connected_at(t0);
    let first_ping = t0 + FIRST_PING_DELAY_MS;
    assert_eq!(s.next_deadline(), Some(first_ping));
    let (s, a) = s.step(AgentEvent::Tick, first_ping);
    assert_eq!(a, AgentAction::SendPing);
    assert_eq!(s.next_deadline(), Some(first_ping + PONG_TIMEOUT_MS));
    let end = first_ping + PONG_TIMEOUT_MS;
    assert!(end - t0 <= PING_INTERVAL_MS + PONG_TIMEOUT_MS);
    let (s, a) = s.step(AgentEvent::Tick, end);
    assert_eq!(a, AgentAction::CloseTransport);
    assert_eq!(s.next_deadline(), Some(end + RECONNECT_DELAY_MS));
    let (_, a) = s.step(AgentEvent::Tick, end + RECONNECT_DELAY_MS);
    assert_eq!(a, AgentAction::Connect);
}

#[test]
fn answered_ping_keeps_the_connection() {
    let s = connected_at(0);
    let (s, a) = s.step(AgentEvent::Tick, FIRST_PING_DELAY_MS);
    assert_eq!(a, AgentAction::SendPing);
    let (s, a) = s.step(AgentEvent::FrameReceived(FrameKind::Pong), FIRST_PING_DELAY_MS + 10);
    assert_eq!(a, AgentAction::Nothing);
    assert_eq!(s.next_deadline(), Some(FIRST_PING_DELAY_MS + PING_INTERVAL_MS));
    let (_, a) = s.step(AgentEvent::Tick, FIRST_PING_DELAY_MS + PONG_TIMEOUT_MS);
    assert_eq!(a, AgentAction::Nothing);
}

#[test]
fn application_frame_during_pong_wait_is_delivered() {
    let s = connected_at(0);
    let (s, _) = s.step(AgentEvent::Tick, FIRST_PING_DELAY_MS);
    let (s, a) = s.step(AgentEvent::FrameReceived(FrameKind::Text), FIRST_PING_DELAY_MS + 1);
    assert_eq!(a, AgentAction::Deliver);
    assert!(matches!(s, AgentState::Connected { pong_deadline: None, .. }));
}

#[test]
fn close_frame_and_failures_end_the_connection() {
    for e in [
        AgentEvent::FrameReceived(FrameKind::Close),
        AgentEvent::SendFailed,
        AgentEvent::ReceiveFailed,
    ] {
        let (s, a) = connected_at(0).step(e, 7);
        assert_eq!(a, AgentAction::CloseTransport);
        assert_eq!(s, AgentState::Disconnected { reconnect_at: Some(7 + RECONNECT_DELAY_MS) });
    }
}

#[test]
fn frames_and_outgoing_messages_while_connected() {
    let s = connected_at(0);
    assert_eq!(s.step(AgentEvent::OutgoingMessage, 1).1, AgentAction::SendMessage);
    assert_eq!(s.step(AgentEvent::FrameReceived(FrameKind::Binary), 1).1, AgentAction::Deliver);
    assert_eq!(s.step(AgentEvent::FrameReceived(FrameKind::Pong), 1), (s, AgentAction::Nothing));
    assert_eq!(s.step(AgentEvent::FrameReceived(FrameKind::Ping), 1), (s, AgentAction::Nothing));
}

#[test]
fn cancellation_while_connected_stops() {
    let s = connected_at(0);
    assert_eq!(
        s.step(AgentEvent::Cancelled, 3),
        (AgentState::ShuttingDown, AgentAction::Stop)
    );
}

#[test]
fn deadlines_saturate_at_the_largest_time() {
    let (s, _) = AgentState::new().step(AgentEvent::Start, 0);
    let (s, _) = s.step(AgentEvent::ConnectFailed, u64::MAX - 1);
    assert_eq!(s.next_deadline(), Some(u64::MAX));
}
