use mysti::codec::{decode_binary, encode_binary, BINARY_IMAGE_MESSAGE_TYPE};
use mysti::message::{Action, ActionMessage, ClipboardContent};
use mysti::registry::Manager;

fn connect(m: &mut Manager, name: &str) -> usize {
    m.add_connection(&name.to_string(), vec![("shutdown".to_string(), 0)], 1_700_000_000)
}

fn text(s: &str) -> ActionMessage {
    ActionMessage::Clipboard(ClipboardContent::Text(s.to_string()))
}

fn action(name: &str) -> ActionMessage {
    ActionMessage::Action(Action { action: name.to_string(), args: vec![] })
}

#[test]
fn identifiers_are_assigned_in_order_and_never_reused() {
    let mut m = Manager::new();
    let a = connect(&mut m, "a");
    let b = connect(&mut m, "b");
    m.remove_connection(b);
    let c = connect(&mut m, "c");
    assert_eq!((a, b, c), (0, 1, 2));
    assert_eq!(m.client_count(), 2);
    let ids: Vec<usize> = m.list_clients().iter().map(|i| i.id).collect();
    assert_eq!(ids, vec![0, 2]);
}

#[test]
fn fresh_session_gets_no_default_clipboard() {
    let mut m = Manager::new();
    let a = connect(&mut m, "a");
    assert!(m.take_outbound(a).is_empty());
}

#[test]
fn broadcast_excludes_sender() {
    let mut m = Manager::new();
    let a = connect(&mut m, "a");
    let b = connect(&mut m, "b");
    let c = connect(&mut m, "c");
    let msg = action("lock");
    m.broadcast(&msg, Some(b));
    assert_eq!(m.take_outbound(a), vec![msg.clone()]);
    assert_eq!(m.take_outbound(b), vec![]);
    assert_eq!(m.take_outbound(c), vec![msg]);
}

#[test]
fn broadcast_without_sender_reaches_everyone() {
    let mut m = Manager::new();
    let a = connect(&mut m, "a");
    let b = connect(&mut m, "b");
    m.broadcast(&action("mute"), None);
    assert_eq!(m.take_outbound(a).len(), 1);
    assert_eq!(m.take_outbound(b).len(), 1);
}

#[test]
fn clipboard_dedup() {
    let mut m = Manager::new();
    let a = connect(&mut m, "a");
    let b = connect(&mut m, "b");
    let first = m.broadcast(&text("x"), Some(a));
    let second = m.broadcast(&text("x"), Some(a));
    assert_eq!(first, Some("x".to_string()));
    assert_eq!(second, None);
    assert_eq!(m.take_outbound(b), vec![text("x")]);
    assert_eq!(m.take_outbound(a), vec![]);
    assert_eq!(*m.last_clipboard_content(), ClipboardContent::Text("x".to_string()));
}

#[test]
fn late_join_caching() {
    let mut m = Manager::new();
    m.broadcast(&action("shutdown"), None);
    let a = connect(&mut m, "a");
    assert_eq!(m.take_outbound(a), vec![action("shutdown")]);
}

#[test]
fn late_join_gets_cached_action_then_clipboard() {
    let mut m = Manager::new();
    m.broadcast(&text("copied"), None);
    m.broadcast(&action("shutdown"), None);
    let a = connect(&mut m, "a");
    assert_eq!(m.take_outbound(a), vec![action("shutdown"), text("copied")]);
    let b = connect(&mut m, "b");
    assert_eq!(m.take_outbound(b), vec![action("shutdown"), text("copied")]);
}

#[test]
fn clipboard_is_never_kept_as_pending_message() {
    let mut m = Manager::new();
    m.broadcast(&text("only"), None);
    let a = connect(&mut m, "a");
    assert_eq!(m.take_outbound(a), vec![text("only")]);
}

#[test]
fn send_to_specific_targets_one_session() {
    let mut m = Manager::new();
    let a = connect(&mut m, "a");
    let b = connect(&mut m, "b");
    m.send_to_specific(b, &action("beep"));
    m.send_to_specific(99, &action("beep"));
    assert_eq!(m.take_outbound(a), vec![]);
    assert_eq!(m.take_outbound(b), vec![action("beep")]);
    assert_eq!(m.take_outbound(99), vec![]);
}

#[test]
fn outbound_queue_keeps_order() {
    let mut m = Manager::new();
    let a = connect(&mut m, "a");
    m.send_to_specific(a, &action("one"));
    m.broadcast(&action("two"), None);
    m.send_to_specific(a, &action("three"));
    assert_eq!(m.take_outbound(a), vec![action("one"), action("two"), action("three")]);
}

#[test]
fn disconnect_is_idempotent() {
    let mut m = Manager::new();
    let a = connect(&mut m, "a");
    m.remove_connection(a);
    m.remove_connection(a);
    assert_eq!(m.client_count(), 0);
}

#[test]
fn listing_reports_declared_devices() {
    let mut m = Manager::new();
    m.add_connection(&"laptop".to_string(), vec![("open".to_string(), 1)], 42);
    let list = m.list_clients();
    assert_eq!(list.len(), 1);
    assert_eq!(list[0].name, "laptop");
    assert_eq!(list[0].connected_at, 42);
    assert_eq!(list[0].supported_actions, vec![("open".to_string(), 1)]);
}

#[test]
fn three_devices_share_an_image() {
    let mut m = Manager::new();
    let d1 = connect(&mut m, "one");
    let d2 = connect(&mut m, "two");
    let d3 = connect(&mut m, "three");
    let image = vec![0xFF, 0xD8, 0xFF, 0xE0, 0x00, 0x10];
    let msg = ActionMessage::Clipboard(ClipboardContent::Image(image.clone()));
    m.broadcast(&msg, Some(d1));
    assert!(m.take_outbound(d1).is_empty());
    for d in [d2, d3] {
        let queued = m.take_outbound(d);
        assert_eq!(queued.len(), 1);
        let frame = encode_binary(&queued[0]).unwrap();
        assert_eq!(frame[0], BINARY_IMAGE_MESSAGE_TYPE);
        assert_eq!(&frame[1..], &image[..]);
        assert_eq!(decode_binary(&frame), Ok(msg.clone()));
    }
}
