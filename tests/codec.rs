use mysti::codec::{decode_binary, encode_binary, is_binary_message, DecodeError};
use mysti::message::{Action, ActionMessage, ClipboardContent};

#[test]
fn image_round_trip() {
    let msg = ActionMessage::Clipboard(ClipboardContent::Image(vec![1, 2, 3]));
    assert!(is_binary_message(&msg));
    let frame = encode_binary(&msg).unwrap();
    assert_eq!(frame, vec![3, 1, 2, 3]);
    assert_eq!(decode_binary(&frame), Ok(msg));
}

#[test]
fn empty_image_round_trip() {
    let msg = ActionMessage::Clipboard(ClipboardContent::Image(vec![]));
    let frame = encode_binary(&msg).unwrap();
    assert_eq!(frame, vec![3]);
    assert_eq!(decode_binary(&frame), Ok(msg));
}

#[test]
fn other_messages_travel_as_text() {
    let text = ActionMessage::Clipboard(ClipboardContent::Text("hi".to_string()));
    let empty = ActionMessage::Clipboard(ClipboardContent::Empty);
    let action = ActionMessage::Action(Action { action: "a".to_string(), args: vec![] });
    for m in [text, empty, action] {
        assert!(!is_binary_message(&m));
        assert_eq!(encode_binary(&m), None);
    }
}

#[test]
fn empty_binary_frame_is_rejected() {
    assert_eq!(decode_binary(&[]), Err(DecodeError::EmptyFrame));
}

#[test]
fn unknown_binary_tag_is_rejected() {
    assert_eq!(decode_binary(&[7, 1, 2]), Err(DecodeError::UnknownType(7)));
}

#[test]
fn structural_equality() {
    let a = ActionMessage::Action(Action { action: "x".to_string(), args: vec!["1".to_string()] });
    let b = ActionMessage::Action(Action { action: "x".to_string(), args: vec!["1".to_string()] });
    let c = ActionMessage::Action(Action { action: "x".to_string(), args: vec!["2".to_string()] });
    assert_eq!(a, b);
    assert_ne!(a, c);
    assert_ne!(
        ClipboardContent::Image(vec![1]),
        ClipboardContent::Text("\u{1}".to_string())
    );
}
