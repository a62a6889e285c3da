//! Framing of messages for the duplex transport.
//!
//! An image travels as a binary frame: one tag byte followed by the raw image
//! bytes. Every other message travels as a JSON text frame; turning that text
//! into a value and back is the transport layer's job.
use vstd::prelude::*;

use crate::message::{ActionMessage, ClipboardContent, ContentModel, MessageModel};

verus! {

/// The tag byte that starts a binary frame holding an image.
pub const BINARY_IMAGE_MESSAGE_TYPE: u8 = 3;

/// Why a binary frame could not be decoded.
#[derive(Debug, Clone, Copy, PartialEq, Eq, Structural)]
pub enum DecodeError {
    /// The frame holds no byte at all.
    EmptyFrame,
    /// The frame starts with a tag that names no known message type.
    UnknownType(u8),
}

/// The kinds of frame that the transport hands over.
#[derive(Debug, Clone, Copy, PartialEq, Eq, Structural)]
pub enum FrameKind {
    Text,
    Binary,
    Ping,
    Pong,
    Close,
}

/// The binary frame that carries `m`, or `None` where `m` travels as text.
pub open spec fn binary_frame_of(m: MessageModel) -> Option<Seq<u8>> {
    match m {
        MessageModel::Clipboard(ContentModel::Image(bytes)) => Some(
            seq![BINARY_IMAGE_MESSAGE_TYPE] + bytes,
        ),
        _ => None,
    }
}

/// The message that a binary frame holds.
pub open spec fn decode_binary_spec(frame: Seq<u8>) -> Result<MessageModel, DecodeError> {
    if frame.len() == 0 {
        Err(DecodeError::EmptyFrame)
    } else if frame[0] == BINARY_IMAGE_MESSAGE_TYPE {
        Ok(MessageModel::Clipboard(ContentModel::Image(frame.drop_first())))
    } else {
        Err(DecodeError::UnknownType(frame[0]))
    }
}

/// Whether `m` travels in a binary frame rather than as JSON text.
pub fn is_binary_message(m: &ActionMessage) -> (r: bool)
    ensures
        r == binary_frame_of(m@).is_some(),
{
    match m {
        ActionMessage::Clipboard(ClipboardContent::Image(_)) => true,
        _ => false,
    }
}

/// Encodes an image message as a binary frame; `None` for any other message,
/// which travels as JSON text.
pub fn encode_binary(m: &ActionMessage) -> (r: Option<Vec<u8>>)
    ensures
        match r {
            Some(frame) => binary_frame_of(m@) == Some(frame@),
            None => binary_frame_of(m@).is_none(),
        },
{
    match m {
        ActionMessage::Clipboard(ClipboardContent::Image(bytes)) => {
            let mut frame: Vec<u8> = Vec::new();
            frame.push(BINARY_IMAGE_MESSAGE_TYPE);
            let mut i: usize = 0;
            while i < bytes.len()
                invariant
                    i <= bytes@.len(),
                    frame@ == seq![BINARY_IMAGE_MESSAGE_TYPE] + bytes@.subrange(0, i as int),
                decreases bytes@.len() - i,
            {
                frame.push(bytes[i]);
                i = i + 1;
                assert(frame@ =~= seq![BINARY_IMAGE_MESSAGE_TYPE] + bytes@.subrange(
                    0,
                    i as int,
                ));
            }
            assert(bytes@.subrange(0, bytes@.len() as int) =~= bytes@);
            Some(frame)
        },
        _ => None,
    }
}

/// Decodes a binary frame.
pub fn decode_binary(frame: &[u8]) -> (r: Result<ActionMessage, DecodeError>)
    ensures
        match r {
            Ok(m) => decode_binary_spec(frame@) == Ok::<MessageModel, DecodeError>(m@),
            Err(e) => decode_binary_spec(frame@) == Err::<MessageModel, DecodeError>(e),
        },
{
    if frame.len() == 0 {
        return Err(DecodeError::EmptyFrame);
    }
    if frame[0] != BINARY_IMAGE_MESSAGE_TYPE {
        return Err(DecodeError::UnknownType(frame[0]));
    }
    let mut bytes: Vec<u8> = Vec::new();
    let mut i: usize = 1;
    while i < frame.len()
        invariant
            1 <= i <= frame@.len(),
            bytes@ == frame@.subrange(1, i as int),
        decreases frame@.len() - i,
    {
        bytes.push(frame[i]);
        i = i + 1;
        assert(bytes@ =~= frame@.subrange(1, i as int));
    }
    assert(bytes@ =~= frame@.drop_first());
    Ok(ActionMessage::Clipboard(ClipboardContent::Image(bytes)))
}

/// An image message comes back from its binary frame unchanged, and that
/// frame starts with the image tag; every other message has no binary frame.
pub proof fn lemma_binary_round_trip(m: MessageModel)
    ensures
        binary_frame_of(m) is Some <==> (m matches MessageModel::Clipboard(ContentModel::Image(_))),
        binary_frame_of(m) matches Some(frame) ==> {
            &&& frame.len() >= 1
            &&& frame[0] == BINARY_IMAGE_MESSAGE_TYPE
            &&& decode_binary_spec(frame) == Ok::<MessageModel, DecodeError>(m)
        },
{
    if let MessageModel::Clipboard(ContentModel::Image(bytes)) = m {
        let frame = seq![BINARY_IMAGE_MESSAGE_TYPE] + bytes;
        assert(frame.drop_first() =~= bytes);
    }
}

} // verus!
