//! Frame Translator: a pure, stateless mapping between the two WebSocket
//! message representations used on the caller-facing and backend-facing
//! sockets. Translation is lossless for every legal variant; the raw-frame
//! sentinel on the wire side is a protocol violation and is rejected.

use vstd::prelude::*;

verus! {

/// A WebSocket close frame: a numeric status code and the UTF-8 bytes of
/// the reason text. Both survive translation exactly.
#[derive(Clone, Debug, PartialEq, Eq)]
pub struct CloseFrame {
    pub code: u16,
    pub reason: Vec<u8>,
}

/// Message representation on the caller-facing socket. Text payloads are
/// carried as their UTF-8 bytes.
#[derive(Clone, Debug, PartialEq, Eq)]
pub enum UiMessage {
    Text(Vec<u8>),
    Binary(Vec<u8>),
    Ping(Vec<u8>),
    Pong(Vec<u8>),
    Close(Option<CloseFrame>),
}

/// Message representation on the backend-facing socket. It has one extra
/// variant, `Frame`, a raw-frame sentinel that a well-formed peer never
/// delivers; receiving it fails the relay direction.
#[derive(Clone, Debug, PartialEq, Eq)]
pub enum WireMessage {
    Text(Vec<u8>),
    Binary(Vec<u8>),
    Ping(Vec<u8>),
    Pong(Vec<u8>),
    Close(Option<CloseFrame>),
    Frame(Vec<u8>),
}

/// A message that has no equivalent in the other representation.
#[derive(Clone, Copy, Debug, PartialEq, Eq)]
pub enum ProtocolError {
    UnsupportedFrame,
}

/// What translating a caller-side message to the wire side yields.
pub open spec fn ui_to_wire_spec(m: UiMessage) -> WireMessage {
    match m {
        UiMessage::Text(b) => WireMessage::Text(b),
        UiMessage::Binary(b) => WireMessage::Binary(b),
        UiMessage::Ping(b) => WireMessage::Ping(b),
        UiMessage::Pong(b) => WireMessage::Pong(b),
        UiMessage::Close(c) => WireMessage::Close(c),
    }
}

/// What translating a wire-side message to the caller side yields: the
/// mirror of `ui_to_wire_spec`, except that the raw-frame sentinel is
/// rejected.
pub open spec fn wire_to_ui_spec(m: WireMessage) -> Result<UiMessage, ProtocolError> {
    match m {
        WireMessage::Text(b) => Ok(UiMessage::Text(b)),
        WireMessage::Binary(b) => Ok(UiMessage::Binary(b)),
        WireMessage::Ping(b) => Ok(UiMessage::Ping(b)),
        WireMessage::Pong(b) => Ok(UiMessage::Pong(b)),
        WireMessage::Close(c) => Ok(UiMessage::Close(c)),
        WireMessage::Frame(_) => Err(ProtocolError::UnsupportedFrame),
    }
}

/// Translates a caller-side message for the backend-facing socket.
/// Total: every caller-side variant has a wire equivalent.
pub fn ui_to_wire(m: UiMessage) -> (r: WireMessage)
    ensures
        r == ui_to_wire_spec(m),
{
    match m {
        UiMessage::Text(b) => WireMessage::Text(b),
        UiMessage::Binary(b) => WireMessage::Binary(b),
        UiMessage::Ping(b) => WireMessage::Ping(b),
        UiMessage::Pong(b) => WireMessage::Pong(b),
        UiMessage::Close(c) => WireMessage::Close(c),
    }
}

/// Translates a wire-side message for the caller-facing socket. Fails
/// exactly on the raw-frame sentinel, which a well-formed peer never sends.
pub fn wire_to_ui(m: WireMessage) -> (r: Result<UiMessage, ProtocolError>)
    ensures
        r == wire_to_ui_spec(m),
        r is Err <==> m is Frame,
{
    match m {
        WireMessage::Text(b) => Ok(UiMessage::Text(b)),
        WireMessage::Binary(b) => Ok(UiMessage::Binary(b)),
        WireMessage::Ping(b) => Ok(UiMessage::Ping(b)),
        WireMessage::Pong(b) => Ok(UiMessage::Pong(b)),
        WireMessage::Close(c) => Ok(UiMessage::Close(c)),
        WireMessage::Frame(_) => Err(ProtocolError::UnsupportedFrame),
    }
}

/// Law: translating a caller-side message to the wire and back yields the
/// original message, for every variant, payload, close code and reason.
pub proof fn lemma_round_trip_from_ui(m: UiMessage)
    ensures
        wire_to_ui_spec(ui_to_wire_spec(m)) == Ok::<UiMessage, ProtocolError>(m),
{
}

/// Law: translating a legal wire-side message to the caller side and back
/// yields the original message; only the raw-frame sentinel has no round
/// trip, because it is rejected on the way in.
pub proof fn lemma_round_trip_from_wire(m: WireMessage)
    requires
        !(m is Frame),
    ensures
        wire_to_ui_spec(m) is Ok,
        ui_to_wire_spec(wire_to_ui_spec(m)->Ok_0) == m,
{
}

} // verus!
