//! WebSocket messages, independent of any WebSocket library.

use vstd::prelude::*;

verus! {

/// WebSocket close frame with status code and reason.
#[derive(Debug, Clone, PartialEq, Eq)]
pub struct WebSocketCloseFrame {
    /// Close status code (RFC 6455 section 7.4).
    pub code: u16,
    /// UTF-8 encoded reason string.
    pub reason: String,
}

/// A WebSocket message.
#[derive(Debug, Clone, PartialEq, Eq)]
pub enum WebSocketMessage {
    /// UTF-8 text message.
    Text(String),
    /// Binary message.
    Binary(Vec<u8>),
    /// Ping frame (keep-alive).
    Ping(Vec<u8>),
    /// Pong frame (keep-alive response).
    Pong(Vec<u8>),
    /// Close frame with optional code and reason.
    Close(Option<WebSocketCloseFrame>),
}

/// A close frame as mathematical values.
pub ghost struct CloseFrameModel {
    pub code: u16,
    pub reason: Seq<char>,
}

/// A message as mathematical values.
pub ghost enum MessageModel {
    Text(Seq<char>),
    Binary(Seq<u8>),
    Ping(Seq<u8>),
    Pong(Seq<u8>),
    Close(Option<CloseFrameModel>),
}

impl View for WebSocketCloseFrame {
    type V = CloseFrameModel;

    open spec fn view(&self) -> CloseFrameModel {
        CloseFrameModel { code: self.code, reason: self.reason@ }
    }
}

impl View for WebSocketMessage {
    type V = MessageModel;

    open spec fn view(&self) -> MessageModel {
        match *self {
            WebSocketMessage::Text(text) => MessageModel::Text(text@),
            WebSocketMessage::Binary(data) => MessageModel::Binary(data@),
            WebSocketMessage::Ping(data) => MessageModel::Ping(data@),
            WebSocketMessage::Pong(data) => MessageModel::Pong(data@),
            WebSocketMessage::Close(frame) => MessageModel::Close(
                match frame {
                    Some(f) => Some(f@),
                    None => None,
                },
            ),
        }
    }
}

impl MessageModel {
    /// True for the frames that keep a connection alive: they never reach a
    /// consumer.
    pub open spec fn is_keep_alive(self) -> bool {
        self is Ping || self is Pong
    }

    /// True for control frames: `Ping`, `Pong` and `Close`. Only `Text` and
    /// `Binary` carry application data.
    pub open spec fn is_control(self) -> bool {
        self is Ping || self is Pong || self is Close
    }
}

impl WebSocketCloseFrame {
    /// A copy of the frame.
    pub fn duplicate(&self) -> (copy: WebSocketCloseFrame)
        ensures
            copy@ == self@,
    {
        WebSocketCloseFrame { code: self.code, reason: self.reason.clone() }
    }
}

/// A copy of the bytes.
pub fn copy_bytes(data: &Vec<u8>) -> (copy: Vec<u8>)
    ensures
        copy@ == data@,
{
    let mut copy: Vec<u8> = Vec::new();
    copy.extend_from_slice(data.as_slice());
    copy
}

impl WebSocketMessage {
    /// Whether the message is a control frame.
    pub fn is_control(&self) -> (r: bool)
        ensures
            r == self@.is_control(),
    {
        match self {
            WebSocketMessage::Ping(_) | WebSocketMessage::Pong(_) | WebSocketMessage::Close(_) => true,
            _ => false,
        }
    }

    /// A copy of the message.
    pub fn duplicate(&self) -> (copy: WebSocketMessage)
        ensures
            copy@ == self@,
    {
        match self {
            WebSocketMessage::Text(text) => WebSocketMessage::Text(text.clone()),
            WebSocketMessage::Binary(data) => WebSocketMessage::Binary(copy_bytes(data)),
            WebSocketMessage::Ping(data) => WebSocketMessage::Ping(copy_bytes(data)),
            WebSocketMessage::Pong(data) => WebSocketMessage::Pong(copy_bytes(data)),
            WebSocketMessage::Close(frame) => WebSocketMessage::Close(
                match frame {
                    Some(f) => Some(f.duplicate()),
                    None => None,
                },
            ),
        }
    }
}

} // verus!
