//! Streaming normalization for a gateway: server-sent events, WebSocket
//! messages and the typed conversions both share.

pub mod auth;
pub mod body;
pub mod chars;
pub mod codec;
pub mod credstore;
pub mod error;
pub mod ids;
pub mod sse;
pub mod utf8;
pub mod ws;
