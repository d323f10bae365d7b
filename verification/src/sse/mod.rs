//! Server-sent events: the incremental parser, the wire format and the
//! dispatch decision.

pub mod detect;
pub mod event;
pub mod invariance;
pub mod parse;
pub mod parser;
pub mod roundtrip;
pub mod stream;
pub mod text;
pub mod wire;
