//! WebSocket messages and the bridge that filters and converts them.

pub mod message;
pub mod stream;
