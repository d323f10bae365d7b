//! The credential store: secret references, secret values, the errors of
//! the store and of its domain layer, and the static store.
//!
//! Finding the plugin that answers a lookup (through the types registry and
//! the client hub of the hosting platform) is the host's part and stands
//! nowhere in this crate; what is decided once a plugin has answered stands
//! in `domain`.

pub mod config;
pub mod domain;
pub mod error;
pub mod models;
pub mod plugin;
