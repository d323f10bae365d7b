//! Validation of the standard claims of a token.

pub mod claims;
pub mod validation;
