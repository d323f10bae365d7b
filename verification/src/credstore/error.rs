//! Errors of credential store operations.

use vstd::prelude::*;
use vstd::string::StringExecFns;

verus! {

/// Errors that can occur during credential store operations.
#[derive(Debug)]
pub enum CredStoreError {
    InvalidSecretRef { reason: String },
    NotFound,
    NoPluginAvailable,
    ServiceUnavailable(String),
    Internal(String),
}

/// A credential store error with its texts as sequences of characters.
pub ghost enum CredStoreErrorModel {
    InvalidSecretRef { reason: Seq<char> },
    NotFound,
    NoPluginAvailable,
    ServiceUnavailable(Seq<char>),
    Internal(Seq<char>),
}

impl View for CredStoreError {
    type V = CredStoreErrorModel;

    open spec fn view(&self) -> CredStoreErrorModel {
        match *self {
            CredStoreError::InvalidSecretRef { reason } => CredStoreErrorModel::InvalidSecretRef {
                reason: reason@,
            },
            CredStoreError::NotFound => CredStoreErrorModel::NotFound,
            CredStoreError::NoPluginAvailable => CredStoreErrorModel::NoPluginAvailable,
            CredStoreError::ServiceUnavailable(msg) => CredStoreErrorModel::ServiceUnavailable(msg@),
            CredStoreError::Internal(msg) => CredStoreErrorModel::Internal(msg@),
        }
    }
}

impl CredStoreErrorModel {
    /// The human-readable message of the error.
    pub open spec fn message(self) -> Seq<char> {
        match self {
            CredStoreErrorModel::InvalidSecretRef { reason } => "invalid secret reference: "@
                + reason,
            CredStoreErrorModel::NotFound => "secret not found"@,
            CredStoreErrorModel::NoPluginAvailable => "no plugin available"@,
            CredStoreErrorModel::ServiceUnavailable(msg) => "service unavailable: "@ + msg,
            CredStoreErrorModel::Internal(msg) => "internal error: "@ + msg,
        }
    }
}

impl CredStoreError {
    /// The error for a secret reference that is not valid, with the reason.
    #[must_use]
    pub fn invalid_ref(reason: &str) -> (e: CredStoreError)
        ensures
            e@ == (CredStoreErrorModel::InvalidSecretRef { reason: reason@ }),
    {
        CredStoreError::InvalidSecretRef { reason: String::from_str(reason) }
    }

    /// The error for a backend that cannot be reached.
    #[must_use]
    pub fn service_unavailable(msg: &str) -> (e: CredStoreError)
        ensures
            e@ == CredStoreErrorModel::ServiceUnavailable(msg@),
    {
        CredStoreError::ServiceUnavailable(String::from_str(msg))
    }

    /// The error for a failure inside the store.
    #[must_use]
    pub fn internal(msg: &str) -> (e: CredStoreError)
        ensures
            e@ == CredStoreErrorModel::Internal(msg@),
    {
        CredStoreError::Internal(String::from_str(msg))
    }

    /// Renders the message of the error.
    pub fn to_string(&self) -> (s: String)
        ensures
            s@ == self@.message(),
    {
        match self {
            CredStoreError::InvalidSecretRef { reason } => String::from_str(
                "invalid secret reference: ",
            ).concat(reason.as_str()),
            CredStoreError::NotFound => String::from_str("secret not found"),
            CredStoreError::NoPluginAvailable => String::from_str("no plugin available"),
            CredStoreError::ServiceUnavailable(msg) => String::from_str(
                "service unavailable: ",
            ).concat(msg.as_str()),
            CredStoreError::Internal(msg) => String::from_str("internal error: ").concat(
                msg.as_str(),
            ),
        }
    }
}

} // verus!
