//! Errors of the domain layer of the credential store, and how they map to
//! the errors that clients see.

use vstd::prelude::*;
use vstd::std_specs::convert::FromSpecImpl;
use vstd::string::StringExecFns;

use crate::codec::{json_error_detail, json_error_text};
use crate::credstore::error::{CredStoreError, CredStoreErrorModel};
use crate::credstore::models::{GetSecretResponse, SecretMetadata};

verus! {

/// Internal domain errors.
#[derive(Debug)]
pub enum DomainError {
    TypesRegistryUnavailable(String),
    PluginNotFound { vendor: String },
    InvalidPluginInstance { gts_id: String, reason: String },
    PluginUnavailable { gts_id: String, reason: String },
    NotFound,
    Internal(String),
}

/// A domain error with its texts as sequences of characters.
pub ghost enum DomainErrorModel {
    TypesRegistryUnavailable(Seq<char>),
    PluginNotFound { vendor: Seq<char> },
    InvalidPluginInstance { gts_id: Seq<char>, reason: Seq<char> },
    PluginUnavailable { gts_id: Seq<char>, reason: Seq<char> },
    NotFound,
    Internal(Seq<char>),
}

impl View for DomainError {
    type V = DomainErrorModel;

    open spec fn view(&self) -> DomainErrorModel {
        match *self {
            DomainError::TypesRegistryUnavailable(msg) => DomainErrorModel::TypesRegistryUnavailable(
                msg@,
            ),
            DomainError::PluginNotFound { vendor } => DomainErrorModel::PluginNotFound {
                vendor: vendor@,
            },
            DomainError::InvalidPluginInstance { gts_id, reason } =>
                DomainErrorModel::InvalidPluginInstance { gts_id: gts_id@, reason: reason@ },
            DomainError::PluginUnavailable { gts_id, reason } =>
                DomainErrorModel::PluginUnavailable { gts_id: gts_id@, reason: reason@ },
            DomainError::NotFound => DomainErrorModel::NotFound,
            DomainError::Internal(msg) => DomainErrorModel::Internal(msg@),
        }
    }
}

impl DomainErrorModel {
    /// The human-readable message of the error.
    pub open spec fn message(self) -> Seq<char> {
        match self {
            DomainErrorModel::TypesRegistryUnavailable(msg) => "types registry is not available: "@
                + msg,
            DomainErrorModel::PluginNotFound { vendor } => "no plugin instances found for vendor '"@
                + vendor + "'"@,
            DomainErrorModel::InvalidPluginInstance { gts_id, reason } =>
                "invalid plugin instance content for '"@ + gts_id + "': "@ + reason,
            DomainErrorModel::PluginUnavailable { gts_id, reason } => "plugin not available for '"@
                + gts_id + "': "@ + reason,
            DomainErrorModel::NotFound => "secret not found"@,
            DomainErrorModel::Internal(msg) => "internal error: "@ + msg,
        }
    }

    /// The domain error that stands for an error of the store. The store's
    /// errors carry neither vendor nor plugin id, so `unknown` stands for
    /// them.
    pub open spec fn of_store(e: CredStoreErrorModel) -> DomainErrorModel {
        match e {
            CredStoreErrorModel::NotFound => DomainErrorModel::NotFound,
            CredStoreErrorModel::NoPluginAvailable => DomainErrorModel::PluginNotFound {
                vendor: "unknown"@,
            },
            CredStoreErrorModel::ServiceUnavailable(msg) => DomainErrorModel::PluginUnavailable {
                gts_id: "unknown"@,
                reason: msg,
            },
            CredStoreErrorModel::InvalidSecretRef { reason } => DomainErrorModel::Internal(reason),
            CredStoreErrorModel::Internal(msg) => DomainErrorModel::Internal(msg),
        }
    }

    /// The error of the store that a client sees for a domain error.
    pub open spec fn to_store(self) -> CredStoreErrorModel {
        match self {
            DomainErrorModel::PluginNotFound { .. } => CredStoreErrorModel::NoPluginAvailable,
            DomainErrorModel::InvalidPluginInstance { gts_id, reason } =>
                CredStoreErrorModel::Internal(
                "invalid plugin instance '"@ + gts_id + "': "@ + reason,
            ),
            DomainErrorModel::PluginUnavailable { gts_id, reason } =>
                CredStoreErrorModel::ServiceUnavailable(
                "plugin not available for '"@ + gts_id + "': "@ + reason,
            ),
            DomainErrorModel::NotFound => CredStoreErrorModel::NotFound,
            DomainErrorModel::TypesRegistryUnavailable(reason) => CredStoreErrorModel::Internal(
                reason,
            ),
            DomainErrorModel::Internal(reason) => CredStoreErrorModel::Internal(reason),
        }
    }
}

impl DomainError {
    /// Renders the message of the error.
    pub fn to_string(&self) -> (s: String)
        ensures
            s@ == self@.message(),
    {
        match self {
            DomainError::TypesRegistryUnavailable(msg) => String::from_str(
                "types registry is not available: ",
            ).concat(msg.as_str()),
            DomainError::PluginNotFound { vendor } => String::from_str(
                "no plugin instances found for vendor '",
            ).concat(vendor.as_str()).concat("'"),
            DomainError::InvalidPluginInstance { gts_id, reason } => String::from_str(
                "invalid plugin instance content for '",
            ).concat(gts_id.as_str()).concat("': ").concat(reason.as_str()),
            DomainError::PluginUnavailable { gts_id, reason } => String::from_str(
                "plugin not available for '",
            ).concat(gts_id.as_str()).concat("': ").concat(reason.as_str()),
            DomainError::NotFound => String::from_str("secret not found"),
            DomainError::Internal(msg) => String::from_str("internal error: ").concat(msg.as_str()),
        }
    }
}

impl From<CredStoreError> for DomainError {
    fn from(e: CredStoreError) -> (r: DomainError)
        ensures
            r@ == DomainErrorModel::of_store(e@),
    {
        match e {
            CredStoreError::NotFound => DomainError::NotFound,
            CredStoreError::NoPluginAvailable => DomainError::PluginNotFound {
                vendor: String::from_str("unknown"),
            },
            CredStoreError::ServiceUnavailable(msg) => DomainError::PluginUnavailable {
                gts_id: String::from_str("unknown"),
                reason: msg,
            },
            CredStoreError::InvalidSecretRef { reason } => DomainError::Internal(reason),
            CredStoreError::Internal(msg) => DomainError::Internal(msg),
        }
    }
}

impl FromSpecImpl<CredStoreError> for DomainError {
    open spec fn obeys_from_spec() -> bool {
        false
    }

    open spec fn from_spec(v: CredStoreError) -> DomainError {
        arbitrary()
    }
}

impl From<serde_json::Error> for DomainError {
    fn from(e: serde_json::Error) -> (r: DomainError)
        ensures
            r@ == DomainErrorModel::Internal(json_error_detail(e)),
    {
        DomainError::Internal(json_error_text(&e))
    }
}

impl FromSpecImpl<serde_json::Error> for DomainError {
    open spec fn obeys_from_spec() -> bool {
        false
    }

    open spec fn from_spec(v: serde_json::Error) -> DomainError {
        arbitrary()
    }
}

impl From<DomainError> for CredStoreError {
    fn from(e: DomainError) -> (r: CredStoreError)
        ensures
            r@ == e@.to_store(),
    {
        match e {
            DomainError::PluginNotFound { .. } => CredStoreError::NoPluginAvailable,
            DomainError::InvalidPluginInstance { gts_id, reason } => CredStoreError::Internal(
                String::from_str("invalid plugin instance '").concat(gts_id.as_str()).concat(
                    "': ",
                ).concat(reason.as_str()),
            ),
            DomainError::PluginUnavailable { gts_id, reason } => CredStoreError::ServiceUnavailable(
                String::from_str("plugin not available for '").concat(gts_id.as_str()).concat(
                    "': ",
                ).concat(reason.as_str()),
            ),
            DomainError::NotFound => CredStoreError::NotFound,
            DomainError::TypesRegistryUnavailable(reason) => CredStoreError::Internal(reason),
            DomainError::Internal(reason) => CredStoreError::Internal(reason),
        }
    }
}

impl FromSpecImpl<DomainError> for CredStoreError {
    open spec fn obeys_from_spec() -> bool {
        false
    }

    open spec fn from_spec(v: DomainError) -> CredStoreError {
        arbitrary()
    }
}

/// The error that a client sees for a failed operation `op` of the domain
/// layer.
pub fn log_and_convert(op: &str, e: DomainError) -> (r: CredStoreError)
    ensures
        r@ == e@.to_store(),
{
    CredStoreError::from(e)
}

/// What a lookup answers for what the plugin found: the secret as owned by
/// the requesting tenant, or nothing where the plugin found nothing.
pub fn lookup_response(found: Option<SecretMetadata>) -> (r: Option<GetSecretResponse>)
    ensures
        r is Some <==> found is Some,
        r matches Some(resp) ==> {
            &&& resp.value == found->0.value
            &&& resp.owner_tenant_id == found->0.owner_tenant_id
            &&& resp.sharing == found->0.sharing
            &&& !resp.is_inherited
        },
{
    match found {
        Some(meta) => Some(GetSecretResponse::from_metadata(meta)),
        None => None,
    }
}

} // verus!
