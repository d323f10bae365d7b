//! Secret references and secret values.

use uuid::Uuid;
use vstd::prelude::*;
use vstd::std_specs::convert::FromSpecImpl;
use vstd::string::{StrSliceExecFns, StringExecFns};
use vstd::utf8::encode_utf8;

use crate::chars::to_chars;
use crate::credstore::error::CredStoreError;

verus! {

/// Tenant identifier.
pub type TenantId = Uuid;

/// Owner identifier: the subject that owns a secret.
pub type OwnerId = Uuid;

/// True for the characters a secret reference may hold: `[a-zA-Z0-9_-]`.
pub open spec fn is_ref_char(c: char) -> bool {
    ('a' <= c <= 'z') || ('A' <= c <= 'Z') || ('0' <= c <= '9') || c == '_' || c == '-'
}

/// Why `s` is no secret reference, or `None` where it is one. A reference
/// is not empty, takes at most 255 bytes and holds nothing but
/// `[a-zA-Z0-9_-]`; colons are left out so that keys cannot collide in the
/// backend's storage.
pub open spec fn ref_fault(s: Seq<char>) -> Option<Seq<char>> {
    if s.len() == 0 {
        Some("must not be empty"@)
    } else if encode_utf8(s).len() > 255 {
        Some("exceeds maximum length of 255 characters"@)
    } else if !(forall|i: int| 0 <= i < s.len() ==> is_ref_char(#[trigger] s[i])) {
        Some("contains invalid characters; only [a-zA-Z0-9_-] are allowed"@)
    } else {
        None
    }
}

/// A validated secret reference key.
#[derive(PartialEq, Eq, Hash, Debug)]
pub struct SecretRef(String);

impl Clone for SecretRef {
    fn clone(&self) -> (copy: SecretRef)
        ensures
            copy@ == self@,
    {
        proof {
            use_type_invariant(self);
        }
        SecretRef(self.0.clone())
    }
}

impl View for SecretRef {
    type V = Seq<char>;

    closed spec fn view(&self) -> Seq<char> {
        self.0@
    }
}

impl SecretRef {
    #[verifier::type_invariant]
    spec fn valid(self) -> bool {
        ref_fault(self.0@) is None
    }

    /// Creates a new `SecretRef` after validating the format.
    ///
    /// Returns `CredStoreError::InvalidSecretRef` with the reason if the
    /// input is empty, exceeds 255 bytes, or contains characters outside
    /// `[a-zA-Z0-9_-]`.
    #[must_use]
    pub fn new(value: &str) -> (r: Result<SecretRef, CredStoreError>)
        ensures
            r is Ok <==> ref_fault(value@) is None,
            r matches Ok(key) ==> key@ == value@,
            r matches Err(e) ==> ref_fault(value@) == Some(e@->reason) && e@ is InvalidSecretRef,
    {
        if value.is_empty() {
            return Err(CredStoreError::invalid_ref("must not be empty"));
        }
        if value.as_bytes().len() > 255 {
            return Err(CredStoreError::invalid_ref("exceeds maximum length of 255 characters"));
        }
        let chars = to_chars(value);
        let n = chars.len();
        let mut i: usize = 0;
        while i < n
            invariant
                i <= n,
                n == chars@.len(),
                chars@ == value@,
                value@.len() > 0,
                encode_utf8(value@).len() <= 255,
                forall|j: int| 0 <= j < i ==> is_ref_char(#[trigger] chars@[j]),
            decreases n - i,
        {
            let c = chars[i];
            let ok = ('a' <= c && c <= 'z') || ('A' <= c && c <= 'Z') || ('0' <= c && c <= '9')
                || c == '_' || c == '-';
            if !ok {
                return Err(
                    CredStoreError::invalid_ref(
                        "contains invalid characters; only [a-zA-Z0-9_-] are allowed",
                    ),
                );
            }
            i += 1;
        }
        Ok(SecretRef(String::from_str(value)))
    }

    /// The reference as text.
    pub fn as_str(&self) -> (s: &str)
        ensures
            s@ == self@,
            ref_fault(s@) is None,
    {
        proof {
            use_type_invariant(self);
        }
        self.0.as_str()
    }
}

/// A secret value: opaque bytes that no rendering ever shows.
pub struct SecretValue(Vec<u8>);

impl View for SecretValue {
    type V = Seq<u8>;

    closed spec fn view(&self) -> Seq<u8> {
        self.0@
    }
}

impl SecretValue {
    /// Creates a new `SecretValue` from raw bytes.
    #[must_use]
    pub fn new(value: Vec<u8>) -> (s: SecretValue)
        ensures
            s@ == value@,
    {
        SecretValue(value)
    }

    /// Returns a reference to the raw bytes.
    #[must_use]
    pub fn as_bytes(&self) -> (bytes: &[u8])
        ensures
            bytes@ == self@,
    {
        self.0.as_slice()
    }

    /// What stands for the value wherever it is displayed.
    pub fn to_string(&self) -> (s: String)
        ensures
            s@ == "[REDACTED]"@,
    {
        String::from_str("[REDACTED]")
    }

    /// What stands for the value wherever it is shown for debugging.
    pub fn to_debug_string(&self) -> (s: String)
        ensures
            s@ == "[REDACTED]"@,
    {
        String::from_str("[REDACTED]")
    }

    /// Overwrites every byte of the secret with zero.
    pub fn wipe(&mut self)
        ensures
            final(self)@.len() == old(self)@.len(),
            forall|i: int| 0 <= i < final(self)@.len() ==> final(self)@[i] == 0,
    {
        let n = self.0.len();
        let mut zeros: Vec<u8> = Vec::new();
        let mut i: usize = 0;
        while i < n
            invariant
                i <= n,
                zeros@.len() == i,
                forall|j: int| 0 <= j < i ==> zeros@[j] == 0,
            decreases n - i,
        {
            zeros.push(0u8);
            i += 1;
        }
        self.0 = zeros;
    }
}

impl From<Vec<u8>> for SecretValue {
    fn from(value: Vec<u8>) -> (s: SecretValue)
        ensures
            s@ == value@,
    {
        SecretValue(value)
    }
}

impl FromSpecImpl<Vec<u8>> for SecretValue {
    open spec fn obeys_from_spec() -> bool {
        false
    }

    open spec fn from_spec(v: Vec<u8>) -> SecretValue {
        arbitrary()
    }
}

impl From<String> for SecretValue {
    fn from(value: String) -> (s: SecretValue)
        ensures
            s@ == encode_utf8(value@),
    {
        SecretValue(value.as_str().as_bytes_vec())
    }
}

impl FromSpecImpl<String> for SecretValue {
    open spec fn obeys_from_spec() -> bool {
        false
    }

    open spec fn from_spec(v: String) -> SecretValue {
        arbitrary()
    }
}

impl<'a> From<&'a str> for SecretValue {
    fn from(value: &'a str) -> (s: SecretValue)
        ensures
            s@ == encode_utf8(value@),
    {
        SecretValue(value.as_bytes_vec())
    }
}

impl<'a> FromSpecImpl<&'a str> for SecretValue {
    open spec fn obeys_from_spec() -> bool {
        false
    }

    open spec fn from_spec(v: &'a str) -> SecretValue {
        arbitrary()
    }
}

/// Controls the visibility scope of a stored secret.
#[derive(Debug, Clone, Copy, PartialEq, Eq, Structural)]
pub enum SharingMode {
    /// Only the owner can access the secret.
    Private,
    /// All users within the owner's tenant can access the secret.
    Tenant,
    /// The secret is accessible across tenant boundaries.
    Shared,
}

impl Default for SharingMode {
    fn default() -> (mode: SharingMode)
        ensures
            mode == SharingMode::Tenant,
    {
        SharingMode::Tenant
    }
}

impl SharingMode {
    /// The name of the mode in configuration and on the wire.
    pub open spec fn name(self) -> Seq<char> {
        match self {
            SharingMode::Private => "private"@,
            SharingMode::Tenant => "tenant"@,
            SharingMode::Shared => "shared"@,
        }
    }

    /// The mode that `name` names, if it names one.
    pub open spec fn named(name: Seq<char>) -> Option<SharingMode> {
        if name == "private"@ {
            Some(SharingMode::Private)
        } else if name == "tenant"@ {
            Some(SharingMode::Tenant)
        } else if name == "shared"@ {
            Some(SharingMode::Shared)
        } else {
            None
        }
    }

    /// The name of the mode in configuration and on the wire.
    pub fn as_str(&self) -> (s: &'static str)
        ensures
            s@ == self.name(),
    {
        match self {
            SharingMode::Private => "private",
            SharingMode::Tenant => "tenant",
            SharingMode::Shared => "shared",
        }
    }

    /// The mode that `name` names, if it names one.
    pub fn parse(name: &str) -> (mode: Option<SharingMode>)
        ensures
            mode == SharingMode::named(name@),
    {
        let chars = to_chars(name);
        if crate::chars::is_word(chars.as_slice(), "private") {
            Some(SharingMode::Private)
        } else if crate::chars::is_word(chars.as_slice(), "tenant") {
            Some(SharingMode::Tenant)
        } else if crate::chars::is_word(chars.as_slice(), "shared") {
            Some(SharingMode::Shared)
        } else {
            None
        }
    }

    /// Every mode is found again by its name.
    pub proof fn lemma_name_round_trip(self)
        ensures
            SharingMode::named(self.name()) == Some(self),
    {
        reveal_strlit("private");
        reveal_strlit("tenant");
        reveal_strlit("shared");
        assert("tenant"@[0] == 't');
        assert("shared"@[0] == 's');
    }
}

/// Metadata returned by plugins alongside the secret value.
pub struct SecretMetadata {
    pub value: SecretValue,
    pub owner_id: OwnerId,
    pub sharing: SharingMode,
    pub owner_tenant_id: TenantId,
}

/// Response of a lookup: the secret value and access metadata.
pub struct GetSecretResponse {
    /// The decrypted secret value.
    pub value: SecretValue,
    /// The tenant that owns this secret; it may differ from the requesting
    /// tenant when the secret is inherited.
    pub owner_tenant_id: TenantId,
    /// The sharing mode of the secret.
    pub sharing: SharingMode,
    /// `true` if the secret was retrieved from an ancestor tenant, `false`
    /// if owned by the requesting tenant.
    pub is_inherited: bool,
}

impl GetSecretResponse {
    /// The response for a secret that a plugin found for the requesting
    /// tenant itself.
    pub fn from_metadata(meta: SecretMetadata) -> (resp: GetSecretResponse)
        ensures
            resp.value == meta.value,
            resp.owner_tenant_id == meta.owner_tenant_id,
            resp.sharing == meta.sharing,
            !resp.is_inherited,
    {
        GetSecretResponse {
            value: meta.value,
            owner_tenant_id: meta.owner_tenant_id,
            sharing: meta.sharing,
            is_inherited: false,
        }
    }
}

} // verus!
