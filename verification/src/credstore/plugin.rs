//! The static credential store: secrets that the configuration lists,
//! found by tenant and key.

use vstd::prelude::*;
use vstd::string::StringExecFns;
use vstd::utf8::encode_utf8;

use crate::chars::{is_word, to_chars};
use crate::credstore::error::CredStoreError;
use crate::credstore::models::{ref_fault, OwnerId, SecretRef, SecretValue, SharingMode, TenantId};
use crate::ids::{id_text, same_id, uuid_bits, uuid_text};

verus! {

/// One secret of the configuration.
#[derive(Debug, Clone)]
pub struct SecretConfig {
    pub tenant_id: TenantId,
    pub owner_id: OwnerId,
    pub key: String,
    pub value: String,
    pub sharing: SharingMode,
}

/// The configuration of the static store: the secrets it serves.
#[derive(Debug, Clone)]
pub struct StaticCredStorePluginConfig {
    pub secrets: Vec<SecretConfig>,
}

impl Default for StaticCredStorePluginConfig {
    fn default() -> (cfg: StaticCredStorePluginConfig)
        ensures
            cfg.secrets@.len() == 0,
    {
        StaticCredStorePluginConfig { secrets: Vec::new() }
    }
}

/// A secret as the store serves it.
pub struct SecretEntry {
    pub value: SecretValue,
    pub owner_id: OwnerId,
    pub sharing: SharingMode,
    pub owner_tenant_id: TenantId,
}

/// A secret in the store, under its tenant and key.
pub struct StoredSecret {
    pub tenant_id: TenantId,
    pub key: SecretRef,
    pub entry: SecretEntry,
}

/// Why a configuration is refused.
#[derive(Debug)]
pub enum ConfigError {
    /// A key is no secret reference.
    InvalidKey(CredStoreError),
    /// A tenant has the same key twice.
    DuplicateKey { key: String, tenant_id: TenantId },
}

impl ConfigError {
    /// The human-readable message of the error.
    pub open spec fn message(self) -> Seq<char> {
        match self {
            ConfigError::InvalidKey(cause) => cause@.message(),
            ConfigError::DuplicateKey { key, tenant_id } => "duplicate secret key '"@ + key@
                + "' for tenant "@ + uuid_text(uuid_bits(tenant_id)),
        }
    }

    /// Renders the message of the error.
    pub fn to_string(&self) -> (s: String)
        ensures
            s@ == self.message(),
    {
        match self {
            ConfigError::InvalidKey(cause) => cause.to_string(),
            ConfigError::DuplicateKey { key, tenant_id } => String::from_str(
                "duplicate secret key '",
            ).concat(key.as_str()).concat("' for tenant ").concat(id_text(tenant_id).as_str()),
        }
    }
}

/// Whether `stored` is the secret that the configuration entry `cfg` asks
/// for.
pub open spec fn stores(stored: StoredSecret, cfg: SecretConfig) -> bool {
    &&& uuid_bits(stored.tenant_id) == uuid_bits(cfg.tenant_id)
    &&& stored.key@ == cfg.key@
    &&& stored.entry.value@ == encode_utf8(cfg.value@)
    &&& stored.entry.owner_id == cfg.owner_id
    &&& stored.entry.sharing == cfg.sharing
    &&& stored.entry.owner_tenant_id == cfg.tenant_id
}

/// True when the entries `i` and `j` ask for the same key of the same
/// tenant.
pub open spec fn same_slot(secrets: Seq<SecretConfig>, i: int, j: int) -> bool {
    uuid_bits(secrets[i].tenant_id) == uuid_bits(secrets[j].tenant_id) && secrets[i].key@
        == secrets[j].key@
}

/// True when entry `i` cannot be stored: its key is no secret reference, or
/// an earlier entry has the same key for the same tenant.
pub open spec fn is_refused(secrets: Seq<SecretConfig>, i: int) -> bool {
    ref_fault(secrets[i].key@) is Some || exists|j: int| 0 <= j < i && #[trigger] same_slot(
        secrets,
        i,
        j,
    )
}

/// True when every entry before `n` can be stored.
pub open spec fn accepted_up_to(secrets: Seq<SecretConfig>, n: int) -> bool {
    forall|i: int| 0 <= i < n ==> !#[trigger] is_refused(secrets, i)
}

/// The static store.
pub struct Service {
    secrets: Vec<StoredSecret>,
}

impl View for Service {
    type V = Seq<StoredSecret>;

    closed spec fn view(&self) -> Seq<StoredSecret> {
        self.secrets@
    }
}

/// True when no two of `stored` have the same key for the same tenant.
pub open spec fn distinct_slots(stored: Seq<StoredSecret>) -> bool {
    forall|i: int, j: int|
        0 <= i < j < stored.len() ==> !(uuid_bits(#[trigger] stored[i].tenant_id) == uuid_bits(
            #[trigger] stored[j].tenant_id,
        ) && stored[i].key@ == stored[j].key@)
}

/// True when `stored[i]` is the secret under `key` of the tenant `tenant`.
pub open spec fn serves(stored: Seq<StoredSecret>, i: int, tenant: u128, key: Seq<char>) -> bool {
    0 <= i < stored.len() && uuid_bits(stored[i].tenant_id) == tenant && stored[i].key@ == key
}

impl Service {
    #[verifier::type_invariant]
    spec fn well_formed(self) -> bool {
        distinct_slots(self.secrets@)
    }

    /// Create a store from its configuration.
    ///
    /// Every key is validated as a secret reference. The first entry whose
    /// key is refused, or that repeats the key of an earlier entry of the
    /// same tenant, stops the construction with its error.
    pub fn from_config(cfg: &StaticCredStorePluginConfig) -> (r: Result<Service, ConfigError>)
        ensures
            r is Ok <==> accepted_up_to(cfg.secrets@, cfg.secrets@.len() as int),
            r matches Ok(store) ==> distinct_slots(store@) && store@.len() == cfg.secrets@.len()
                && forall|i: int|
                0 <= i < store@.len() ==> stores(#[trigger] store@[i], cfg.secrets@[i]),
            r matches Err(e) ==> exists|i: int|
                0 <= i < cfg.secrets@.len() && accepted_up_to(cfg.secrets@, i) && #[trigger] is_refused(
                    cfg.secrets@,
                    i,
                ) && match e {
                    ConfigError::InvalidKey(cause) => Some(cause@->reason) == ref_fault(
                        cfg.secrets@[i].key@,
                    ) && cause@ is InvalidSecretRef,
                    ConfigError::DuplicateKey { key, tenant_id } => ref_fault(cfg.secrets@[i].key@)
                         is None && key@ == cfg.secrets@[i].key@ && tenant_id
                        == cfg.secrets@[i].tenant_id,
                },
    {
        let n = cfg.secrets.len();
        let mut stored: Vec<StoredSecret> = Vec::new();
        let mut i: usize = 0;
        while i < n
            invariant
                i <= n,
                n == cfg.secrets@.len(),
                stored@.len() == i,
                accepted_up_to(cfg.secrets@, i as int),
                forall|k: int| 0 <= k < i ==> stores(#[trigger] stored@[k], cfg.secrets@[k]),
                distinct_slots(stored@),
            decreases n - i,
        {
            let entry = &cfg.secrets[i];
            let key = match SecretRef::new(entry.key.as_str()) {
                Ok(key) => key,
                Err(cause) => {
                    assert(is_refused(cfg.secrets@, i as int));
                    return Err(ConfigError::InvalidKey(cause));
                },
            };
            let mut j: usize = 0;
            while j < i
                invariant
                    j <= i,
                    i < n,
                    n == cfg.secrets@.len(),
                    stored@.len() == i,
                    key@ == cfg.secrets@[i as int].key@,
                    *entry == cfg.secrets@[i as int],
                    ref_fault(cfg.secrets@[i as int].key@) is None,
                    accepted_up_to(cfg.secrets@, i as int),
                    forall|k: int| 0 <= k < i ==> stores(#[trigger] stored@[k], cfg.secrets@[k]),
                    forall|k: int| 0 <= k < j ==> !#[trigger] same_slot(cfg.secrets@, i as int, k),
                decreases i - j,
            {
                let other = &stored[j];
                if same_id(&other.tenant_id, &entry.tenant_id) && same_key(&other.key, &key) {
                    assert(same_slot(cfg.secrets@, i as int, j as int));
                    assert(is_refused(cfg.secrets@, i as int));
                    return Err(
                        ConfigError::DuplicateKey {
                            key: entry.key.clone(),
                            tenant_id: entry.tenant_id,
                        },
                    );
                }
                j += 1;
            }
            stored.push(
                StoredSecret {
                    tenant_id: entry.tenant_id,
                    key,
                    entry: SecretEntry {
                        value: SecretValue::from(entry.value.as_str()),
                        owner_id: entry.owner_id,
                        sharing: entry.sharing,
                        owner_tenant_id: entry.tenant_id,
                    },
                },
            );
            assert(distinct_slots(stored@)) by {
                assert forall|a: int, b: int| 0 <= a < b < stored@.len() implies !(uuid_bits(
                    #[trigger] stored@[a].tenant_id,
                ) == uuid_bits(#[trigger] stored@[b].tenant_id) && stored@[a].key@
                    == stored@[b].key@) by {
                    if b == i {
                        assert(!same_slot(cfg.secrets@, i as int, a));
                    }
                }
            }
            i += 1;
        }
        Ok(Service { secrets: stored })
    }

    /// Look up a secret by tenant and key.
    #[must_use]
    pub fn get(&self, tenant_id: TenantId, key: &SecretRef) -> (r: Option<&SecretEntry>)
        ensures
            distinct_slots(self@),
            r is Some <==> exists|i: int| #[trigger] serves(self@, i, uuid_bits(tenant_id), key@),
            r matches Some(entry) ==> exists|i: int| #[trigger]
                serves(self@, i, uuid_bits(tenant_id), key@) && *entry == self@[i].entry,
    {
        proof {
            use_type_invariant(self);
        }
        let n = self.secrets.len();
        let mut i: usize = 0;
        while i < n
            invariant
                i <= n,
                n == self.secrets@.len(),
                distinct_slots(self.secrets@),
                forall|k: int| 0 <= k < i ==> !#[trigger] serves(
                    self.secrets@,
                    k,
                    uuid_bits(tenant_id),
                    key@,
                ),
            decreases n - i,
        {
            let stored = &self.secrets[i];
            if same_id(&stored.tenant_id, &tenant_id) && same_key(&stored.key, key) {
                assert(serves(self@, i as int, uuid_bits(tenant_id), key@));
                return Some(&stored.entry);
            }
            i += 1;
        }
        None
    }
}

/// Where no tenant has a key twice, at most one secret is found under a
/// key.
pub proof fn lemma_slots_are_distinct(
    stored: Seq<StoredSecret>,
    i: int,
    j: int,
    tenant: u128,
    key: Seq<char>,
)
    requires
        distinct_slots(stored),
        serves(stored, i, tenant, key),
        serves(stored, j, tenant, key),
    ensures
        i == j,
{
}

/// Whether two secret references are the same text.
pub fn same_key(a: &SecretRef, b: &SecretRef) -> (r: bool)
    ensures
        r == (a@ == b@),
{
    let chars = to_chars(a.as_str());
    is_word(chars.as_slice(), b.as_str())
}

} // verus!
