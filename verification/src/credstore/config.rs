//! Configuration of the credential store.

use vstd::prelude::*;
use vstd::string::StringExecFns;

verus! {

/// Module configuration.
#[derive(Debug, Clone)]
pub struct CredStoreConfig {
    /// Vendor selector used to pick a plugin implementation: of the plugin
    /// instances of this vendor, the one with the lowest priority number is
    /// selected.
    pub vendor: String,
}

impl Default for CredStoreConfig {
    fn default() -> (cfg: CredStoreConfig)
        ensures
            cfg.vendor@ == "hyperspot"@,
    {
        CredStoreConfig { vendor: String::from_str("hyperspot") }
    }
}

} // verus!
