//! The application-wide configuration record: the known vault paths and the
//! last active one. The host reads and writes the on-disk file; the record
//! and the registration rule live here.

use vstd::prelude::*;
use crate::chars::str_eq;

verus! {

/// Whether a path is already among the known vaults.
pub open spec fn has_path(vaults: Seq<String>, path: Seq<char>) -> bool {
    exists|i: int| 0 <= i < vaults.len() && (#[trigger] vaults[i])@ == path
}

/// Application-wide settings.
#[derive(Debug, Clone)]
pub struct GlobalConfig {
    pub vaults: Vec<String>,
    pub last_active_vault: Option<String>,
}

impl Default for GlobalConfig {
    /// No vaults and no active vault: the state before any file exists.
    fn default() -> (c: GlobalConfig)
        ensures
            c.vaults@.len() == 0,
            c.last_active_vault is None,
    {
        GlobalConfig { vaults: Vec::new(), last_active_vault: None }
    }
}

/// Adds a vault path to the config unless already present, and makes it the
/// last active vault. The host wraps this between loading and saving the
/// on-disk file.
pub fn register_vault(config: &mut GlobalConfig, vault_path: String)
    ensures
        final(config).vaults@ == (if has_path(old(config).vaults@, vault_path@) {
            old(config).vaults@
        } else {
            old(config).vaults@.push(vault_path)
        }),
        final(config).last_active_vault matches Some(p) && p@ == vault_path@,
{
    let mut known = false;
    let n = config.vaults.len();
    let mut i: usize = 0;
    while i < n
        invariant
            i <= n,
            n == config.vaults@.len(),
            config == old(config),
            known == exists|j: int| 0 <= j < i && (#[trigger] config.vaults@[j])@ == vault_path@,
        decreases n - i,
    {
        if str_eq(config.vaults[i].as_str(), vault_path.as_str()) {
            known = true;
        }
        i = i + 1;
    }
    if !known {
        config.vaults.push(vault_path.clone());
    }
    config.last_active_vault = Some(vault_path);
}

/// Per-vault settings stored inside the vault.
#[derive(Debug, Clone)]
pub struct VaultConfig {
    pub name: String,
}

/// A serializable vault summary for the host's frontend.
#[derive(Debug, Clone)]
pub struct VaultInfo {
    pub name: String,
    pub root: String,
}

} // verus!
