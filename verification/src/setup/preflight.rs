//! Preflight checks for host environment validation.
//!
//! Validates:
//! - Systemd environment (`/run/systemd/system` and `systemctl` on PATH)
//! - CPU architecture (Linux x86_64 or aarch64)
//! - Existing installation state and configured root domain
use super::planner::ExistingInstall;
use crate::config::Config;
use crate::text;
use vstd::prelude::*;

verus! {

/// Checks whether systemd is the active init system on this host: its runtime
/// directory exists, and some directory of the search path holds `systemctl`.
pub fn is_systemd_present(runtime_dir_exists: bool, systemctl_found: &Vec<bool>) -> (r: bool)
    ensures
        r == (runtime_dir_exists && systemctl_found@.contains(true)),
{
    if !runtime_dir_exists {
        return false;
    }
    let mut i: usize = 0;
    while i < systemctl_found.len()
        invariant
            runtime_dir_exists,
            i <= systemctl_found@.len(),
            forall|j: int| 0 <= j < i ==> !systemctl_found@[j],
        decreases systemctl_found@.len() - i,
    {
        if systemctl_found[i] {
            assert(systemctl_found@.contains(systemctl_found@[i as int]));
            return true;
        }
        i += 1;
    }
    assert(!systemctl_found@.contains(true));
    false
}

/// The operating system and CPU architecture are supported.
pub open spec fn is_supported(os: Seq<char>, arch: Seq<char>) -> bool {
    os == "linux"@ && (arch == "x86_64"@ || arch == "aarch64"@)
}

/// Checks whether the running CPU architecture and OS are supported.
pub fn is_supported_arch(os: &str, arch: &str) -> (r: bool)
    ensures
        r == is_supported(os@, arch@),
{
    text::same(os, "linux") && (text::same(arch, "x86_64") || text::same(arch, "aarch64"))
}

/// The existing installation that a stored configuration shows: none where
/// there is no database or it has no configuration.
pub fn detect_existing_install(stored: Option<&Config>) -> (r: Option<ExistingInstall>)
    ensures
        match (r, stored) {
            (Some(e), Some(config)) => e.root_domain@ == config.root_domain@,
            (None, None) => true,
            _ => false,
        },
{
    match stored {
        Some(config) => Some(ExistingInstall { root_domain: config.root_domain.clone() }),
        None => None,
    }
}

} // verus!
