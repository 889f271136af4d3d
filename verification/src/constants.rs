//! Hardcoded constants that configure how `FoundryVTT` is talked to.

use vstd::prelude::*;

verus! {

/// The `FoundryVTT` release version reported to the package API and used for
/// compatibility warnings.
///
/// `FoundryVTT` offers no reliable way to detect the version of an
/// installation from its data directory, so a constant is shipped that users
/// can override through the [`FOUNDRY_VERSION_ENV`] environment variable.
pub const FOUNDRY_VERSION: &'static str = "14.362";

/// Environment variable that overrides [`FOUNDRY_VERSION`].
pub const FOUNDRY_VERSION_ENV: &'static str = "UFPM_FOUNDRY_VERSION";

/// How long a cached index counts as fresh, in seconds: one day.
pub const INDEX_TTL: u64 = 86_400;

/// How many archives are downloaded at the same time.
pub const DOWNLOAD_CONCURRENCY: usize = 4;

/// Returns the effective `FoundryVTT` version: the [`FOUNDRY_VERSION_ENV`]
/// override when set, the built-in [`FOUNDRY_VERSION`] constant otherwise.
#[must_use]
pub fn foundry_version(overridden: Option<String>) -> (version: String)
    ensures
        match overridden {
            Some(text) => version == text,
            None => version@ == FOUNDRY_VERSION@,
        },
{
    match overridden {
        Some(version) => version,
        None => FOUNDRY_VERSION.to_owned(),
    }
}

} // verus!
