//! Manifest format for `ufpm export` / `ufpm import`.
//!
//! The manifest is a small TOML file that records the slugs of all installed
//! packages (and, optionally, the world they were exported from). Version pins
//! are deliberately omitted: import always installs the latest available
//! version of each slug.

use vstd::prelude::*;

verus! {

/// A snapshot of an installation's packages.
#[derive(Clone, Debug)]
pub struct ExportManifest {
    /// The world this manifest was scoped to, when exported with `--world`.
    pub world: Option<String>,
    /// System slugs included in the snapshot.
    pub systems: Vec<String>,
    /// Module slugs included in the snapshot.
    pub modules: Vec<String>,
}

impl Default for ExportManifest {
    fn default() -> (manifest: ExportManifest)
        ensures
            manifest.world is None,
            manifest.systems@.len() == 0,
            manifest.modules@.len() == 0,
    {
        ExportManifest { world: None, systems: Vec::new(), modules: Vec::new() }
    }
}

} // verus!
