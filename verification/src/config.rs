//! Configuration shapes of the registry service. Loading them from a
//! configuration file happens outside the core.

use vstd::prelude::*;

verus! {

/// Where and how the index is kept.
#[derive(Debug)]
pub struct IndexConfig {
    pub path: String,
    pub git: bool,
    pub sparse: bool,
}

/// Where crate archives are stored.
#[derive(Debug)]
pub struct StorageConfig {
    pub kind: String,
    pub path: String,
}

/// Where the web front end's assets live.
#[derive(Debug)]
pub struct FrontendConfig {
    pub assets_dir: String,
}

} // verus!
