//! Configuration data: the habitats (deployment environments) the tool knows
//! and the project identifier each one is bound to. Reading the
//! configuration file is the surrounding binary's business; the library only
//! holds the values.

use vstd::prelude::*;

verus! {

/// One deployment environment, bound to a project identifier.
#[derive(Debug, Clone)]
pub struct Habitat {
    /// The project identifier of this habitat.
    pub project: String,
}

/// The whole configuration: one habitat per environment.
#[derive(Debug, Clone)]
pub struct FileConfig {
    /// The integration environment.
    pub int: Habitat,
    /// The staging environment.
    pub stg: Habitat,
    /// The production environment.
    pub prd: Habitat,
}

} // verus!
