//! The static definitions of beings and items, and the lookups on them.

pub mod beings;
pub mod items;

use vstd::prelude::*;
use crate::data_read::beings::BeingDatabase;
use crate::data_read::items::ItemDatabase;

verus! {

/// Why a being could not be built.
#[derive(Clone, Copy, Debug, PartialEq, Eq, Structural)]
pub enum EntityBuildError {
    /// No being of the name asked for is defined.
    UnknownBeing,
    /// The being is defined to pursue goals, and no goals are defined for
    /// it.
    MissingGoals,
}

/// Health as a definition gives it.
#[derive(Clone, Copy, Debug, PartialEq, Eq, Structural)]
pub struct RawHealthStats {
    pub max_hp: usize,
    pub defense: usize,
}

/// All static definitions together.
#[derive(Debug)]
pub struct EntityDatabase {
    pub beings: BeingDatabase,
    pub items: ItemDatabase,
}

impl EntityDatabase {
    pub fn empty() -> (r: Self)
        ensures
            r.beings@.len() == 0,
            r.items@.len() == 0,
    {
        EntityDatabase { beings: BeingDatabase::empty(), items: ItemDatabase::empty() }
    }
}

} // verus!
