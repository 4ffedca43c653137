//! The layers on which things are drawn, lowest first.

use vstd::prelude::*;

verus! {

pub const TILE_Z: u32 = 0;

pub const ITEM_Z: u32 = 1;

pub const BEING_Z: u32 = 2;

} // verus!
