//! Moving: an entity that wants to move steps onto the tile it names,
//! unless something on that tile blocks the way.

use vstd::prelude::*;
use crate::indexing::IndexView;
use crate::indexing::SpatialIndex;
use crate::store::Components;
use crate::store::Store;
use crate::tile_map::tile_at;

verus! {

/// Whether the way to the tile that the entity wants to move to is free:
/// the entity stands somewhere, the tile lies on the grid, and the index
/// lists nothing on it that blocks.
pub open spec fn way_free(c: Components, index: IndexView, width: int, height: int) -> bool {
    c.position.is_some() && c.wants_to_move.is_some() && match tile_at(
        c.wants_to_move.unwrap().new_pos,
        width,
        height,
    ) {
        Some(t) => !index.blocked[t],
        None => false,
    }
}

/// An entity after its wish to move was resolved: the wish is used up, and
/// the entity stands on the tile it named if the way was free.
pub open spec fn moved(c: Components, index: IndexView, width: int, height: int) -> Components {
    Components {
        position: if way_free(c, index, width, height) {
            Some(c.wants_to_move.unwrap().new_pos)
        } else {
            c.position
        },
        wants_to_move: None,
        ..c
    }
}

/// A slot after its wish to move was resolved.
pub open spec fn moved_slot(
    slot: Option<Components>,
    index: IndexView,
    width: int,
    height: int,
) -> Option<Components> {
    match slot {
        Some(c) => Some(moved(c, index, width, height)),
        None => None,
    }
}

/// Whether `after` is what resolving the wishes to move makes of `before`,
/// against the given index.
pub open spec fn moves_resolved(
    before: Seq<Option<Components>>,
    after: Seq<Option<Components>>,
    index: IndexView,
    width: int,
    height: int,
) -> bool {
    &&& after.len() == before.len()
    &&& forall|j: int|
        0 <= j < before.len() ==> #[trigger] after[j] == moved_slot(before[j], index, width, height)
}

/// Resolves the wishes to move of a turn. Every wish is used up. Whether a
/// tile is blocked is read off the index, which stands as it was built at
/// the start of the turn: a move made here does not block or free a tile
/// for the moves that follow.
pub fn resolve_moves(store: &mut Store, index: &SpatialIndex)
    requires
        index.wf(),
    ensures
        moves_resolved(
            old(store)@,
            final(store)@,
            index@,
            index.width as int,
            index.height as int,
        ),
{
    let n: usize = store.slots.len();
    let mut i: usize = 0;
    while i < n
        invariant
            i <= n,
            n == old(store)@.len(),
            store.slots@.len() == n,
            index.wf(),
            forall|j: int|
                0 <= j < i ==> #[trigger] store.slots@[j] == moved_slot(
                    old(store)@[j],
                    index@,
                    index.width as int,
                    index.height as int,
                ),
            forall|j: int| i <= j < n ==> #[trigger] store.slots@[j] == old(store)@[j],
        decreases n - i,
    {
        match &mut store.slots[i] {
            Some(c) => {
                match c.wants_to_move.take() {
                    Some(wish) => {
                        if c.position.is_some() && index.covers(&wish.new_pos)
                            && !index.is_blocked(&wish.new_pos) {
                            c.position = Some(wish.new_pos);
                        }
                    },
                    None => {},
                }
            },
            None => {},
        }
        i = i + 1;
    }
}

} // verus!
