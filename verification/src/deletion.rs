//! Deferred deletion: the dead are handled, delete conditions are judged,
//! and one-shot signals are cleared. Nothing leaves the store here; an
//! entity that is to go is marked, and leaves when the store is maintained
//! at the end of the turn.

use vstd::prelude::*;
use crate::components::DeleteCondition;
use crate::components::Position;
use crate::data_read::items::item_label;
use crate::data_read::items::item_parts;
use crate::data_read::items::build_item;
use crate::data_read::items::ItemDatabase;
use crate::items::ItemID;
use crate::store::alive;
use crate::store::Components;
use crate::store::Doomed;
use crate::store::Store;
use crate::tile_map::cleared;
use crate::tile_map::TileMap;
use crate::tile_map::WorldTile;

verus! {

/// Whether the entity is to be handled as dead: its hit points are used
/// up, and it is not yet marked to go.
pub open spec fn dead(c: Components) -> bool {
    c.health.is_some() && c.health.unwrap().hp == 0 && c.doomed.is_none()
}

/// An entity after the dead were handled: a dead one is marked to go and
/// is no longer breakable; any other is as before.
pub open spec fn reaped(c: Components) -> Components {
    if dead(c) {
        Components { doomed: Some(Doomed), breakable: None, ..c }
    } else {
        c
    }
}

/// A slot after the dead were handled.
pub open spec fn reaped_slot(slot: Option<Components>) -> Option<Components> {
    match slot {
        Some(c) => Some(reaped(c)),
        None => None,
    }
}

/// Whether the entity of a slot leaves a drop when the dead are handled:
/// it is dead, bears a drop, and stands somewhere.
pub open spec fn drops(slot: Option<Components>) -> bool {
    slot.is_some() && dead(slot.unwrap()) && slot.unwrap().death_drop.is_some()
        && slot.unwrap().position.is_some()
}

/// Whether the entity of a slot leaves broken ground when the dead are
/// handled: it is dead, was breakable, and stands somewhere.
pub open spec fn crumbles(slot: Option<Components>) -> bool {
    slot.is_some() && dead(slot.unwrap()) && slot.unwrap().breakable.is_some()
        && slot.unwrap().position.is_some()
}

/// The slots, among the first `n`, whose entities leave a drop, in order.
pub open spec fn droppers(slots: Seq<Option<Components>>, n: int) -> Seq<int>
    decreases n,
{
    if n <= 0 {
        Seq::empty()
    } else if drops(slots[n - 1]) {
        droppers(slots, n - 1).push(n - 1)
    } else {
        droppers(slots, n - 1)
    }
}

/// The terrain after the dead among the first `n` slots were handled: the
/// tile under every one that crumbles has become ground.
pub open spec fn terrain_after(
    slots: Seq<Option<Components>>,
    tiles: Seq<WorldTile>,
    width: int,
    height: int,
    ground: WorldTile,
    n: int,
) -> Seq<WorldTile>
    decreases n,
{
    if n <= 0 {
        tiles
    } else {
        let earlier = terrain_after(slots, tiles, width, height, ground, n - 1);
        if crumbles(slots[n - 1]) {
            cleared(earlier, slots[n - 1].unwrap().position.unwrap(), width, height, ground)
        } else {
            earlier
        }
    }
}

/// Whether `slot` holds the drop that the entity in slot `from` leaves.
pub open spec fn is_drop_of(
    before: Seq<Option<Components>>,
    items: ItemDatabase,
    from: int,
    slot: Option<Components>,
) -> bool {
    let bearer = before[from].unwrap();
    &&& slot.is_some()
    &&& slot.unwrap() == item_parts(
        items,
        bearer.death_drop.unwrap().item_id,
        bearer.position.unwrap(),
        slot.unwrap().name,
    )
    &&& item_label(items, bearer.death_drop.unwrap().item_id, slot.unwrap().name)
}

/// Whether `after` is the store that handling the dead makes of `before`:
/// the slots there were hold their entities reaped, and behind them stand
/// the drops, one for each entity that leaves one, in the order of their
/// bearers.
pub open spec fn dead_handled(
    before: Seq<Option<Components>>,
    after: Seq<Option<Components>>,
    items: ItemDatabase,
) -> bool {
    let bearers = droppers(before, before.len() as int);
    &&& after.len() == before.len() + bearers.len()
    &&& forall|j: int| 0 <= j < before.len() ==> #[trigger] after[j] == reaped_slot(before[j])
    &&& forall|k: int|
        0 <= k < bearers.len() ==> is_drop_of(
            before,
            items,
            bearers[k],
            #[trigger] after[before.len() + k],
        )
}

/// Handles the dead. Every entity whose hit points are used up is marked
/// to go and stops being breakable. If it was breakable, the tile under it
/// turns into ground; if it bore a drop, the dropped item appears where it
/// stood, in a new slot behind all others. Nothing else changes, and no
/// entity leaves the store yet.
pub fn reap(store: &mut Store, map: &mut TileMap, items: &ItemDatabase)
    requires
        old(map).wf(),
    ensures
        final(map).wf(),
        final(map).width == old(map).width,
        final(map).height == old(map).height,
        final(map).ground == old(map).ground,
        final(map).tiles@ == terrain_after(
            old(store)@,
            old(map).tiles@,
            old(map).width as int,
            old(map).height as int,
            old(map).ground,
            old(store)@.len() as int,
        ),
        dead_handled(old(store)@, final(store)@, *items),
{
    let n: usize = store.slots.len();
    let ghost before = store@;
    let ghost tiles = map.tiles@;
    let ghost w = map.width as int;
    let ghost h = map.height as int;
    let ghost ground = map.ground;
    let mut i: usize = 0;
    while i < n
        invariant
            i <= n,
            n == before.len(),
            before == old(store)@,
            tiles == old(map).tiles@,
            map.wf(),
            map.width == old(map).width,
            map.height == old(map).height,
            map.ground == old(map).ground,
            w == map.width as int,
            h == map.height as int,
            ground == map.ground,
            map.tiles@ == terrain_after(before, tiles, w, h, ground, i as int),
            store.slots@.len() == n + droppers(before, i as int).len(),
            forall|j: int| 0 <= j < i ==> #[trigger] store.slots@[j] == reaped_slot(before[j]),
            forall|j: int| i <= j < n ==> #[trigger] store.slots@[j] == before[j],
            forall|k: int|
                0 <= k < droppers(before, i as int).len() ==> is_drop_of(
                    before,
                    *items,
                    droppers(before, i as int)[k],
                    #[trigger] store.slots@[n + k],
                ),
            forall|k: int|
                0 <= k < droppers(before, i as int).len() ==> 0 <= #[trigger] droppers(
                    before,
                    i as int,
                )[k] < i,
        decreases n - i,
    {
        let ghost had = droppers(before, i as int);
        let found: Option<(Option<Position>, Option<ItemID>, bool)> = match &mut store.slots[i] {
            Some(c) => {
                let is_dead: bool = match &c.health {
                    Some(health) => health.hp == 0 && c.doomed.is_none(),
                    None => false,
                };
                if is_dead {
                    let was_breakable: bool = c.breakable.is_some();
                    let drop: Option<ItemID> = match &c.death_drop {
                        Some(d) => Some(d.item_id),
                        None => None,
                    };
                    c.doomed = Some(Doomed);
                    c.breakable = None;
                    Some((c.position, drop, was_breakable))
                } else {
                    None
                }
            },
            None => None,
        };
        match found {
            Some((Some(pos), drop, was_breakable)) => {
                if was_breakable {
                    map.clear_tile(&pos);
                }
                match drop {
                    Some(id) => {
                        let ghost grown = store.slots@;
                        build_item(id, pos, items, store);
                        proof {
                            assert(store.slots@.take(grown.len() as int) == grown);
                            assert forall|j: int| 0 <= j < grown.len() implies #[trigger] store.slots@[j]
                                == grown[j] by {
                                assert(store.slots@.take(grown.len() as int)[j] == store.slots@[j]);
                            }
                        }
                    },
                    None => {},
                }
            },
            _ => {},
        }
        proof {
            let now = droppers(before, i + 1);
            assert forall|k: int| 0 <= k < now.len() implies is_drop_of(
                before,
                *items,
                now[k],
                #[trigger] store.slots@[n + k],
            ) by {
                if k < had.len() {
                    assert(is_drop_of(before, *items, had[k], store.slots@[n + k]));
                }
            }
        }
        i = i + 1;
    }
}

/// Whether a delete condition is met: a timed one when the time that has
/// gone by reaches what was left of it, and one that waits for an activity
/// when the entity it names lives and signals that it has finished.
pub open spec fn condition_met(
    condition: DeleteCondition,
    slots: Seq<Option<Components>>,
    nanos: u64,
) -> bool {
    match condition {
        DeleteCondition::Timed(left) => nanos >= left,
        DeleteCondition::ActivityFinish(e) => alive(slots, e) && slots[e.index as int].unwrap().finished_activity.is_some(),
    }
}

/// An entity after its delete condition was judged. Where the condition is
/// met, the entity is marked to go. A timed condition that is not yet met
/// has the time that has gone by taken off it.
pub open spec fn judged(c: Components, slots: Seq<Option<Components>>, nanos: u64) -> Components {
    match c.delete_condition {
        Some(condition) => if condition_met(condition, slots, nanos) {
            Components { doomed: Some(Doomed), ..c }
        } else {
            match condition {
                DeleteCondition::Timed(left) => Components {
                    delete_condition: Some(DeleteCondition::Timed((left - nanos) as u64)),
                    ..c
                },
                DeleteCondition::ActivityFinish(_) => c,
            }
        },
        None => c,
    }
}

/// A slot after its delete condition was judged.
pub open spec fn judged_slot(
    slot: Option<Components>,
    slots: Seq<Option<Components>>,
    nanos: u64,
) -> Option<Components> {
    match slot {
        Some(c) => Some(judged(c, slots, nanos)),
        None => None,
    }
}

/// Whether `after` is what judging the delete conditions makes of
/// `before`.
pub open spec fn conditions_judged(
    before: Seq<Option<Components>>,
    after: Seq<Option<Components>>,
    nanos: u64,
) -> bool {
    &&& after.len() == before.len()
    &&& forall|j: int|
        0 <= j < before.len() ==> #[trigger] after[j] == judged_slot(before[j], before, nanos)
}

/// Judges the delete condition of every entity that has one, against the
/// signals of this turn and the time that has gone by since the last.
/// Entities whose condition is met are marked to go; none leaves the store
/// yet.
pub fn evaluate_delete_conditions(store: &mut Store, nanos: u64)
    ensures
        conditions_judged(old(store)@, final(store)@, nanos),
{
    let n: usize = store.slots.len();
    let ghost before = store@;
    let mut i: usize = 0;
    while i < n
        invariant
            i <= n,
            n == before.len(),
            before == old(store)@,
            store.slots@.len() == n,
            forall|j: int| 0 <= j < i ==> #[trigger] store.slots@[j] == judged_slot(before[j], before, nanos),
            forall|j: int| i <= j < n ==> #[trigger] store.slots@[j] == before[j],
        decreases n - i,
    {
        let condition: Option<DeleteCondition> = match &store.slots[i] {
            Some(c) => c.delete_condition,
            None => None,
        };
        match condition {
            Some(DeleteCondition::Timed(left)) => {
                match &mut store.slots[i] {
                    Some(c) => {
                        if nanos >= left {
                            c.doomed = Some(Doomed);
                        } else {
                            c.delete_condition = Some(DeleteCondition::Timed(left - nanos));
                        }
                    },
                    None => {},
                }
            },
            Some(DeleteCondition::ActivityFinish(e)) => {
                let finished: bool = if e.index < n {
                    match &store.slots[e.index] {
                        Some(other) => other.finished_activity.is_some(),
                        None => false,
                    }
                } else {
                    false
                };
                proof {
                    if e.index < n {
                        if e.index < i {
                            assert(store.slots@[e.index as int] == judged_slot(
                                before[e.index as int],
                                before,
                                nanos,
                            ));
                        } else {
                            assert(store.slots@[e.index as int] == before[e.index as int]);
                        }
                    }
                }
                if finished {
                    match &mut store.slots[i] {
                        Some(c) => {
                            c.doomed = Some(Doomed);
                        },
                        None => {},
                    }
                }
            },
            None => {},
        }
        i = i + 1;
    }
}

/// An entity without its finished signal.
pub open spec fn quieted(slot: Option<Components>) -> Option<Components> {
    match slot {
        Some(c) => Some(Components { finished_activity: None, ..c }),
        None => None,
    }
}

/// Whether `after` is `before` with every finished signal cleared.
pub open spec fn signals_cleared(
    before: Seq<Option<Components>>,
    after: Seq<Option<Components>>,
) -> bool {
    &&& after.len() == before.len()
    &&& forall|j: int| 0 <= j < before.len() ==> #[trigger] after[j] == quieted(before[j])
}

/// Clears the finished signal of every entity, whether or not anything has
/// read it.
pub fn clear_signals(store: &mut Store)
    ensures
        signals_cleared(old(store)@, final(store)@),
{
    let n: usize = store.slots.len();
    let mut i: usize = 0;
    while i < n
        invariant
            i <= n,
            n == old(store)@.len(),
            store.slots@.len() == n,
            forall|j: int| 0 <= j < i ==> #[trigger] store.slots@[j] == quieted(old(store)@[j]),
            forall|j: int| i <= j < n ==> #[trigger] store.slots@[j] == old(store)@[j],
        decreases n - i,
    {
        match &mut store.slots[i] {
            Some(c) => {
                c.finished_activity = None;
            },
            None => {},
        }
        i = i + 1;
    }
}

} // verus!
