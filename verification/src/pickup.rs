//! Picking up: an entity that wants to pick up an item takes it into its
//! bag, if the item lies where the entity stands.

use vstd::prelude::*;
use crate::components::Entity;
use crate::components::InBag;
use crate::components::PickupAction;
use crate::components::Position;
use crate::store::Components;
use crate::store::Store;

verus! {

/// Whether the entity of a slot can be picked up from where it lies: it is
/// an item, it is in no bag, and it lies somewhere.
pub open spec fn lies_free(slot: Option<Components>) -> bool {
    slot.is_some() && slot.unwrap().item.is_some() && slot.unwrap().in_bag.is_none()
        && slot.unwrap().position.is_some()
}

/// Whether the entity in slot `actor` reaches for the item in slot `item`:
/// it is no item itself, it wants to pick that item up, and it stands
/// where the item lies.
pub open spec fn reaches_for(slots: Seq<Option<Components>>, actor: int, item: int) -> bool {
    &&& slots[actor].is_some()
    &&& slots[actor].unwrap().item.is_none()
    &&& slots[actor].unwrap().pickup_action == Some(
        PickupAction { item: Entity { index: item as usize } },
    )
    &&& slots[actor].unwrap().position.is_some()
    &&& slots[item].is_some()
    &&& slots[actor].unwrap().position == slots[item].unwrap().position
}

/// The slot, among the first `n`, of the entity that gets the item in slot
/// `item`: the first that reaches for it.
pub open spec fn taker(slots: Seq<Option<Components>>, item: int, n: int) -> Option<int>
    decreases n,
{
    if n <= 0 {
        None
    } else {
        match taker(slots, item, n - 1) {
            Some(i) => Some(i),
            None => if reaches_for(slots, n - 1, item) {
                Some(n - 1)
            } else {
                None
            },
        }
    }
}

/// A slot after the wishes to pick up of the first `n` slots were
/// resolved. The wishes of those slots are used up. An item that lay free
/// and was reached for is in the bag of the first that reached for it, and
/// lies nowhere any more.
pub open spec fn picked_slot(slots: Seq<Option<Components>>, j: int, n: int) -> Option<
    Components,
> {
    match slots[j] {
        Some(c) => {
            let wish = if j < n {
                None
            } else {
                c.pickup_action
            };
            if lies_free(slots[j]) && taker(slots, j, n).is_some() {
                Some(
                    Components {
                        pickup_action: wish,
                        in_bag: Some(
                            InBag { owner: Entity { index: taker(slots, j, n).unwrap() as usize } },
                        ),
                        position: None,
                        ..c
                    },
                )
            } else {
                Some(Components { pickup_action: wish, ..c })
            }
        },
        None => None,
    }
}

/// Whether `after` is what resolving the wishes to pick up makes of
/// `before`.
pub open spec fn pickups_resolved(
    before: Seq<Option<Components>>,
    after: Seq<Option<Components>>,
) -> bool {
    &&& after.len() == before.len()
    &&& forall|j: int|
        0 <= j < before.len() ==> #[trigger] after[j] == picked_slot(
            before,
            j,
            before.len() as int,
        )
}

/// Resolves the wishes to pick up of a turn. Every wish is used up. An
/// item goes to the first entity, in the order of the slots, that reaches
/// for it; an item is reached for by an entity that is no item itself and
/// stands where the item lies. Any other wish changes nothing.
pub fn resolve_pickups(store: &mut Store)
    ensures
        pickups_resolved(old(store)@, final(store)@),
{
    let n: usize = store.slots.len();
    let ghost before = store@;
    let mut i: usize = 0;
    while i < n
        invariant
            i <= n,
            n == before.len(),
            before == old(store)@,
            store.slots@.len() == n,
            forall|j: int| 0 <= j < n ==> #[trigger] store.slots@[j] == picked_slot(before, j, i as int),
        decreases n - i,
    {
        let ghost mid = store.slots@;
        assert(mid[i as int] == picked_slot(before, i as int, i as int));
        let wish: Option<(Entity, Position)> = match &mut store.slots[i] {
            Some(a) => {
                let taken = a.pickup_action.take();
                match (taken, a.position) {
                    (Some(action), Some(pos)) => {
                        if a.item.is_none() {
                            Some((action.item, pos))
                        } else {
                            None
                        }
                    },
                    _ => None,
                }
            },
            None => None,
        };
        let ghost cleared = store.slots@;
        assert(forall|j: int| 0 <= j < n && j != i ==> cleared[j] == mid[j]);
        match wish {
            Some((item, pos)) => {
                if item.index < n {
                    assert(mid[item.index as int] == picked_slot(
                        before,
                        item.index as int,
                        i as int,
                    ));
                    match &mut store.slots[item.index] {
                        Some(it) => {
                            let here: bool = match it.position {
                                Some(p) => p.x == pos.x && p.y == pos.y,
                                None => false,
                            };
                            if it.item.is_some() && it.in_bag.is_none() && here {
                                it.in_bag = Some(InBag { owner: Entity { index: i } });
                                it.position = None;
                            }
                        },
                        None => {},
                    }
                }
            },
            None => {},
        }
        proof {
            let after = store.slots@;
            assert forall|j: int| 0 <= j < n implies #[trigger] after[j] == picked_slot(
                before,
                j,
                i + 1,
            ) by {
                assert(mid[j] == picked_slot(before, j, i as int));
            }
        }
        i = i + 1;
    }
}

/// An item is taken by at most one entity, and only by one that reached
/// for it where it lay: whoever holds it after the wishes were resolved is
/// the first that reached for it.
pub proof fn lemma_taker_reaches(slots: Seq<Option<Components>>, item: int, n: int)
    requires
        0 <= n <= slots.len(),
    ensures
        match taker(slots, item, n) {
            Some(i) => 0 <= i < n && reaches_for(slots, i, item) && forall|k: int|
                0 <= k < i ==> !reaches_for(slots, k, item),
            None => forall|k: int| 0 <= k < n ==> !reaches_for(slots, k, item),
        },
    decreases n,
{
    if n > 0 {
        lemma_taker_reaches(slots, item, n - 1);
    }
}

} // verus!
