//! Attacking: an entity that wants to attack another lands a blow of its
//! strength on it. The blow is queued, and damage resolution applies it.

use vstd::prelude::*;
use crate::components::AttackAction;
use crate::components::Entity;
use crate::mining::blow_amount;
use crate::mining::blow_from;
use crate::mining::queue_blow;
use crate::store::alive;
use crate::store::Components;
use crate::store::Store;

verus! {

/// The blow that the entity in slot `actor` lands on `target` this turn, if
/// it lands one: it must want to attack `target` and have a strength, and
/// an entity must live under the target's handle.
pub open spec fn attack_of(slots: Seq<Option<Components>>, actor: int, target: Entity) -> Option<
    i32,
> {
    match slots[actor] {
        Some(a) => if a.attack_action == Some(AttackAction { target }) && a.strength.is_some()
            && alive(slots, target) {
            Some(blow_amount(a.strength.unwrap().amt))
        } else {
            None
        },
        None => None,
    }
}

/// The blows that the attackers of the first `n` slots land on `target`,
/// in the order of their slots.
pub open spec fn attacks_on(slots: Seq<Option<Components>>, target: Entity, n: int) -> Seq<i32>
    decreases n,
{
    if n <= 0 {
        Seq::empty()
    } else {
        let earlier = attacks_on(slots, target, n - 1);
        match attack_of(slots, n - 1, target) {
            Some(blow) => earlier.push(blow),
            None => earlier,
        }
    }
}

/// An entity without what attack resolution touches: its queue of blows
/// and its wish to attack.
pub open spec fn apart_from_attacking(c: Components) -> Components {
    Components { suffer_damage: None, attack_action: None, ..c }
}

/// How a slot stands after the attacks of the first `n` slots were
/// resolved: the wishes of those slots are gone, the blows they landed on
/// this slot's entity are queued behind those it had, and nothing else has
/// changed.
pub open spec fn attacked_upto(
    before: Seq<Option<Components>>,
    j: int,
    n: int,
    now: Option<Components>,
) -> bool {
    match before[j] {
        Some(old) => {
            let blows = attacks_on(before, Entity { index: j as usize }, n);
            &&& now.is_some()
            &&& apart_from_attacking(now.unwrap()) == apart_from_attacking(old)
            &&& now.unwrap().attack_action == if j < n {
                None
            } else {
                old.attack_action
            }
            &&& now.unwrap().pending() == old.pending() + blows
            &&& now.unwrap().suffer_damage.is_some() == (old.suffer_damage.is_some() || blows.len()
                > 0)
        },
        None => now.is_none(),
    }
}

/// Whether `after` is what attack resolution makes of `before`.
pub open spec fn attacks_resolved(
    before: Seq<Option<Components>>,
    after: Seq<Option<Components>>,
) -> bool {
    &&& after.len() == before.len()
    &&& forall|j: int|
        0 <= j < before.len() ==> attacked_upto(before, j, before.len() as int, #[trigger] after[j])
}

/// Resolves the attacks of a turn. Every wish to attack is used up. A wish
/// of an entity that has a strength, against a target that is in the
/// store, queues a blow of that strength on the target; any other wish
/// changes nothing. Blows by several attackers on one target queue up in
/// the order of the attackers' slots.
pub fn resolve_attacks(store: &mut Store)
    ensures
        attacks_resolved(old(store)@, final(store)@),
{
    let n: usize = store.slots.len();
    let ghost before = store@;
    let mut i: usize = 0;
    assert forall|j: int| 0 <= j < n implies attacked_upto(
        before,
        j,
        0,
        #[trigger] store.slots@[j],
    ) by {
        match before[j] {
            Some(old) => {
                assert(old.pending() + Seq::<i32>::empty() =~= old.pending());
            },
            None => {},
        }
    }
    while i < n
        invariant
            i <= n,
            n == before.len(),
            before == old(store)@,
            store.slots@.len() == n,
            forall|j: int| 0 <= j < n ==> attacked_upto(before, j, i as int, #[trigger] store.slots@[j]),
        decreases n - i,
    {
        let ghost mid = store.slots@;
        assert(attacked_upto(before, i as int, i as int, mid[i as int]));
        let wish: Option<(Entity, usize)> = match &mut store.slots[i] {
            Some(a) => {
                let taken = a.attack_action.take();
                match (taken, &a.strength) {
                    (Some(action), Some(strength)) => Some((action.target, strength.amt)),
                    _ => None,
                }
            },
            None => None,
        };
        let ghost cleared = store.slots@;
        assert(forall|j: int| 0 <= j < n && j != i ==> cleared[j] == mid[j]);
        match wish {
            Some((target, amt)) => {
                if target.index < n {
                    assert(attacked_upto(
                        before,
                        target.index as int,
                        i as int,
                        mid[target.index as int],
                    ));
                    match &mut store.slots[target.index] {
                        Some(tc) => {
                            queue_blow(tc, blow_from(amt));
                        },
                        None => {},
                    }
                }
            },
            None => {},
        }
        proof {
            let after = store.slots@;
            assert forall|j: int| 0 <= j < n implies attacked_upto(
                before,
                j,
                i + 1,
                #[trigger] after[j],
            ) by {
                assert(attacked_upto(before, j, i as int, mid[j]));
                let e = Entity { index: j as usize };
                let earlier = attacks_on(before, e, i as int);
                match before[j] {
                    Some(old) => {
                        if attack_of(before, i as int, e).is_some() {
                            assert(old.pending() + earlier.push(
                                attack_of(before, i as int, e).unwrap(),
                            ) =~= (old.pending() + earlier).push(
                                attack_of(before, i as int, e).unwrap(),
                            ));
                        }
                    },
                    None => {},
                }
            }
        }
        i = i + 1;
    }
}

} // verus!
