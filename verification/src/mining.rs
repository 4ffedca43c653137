//! Breaking tiles: an entity that wants to break something lands a blow on
//! it, provided it holds the tool that the target's tile asks for.

use vstd::prelude::*;
use crate::components::BreakAction;
use crate::components::Entity;
use crate::components::SufferDamage;
use crate::components::ToolType;
use crate::damage::damaged;
use crate::indexing::tile_of;
use crate::indexing::IndexView;
use crate::indexing::SpatialIndex;
use crate::store::Components;
use crate::store::Store;
use crate::tile_map::tile_index;

verus! {

/// The tool an entity works with: the one it has equipped, and its bare
/// hands where it has none.
pub open spec fn tool_in_hand(c: Components) -> ToolType {
    match c.equipped {
        Some(equipped) => equipped.tool,
        None => ToolType::Hand,
    }
}

/// A strength as the amount of a blow: the strength itself, and the largest
/// amount there is where the strength is beyond it.
pub open spec fn blow_amount(strength: usize) -> i32 {
    if strength > i32::MAX {
        i32::MAX
    } else {
        strength as i32
    }
}

/// The tool that the index asks for to break the tile on which the target
/// stands: none where nothing lives under the target's handle, where the
/// target stands on no tile, and where its tile cannot be broken.
pub open spec fn tool_asked(
    slots: Seq<Option<Components>>,
    index: IndexView,
    width: int,
    height: int,
    target: Entity,
) -> Option<ToolType> {
    if target.index < slots.len() {
        match tile_of(slots[target.index as int], width, height) {
            Some(t) => index.breakable[t],
            None => None,
        }
    } else {
        None
    }
}

/// The blow that the entity in slot `actor` lands on `target` this turn, if
/// it lands one: it must want to break `target`, have a strength, and hold
/// the tool that the target's tile asks for.
pub open spec fn blow_of(
    slots: Seq<Option<Components>>,
    index: IndexView,
    width: int,
    height: int,
    actor: int,
    target: Entity,
) -> Option<i32> {
    match slots[actor] {
        Some(a) => if a.break_action == Some(BreakAction { target }) && a.strength.is_some()
            && tool_asked(slots, index, width, height, target) == Some(tool_in_hand(a)) {
            Some(blow_amount(a.strength.unwrap().amt))
        } else {
            None
        },
        None => None,
    }
}

/// The blows that the entities of the first `n` slots land on `target`, in
/// the order of their slots.
pub open spec fn blows_on(
    slots: Seq<Option<Components>>,
    index: IndexView,
    width: int,
    height: int,
    target: Entity,
    n: int,
) -> Seq<i32>
    decreases n,
{
    if n <= 0 {
        Seq::empty()
    } else {
        let earlier = blows_on(slots, index, width, height, target, n - 1);
        match blow_of(slots, index, width, height, n - 1, target) {
            Some(blow) => earlier.push(blow),
            None => earlier,
        }
    }
}

/// An entity without what break resolution touches: its queue of blows and
/// its wish to break.
pub open spec fn apart_from_breaking(c: Components) -> Components {
    Components { suffer_damage: None, break_action: None, ..c }
}

/// How a slot stands after the break wishes of the first `n` slots were
/// resolved: the wishes of those slots are gone, the blows they landed on
/// this slot's entity are queued behind those it had, and nothing else has
/// changed.
pub open spec fn broken_upto(
    before: Seq<Option<Components>>,
    index: IndexView,
    width: int,
    height: int,
    j: int,
    n: int,
    now: Option<Components>,
) -> bool {
    match before[j] {
        Some(old) => {
            let blows = blows_on(before, index, width, height, Entity { index: j as usize }, n);
            &&& now.is_some()
            &&& apart_from_breaking(now.unwrap()) == apart_from_breaking(old)
            &&& now.unwrap().break_action == if j < n {
                None
            } else {
                old.break_action
            }
            &&& now.unwrap().pending() == old.pending() + blows
            &&& now.unwrap().suffer_damage.is_some() == (old.suffer_damage.is_some() || blows.len()
                > 0)
        },
        None => now.is_none(),
    }
}

/// Whether `after` is what break resolution makes of `before`, against the
/// given index.
pub open spec fn breaks_resolved(
    before: Seq<Option<Components>>,
    after: Seq<Option<Components>>,
    index: IndexView,
    width: int,
    height: int,
) -> bool {
    &&& after.len() == before.len()
    &&& forall|j: int|
        0 <= j < before.len() ==> broken_upto(
            before,
            index,
            width,
            height,
            j,
            before.len() as int,
            #[trigger] after[j],
        )
}

/// The amount of the blow that a strength gives.
pub fn blow_from(strength: usize) -> (r: i32)
    ensures
        r == blow_amount(strength),
{
    if strength > 2147483647 {
        2147483647i32
    } else {
        strength as i32
    }
}

/// Queues one more blow on an entity.
pub fn queue_blow(c: &mut Components, blow: i32)
    ensures
        final(c).pending() == old(c).pending().push(blow),
        final(c).suffer_damage.is_some(),
        (Components { suffer_damage: None, ..*final(c) }) == (Components {
            suffer_damage: None,
            ..*old(c)
        }),
{
    match &mut c.suffer_damage {
        Some(queue) => {
            queue.amount.push(blow);
        },
        None => {
            let mut amount: Vec<i32> = Vec::new();
            amount.push(blow);
            c.suffer_damage = Some(SufferDamage { amount });
            assert(c.pending() =~= old(c).pending().push(blow));
        },
    }
}

/// Resolves the break wishes of a turn. Every wish is used up. A wish lands
/// a blow of the actor's strength on its target if the actor holds the tool
/// that the index asks for on the target's tile; any other wish is turned
/// down and changes nothing. Blows by several actors on one target queue up
/// in the order of the actors' slots.
pub fn resolve_breaks(store: &mut Store, index: &SpatialIndex)
    requires
        index.wf(),
    ensures
        breaks_resolved(
            old(store)@,
            final(store)@,
            index@,
            index.width as int,
            index.height as int,
        ),
{
    let n: usize = store.slots.len();
    let ghost before = store@;
    let ghost w = index.width as int;
    let ghost h = index.height as int;
    let mut i: usize = 0;
    assert forall|j: int| 0 <= j < n implies broken_upto(
        before,
        index@,
        w,
        h,
        j,
        0,
        #[trigger] store.slots@[j],
    ) by {
        match before[j] {
            Some(old) => {
                assert(old.pending() + Seq::<i32>::empty() =~= old.pending());
            },
            None => {},
        }
    }
    while i < n
        invariant
            i <= n,
            n == before.len(),
            before == old(store)@,
            store.slots@.len() == n,
            index.wf(),
            w == index.width as int,
            h == index.height as int,
            forall|j: int|
                0 <= j < n ==> broken_upto(before, index@, w, h, j, i as int, #[trigger] store.slots@[j]),
        decreases n - i,
    {
        let ghost mid = store.slots@;
        assert(broken_upto(before, index@, w, h, i as int, i as int, mid[i as int]));
        let wish: Option<(Entity, usize, ToolType)> = match &mut store.slots[i] {
            Some(a) => {
                let taken = a.break_action.take();
                match (taken, &a.strength) {
                    (Some(action), Some(strength)) => {
                        let tool: ToolType = match &a.equipped {
                            Some(equipped) => equipped.tool,
                            None => ToolType::Hand,
                        };
                        Some((action.target, strength.amt, tool))
                    },
                    _ => None,
                }
            },
            None => None,
        };
        let ghost cleared = store.slots@;
        assert(forall|j: int| 0 <= j < n && j != i ==> cleared[j] == mid[j]);
        match wish {
            Some((target, amt, tool)) => {
                if target.index < n {
                    let tile: Option<usize> = match &store.slots[target.index] {
                        Some(tc) => match &tc.position {
                            Some(pos) => tile_index(pos, index.width, index.height),
                            None => None,
                        },
                        None => None,
                    };
                    assert(broken_upto(
                        before,
                        index@,
                        w,
                        h,
                        target.index as int,
                        i as int,
                        mid[target.index as int],
                    ));
                    match tile {
                        Some(t) => {
                            match index.breakable[t] {
                                Some(asked) => {
                                    if asked == tool {
                                        match &mut store.slots[target.index] {
                                            Some(tc) => {
                                                queue_blow(tc, blow_from(amt));
                                            },
                                            None => {},
                                        }
                                    }
                                },
                                None => {},
                            }
                        },
                        None => {},
                    }
                }
            },
            None => {},
        }
        proof {
            let after = store.slots@;
            assert forall|j: int| 0 <= j < n implies broken_upto(
                before,
                index@,
                w,
                h,
                j,
                i + 1,
                #[trigger] after[j],
            ) by {
                assert(broken_upto(before, index@, w, h, j, i as int, mid[j]));
                let e = Entity { index: j as usize };
                let earlier = blows_on(before, index@, w, h, e, i as int);
                match before[j] {
                    Some(old) => {
                        if blow_of(before, index@, w, h, i as int, e).is_some() {
                            assert(old.pending() + earlier.push(
                                blow_of(before, index@, w, h, i as int, e).unwrap(),
                            ) =~= (old.pending() + earlier).push(
                                blow_of(before, index@, w, h, i as int, e).unwrap(),
                            ));
                        }
                    },
                    None => {},
                }
            }
        }
        i = i + 1;
    }
}

/// A wish to break that comes with the wrong tool lands no blow.
pub proof fn lemma_wrong_tool_lands_nothing(
    slots: Seq<Option<Components>>,
    index: IndexView,
    width: int,
    height: int,
    actor: int,
    target: Entity,
)
    requires
        0 <= actor < slots.len(),
        slots[actor].is_some(),
        tool_asked(slots, index, width, height, target) != Some(tool_in_hand(slots[actor].unwrap())),
    ensures
        blow_of(slots, index, width, height, actor, target).is_none(),
{
}

/// Where every wish against a target comes with the wrong tool, no blow is
/// landed on it at all.
pub proof fn lemma_wrong_tools_land_nothing(
    slots: Seq<Option<Components>>,
    index: IndexView,
    width: int,
    height: int,
    target: Entity,
    n: int,
)
    requires
        0 <= n <= slots.len(),
        forall|actor: int|
            0 <= actor < n && (#[trigger] slots[actor]).is_some() && slots[actor].unwrap().break_action
                == Some(BreakAction { target }) ==> tool_asked(slots, index, width, height, target)
                != Some(tool_in_hand(slots[actor].unwrap())),
    ensures
        blows_on(slots, index, width, height, target, n) == Seq::<i32>::empty(),
    decreases n,
{
    if n > 0 {
        lemma_wrong_tools_land_nothing(slots, index, width, height, target, n - 1);
    }
}

/// A target against which every wish comes with the wrong tool leaves break
/// resolution as it entered it, but for its own wish to break: its queue of
/// blows, its health and its being breakable are untouched. If it had no
/// blows pending, damage resolution then leaves its health untouched too.
pub proof fn lemma_rejected_break_changes_nothing(
    before: Seq<Option<Components>>,
    index: IndexView,
    width: int,
    height: int,
    target: Entity,
    now: Option<Components>,
)
    requires
        target.index < before.len(),
        before[target.index as int].is_some(),
        broken_upto(before, index, width, height, target.index as int, before.len() as int, now),
        forall|actor: int|
            0 <= actor < before.len() && (#[trigger] before[actor]).is_some()
                && before[actor].unwrap().break_action == Some(BreakAction { target })
                ==> tool_asked(before, index, width, height, target) != Some(
                tool_in_hand(before[actor].unwrap()),
            ),
    ensures
        now.is_some(),
        now.unwrap().health == before[target.index as int].unwrap().health,
        now.unwrap().breakable == before[target.index as int].unwrap().breakable,
        now.unwrap().position == before[target.index as int].unwrap().position,
        now.unwrap().pending() == before[target.index as int].unwrap().pending(),
        before[target.index as int].unwrap().pending().len() == 0 ==> damaged(now.unwrap()).health
            == before[target.index as int].unwrap().health,
{
    lemma_wrong_tools_land_nothing(before, index, width, height, target, before.len() as int);
    let old = before[target.index as int].unwrap();
    assert(old.pending() + Seq::<i32>::empty() =~= old.pending());
    assert(apart_from_breaking(now.unwrap()).health == apart_from_breaking(old).health);
    assert(apart_from_breaking(now.unwrap()).breakable == apart_from_breaking(old).breakable);
    assert(apart_from_breaking(now.unwrap()).position == apart_from_breaking(old).position);
    if old.pending().len() == 0 {
        assert(now.unwrap().pending() =~= Seq::<i32>::empty());
        match now.unwrap().health {
            Some(health) => {
                crate::damage::lemma_no_blows_no_harm(health);
            },
            None => {},
        }
    }
}

} // verus!
