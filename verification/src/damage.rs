//! Damage resolution: the blows queued on an entity during a turn are
//! applied together, once.

use vstd::prelude::*;
use crate::components::HealthStats;
use crate::store::Components;
use crate::store::Store;

verus! {

/// What one blow takes off after the defense has absorbed its share.
pub open spec fn effective_damage(amount: int, defense: int) -> int {
    if amount - defense > 0 {
        amount - defense
    } else {
        0
    }
}

/// The sum of what the blows take off, each weakened by the defense.
pub open spec fn total_damage(amounts: Seq<i32>, defense: int) -> int
    decreases amounts.len(),
{
    if amounts.len() == 0 {
        0
    } else {
        total_damage(amounts.drop_last(), defense) + effective_damage(
            amounts.last() as int,
            defense,
        )
    }
}

/// The hit points left after the blows: never below zero.
pub open spec fn hp_after(hp: int, amounts: Seq<i32>, defense: int) -> int {
    if hp - total_damage(amounts, defense) > 0 {
        hp - total_damage(amounts, defense)
    } else {
        0
    }
}

/// No blow heals: the total is never negative.
pub proof fn lemma_total_damage_nonnegative(amounts: Seq<i32>, defense: int)
    ensures
        total_damage(amounts, defense) >= 0,
    decreases amounts.len(),
{
    if amounts.len() > 0 {
        lemma_total_damage_nonnegative(amounts.drop_last(), defense);
    }
}

/// The total over two runs of blows is the sum of their totals, so blows
/// from several sources compose additively.
pub proof fn lemma_total_damage_concat(first: Seq<i32>, second: Seq<i32>, defense: int)
    ensures
        total_damage(first + second, defense) == total_damage(first, defense) + total_damage(
            second,
            defense,
        ),
    decreases second.len(),
{
    if second.len() == 0 {
        assert(first + second =~= first);
    } else {
        lemma_total_damage_concat(first, second.drop_last(), defense);
        assert((first + second).drop_last() =~= first + second.drop_last());
        assert((first + second).last() == second.last());
    }
}

/// Hit points never rise through damage, and never fall below zero.
pub proof fn lemma_hp_after_bounds(hp: int, amounts: Seq<i32>, defense: int)
    requires
        hp >= 0,
    ensures
        0 <= hp_after(hp, amounts, defense) <= hp,
{
    lemma_total_damage_nonnegative(amounts, defense);
}

/// What one blow takes off an entity with the given defense.
pub fn weakened(amount: i32, defense: usize) -> (r: usize)
    ensures
        r == effective_damage(amount as int, defense as int),
{
    if amount <= 0 {
        0
    } else {
        let blow: usize = amount as usize;
        if blow > defense {
            blow - defense
        } else {
            0
        }
    }
}

impl HealthStats {
    /// Applies a turn's blows: each is weakened by the defense, and their
    /// sum is taken off the hit points, which stop at zero.
    pub fn apply_damage(&mut self, amounts: &Vec<i32>)
        ensures
            final(self).hp == hp_after(old(self).hp as int, amounts@, old(self).defense as int),
            final(self).max_hp == old(self).max_hp,
            final(self).defense == old(self).defense,
    {
        let defense: usize = self.defense;
        let mut left: usize = self.hp;
        let mut i: usize = 0;
        while i < amounts.len()
            invariant
                i <= amounts@.len(),
                left == hp_after(old(self).hp as int, amounts@.take(i as int), defense as int),
            decreases amounts@.len() - i,
        {
            let blow: usize = weakened(amounts[i], defense);
            proof {
                let before = amounts@.take(i as int);
                let now = amounts@.take(i + 1);
                assert(now.drop_last() =~= before);
                assert(now.last() == amounts@[i as int]);
                lemma_total_damage_nonnegative(before, defense as int);
            }
            if blow >= left {
                left = 0;
            } else {
                left = left - blow;
            }
            i = i + 1;
        }
        proof {
            assert(amounts@.take(amounts@.len() as int) =~= amounts@);
        }
        self.hp = left;
    }

    /// Whether the hit points are used up. That is the mark by which the
    /// dead are known when they are handled, later in the turn; damage
    /// resolution itself removes nothing.
    pub fn is_dead(&self) -> (r: bool)
        ensures
            r == (self.hp == 0),
    {
        self.hp == 0
    }
}

/// The health after the pending blows were applied.
pub open spec fn health_after(health: HealthStats, pending: Seq<i32>) -> HealthStats {
    HealthStats {
        hp: hp_after(health.hp as int, pending, health.defense as int) as usize,
        max_hp: health.max_hp,
        defense: health.defense,
    }
}

/// An entity after its damage was resolved: the queue of blows is gone, and
/// the health, where there is one, has taken them.
pub open spec fn damaged(c: Components) -> Components {
    Components {
        health: match c.health {
            Some(health) => Some(health_after(health, c.pending())),
            None => None,
        },
        suffer_damage: None,
        ..c
    }
}

/// A slot after damage resolution.
pub open spec fn damaged_slot(slot: Option<Components>) -> Option<Components> {
    match slot {
        Some(c) => Some(damaged(c)),
        None => None,
    }
}

/// Resolves the damage of one entity.
pub fn take_damage(c: &mut Components)
    ensures
        *final(c) == damaged(*old(c)),
{
    let queue = c.suffer_damage.take();
    match queue {
        Some(blows) => {
            match &mut c.health {
                Some(health) => {
                    proof {
                        lemma_hp_after_bounds(
                            health.hp as int,
                            blows.amount@,
                            health.defense as int,
                        );
                    }
                    health.apply_damage(&blows.amount);
                },
                None => {},
            }
        },
        None => {
            proof {
                match c.health {
                    Some(health) => {
                        lemma_no_blows_no_harm(health);
                    },
                    None => {},
                }
            }
        },
    }
}

/// Without pending blows the health stays as it is.
pub proof fn lemma_no_blows_no_harm(health: HealthStats)
    ensures
        health_after(health, Seq::<i32>::empty()) == health,
{
}

/// Whether `after` is what damage resolution makes of `before`.
pub open spec fn damage_resolved(
    before: Seq<Option<Components>>,
    after: Seq<Option<Components>>,
) -> bool {
    &&& after.len() == before.len()
    &&& forall|i: int| 0 <= i < before.len() ==> #[trigger] after[i] == damaged_slot(before[i])
}

/// Resolves the damage of every entity, once: each entity's pending blows
/// are applied to its own health and its queue is emptied.
pub fn resolve_damage(store: &mut Store)
    ensures
        damage_resolved(old(store)@, final(store)@),
{
    let n: usize = store.slots.len();
    let mut i: usize = 0;
    while i < n
        invariant
            i <= n,
            n == old(store)@.len(),
            store.slots@.len() == n,
            forall|j: int| 0 <= j < i ==> #[trigger] store.slots@[j] == damaged_slot(old(store)@[j]),
            forall|j: int| i <= j < n ==> #[trigger] store.slots@[j] == old(store)@[j],
        decreases n - i,
    {
        match &mut store.slots[i] {
            Some(c) => {
                take_damage(c);
            },
            None => {},
        }
        i = i + 1;
    }
}

} // verus!
