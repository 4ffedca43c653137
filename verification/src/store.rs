//! The entity store: one slot per entity, holding what is attached to it.

use vstd::prelude::*;
use crate::components::AttackAction;
use crate::components::Backpack;
use crate::components::Blocking;
use crate::components::BreakAction;
use crate::components::Breakable;
use crate::components::CancelActivity;
use crate::components::DeathDrop;
use crate::components::DeleteCondition;
use crate::components::Entity;
use crate::components::FinishedActivity;
use crate::components::FishAction;
use crate::components::FishOnTheLine;
use crate::components::Fishable;
use crate::components::GoalMoverAI;
use crate::components::Grass;
use crate::components::HealthStats;
use crate::components::InBag;
use crate::components::Interactor;
use crate::components::Item;
use crate::components::Monster;
use crate::components::Name;
use crate::components::PickupAction;
use crate::components::Position;
use crate::components::RandomWalkerAI;
use crate::components::SelectedInventoryItem;
use crate::components::Renderable;
use crate::components::Strength;
use crate::components::SufferDamage;
use crate::components::WaitingForFish;
use crate::components::WantsToMove;
use crate::components::Water;
use crate::items::Equipable;

verus! {

/// Deletion of the entity has been asked for; it is carried out when the
/// turn is over.
#[derive(Clone, Copy, Debug, Default, PartialEq, Eq, Structural)]
pub struct Doomed;

/// Everything that is attached to one entity. A field that is `None` means
/// that the entity does not carry that component.
#[derive(Debug)]
pub struct Components {
    pub name: Option<Name>,
    pub position: Option<Position>,
    pub renderable: Option<Renderable>,
    pub blocking: Option<Blocking>,
    pub breakable: Option<Breakable>,
    pub fishable: Option<Fishable>,
    pub water: Option<Water>,
    pub grass: Option<Grass>,
    pub item: Option<Item>,
    pub monster: Option<Monster>,
    pub random_walker: Option<RandomWalkerAI>,
    pub goal_mover: Option<GoalMoverAI>,
    pub interactor: Option<Interactor>,
    pub strength: Option<Strength>,
    pub equipped: Option<Equipable>,
    pub health: Option<HealthStats>,
    pub death_drop: Option<DeathDrop>,
    pub backpack: Option<Backpack>,
    pub in_bag: Option<InBag>,
    pub selected_item: Option<SelectedInventoryItem>,
    pub wants_to_move: Option<WantsToMove>,
    pub attack_action: Option<AttackAction>,
    pub break_action: Option<BreakAction>,
    pub pickup_action: Option<PickupAction>,
    pub fish_action: Option<FishAction>,
    pub cancel_activity: Option<CancelActivity>,
    pub suffer_damage: Option<SufferDamage>,
    pub waiting_for_fish: Option<WaitingForFish>,
    pub fish_on_the_line: Option<FishOnTheLine>,
    pub finished_activity: Option<FinishedActivity>,
    pub delete_condition: Option<DeleteCondition>,
    pub doomed: Option<Doomed>,
}

impl Components {
    /// An entity that carries nothing.
    pub open spec fn bare() -> Components {
        Components {
            name: None,
            position: None,
            renderable: None,
            blocking: None,
            breakable: None,
            fishable: None,
            water: None,
            grass: None,
            item: None,
            monster: None,
            random_walker: None,
            goal_mover: None,
            interactor: None,
            strength: None,
            equipped: None,
            health: None,
            death_drop: None,
            backpack: None,
            in_bag: None,
            selected_item: None,
            wants_to_move: None,
            attack_action: None,
            break_action: None,
            pickup_action: None,
            fish_action: None,
            cancel_activity: None,
            suffer_damage: None,
            waiting_for_fish: None,
            fish_on_the_line: None,
            finished_activity: None,
            delete_condition: None,
            doomed: None,
        }
    }

    /// An entity that carries nothing.
    pub fn empty() -> (r: Self)
        ensures
            r == Components::bare(),
    {
        Components {
            name: None,
            position: None,
            renderable: None,
            blocking: None,
            breakable: None,
            fishable: None,
            water: None,
            grass: None,
            item: None,
            monster: None,
            random_walker: None,
            goal_mover: None,
            interactor: None,
            strength: None,
            equipped: None,
            health: None,
            death_drop: None,
            backpack: None,
            in_bag: None,
            selected_item: None,
            wants_to_move: None,
            attack_action: None,
            break_action: None,
            pickup_action: None,
            fish_action: None,
            cancel_activity: None,
            suffer_damage: None,
            waiting_for_fish: None,
            fish_on_the_line: None,
            finished_activity: None,
            delete_condition: None,
            doomed: None,
        }
    }

    /// The blows that are yet to be applied, oldest first.
    pub open spec fn pending(&self) -> Seq<i32> {
        match self.suffer_damage {
            Some(queue) => queue.amount@,
            None => Seq::empty(),
        }
    }
}

/// The entities of the world. Slot `i` holds what is attached to the entity
/// with index `i`, or nothing once that entity is gone; a slot is never
/// handed out twice, so a handle never comes to name another entity.
#[derive(Debug)]
pub struct Store {
    pub slots: Vec<Option<Components>>,
}

/// Whether an entity lives under the handle.
pub open spec fn alive(slots: Seq<Option<Components>>, e: Entity) -> bool {
    e.index < slots.len() && slots[e.index as int].is_some()
}

impl Store {
    /// The slots, in their order.
    pub open spec fn view(&self) -> Seq<Option<Components>> {
        self.slots@
    }

    pub fn new() -> (r: Self)
        ensures
            r@.len() == 0,
    {
        Store { slots: Vec::new() }
    }

    /// The number of slots, those of entities that are gone included.
    pub fn len(&self) -> (r: usize)
        ensures
            r == self@.len(),
    {
        self.slots.len()
    }

    /// Adds an entity that carries `components`, in a slot of its own.
    pub fn create(&mut self, components: Components) -> (e: Entity)
        ensures
            e.index == old(self)@.len(),
            final(self)@ == old(self)@.push(Some(components)),
    {
        let index: usize = self.slots.len();
        self.slots.push(Some(components));
        Entity { index }
    }

    /// Whether an entity lives under the handle.
    pub fn is_alive(&self, e: Entity) -> (r: bool)
        ensures
            r == alive(self@, e),
    {
        e.index < self.slots.len() && self.slots[e.index].is_some()
    }

    /// What the entity carries, or nothing where no entity lives under the
    /// handle.
    pub fn get(&self, e: Entity) -> (r: Option<&Components>)
        ensures
            match r {
                Some(c) => alive(self@, e) && *c == self@[e.index as int].unwrap(),
                None => !alive(self@, e),
            },
    {
        if e.index < self.slots.len() {
            self.slots[e.index].as_ref()
        } else {
            None
        }
    }

    /// Removes the entity at once, and says whether there was one.
    pub fn delete(&mut self, e: Entity) -> (r: bool)
        ensures
            r == alive(old(self)@, e),
            final(self)@ == removed(old(self)@, e),
    {
        if e.index < self.slots.len() && self.slots[e.index].is_some() {
            self.slots.set(e.index, None);
            true
        } else {
            false
        }
    }

    /// Carries out the deletions that were asked for: every entity that is
    /// doomed leaves the store, and every other slot stays as it is.
    pub fn maintain(&mut self)
        ensures
            maintained(old(self)@, final(self)@),
    {
        let n: usize = self.slots.len();
        let mut i: usize = 0;
        while i < n
            invariant
                i <= n,
                self.slots@.len() == n,
                n == old(self)@.len(),
                forall|j: int| 0 <= j < i ==> #[trigger] self.slots@[j] == swept(old(self)@[j]),
                forall|j: int| i <= j < n ==> #[trigger] self.slots@[j] == old(self)@[j],
            decreases n - i,
        {
            let gone: bool = match &self.slots[i] {
                Some(c) => c.doomed.is_some(),
                None => false,
            };
            if gone {
                self.slots.set(i, None);
            }
            i = i + 1;
        }
    }
}

/// The slots after the entity under `e` was removed.
pub open spec fn removed(slots: Seq<Option<Components>>, e: Entity) -> Seq<Option<Components>> {
    if alive(slots, e) {
        slots.update(e.index as int, None)
    } else {
        slots
    }
}

/// Whether `after` is `before` with the deletions carried out.
pub open spec fn maintained(before: Seq<Option<Components>>, after: Seq<Option<Components>>) -> bool {
    &&& after.len() == before.len()
    &&& forall|i: int| 0 <= i < before.len() ==> #[trigger] after[i] == swept(before[i])
}

/// A slot after the deletions were carried out: empty if its entity was
/// doomed, and unchanged otherwise.
pub open spec fn swept(slot: Option<Components>) -> Option<Components> {
    match slot {
        Some(c) => if c.doomed.is_some() {
            None
        } else {
            slot
        },
        None => None,
    }
}

} // verus!
