//! The being definitions, and the building of beings from them.

use vstd::prelude::*;
use crate::components::Blocking;
use crate::components::Entity;
use crate::components::GoalMoverAI;
use crate::components::HealthStats;
use crate::components::Monster;
use crate::components::Name;
use crate::components::Position;
use crate::components::RandomWalkerAI;
use crate::components::Renderable;
use crate::components::Strength;
use crate::data_read::EntityBuildError;
use crate::data_read::RawHealthStats;
use crate::lookup::first_index;
use crate::lookup::lemma_first_index_stays;
use crate::store::Components;
use crate::store::Store;
use crate::text::str_eq;
use crate::z_order::BEING_Z;

verus! {

/// The being definitions, in the order in which they were given.
#[derive(Debug)]
pub struct BeingDatabase {
    data: Vec<Being>,
}

/// The definition of one kind of being.
#[derive(Debug)]
pub struct Being {
    pub identifier: BeingID,
    pub name: String,
    pub monster: Option<String>,
    pub is_blocking: bool,
    pub ai: Option<String>,
    pub goals: Option<Vec<String>>,
    pub atlas_index: usize,
    pub fg: (u8, u8, u8),
    pub quips: Option<Vec<String>>,
    pub strength: Option<usize>,
    pub health_stats: Option<RawHealthStats>,
}

/// Identifier under which a being's definition is found.
#[derive(Clone, Copy, Debug, PartialEq, Eq, Structural)]
pub struct BeingID(pub u32);

impl BeingDatabase {
    /// The definitions, in the order in which they were given.
    pub closed spec fn view(&self) -> Seq<Being> {
        self.data@
    }

    /// The names of the beings, in the order of the definitions.
    pub open spec fn names(&self) -> Seq<Seq<char>> {
        Seq::new(self@.len(), |i: int| self@[i].name@)
    }

    /// The identifiers of the beings, in the order of the definitions.
    pub open spec fn ids(&self) -> Seq<u32> {
        Seq::new(self@.len(), |i: int| self@[i].identifier.0)
    }

    /// The place of the first being of the given name.
    pub open spec fn named(&self, name: Seq<char>) -> Option<int> {
        first_index(self.names(), name, self@.len() as int)
    }

    /// The place of the first being with the given identifier.
    pub open spec fn with_id(&self, id: u32) -> Option<int> {
        first_index(self.ids(), id, self@.len() as int)
    }

    pub fn empty() -> (r: Self)
        ensures
            r@.len() == 0,
    {
        BeingDatabase { data: Vec::new() }
    }

    /// A database of the given definitions.
    pub fn new(data: Vec<Being>) -> (r: Self)
        ensures
            r@ == data@,
    {
        BeingDatabase { data }
    }

    /// The first definition of the given name, if there is one.
    pub fn get_by_name(&self, name: &String) -> (r: Option<&Being>)
        ensures
            r == match self.named(name@) {
                Some(i) => Some(&self@[i]),
                None => None,
            },
    {
        let mut i: usize = 0;
        while i < self.data.len()
            invariant
                i <= self@.len(),
                first_index(self.names(), name@, i as int).is_none(),
            decreases self@.len() - i,
        {
            if self.data[i].name == *name {
                proof {
                    lemma_first_index_stays(self.names(), name@, i as int, self@.len() as int);
                }
                return Some(&self.data[i]);
            }
            i = i + 1;
        }
        None
    }

    /// The first definition with the given identifier, if there is one.
    pub fn get_by_id(&self, id: u32) -> (r: Option<&Being>)
        ensures
            r == match self.with_id(id) {
                Some(i) => Some(&self@[i]),
                None => None,
            },
    {
        let mut i: usize = 0;
        while i < self.data.len()
            invariant
                i <= self@.len(),
                first_index(self.ids(), id, i as int).is_none(),
            decreases self@.len() - i,
        {
            if self.data[i].identifier.0 == id {
                proof {
                    lemma_first_index_stays(self.ids(), id, i as int, self@.len() as int);
                }
                return Some(&self.data[i]);
            }
            i = i + 1;
        }
        None
    }
}

/// Whether the definition asks for a being that pursues goals.
pub open spec fn pursues_goals(raw: Being) -> bool {
    raw.ai.is_some() && raw.ai.unwrap()@ == "goal"@
}

/// Whether the definition asks for a being that walks at random.
pub open spec fn walks_at_random(raw: Being) -> bool {
    raw.ai.is_some() && raw.ai.unwrap()@ == "random_walk"@
}

/// Whether the goal-seeking part of a being is what its definition asks
/// for: none unless the being pursues goals, and else one with no current
/// goal and the defined goals as its desires, in their order.
pub open spec fn desires_of(raw: Being, goal_mover: Option<GoalMoverAI>) -> bool {
    if pursues_goals(raw) && raw.goals.is_some() {
        &&& goal_mover.is_some()
        &&& goal_mover.unwrap().current.is_none()
        &&& goal_mover.unwrap().desires@.len() == raw.goals.unwrap()@.len()
        &&& forall|k: int|
            0 <= k < raw.goals.unwrap()@.len() ==> (#[trigger] goal_mover.unwrap().desires@[k]).0
                == raw.goals.unwrap()@[k]
    } else {
        goal_mover.is_none()
    }
}

/// What a being built from a definition carries, at the position given and
/// with the goal-seeking part given.
pub open spec fn being_parts(raw: Being, pos: Position, goal_mover: Option<GoalMoverAI>) -> Components {
    Components {
        name: Some(Name(raw.name)),
        position: Some(pos),
        renderable: Some(
            Renderable {
                fg: raw.fg,
                bg: (0u8, 0u8, 0u8, 0u8),
                atlas_index: raw.atlas_index,
                z_priority: BEING_Z,
            },
        ),
        monster: if raw.monster.is_some() {
            Some(Monster)
        } else {
            None
        },
        blocking: if raw.is_blocking {
            Some(Blocking)
        } else {
            None
        },
        strength: match raw.strength {
            Some(amt) => Some(Strength { amt }),
            None => None,
        },
        random_walker: if walks_at_random(raw) {
            Some(RandomWalkerAI)
        } else {
            None
        },
        goal_mover,
        health: match raw.health_stats {
            Some(stats) => Some(
                HealthStats { hp: stats.max_hp, max_hp: stats.max_hp, defense: stats.defense },
            ),
            None => None,
        },
        ..Components::bare()
    }
}

impl Being {
    /// The names of the being's goals, as desires.
    fn desires(goals: &Vec<String>) -> (r: Vec<Name>)
        ensures
            r@.len() == goals@.len(),
            forall|k: int| 0 <= k < goals@.len() ==> (#[trigger] r@[k]).0 == goals@[k],
    {
        let mut desires: Vec<Name> = Vec::new();
        let mut k: usize = 0;
        while k < goals.len()
            invariant
                k <= goals@.len(),
                desires@.len() == k,
                forall|j: int| 0 <= j < k ==> (#[trigger] desires@[j]).0 == goals@[j],
            decreases goals@.len() - k,
        {
            desires.push(Name(goals[k].clone()));
            k = k + 1;
        }
        desires
    }

    /// What a being of this definition carries when it stands at `pos`. A
    /// definition that asks for goals and defines none gives no being.
    pub fn components(&self, pos: Position) -> (r: Result<Components, EntityBuildError>)
        ensures
            match r {
                Ok(c) => !(pursues_goals(*self) && self.goals.is_none()) && c == being_parts(
                    *self,
                    pos,
                    c.goal_mover,
                ) && desires_of(*self, c.goal_mover),
                Err(e) => pursues_goals(*self) && self.goals.is_none() && e
                    == EntityBuildError::MissingGoals,
            },
    {
        let mut c: Components = Components::empty();
        c.name = Some(Name(self.name.clone()));
        c.position = Some(pos);
        c.renderable = Some(Renderable::default_bg(self.atlas_index, self.fg, BEING_Z));
        if self.monster.is_some() {
            c.monster = Some(Monster);
        }
        if self.is_blocking {
            c.blocking = Some(Blocking);
        }
        match self.strength {
            Some(amt) => {
                c.strength = Some(Strength { amt });
            },
            None => {},
        }
        match &self.ai {
            Some(ai_type) => {
                if str_eq(ai_type.as_str(), "random_walk") {
                    proof {
                        reveal_strlit("random_walk");
                        reveal_strlit("goal");
                        assert("random_walk"@.len() == 11);
                        assert("goal"@.len() == 4);
                    }
                    c.random_walker = Some(RandomWalkerAI);
                } else if str_eq(ai_type.as_str(), "goal") {
                    match &self.goals {
                        Some(goals) => {
                            c.goal_mover = Some(GoalMoverAI::with_desires(Being::desires(goals)));
                        },
                        None => {
                            return Err(EntityBuildError::MissingGoals);
                        },
                    }
                }
            },
            None => {},
        }
        match self.health_stats {
            Some(stats) => {
                c.health = Some(HealthStats::new(stats.max_hp, stats.defense));
            },
            None => {},
        }
        Ok(c)
    }
}

/// Attempts to create the being named `name` directly into the store, at
/// `pos`. The first definition of that name is the one used. Without such a
/// definition, and with one that asks for goals and defines none, nothing
/// is created.
pub fn build_being(name: &str, pos: Position, beings: &BeingDatabase, store: &mut Store) -> (r:
    Result<Entity, EntityBuildError>)
    ensures
        match beings.named(name@) {
            None => r == Err::<Entity, EntityBuildError>(EntityBuildError::UnknownBeing)
                && final(store)@ == old(store)@,
            Some(i) => if pursues_goals(beings@[i]) && beings@[i].goals.is_none() {
                r == Err::<Entity, EntityBuildError>(EntityBuildError::MissingGoals)
                    && final(store)@ == old(store)@
            } else {
                &&& r == Ok::<Entity, EntityBuildError>(Entity { index: old(store)@.len() as usize })
                &&& final(store)@.len() == old(store)@.len() + 1
                &&& final(store)@.take(old(store)@.len() as int) == old(store)@
                &&& final(store)@.last().is_some()
                &&& final(store)@.last().unwrap() == being_parts(
                    beings@[i],
                    pos,
                    final(store)@.last().unwrap().goal_mover,
                )
                &&& desires_of(beings@[i], final(store)@.last().unwrap().goal_mover)
            },
        },
{
    let wanted: String = crate::text::owned(name);
    let raw: &Being = match beings.get_by_name(&wanted) {
        Some(raw) => raw,
        None => {
            return Err(EntityBuildError::UnknownBeing);
        },
    };
    match raw.components(pos) {
        Ok(c) => {
            let e: Entity = store.create(c);
            proof {
                assert(store@.take(old(store)@.len() as int) =~= old(store)@);
            }
            Ok(e)
        },
        Err(e) => Err(e),
    }
}

} // verus!
