//! The world and its ticks: the entity store with the resources around it,
//! and the ordered run of the systems that makes up a turn.

use vstd::prelude::*;
use crate::combat::attacks_resolved;
use crate::combat::resolve_attacks;
use crate::components::Entity;
use crate::damage::damage_resolved;
use crate::damage::resolve_damage;
use crate::data_read::items::ItemDatabase;
use crate::deletion::clear_signals;
use crate::deletion::conditions_judged;
use crate::deletion::dead_handled;
use crate::deletion::evaluate_delete_conditions;
use crate::deletion::reap;
use crate::deletion::signals_cleared;
use crate::deletion::terrain_after;
use crate::fishing::fishing_resolved;
use crate::fishing::resolve_fishing;
use crate::fishing::FishingRules;
use crate::indexing::SpatialIndex;
use crate::mining::breaks_resolved;
use crate::mining::resolve_breaks;
use crate::movement::moves_resolved;
use crate::movement::resolve_moves;
use crate::pickup::pickups_resolved;
use crate::pickup::resolve_pickups;
use crate::scheduler::after_activity;
use crate::scheduler::after_input;
use crate::scheduler::plan_after_activity;
use crate::scheduler::plan_after_input;
use crate::scheduler::AppState;
use crate::scheduler::PlayerResponse;
use crate::scheduler::TickPlan;
use crate::store::alive;
use crate::store::maintained;
use crate::store::Components;
use crate::store::Store;
use crate::tile_map::TileMap;
use crate::tile_map::WorldTile;

verus! {

/// The numbers that govern a game.
#[derive(Clone, Copy, Debug, PartialEq, Eq, Structural)]
pub struct Rules {
    /// The delay, in nanoseconds, beyond which the other beings have their
    /// turn while the player is bound to an activity.
    pub response_threshold: u64,
    pub fishing: FishingRules,
}

/// The entities and the resources that the systems share.
#[derive(Debug)]
pub struct World {
    pub store: Store,
    pub map: TileMap,
    pub index: SpatialIndex,
    pub items: ItemDatabase,
    /// The entity that the player steers.
    pub player: Option<Entity>,
    /// The mode of the game. It is read when a tick begins and written when
    /// the tick ends.
    pub app_state: AppState,
    /// The nanoseconds that the last tick took.
    pub delta_time: u64,
    /// The number, from 0 to 99, that decides the fishing attempts of the
    /// tick. Whoever drives the ticks draws it anew before each.
    pub roll: u32,
    pub rules: Rules,
}

impl World {
    /// The terrain is as large as it says, and the index covers the same
    /// grid.
    pub open spec fn wf(&self) -> bool {
        &&& self.map.wf()
        &&& self.index.wf()
        &&& self.index.width == self.map.width
        &&& self.index.height == self.map.height
    }

    /// Whether the player's entity signals that its activity has finished.
    pub open spec fn player_finished(&self) -> bool {
        self.player.is_some() && alive(self.store@, self.player.unwrap())
            && self.store@[self.player.unwrap().index as int].unwrap().finished_activity.is_some()
    }

    /// A world without entities on a grid of the given size, all ground,
    /// in the game and at rest.
    pub fn new(width: usize, height: usize, ground: WorldTile, items: ItemDatabase, rules: Rules) -> (r:
        Self)
        requires
            width * height <= usize::MAX,
        ensures
            r.wf(),
            r.store@.len() == 0,
            r.map.width == width,
            r.map.height == height,
            r.map.ground == ground,
            forall|i: int| 0 <= i < width * height ==> r.map.tiles@[i] == ground,
            r.index.reflects(Seq::empty()),
            r.items == items,
            r.player.is_none(),
            r.app_state == AppState::InGame,
            r.delta_time == 0,
            r.roll == 0,
            r.rules == rules,
    {
        World {
            store: Store::new(),
            map: TileMap::new(width, height, ground),
            index: SpatialIndex::new(width, height),
            items,
            player: None,
            app_state: AppState::InGame,
            delta_time: 0,
            roll: 0,
            rules,
        }
    }

    /// Whether the terrain is as large as it says, and the index covers the
    /// same grid: what every tick asks of the world.
    pub fn is_sound(&self) -> (r: bool)
        ensures
            r == self.wf(),
    {
        let tiles: usize = self.map.tiles.len();
        if self.index.width != self.map.width || self.index.height != self.map.height {
            return false;
        }
        if self.index.blocked.len() != tiles || self.index.breakable.len() != tiles
            || self.index.fishable.len() != tiles || self.index.tile_entities.len() != tiles {
            return false;
        }
        if self.map.width == 0 {
            return tiles == 0;
        }
        // The grid has `tiles` tiles exactly if `tiles` splits into rows of
        // the width, as many as the height.
        let rows: usize = tiles / self.map.width;
        let rest: usize = tiles % self.map.width;
        proof {
            let w = self.map.width as int;
            let h = self.map.height as int;
            vstd::arithmetic::div_mod::lemma_fundamental_div_mod(tiles as int, w);
            if rest == 0 && rows == self.map.height {
                assert(w * h == tiles) by (nonlinear_arith)
                    requires
                        tiles == w * (tiles as int / w) + tiles as int % w,
                        tiles as int % w == 0,
                        tiles as int / w == h,
                ;
                assert(w * h == self.map.width * self.map.height) by (nonlinear_arith)
                    requires
                        w == self.map.width,
                        h == self.map.height,
                ;
            }
            if self.map.width * self.map.height == tiles {
                vstd::arithmetic::div_mod::lemma_fundamental_div_mod_converse(tiles as int, w, h, 0);
            }
        }
        rest == 0 && rows == self.map.height
    }

    /// Whether the player's entity signals that its activity has finished.
    pub fn check_player_activity(&self) -> (r: bool)
        ensures
            r == self.player_finished(),
    {
        match self.player {
            Some(player) => match self.store.get(player) {
                Some(c) => c.finished_activity.is_some(),
                None => false,
            },
            None => false,
        }
    }
}

/// Whether two worlds share everything that no system touches: the item
/// definitions, the player, the mode, the time of the last tick, the roll
/// and the rules.
pub open spec fn same_settings(a: World, b: World) -> bool {
    &&& a.items == b.items
    &&& a.player == b.player
    &&& a.app_state == b.app_state
    &&& a.delta_time == b.delta_time
    &&& a.roll == b.roll
    &&& a.rules == b.rules
}

/// The run of the continuous systems, stage by stage. The index is rebuilt
/// from the store as the run finds it. Against that index the fishing is
/// resolved, then the wishes to break; then the attacks and the wishes to
/// pick up. Then the damage is resolved, the dead are handled, and the
/// delete conditions are judged. `fished`, `broken`, `fought`, `picked`,
/// `hurt` and `reaped` are the store after the first six of these stages;
/// the store of `after` is the store after the last.
pub open spec fn continuous_stages(
    before: World,
    after: World,
    fished: Seq<Option<Components>>,
    broken: Seq<Option<Components>>,
    fought: Seq<Option<Components>>,
    picked: Seq<Option<Components>>,
    hurt: Seq<Option<Components>>,
    reaped: Seq<Option<Components>>,
) -> bool {
    let w = before.map.width as int;
    let h = before.map.height as int;
    &&& after.index.width == before.index.width
    &&& after.index.height == before.index.height
    &&& after.index.reflects(before.store@)
    &&& fishing_resolved(
        before.store@,
        fished,
        after.index@,
        w,
        h,
        before.delta_time,
        before.roll,
        before.rules.fishing,
    )
    &&& breaks_resolved(fished, broken, after.index@, w, h)
    &&& attacks_resolved(broken, fought)
    &&& pickups_resolved(fought, picked)
    &&& damage_resolved(picked, hurt)
    &&& dead_handled(hurt, reaped, before.items)
    &&& after.map.width == before.map.width
    &&& after.map.height == before.map.height
    &&& after.map.ground == before.map.ground
    &&& after.map.tiles@ == terrain_after(
        hurt,
        before.map.tiles@,
        w,
        h,
        before.map.ground,
        hurt.len() as int,
    )
    &&& conditions_judged(reaped, after.store@, before.delta_time)
    &&& same_settings(before, after)
}

/// Whether `after` is what a run of the continuous systems makes of
/// `before`.
pub open spec fn ran_continuous(before: World, after: World) -> bool {
    exists|
        fished: Seq<Option<Components>>,
        broken: Seq<Option<Components>>,
        fought: Seq<Option<Components>>,
        picked: Seq<Option<Components>>,
        hurt: Seq<Option<Components>>,
        reaped: Seq<Option<Components>>,
    | #[trigger]
        continuous_stages(before, after, fished, broken, fought, picked, hurt, reaped)
}

/// Whether `after` is `before` with the finished signals cleared and
/// nothing else changed.
pub open spec fn ran_eof(before: World, after: World) -> bool {
    &&& signals_cleared(before.store@, after.store@)
    &&& after.map == before.map
    &&& after.index == before.index
    &&& same_settings(before, after)
}

/// Whether `after` is what the end of a tick makes of `before`, by way of
/// `mid`. Unless the game is bound to an activity, whose systems ran when
/// the tick began, the continuous systems run first, and `mid` is the
/// world after them. Then the finished signals are cleared, the entities
/// marked to go leave the store, the time that the tick took is recorded,
/// and the planned mode becomes the mode of the game.
pub open spec fn tick_ended(before: World, mid: World, after: World, plan: TickPlan, elapsed: u64) -> bool {
    &&& if before.app_state is ActivityBound {
        mid == before
    } else {
        ran_continuous(before, mid)
    }
    &&& exists|quiet: Seq<Option<Components>>| #[trigger]
        signals_cleared(mid.store@, quiet) && maintained(quiet, after.store@)
    &&& after.map == mid.map
    &&& after.index == mid.index
    &&& after.items == mid.items
    &&& after.player == mid.player
    &&& after.roll == mid.roll
    &&& after.rules == mid.rules
    &&& after.app_state == plan.next
    &&& after.delta_time == elapsed
}

/// The index that a run of the continuous systems leaves behind is that of
/// the store as the run found it: nothing that the run itself does to the
/// store shows in it.
pub proof fn lemma_index_is_of_turn_start(before: World, after: World)
    requires
        ran_continuous(before, after),
    ensures
        after.index.reflects(before.store@),
        after.index@ == crate::indexing::index_of(
            before.store@,
            before.index.width as int,
            before.index.height as int,
        ),
{
}

/// When a tick has ended, no entity carries a finished signal, and none is
/// marked to go: the signals are cleared whether or not anything has read
/// them, and what was marked has left the store.
pub proof fn lemma_tick_leaves_nothing_pending(
    before: World,
    mid: World,
    after: World,
    plan: TickPlan,
    elapsed: u64,
)
    requires
        tick_ended(before, mid, after, plan, elapsed),
    ensures
        forall|j: int|
            0 <= j < after.store@.len() && (#[trigger] after.store@[j]).is_some() ==> {
                &&& after.store@[j].unwrap().finished_activity.is_none()
                &&& after.store@[j].unwrap().doomed.is_none()
            },
        after.app_state == plan.next,
        after.delta_time == elapsed,
{
    let quiet = choose|quiet: Seq<Option<Components>>| #[trigger]
        signals_cleared(mid.store@, quiet) && maintained(quiet, after.store@);
    assert forall|j: int| 0 <= j < after.store@.len() && (#[trigger] after.store@[j]).is_some() implies {
        &&& after.store@[j].unwrap().finished_activity.is_none()
        &&& after.store@[j].unwrap().doomed.is_none()
    } by {
        assert(after.store@[j] == crate::store::swept(quiet[j]));
        assert(quiet[j] == crate::deletion::quieted(mid.store@[j]));
    }
}

/// The game: the world, advanced one tick at a time.
#[derive(Debug)]
pub struct State {
    pub ecs: World,
}

impl State {
    /// Lets the other beings act on what they have decided: their wishes to
    /// move are resolved against the index.
    pub fn run_response_systems(&mut self)
        requires
            old(self).ecs.wf(),
        ensures
            final(self).ecs.wf(),
            moves_resolved(
                old(self).ecs.store@,
                final(self).ecs.store@,
                old(self).ecs.index@,
                old(self).ecs.index.width as int,
                old(self).ecs.index.height as int,
            ),
            final(self).ecs.map == old(self).ecs.map,
            final(self).ecs.index == old(self).ecs.index,
            same_settings(old(self).ecs, final(self).ecs),
    {
        resolve_moves(&mut self.ecs.store, &self.ecs.index);
    }

    /// Runs the systems that run in every tick, in their order: the index
    /// is rebuilt, the fishing and the wishes to break are resolved against
    /// it, the attacks and the wishes to pick up are resolved, the damage
    /// is resolved, the dead are handled, and the delete conditions are
    /// judged. The time that fishing and timed conditions
    /// count is that of the last tick.
    pub fn run_continuous_systems(&mut self)
        requires
            old(self).ecs.wf(),
        ensures
            final(self).ecs.wf(),
            ran_continuous(old(self).ecs, final(self).ecs),
    {
        let nanos: u64 = self.ecs.delta_time;
        let roll: u32 = self.ecs.roll;
        let rules: FishingRules = self.ecs.rules.fishing;
        self.ecs.index.rebuild(&self.ecs.store);
        resolve_fishing(&mut self.ecs.store, &self.ecs.index, nanos, roll, &rules);
        let ghost fished = self.ecs.store@;
        resolve_breaks(&mut self.ecs.store, &self.ecs.index);
        let ghost broken = self.ecs.store@;
        resolve_attacks(&mut self.ecs.store);
        let ghost fought = self.ecs.store@;
        resolve_pickups(&mut self.ecs.store);
        let ghost picked = self.ecs.store@;
        resolve_damage(&mut self.ecs.store);
        let ghost hurt = self.ecs.store@;
        reap(&mut self.ecs.store, &mut self.ecs.map, &self.ecs.items);
        let ghost reaped = self.ecs.store@;
        evaluate_delete_conditions(&mut self.ecs.store, nanos);
        proof {
            assert(continuous_stages(
                old(self).ecs,
                self.ecs,
                fished,
                broken,
                fought,
                picked,
                hurt,
                reaped,
            ));
        }
    }

    /// Systems that need to be ran after most other systems are finished EOF - end of frame
    pub fn run_eof_systems(&mut self)
        ensures
            ran_eof(old(self).ecs, final(self).ecs),
    {
        clear_signals(&mut self.ecs.store);
    }

    /// Begins a tick, and says what the scheduler has decided for it. In
    /// the game, and in the menu, nothing happens yet: the plan goes by
    /// what the player did, and in the menu there is nothing to plan.
    /// During an activity the continuous systems run first, and the plan
    /// goes by the signal of the player's entity after them. If the plan
    /// says so, the other beings are to have their turn before the tick is
    /// ended.
    pub fn begin_tick(&mut self, response: PlayerResponse) -> (plan: TickPlan)
        requires
            old(self).ecs.wf(),
        ensures
            final(self).ecs.wf(),
            match old(self).ecs.app_state {
                AppState::InMenu => final(self).ecs == old(self).ecs && plan == (TickPlan {
                    next: AppState::InMenu,
                    run_response: false,
                }),
                AppState::InGame => final(self).ecs == old(self).ecs && plan == after_input(
                    response,
                ),
                AppState::ActivityBound { response_delay } => ran_continuous(
                    old(self).ecs,
                    final(self).ecs,
                ) && plan == after_activity(
                    response_delay,
                    final(self).ecs.player_finished(),
                    old(self).ecs.rules.response_threshold,
                    old(self).ecs.delta_time,
                ),
            },
    {
        match self.ecs.app_state {
            AppState::InMenu => TickPlan { next: AppState::InMenu, run_response: false },
            AppState::InGame => plan_after_input(response),
            AppState::ActivityBound { response_delay } => {
                self.run_continuous_systems();
                let finished: bool = self.ecs.check_player_activity();
                plan_after_activity(
                    response_delay,
                    finished,
                    self.ecs.rules.response_threshold,
                    self.ecs.delta_time,
                )
            },
        }
    }

    /// Ends a tick that was begun with `plan` and took `elapsed`
    /// nanoseconds.
    pub fn end_tick(&mut self, plan: TickPlan, elapsed: u64)
        requires
            old(self).ecs.wf(),
        ensures
            final(self).ecs.wf(),
            exists|mid: World| #[trigger] tick_ended(old(self).ecs, mid, final(self).ecs, plan, elapsed),
    {
        match self.ecs.app_state {
            AppState::ActivityBound { response_delay: _ } => {},
            _ => {
                self.run_continuous_systems();
            },
        }
        let ghost mid = self.ecs;
        self.run_eof_systems();
        let ghost quiet = self.ecs.store@;
        self.ecs.store.maintain();
        self.ecs.delta_time = elapsed;
        self.ecs.app_state = plan.next;
        proof {
            assert(signals_cleared(mid.store@, quiet) && maintained(quiet, self.ecs.store@));
            assert(tick_ended(old(self).ecs, mid, self.ecs, plan, elapsed));
        }
    }
}

} // verus!
