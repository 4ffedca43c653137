//! Fishing: a line is cast on a fishable tile, the entity waits while
//! attempts are made at fixed intervals, a fish bites, and the fish is
//! pulled in. The wait can be given up at any time.

use vstd::prelude::*;
use crate::components::Backpack;
use crate::components::FinishedActivity;
use crate::components::FishOnTheLine;
use crate::components::WaitingForFish;
use crate::indexing::IndexView;
use crate::indexing::SpatialIndex;
use crate::items::ItemID;
use crate::items::ItemQty;
use crate::store::Components;
use crate::store::Store;
use crate::tile_map::tile_at;
use crate::time::waited;
use crate::time::wait;

verus! {

/// The numbers that govern fishing. Chances are in percent.
#[derive(Clone, Copy, Debug, PartialEq, Eq, Structural)]
pub struct FishingRules {
    /// Nanoseconds of waiting that make one attempt.
    pub attempt_interval: u64,
    /// The chance that the first attempt succeeds.
    pub base_chance: u32,
    /// What every further attempt adds to the chance.
    pub chance_per_attempt: u32,
    /// The item that a catch puts into the backpack.
    pub catch_item: ItemID,
}

/// Where an entity stands in the course of fishing.
#[derive(Clone, Copy, Debug, PartialEq, Eq, Structural)]
pub enum FishingState {
    Idle,
    WaitingForFish(WaitingForFish),
    FishOnTheLine,
}

/// What can happen to a fishing entity.
#[derive(Clone, Copy, Debug, PartialEq, Eq, Structural)]
pub enum FishingEvent {
    /// The entity casts its line; `fishable` says whether the tile it aims
    /// at allows fishing.
    Cast { fishable: bool },
    /// Time goes by; `roll` is the number, from 0 to 99, that decides an
    /// attempt made now.
    Elapsed { nanos: u64, roll: u32 },
    /// The entity pulls the line in.
    Pull,
    /// The entity gives up.
    Cancel,
}

/// What a step of fishing came to.
#[derive(Clone, Copy, Debug, PartialEq, Eq, Structural)]
pub enum FishingOutcome {
    /// Nothing of note.
    Nothing,
    /// The line was cast where no fishing is possible; nothing changed.
    Rejected,
    /// The line is in the water.
    LineCast,
    /// An attempt was made and failed.
    Missed,
    /// An attempt was made and a fish has bitten.
    Bite,
    /// The fish was pulled in.
    Caught,
    /// The entity gave up, with nothing to show for it.
    Cancelled,
}

/// The chance, in percent, that the attempt with the given number succeeds;
/// attempts are numbered from 1. It starts at the base chance, grows by a
/// fixed amount with every attempt, and stops at 100.
pub open spec fn chance(rules: FishingRules, attempt: int) -> int {
    let raw = rules.base_chance + rules.chance_per_attempt * (attempt - 1);
    if raw > 100 {
        100
    } else {
        raw
    }
}

/// The number of attempts after one more; it stops at the largest number
/// there is.
pub open spec fn one_more(attempts: usize) -> usize {
    if attempts == usize::MAX {
        attempts
    } else {
        (attempts + 1) as usize
    }
}

/// One step of the fishing state machine.
pub open spec fn fishing_step(state: FishingState, event: FishingEvent, rules: FishingRules) -> (
    FishingState,
    FishingOutcome,
) {
    match (state, event) {
        (FishingState::Idle, FishingEvent::Cast { fishable }) => if fishable {
            (
                FishingState::WaitingForFish(
                    WaitingForFish { attempts: 0, time_since_last_attempt: 0 },
                ),
                FishingOutcome::LineCast,
            )
        } else {
            (FishingState::Idle, FishingOutcome::Rejected)
        },
        (FishingState::WaitingForFish(w), FishingEvent::Elapsed { nanos, roll }) => {
            let total = waited(w.time_since_last_attempt, nanos);
            if total >= rules.attempt_interval {
                let attempts = one_more(w.attempts);
                if roll < chance(rules, attempts as int) {
                    (FishingState::FishOnTheLine, FishingOutcome::Bite)
                } else {
                    (
                        FishingState::WaitingForFish(
                            WaitingForFish { attempts, time_since_last_attempt: 0 },
                        ),
                        FishingOutcome::Missed,
                    )
                }
            } else {
                (
                    FishingState::WaitingForFish(
                        WaitingForFish { attempts: w.attempts, time_since_last_attempt: total },
                    ),
                    FishingOutcome::Nothing,
                )
            }
        },
        (FishingState::FishOnTheLine, FishingEvent::Pull) => (
            FishingState::Idle,
            FishingOutcome::Caught,
        ),
        (FishingState::WaitingForFish(_), FishingEvent::Cancel) => (
            FishingState::Idle,
            FishingOutcome::Cancelled,
        ),
        (FishingState::FishOnTheLine, FishingEvent::Cancel) => (
            FishingState::Idle,
            FishingOutcome::Cancelled,
        ),
        _ => (state, FishingOutcome::Nothing),
    }
}

/// The state after a run of events, taken one after the other.
pub open spec fn fishing_run(state: FishingState, events: Seq<FishingEvent>, rules: FishingRules) -> FishingState
    decreases events.len(),
{
    if events.len() == 0 {
        state
    } else {
        fishing_step(fishing_run(state, events.drop_last(), rules), events.last(), rules).0
    }
}

/// A fish bites only on an attempt: a step that ends with a fish on the
/// line, and did not begin with one, begins in the waiting state, is the
/// passing of time, and counts at least one attempt.
pub proof fn lemma_bite_needs_attempt(state: FishingState, event: FishingEvent, rules: FishingRules)
    requires
        fishing_step(state, event, rules).0 is FishOnTheLine,
        !(state is FishOnTheLine),
    ensures
        state is WaitingForFish,
        event is Elapsed,
        fishing_step(state, event, rules).1 is Bite,
        one_more(state->WaitingForFish_0.attempts) >= 1,
        waited(state->WaitingForFish_0.time_since_last_attempt, event->nanos)
            >= rules.attempt_interval,
{
}

/// An idle entity never has a fish on the line after one step.
pub proof fn lemma_idle_never_bites(event: FishingEvent, rules: FishingRules)
    ensures
        !(fishing_step(FishingState::Idle, event, rules).0 is FishOnTheLine),
{
}

/// Whatever happens to an entity that starts out idle, if it ends with a
/// fish on the line then at some point before it was waiting for fish, and
/// the step that followed was an attempt that succeeded.
pub proof fn lemma_bite_passes_through_waiting(events: Seq<FishingEvent>, rules: FishingRules)
    requires
        fishing_run(FishingState::Idle, events, rules) is FishOnTheLine,
    ensures
        exists|k: int|
            0 <= k < events.len() && (#[trigger] fishing_run(
                FishingState::Idle,
                events.take(k),
                rules,
            )) is WaitingForFish && fishing_step(
                fishing_run(FishingState::Idle, events.take(k), rules),
                events[k],
                rules,
            ).1 is Bite,
    decreases events.len(),
{
    if events.len() == 0 {
    } else {
        let before = fishing_run(FishingState::Idle, events.drop_last(), rules);
        let last = events.len() - 1;
        assert(events.take(last) =~= events.drop_last());
        if before is FishOnTheLine {
            lemma_bite_passes_through_waiting(events.drop_last(), rules);
            let k = choose|k: int|
                0 <= k < events.drop_last().len() && (#[trigger] fishing_run(
                    FishingState::Idle,
                    events.drop_last().take(k),
                    rules,
                )) is WaitingForFish && fishing_step(
                    fishing_run(FishingState::Idle, events.drop_last().take(k), rules),
                    events.drop_last()[k],
                    rules,
                ).1 is Bite;
            assert(events.drop_last().take(k) =~= events.take(k));
            assert(fishing_run(FishingState::Idle, events.take(k), rules) is WaitingForFish);
        } else {
            lemma_bite_needs_attempt(before, events.last(), rules);
            assert(fishing_run(FishingState::Idle, events.take(last), rules) is WaitingForFish);
        }
    }
}

/// The chance of an attempt, computed.
pub fn chance_of(rules: &FishingRules, attempt: usize) -> (r: u32)
    requires
        attempt >= 1,
    ensures
        r == chance(*rules, attempt as int),
{
    let steps: u128 = (attempt - 1) as u128;
    let per: u128 = rules.chance_per_attempt as u128;
    assert(per * steps <= 0xffff_ffff * 0xffff_ffff_ffff_ffff) by (nonlinear_arith)
        requires
            0 <= per <= 0xffff_ffff,
            0 <= steps <= 0xffff_ffff_ffff_ffff,
    ;
    let raw: u128 = rules.base_chance as u128 + per * steps;
    if raw > 100 {
        100
    } else {
        raw as u32
    }
}

/// One step of the fishing state machine, computed.
pub fn step(state: FishingState, event: FishingEvent, rules: &FishingRules) -> (r: (
    FishingState,
    FishingOutcome,
))
    ensures
        r == fishing_step(state, event, *rules),
{
    match state {
        FishingState::Idle => match event {
            FishingEvent::Cast { fishable } => {
                if fishable {
                    (FishingState::WaitingForFish(WaitingForFish::new(0)), FishingOutcome::LineCast)
                } else {
                    (FishingState::Idle, FishingOutcome::Rejected)
                }
            },
            _ => (state, FishingOutcome::Nothing),
        },
        FishingState::WaitingForFish(w) => match event {
            FishingEvent::Elapsed { nanos, roll } => {
                let total: u64 = wait(w.time_since_last_attempt, nanos);
                if total >= rules.attempt_interval {
                    let attempts: usize = if w.attempts == usize::MAX {
                        w.attempts
                    } else {
                        w.attempts + 1
                    };
                    if roll < chance_of(rules, attempts) {
                        (FishingState::FishOnTheLine, FishingOutcome::Bite)
                    } else {
                        (
                            FishingState::WaitingForFish(
                                WaitingForFish { attempts, time_since_last_attempt: 0 },
                            ),
                            FishingOutcome::Missed,
                        )
                    }
                } else {
                    (
                        FishingState::WaitingForFish(
                            WaitingForFish { attempts: w.attempts, time_since_last_attempt: total },
                        ),
                        FishingOutcome::Nothing,
                    )
                }
            },
            FishingEvent::Cancel => (FishingState::Idle, FishingOutcome::Cancelled),
            _ => (state, FishingOutcome::Nothing),
        },
        FishingState::FishOnTheLine => match event {
            FishingEvent::Pull => (FishingState::Idle, FishingOutcome::Caught),
            FishingEvent::Cancel => (FishingState::Idle, FishingOutcome::Cancelled),
            _ => (state, FishingOutcome::Nothing),
        },
    }
}

/// Where an entity stands in the course of fishing, read off what it
/// carries.
pub open spec fn fishing_state(c: Components) -> FishingState {
    if c.fish_on_the_line.is_some() {
        FishingState::FishOnTheLine
    } else {
        match c.waiting_for_fish {
            Some(w) => FishingState::WaitingForFish(w),
            None => FishingState::Idle,
        }
    }
}

/// What the entity's wish to fish comes to in the state it is in: with a
/// fish on the line it pulls, and otherwise it casts.
pub open spec fn wish_event(state: FishingState, fishable: bool) -> FishingEvent {
    if state is FishOnTheLine {
        FishingEvent::Pull
    } else {
        FishingEvent::Cast { fishable }
    }
}

/// The three steps that one turn takes an entity through: its wish to fish,
/// if it has one; its wish to give up, if it has one; and the passing of
/// the turn's time.
pub open spec fn after_wish(c: Components, fishable: bool, rules: FishingRules) -> (
    FishingState,
    FishingOutcome,
) {
    if c.fish_action.is_some() {
        fishing_step(fishing_state(c), wish_event(fishing_state(c), fishable), rules)
    } else {
        (fishing_state(c), FishingOutcome::Nothing)
    }
}

/// The state and the outcome after the second of the three steps: the wish
/// to give up, taken from where the first step led.
pub open spec fn after_cancel(c: Components, fishable: bool, rules: FishingRules) -> (
    FishingState,
    FishingOutcome,
) {
    if c.cancel_activity.is_some() {
        fishing_step(after_wish(c, fishable, rules).0, FishingEvent::Cancel, rules)
    } else {
        (after_wish(c, fishable, rules).0, FishingOutcome::Nothing)
    }
}

/// The state and the outcome after the last of the three steps: the passing
/// of the turn's time, taken from where the second step led.
pub open spec fn after_wait(
    c: Components,
    fishable: bool,
    nanos: u64,
    roll: u32,
    rules: FishingRules,
) -> (FishingState, FishingOutcome) {
    fishing_step(after_cancel(c, fishable, rules).0, FishingEvent::Elapsed { nanos, roll }, rules)
}

/// Whether the turn ended the entity's fishing: a fish has bitten, or the
/// entity gave up.
pub open spec fn fishing_over(
    c: Components,
    fishable: bool,
    nanos: u64,
    roll: u32,
    rules: FishingRules,
) -> bool {
    after_cancel(c, fishable, rules).1 is Cancelled || after_wait(c, fishable, nanos, roll, rules).1 is Bite
}

/// An entity after a turn of fishing. Both wishes are used up, the state
/// is the one the three steps lead to, and the finished signal is raised
/// where the fishing is over. The backpack is the one given.
pub open spec fn fished(
    c: Components,
    fishable: bool,
    nanos: u64,
    roll: u32,
    rules: FishingRules,
    backpack: Option<Backpack>,
) -> Components {
    let state = after_wait(c, fishable, nanos, roll, rules).0;
    Components {
        fish_action: None,
        cancel_activity: None,
        waiting_for_fish: match state {
            FishingState::WaitingForFish(w) => Some(w),
            _ => None,
        },
        fish_on_the_line: if state is FishOnTheLine {
            Some(FishOnTheLine)
        } else {
            None
        },
        finished_activity: if fishing_over(c, fishable, nanos, roll, rules) {
            Some(FinishedActivity)
        } else {
            c.finished_activity
        },
        backpack,
        ..c
    }
}

/// An entity that has no fish on the line before a turn has one after it
/// only by an attempt: the turn took it through the waiting state, and the
/// passing of the turn's time made an attempt that succeeded.
pub proof fn lemma_turn_bite_needs_attempt(
    c: Components,
    fishable: bool,
    nanos: u64,
    roll: u32,
    rules: FishingRules,
    backpack: Option<Backpack>,
)
    requires
        c.fish_on_the_line.is_none(),
        fished(c, fishable, nanos, roll, rules, backpack).fish_on_the_line.is_some(),
    ensures
        after_cancel(c, fishable, rules).0 is WaitingForFish,
        after_wait(c, fishable, nanos, roll, rules).1 is Bite,
        fished(c, fishable, nanos, roll, rules, backpack).finished_activity.is_some(),
{
    lemma_bite_needs_attempt(
        after_cancel(c, fishable, rules).0,
        FishingEvent::Elapsed { nanos, roll },
        rules,
    );
}

/// How the backpack changes when `granted` says that a fish was caught:
/// it holds one more of the item, unless it holds as many as can be
/// counted. Without a catch, and without a backpack, nothing changes.
pub open spec fn backpack_after(
    before: Option<Backpack>,
    after: Option<Backpack>,
    granted: bool,
    item: ItemID,
) -> bool {
    match before {
        Some(b) => if granted && b.count(item) < usize::MAX {
            after.is_some() && after.unwrap()@ == b@.insert(
                item.0,
                ItemQty((b.count(item) + 1) as usize),
            )
        } else {
            after == before
        },
        None => after.is_none(),
    }
}

/// How a slot stands after a turn of fishing.
pub open spec fn fished_slot(
    before: Option<Components>,
    now: Option<Components>,
    fishable: bool,
    nanos: u64,
    roll: u32,
    rules: FishingRules,
) -> bool {
    match before {
        Some(c) => {
            &&& now.is_some()
            &&& now.unwrap() == fished(c, fishable, nanos, roll, rules, now.unwrap().backpack)
            &&& backpack_after(
                c.backpack,
                now.unwrap().backpack,
                after_wish(c, fishable, rules).1 is Caught,
                rules.catch_item,
            )
        },
        None => now.is_none(),
    }
}

/// Whether the entity's wish to fish aims at a tile that the index lists as
/// fishable.
pub open spec fn aims_at_fishable(c: Components, index: IndexView, width: int, height: int) -> bool {
    match c.fish_action {
        Some(action) => match tile_at(action.target, width, height) {
            Some(t) => index.fishable[t],
            None => false,
        },
        None => false,
    }
}

/// Whether `after` is what a turn of fishing makes of `before`, against
/// the given index.
pub open spec fn fishing_resolved(
    before: Seq<Option<Components>>,
    after: Seq<Option<Components>>,
    index: IndexView,
    width: int,
    height: int,
    nanos: u64,
    roll: u32,
    rules: FishingRules,
) -> bool {
    &&& after.len() == before.len()
    &&& forall|j: int|
        0 <= j < before.len() ==> fished_slot(
            before[j],
            #[trigger] after[j],
            before[j].is_some() && aims_at_fishable(before[j].unwrap(), index, width, height),
            nanos,
            roll,
            rules,
        )
}

/// Takes one entity through a turn of fishing, and says what each of the
/// three steps came to.
pub fn fish(c: &mut Components, fishable: bool, nanos: u64, roll: u32, rules: &FishingRules) -> (r: (
    FishingOutcome,
    FishingOutcome,
    FishingOutcome,
))
    ensures
        fished_slot(Some(*old(c)), Some(*final(c)), fishable, nanos, roll, *rules),
        r.0 == after_wish(*old(c), fishable, *rules).1,
        r.1 == after_cancel(*old(c), fishable, *rules).1,
        r.2 == after_wait(*old(c), fishable, nanos, roll, *rules).1,
{
    let start: FishingState = if c.fish_on_the_line.is_some() {
        FishingState::FishOnTheLine
    } else {
        match c.waiting_for_fish {
            Some(w) => FishingState::WaitingForFish(w),
            None => FishingState::Idle,
        }
    };
    let wished: (FishingState, FishingOutcome) = if c.fish_action.is_some() {
        let event: FishingEvent = match start {
            FishingState::FishOnTheLine => FishingEvent::Pull,
            _ => FishingEvent::Cast { fishable },
        };
        step(start, event, rules)
    } else {
        (start, FishingOutcome::Nothing)
    };
    let cancelled: (FishingState, FishingOutcome) = if c.cancel_activity.is_some() {
        step(wished.0, FishingEvent::Cancel, rules)
    } else {
        (wished.0, FishingOutcome::Nothing)
    };
    let waited: (FishingState, FishingOutcome) = step(
        cancelled.0,
        FishingEvent::Elapsed { nanos, roll },
        rules,
    );
    c.fish_action = None;
    c.cancel_activity = None;
    match waited.0 {
        FishingState::Idle => {
            c.waiting_for_fish = None;
            c.fish_on_the_line = None;
        },
        FishingState::WaitingForFish(w) => {
            c.waiting_for_fish = Some(w);
            c.fish_on_the_line = None;
        },
        FishingState::FishOnTheLine => {
            c.waiting_for_fish = None;
            c.fish_on_the_line = Some(FishOnTheLine);
        },
    }
    let over: bool = match cancelled.1 {
        FishingOutcome::Cancelled => true,
        _ => match waited.1 {
            FishingOutcome::Bite => true,
            _ => false,
        },
    };
    if over {
        c.finished_activity = Some(FinishedActivity);
    }
    match wished.1 {
        FishingOutcome::Caught => {
            match &mut c.backpack {
                Some(backpack) => {
                    if backpack.quantity(rules.catch_item) < usize::MAX {
                        backpack.add_into_backpack(rules.catch_item, 1);
                    }
                },
                None => {},
            }
        },
        _ => {},
    }
    (wished.1, cancelled.1, waited.1)
}

/// Takes every entity through a turn of fishing. A wish to fish counts as
/// aimed at a fishable tile if the index lists its target as one. The one
/// roll decides every attempt that is made in the turn.
pub fn resolve_fishing(
    store: &mut Store,
    index: &SpatialIndex,
    nanos: u64,
    roll: u32,
    rules: &FishingRules,
)
    requires
        index.wf(),
    ensures
        fishing_resolved(
            old(store)@,
            final(store)@,
            index@,
            index.width as int,
            index.height as int,
            nanos,
            roll,
            *rules,
        ),
{
    let n: usize = store.slots.len();
    let mut i: usize = 0;
    while i < n
        invariant
            i <= n,
            n == old(store)@.len(),
            store.slots@.len() == n,
            index.wf(),
            forall|j: int|
                0 <= j < i ==> fished_slot(
                    old(store)@[j],
                    #[trigger] store.slots@[j],
                    old(store)@[j].is_some() && aims_at_fishable(
                        old(store)@[j].unwrap(),
                        index@,
                        index.width as int,
                        index.height as int,
                    ),
                    nanos,
                    roll,
                    *rules,
                ),
            forall|j: int| i <= j < n ==> #[trigger] store.slots@[j] == old(store)@[j],
        decreases n - i,
    {
        match &mut store.slots[i] {
            Some(c) => {
                let fishable: bool = match &c.fish_action {
                    Some(action) => index.is_fishable(&action.target),
                    None => false,
                };
                fish(c, fishable, nanos, roll, rules);
            },
            None => {},
        }
        i = i + 1;
    }
}

} // verus!
