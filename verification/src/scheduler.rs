//! The turn scheduler: which mode the game is in, and what a tick does to
//! it.

use vstd::prelude::*;
use crate::time::wait;
use crate::time::waited;

verus! {

/// Defines the app's state for the game
#[derive(Clone, Copy, Debug, PartialEq, Eq, Structural)]
pub enum AppState {
    InMenu,
    InGame,
    /// Can only perform a specific activity that is currently happening.
    /// The delay counts, in nanoseconds, the time since the other beings
    /// last had their turn.
    ActivityBound { response_delay: u64 },
}

impl AppState {
    /// Creates the enum variant ActivityBound with zero duration
    pub fn activity_bound() -> (r: Self)
        ensures
            r == (AppState::ActivityBound { response_delay: 0 }),
    {
        AppState::ActivityBound { response_delay: 0 }
    }
}

/// What the player did with a tick.
#[derive(Clone, Copy, Debug, PartialEq, Eq, Structural)]
pub enum PlayerResponse {
    /// Player hasn't done anything yet
    Waiting,
    /// The player has used up a turn.
    TurnAdvance,
    /// The player asks for another mode.
    StateChange(AppState),
}

/// What the scheduler has decided for a tick: the mode of the next tick,
/// and whether the other beings have their turn in this one.
#[derive(Clone, Copy, Debug, PartialEq, Eq, Structural)]
pub struct TickPlan {
    pub next: AppState,
    pub run_response: bool,
}

/// The plan for a tick in the game, by what the player did: a waiting
/// player changes nothing, a turn taken gives the other beings theirs, and
/// a mode asked for is the next mode.
pub open spec fn after_input(response: PlayerResponse) -> TickPlan {
    match response {
        PlayerResponse::Waiting => TickPlan { next: AppState::InGame, run_response: false },
        PlayerResponse::TurnAdvance => TickPlan { next: AppState::InGame, run_response: true },
        PlayerResponse::StateChange(state) => TickPlan { next: state, run_response: false },
    }
}

/// The plan for a tick during an activity. If the player's activity has
/// finished, the game goes on as usual. Else, if the delay has grown beyond
/// the threshold, the other beings have their turn and the delay starts
/// again at zero. Else the time gone by is added to the delay.
pub open spec fn after_activity(
    response_delay: u64,
    finished: bool,
    threshold: u64,
    nanos: u64,
) -> TickPlan {
    if finished {
        TickPlan { next: AppState::InGame, run_response: false }
    } else if response_delay > threshold {
        TickPlan { next: AppState::ActivityBound { response_delay: 0 }, run_response: true }
    } else {
        TickPlan {
            next: AppState::ActivityBound { response_delay: waited(response_delay, nanos) },
            run_response: false,
        }
    }
}

/// The plan for a tick in the game.
pub fn plan_after_input(response: PlayerResponse) -> (r: TickPlan)
    ensures
        r == after_input(response),
{
    match response {
        PlayerResponse::Waiting => TickPlan { next: AppState::InGame, run_response: false },
        PlayerResponse::TurnAdvance => TickPlan { next: AppState::InGame, run_response: true },
        PlayerResponse::StateChange(state) => TickPlan { next: state, run_response: false },
    }
}

/// The plan for a tick during an activity.
pub fn plan_after_activity(response_delay: u64, finished: bool, threshold: u64, nanos: u64) -> (r:
    TickPlan)
    ensures
        r == after_activity(response_delay, finished, threshold, nanos),
{
    if finished {
        TickPlan { next: AppState::InGame, run_response: false }
    } else if response_delay > threshold {
        TickPlan { next: AppState::activity_bound(), run_response: true }
    } else {
        TickPlan {
            next: AppState::ActivityBound { response_delay: wait(response_delay, nanos) },
            run_response: false,
        }
    }
}

/// While the activity goes on and the delay is beyond the threshold, the
/// other beings have their turn and the delay is zero afterwards; while it
/// is not beyond the threshold, they do not.
pub proof fn lemma_response_when_due(response_delay: u64, threshold: u64, nanos: u64)
    ensures
        after_activity(response_delay, false, threshold, nanos).run_response == (response_delay
            > threshold),
        response_delay > threshold ==> after_activity(response_delay, false, threshold, nanos).next
            == (AppState::ActivityBound { response_delay: 0 }),
{
}

} // verus!
