use tile_rpg::components::Backpack;
use tile_rpg::components::CancelActivity;
use tile_rpg::components::FinishedActivity;
use tile_rpg::components::FishAction;
use tile_rpg::components::FishOnTheLine;
use tile_rpg::components::Fishable;
use tile_rpg::components::Position;
use tile_rpg::components::WaitingForFish;
use tile_rpg::fishing::chance_of;
use tile_rpg::fishing::fish;
use tile_rpg::fishing::resolve_fishing;
use tile_rpg::fishing::step;
use tile_rpg::fishing::FishingEvent;
use tile_rpg::fishing::FishingOutcome;
use tile_rpg::fishing::FishingRules;
use tile_rpg::fishing::FishingState;
use tile_rpg::indexing::SpatialIndex;
use tile_rpg::items::ItemID;
use tile_rpg::store::Components;
use tile_rpg::store::Store;

fn rules() -> FishingRules {
    FishingRules { attempt_interval: 1000, base_chance: 20, chance_per_attempt: 15, catch_item: ItemID(42) }
}

fn waiting(attempts: usize, time: u64) -> FishingState {
    FishingState::WaitingForFish(WaitingForFish { attempts, time_since_last_attempt: time })
}

#[test]
fn chance_grows_with_attempts_and_stops_at_a_hundred() {
    let r = rules();
    assert_eq!(chance_of(&r, 1), 20);
    assert_eq!(chance_of(&r, 2), 35);
    assert_eq!(chance_of(&r, 3), 50);
    assert_eq!(chance_of(&r, 6), 95);
    assert_eq!(chance_of(&r, 7), 100);
    assert_eq!(chance_of(&r, usize::MAX), 100);
    let fixed = FishingRules { chance_per_attempt: 0, ..r };
    assert_eq!(chance_of(&fixed, 1), 20);
    assert_eq!(chance_of(&fixed, 1000), 20);
    let sure = FishingRules { base_chance: u32::MAX, chance_per_attempt: u32::MAX, ..r };
    assert_eq!(chance_of(&sure, usize::MAX), 100);
}

#[test]
fn casting_on_fishable_water_starts_the_wait() {
    assert_eq!(
        step(FishingState::Idle, FishingEvent::Cast { fishable: true }, &rules()),
        (waiting(0, 0), FishingOutcome::LineCast)
    );
}

#[test]
fn casting_elsewhere_is_rejected() {
    assert_eq!(
        step(FishingState::Idle, FishingEvent::Cast { fishable: false }, &rules()),
        (FishingState::Idle, FishingOutcome::Rejected)
    );
}

#[test]
fn idle_goes_nowhere_without_a_cast() {
    let r = rules();
    let events = [
        FishingEvent::Elapsed { nanos: 5000, roll: 0 },
        FishingEvent::Pull,
        FishingEvent::Cancel,
        FishingEvent::Cast { fishable: false },
    ];
    for event in events {
        assert_eq!(step(FishingState::Idle, event, &r).0, FishingState::Idle);
    }
}

#[test]
fn idle_never_has_a_fish_on_the_line_after_one_step() {
    let r = FishingRules { attempt_interval: 0, base_chance: 100, chance_per_attempt: 100, catch_item: ItemID(1) };
    let events = [
        FishingEvent::Elapsed { nanos: u64::MAX, roll: 0 },
        FishingEvent::Pull,
        FishingEvent::Cancel,
        FishingEvent::Cast { fishable: true },
        FishingEvent::Cast { fishable: false },
    ];
    for event in events {
        assert_ne!(step(FishingState::Idle, event, &r).0, FishingState::FishOnTheLine);
    }
}

#[test]
fn time_adds_up_until_the_interval_is_reached() {
    let r = rules();
    assert_eq!(
        step(waiting(0, 0), FishingEvent::Elapsed { nanos: 400, roll: 0 }, &r),
        (waiting(0, 400), FishingOutcome::Nothing)
    );
    assert_eq!(
        step(waiting(0, 400), FishingEvent::Elapsed { nanos: 599, roll: 0 }, &r),
        (waiting(0, 999), FishingOutcome::Nothing)
    );
}

#[test]
fn an_attempt_is_made_when_the_interval_is_reached() {
    let r = rules();
    assert_eq!(
        step(waiting(0, 400), FishingEvent::Elapsed { nanos: 600, roll: 20 }, &r),
        (waiting(1, 0), FishingOutcome::Missed)
    );
    assert_eq!(
        step(waiting(0, 400), FishingEvent::Elapsed { nanos: 600, roll: 19 }, &r),
        (FishingState::FishOnTheLine, FishingOutcome::Bite)
    );
    assert_eq!(
        step(waiting(1, 0), FishingEvent::Elapsed { nanos: 1000, roll: 34 }, &r),
        (FishingState::FishOnTheLine, FishingOutcome::Bite)
    );
    assert_eq!(
        step(waiting(1, 0), FishingEvent::Elapsed { nanos: 1000, roll: 35 }, &r),
        (waiting(2, 0), FishingOutcome::Missed)
    );
}

#[test]
fn counters_stop_at_the_top() {
    let r = FishingRules { attempt_interval: u64::MAX, base_chance: 0, chance_per_attempt: 0, catch_item: ItemID(1) };
    assert_eq!(
        step(waiting(usize::MAX, u64::MAX - 1), FishingEvent::Elapsed { nanos: 5, roll: 0 }, &r),
        (waiting(usize::MAX, 0), FishingOutcome::Missed)
    );
    assert_eq!(
        step(waiting(3, 1), FishingEvent::Elapsed { nanos: u64::MAX - 2, roll: 0 }, &r),
        (waiting(3, u64::MAX - 1), FishingOutcome::Nothing)
    );
}

#[test]
fn pulling_lands_the_fish() {
    let r = rules();
    assert_eq!(
        step(FishingState::FishOnTheLine, FishingEvent::Pull, &r),
        (FishingState::Idle, FishingOutcome::Caught)
    );
    assert_eq!(step(waiting(2, 5), FishingEvent::Pull, &r), (waiting(2, 5), FishingOutcome::Nothing));
}

#[test]
fn cancelling_ends_with_nothing() {
    let r = rules();
    assert_eq!(
        step(waiting(2, 5), FishingEvent::Cancel, &r),
        (FishingState::Idle, FishingOutcome::Cancelled)
    );
    assert_eq!(
        step(FishingState::FishOnTheLine, FishingEvent::Cancel, &r),
        (FishingState::Idle, FishingOutcome::Cancelled)
    );
    assert_eq!(
        step(FishingState::Idle, FishingEvent::Cancel, &r),
        (FishingState::Idle, FishingOutcome::Nothing)
    );
}

#[test]
fn a_fish_on_the_line_waits() {
    let r = rules();
    assert_eq!(
        step(FishingState::FishOnTheLine, FishingEvent::Elapsed { nanos: 9999, roll: 99 }, &r),
        (FishingState::FishOnTheLine, FishingOutcome::Nothing)
    );
    assert_eq!(
        step(FishingState::FishOnTheLine, FishingEvent::Cast { fishable: true }, &r),
        (FishingState::FishOnTheLine, FishingOutcome::Nothing)
    );
    assert_eq!(
        step(waiting(1, 1), FishingEvent::Cast { fishable: true }, &r),
        (waiting(1, 1), FishingOutcome::Nothing)
    );
}

#[test]
fn every_bite_follows_a_wait() {
    let r = FishingRules { attempt_interval: 2, base_chance: 50, chance_per_attempt: 50, catch_item: ItemID(1) };
    let events = [
        FishingEvent::Cast { fishable: true },
        FishingEvent::Cast { fishable: false },
        FishingEvent::Elapsed { nanos: 1, roll: 10 },
        FishingEvent::Elapsed { nanos: 2, roll: 10 },
        FishingEvent::Elapsed { nanos: 2, roll: 90 },
        FishingEvent::Pull,
        FishingEvent::Cancel,
    ];
    let mut code: usize = 0;
    while code < 7 * 7 * 7 * 7 {
        let mut state = FishingState::Idle;
        let mut rest: usize = code;
        let mut k: usize = 0;
        while k < 4 {
            let event = events[rest % 7];
            rest /= 7;
            let (next, outcome) = step(state, event, &r);
            if next == FishingState::FishOnTheLine && state != FishingState::FishOnTheLine {
                assert!(matches!(state, FishingState::WaitingForFish(_)));
                assert!(matches!(event, FishingEvent::Elapsed { .. }));
                assert_eq!(outcome, FishingOutcome::Bite);
            }
            state = next;
            k += 1;
        }
        code += 1;
    }
}

fn angler(target: Position) -> Components {
    let mut c = Components::empty();
    c.position = Some(Position::new(0, 0));
    c.fish_action = Some(FishAction { target });
    c.backpack = Some(Backpack::empty());
    c
}

#[test]
fn a_turn_of_fishing_from_cast_to_catch() {
    let r = rules();
    let mut c = angler(Position::new(1, 0));
    let first = fish(&mut c, true, 400, 0, &r);
    assert_eq!(first, (FishingOutcome::LineCast, FishingOutcome::Nothing, FishingOutcome::Nothing));
    assert_eq!(c.waiting_for_fish, Some(WaitingForFish { attempts: 0, time_since_last_attempt: 400 }));
    assert!(c.fish_action.is_none());
    assert!(c.fish_on_the_line.is_none());
    assert!(c.finished_activity.is_none());

    let second = fish(&mut c, false, 600, 50, &r);
    assert_eq!(second, (FishingOutcome::Nothing, FishingOutcome::Nothing, FishingOutcome::Missed));
    assert_eq!(c.waiting_for_fish, Some(WaitingForFish { attempts: 1, time_since_last_attempt: 0 }));
    assert!(c.finished_activity.is_none());

    let third = fish(&mut c, false, 1000, 34, &r);
    assert_eq!(third, (FishingOutcome::Nothing, FishingOutcome::Nothing, FishingOutcome::Bite));
    assert!(c.waiting_for_fish.is_none());
    assert_eq!(c.fish_on_the_line, Some(FishOnTheLine));
    assert_eq!(c.finished_activity, Some(FinishedActivity));
    assert_eq!(c.backpack.as_ref().unwrap().quantity(ItemID(42)), 0);

    c.finished_activity = None;
    c.fish_action = Some(FishAction { target: Position::new(1, 0) });
    let fourth = fish(&mut c, true, 1000, 0, &r);
    assert_eq!(fourth, (FishingOutcome::Caught, FishingOutcome::Nothing, FishingOutcome::Nothing));
    assert!(c.waiting_for_fish.is_none());
    assert!(c.fish_on_the_line.is_none());
    assert!(c.fish_action.is_none());
    assert!(c.finished_activity.is_none());
    assert_eq!(c.backpack.as_ref().unwrap().quantity(ItemID(42)), 1);
    assert_eq!(c.backpack.as_ref().unwrap().len(), 1);
}

#[test]
fn giving_up_raises_the_signal_and_grants_nothing() {
    let r = rules();
    let mut c = angler(Position::new(1, 0));
    fish(&mut c, true, 0, 0, &r);
    c.cancel_activity = Some(CancelActivity);
    let outcome = fish(&mut c, true, 5000, 0, &r);
    assert_eq!(outcome, (FishingOutcome::Nothing, FishingOutcome::Cancelled, FishingOutcome::Nothing));
    assert!(c.waiting_for_fish.is_none());
    assert!(c.fish_on_the_line.is_none());
    assert!(c.cancel_activity.is_none());
    assert_eq!(c.finished_activity, Some(FinishedActivity));
    assert_eq!(c.backpack.as_ref().unwrap().len(), 0);
}

#[test]
fn a_catch_without_a_backpack_is_lost() {
    let r = rules();
    let mut c = Components::empty();
    c.fish_on_the_line = Some(FishOnTheLine);
    c.fish_action = Some(FishAction { target: Position::new(0, 0) });
    let outcome = fish(&mut c, false, 0, 0, &r);
    assert_eq!(outcome.0, FishingOutcome::Caught);
    assert!(c.backpack.is_none());
    assert!(c.fish_on_the_line.is_none());
}

#[test]
fn an_idle_entity_is_left_alone() {
    let r = rules();
    let mut c = Components::empty();
    c.position = Some(Position::new(3, 3));
    let outcome = fish(&mut c, true, 999999, 0, &r);
    assert_eq!(outcome, (FishingOutcome::Nothing, FishingOutcome::Nothing, FishingOutcome::Nothing));
    assert!(c.waiting_for_fish.is_none());
    assert!(c.fish_on_the_line.is_none());
    assert!(c.finished_activity.is_none());
    assert_eq!(c.position, Some(Position::new(3, 3)));
}

#[test]
fn fishing_is_started_only_on_tiles_the_index_lists() {
    let r = rules();
    let mut store = Store::new();
    let mut pond = Components::empty();
    pond.position = Some(Position::new(1, 0));
    pond.fishable = Some(Fishable { time_left: 0 });
    store.create(pond);
    let on_water = store.create(angler(Position::new(1, 0)));
    let on_land = store.create(angler(Position::new(2, 0)));
    let off_grid = store.create(angler(Position::new(9, 9)));
    let mut index = SpatialIndex::new(3, 3);
    index.rebuild(&store);
    resolve_fishing(&mut store, &index, 10, 0, &r);
    assert_eq!(
        store.get(on_water).unwrap().waiting_for_fish,
        Some(WaitingForFish { attempts: 0, time_since_last_attempt: 10 })
    );
    assert!(store.get(on_land).unwrap().waiting_for_fish.is_none());
    assert!(store.get(off_grid).unwrap().waiting_for_fish.is_none());
    assert!(store.get(on_water).unwrap().fish_action.is_none());
    assert!(store.get(on_land).unwrap().fish_action.is_none());
    assert!(store.get(off_grid).unwrap().fish_action.is_none());
}
