use tile_rpg::combat::resolve_attacks;
use tile_rpg::components::AttackAction;
use tile_rpg::components::Entity;
use tile_rpg::components::HealthStats;
use tile_rpg::components::Position;
use tile_rpg::components::Strength;
use tile_rpg::components::SufferDamage;
use tile_rpg::data_read::items::ItemDatabase;
use tile_rpg::damage::resolve_damage;
use tile_rpg::fishing::FishingRules;
use tile_rpg::items::ItemID;
use tile_rpg::scheduler::PlayerResponse;
use tile_rpg::store::Components;
use tile_rpg::store::Store;
use tile_rpg::tile_map::WorldTile;
use tile_rpg::world::Rules;
use tile_rpg::world::State;
use tile_rpg::world::World;

fn fighter(strength: Option<usize>, target: Option<Entity>, hp: usize, defense: usize) -> Components {
    let mut c = Components::empty();
    c.position = Some(Position::new(0, 0));
    c.strength = strength.map(|amt| Strength { amt });
    c.attack_action = target.map(|target| AttackAction { target });
    c.health = Some(HealthStats::new(hp, defense));
    c
}

fn pending(store: &Store, e: Entity) -> Option<Vec<i32>> {
    store.get(e).unwrap().suffer_damage.as_ref().map(|q| q.amount.clone())
}

#[test]
fn an_attack_queues_a_blow_of_the_strength() {
    let mut store = Store::new();
    let victim = store.create(fighter(None, None, 10, 1));
    let attacker = store.create(fighter(Some(4), Some(victim), 10, 0));
    resolve_attacks(&mut store);
    assert_eq!(pending(&store, victim), Some(vec![4]));
    assert_eq!(pending(&store, attacker), None);
    assert!(store.get(attacker).unwrap().attack_action.is_none());
    assert_eq!(store.get(victim).unwrap().health, Some(HealthStats::new(10, 1)));
    resolve_damage(&mut store);
    assert_eq!(store.get(victim).unwrap().health.unwrap().hp, 7);
    assert_eq!(store.get(attacker).unwrap().health.unwrap().hp, 10);
}

#[test]
fn attacks_on_one_target_queue_up_in_slot_order() {
    let mut store = Store::new();
    let first = store.create(fighter(Some(2), Some(Entity { index: 1 }), 10, 0));
    let mut target = fighter(Some(5), Some(Entity { index: 0 }), 10, 1);
    target.suffer_damage = Some(SufferDamage { amount: vec![9] });
    let victim = store.create(target);
    let _idle = store.create(fighter(Some(7), None, 10, 0));
    let _weak = store.create(fighter(None, Some(victim), 10, 0));
    let _last = store.create(fighter(Some(3), Some(victim), 10, 0));
    resolve_attacks(&mut store);
    assert_eq!(pending(&store, victim), Some(vec![9, 2, 3]));
    assert_eq!(pending(&store, first), Some(vec![5]));
    let mut i: usize = 0;
    while i < 5 {
        assert!(store.get(Entity { index: i }).unwrap().attack_action.is_none());
        i += 1;
    }
    resolve_damage(&mut store);
    assert_eq!(store.get(victim).unwrap().health.unwrap().hp, 0);
    assert_eq!(store.get(first).unwrap().health.unwrap().hp, 5);
}

#[test]
fn an_attack_on_nothing_is_dropped() {
    let mut store = Store::new();
    let gone = store.create(fighter(None, None, 10, 0));
    let a = store.create(fighter(Some(4), Some(gone), 10, 0));
    let b = store.create(fighter(Some(4), Some(Entity { index: 40 }), 10, 0));
    store.delete(gone);
    resolve_attacks(&mut store);
    assert!(store.get(a).unwrap().attack_action.is_none());
    assert!(store.get(b).unwrap().attack_action.is_none());
    assert_eq!(pending(&store, a), None);
    assert_eq!(pending(&store, b), None);
    assert!(store.get(gone).is_none());
}

#[test]
fn an_entity_can_hit_itself() {
    let mut store = Store::new();
    let e = store.create(fighter(Some(4), Some(Entity { index: 0 }), 10, 1));
    resolve_attacks(&mut store);
    assert_eq!(pending(&store, e), Some(vec![4]));
}

#[test]
fn a_tick_applies_the_attacks_of_the_turn() {
    let rules = Rules {
        response_threshold: 0,
        fishing: FishingRules {
            attempt_interval: 0,
            base_chance: 0,
            chance_per_attempt: 0,
            catch_item: ItemID(0),
        },
    };
    let world = World::new(3, 3, WorldTile { atlas_index: 0 }, ItemDatabase::empty(), rules);
    let mut state = State { ecs: world };
    let victim = state.ecs.store.create(fighter(None, None, 5, 1));
    let attacker = state.ecs.store.create(fighter(Some(6), Some(victim), 5, 0));
    let plan = state.begin_tick(PlayerResponse::TurnAdvance);
    state.run_response_systems();
    state.end_tick(plan, 1);
    assert!(!state.ecs.store.is_alive(victim));
    assert!(state.ecs.store.is_alive(attacker));
    assert!(state.ecs.store.get(attacker).unwrap().attack_action.is_none());
}
