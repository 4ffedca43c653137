use tile_rpg::components::Breakable;
use tile_rpg::components::DeathDrop;
use tile_rpg::components::DeleteCondition;
use tile_rpg::components::Entity;
use tile_rpg::components::FinishedActivity;
use tile_rpg::components::HealthStats;
use tile_rpg::components::Item;
use tile_rpg::components::Name;
use tile_rpg::components::Position;
use tile_rpg::components::Renderable;
use tile_rpg::components::ToolType;
use tile_rpg::data_read::items::build_item;
use tile_rpg::data_read::items::item_components;
use tile_rpg::data_read::items::ItemDatabase;
use tile_rpg::deletion::clear_signals;
use tile_rpg::deletion::evaluate_delete_conditions;
use tile_rpg::deletion::reap;
use tile_rpg::items::ItemID;
use tile_rpg::items::ItemInfo;
use tile_rpg::store::Components;
use tile_rpg::store::Doomed;
use tile_rpg::store::Store;
use tile_rpg::tile_map::TileMap;
use tile_rpg::tile_map::WorldTile;
use tile_rpg::z_order::ITEM_Z;

fn info(id: u32, name: &str, atlas_index: u8) -> ItemInfo {
    ItemInfo {
        identifier: ItemID(id),
        name: name.to_string(),
        examine_text: String::new(),
        atlas_index,
        fg: (9, 8, 7),
        pickup_text: None,
        equipable: None,
        attack_bonus: None,
        consumable: None,
    }
}

fn items() -> ItemDatabase {
    ItemDatabase::new(vec![info(1, "Stone", 33), info(2, "Log", 34)])
}

fn map() -> TileMap {
    let mut m = TileMap::new(3, 3, WorldTile { atlas_index: 1 });
    let mut i: usize = 0;
    while i < 9 {
        m.tiles[i] = WorldTile { atlas_index: 50 + i };
        i += 1;
    }
    m
}

fn thing(x: usize, y: usize, hp: usize) -> Components {
    let mut c = Components::empty();
    c.position = Some(Position::new(x, y));
    let mut h = HealthStats::new(10, 0);
    h.hp = hp;
    c.health = Some(h);
    c
}

#[test]
fn a_broken_tile_turns_to_ground_and_leaves_its_drop() {
    let mut store = Store::new();
    let mut rock = thing(1, 2, 0);
    rock.breakable = Some(Breakable::new(ToolType::Pickaxe));
    rock.death_drop = Some(DeathDrop::new(&ItemID(1)));
    let e = store.create(rock);
    let mut m = map();
    reap(&mut store, &mut m, &items());

    let dead = store.get(e).unwrap();
    assert_eq!(dead.doomed, Some(Doomed));
    assert!(dead.breakable.is_none());
    assert_eq!(dead.position, Some(Position::new(1, 2)));
    assert_eq!(m.tiles[7], WorldTile { atlas_index: 1 });
    assert_eq!(m.tiles[6], WorldTile { atlas_index: 56 });
    assert_eq!(m.tiles[8], WorldTile { atlas_index: 58 });

    assert_eq!(store.len(), 2);
    let drop = store.get(Entity { index: 1 }).unwrap();
    assert_eq!(drop.name, Some(Name::new("Stone")));
    assert_eq!(drop.position, Some(Position::new(1, 2)));
    assert_eq!(drop.item, Some(Item { id: ItemID(1) }));
    assert_eq!(drop.renderable, Some(Renderable::default_bg(33, (9, 8, 7), ITEM_Z)));
    assert!(drop.health.is_none());
    assert!(drop.doomed.is_none());

    store.maintain();
    assert!(!store.is_alive(e));
    assert!(store.is_alive(Entity { index: 1 }));
}

#[test]
fn the_living_are_left_alone() {
    let mut store = Store::new();
    let mut rock = thing(1, 2, 1);
    rock.breakable = Some(Breakable::new(ToolType::Pickaxe));
    rock.death_drop = Some(DeathDrop::new(&ItemID(1)));
    let e = store.create(rock);
    let plain = store.create(Components::empty());
    let mut m = map();
    reap(&mut store, &mut m, &items());
    assert_eq!(store.len(), 2);
    assert!(store.get(e).unwrap().doomed.is_none());
    assert_eq!(store.get(e).unwrap().breakable, Some(Breakable::new(ToolType::Pickaxe)));
    assert!(store.get(plain).unwrap().doomed.is_none());
    assert_eq!(m.tiles[7], WorldTile { atlas_index: 57 });
}

#[test]
fn the_dead_are_handled_once() {
    let mut store = Store::new();
    let mut rock = thing(0, 0, 0);
    rock.death_drop = Some(DeathDrop::new(&ItemID(2)));
    store.create(rock);
    let mut m = map();
    reap(&mut store, &mut m, &items());
    assert_eq!(store.len(), 2);
    reap(&mut store, &mut m, &items());
    assert_eq!(store.len(), 2);
    assert_eq!(m.tiles[0], WorldTile { atlas_index: 50 });
}

#[test]
fn drops_stand_behind_all_others_in_the_order_of_their_bearers() {
    let mut store = Store::new();
    let mut a = thing(0, 0, 0);
    a.death_drop = Some(DeathDrop::new(&ItemID(2)));
    let mut b = thing(1, 0, 0);
    b.breakable = Some(Breakable::new(ToolType::Axe));
    let mut c = thing(2, 0, 0);
    c.death_drop = Some(DeathDrop::new(&ItemID(77)));
    let mut nowhere = thing(0, 0, 0);
    nowhere.position = None;
    nowhere.death_drop = Some(DeathDrop::new(&ItemID(1)));
    nowhere.breakable = Some(Breakable::new(ToolType::Axe));
    store.create(a);
    store.create(b);
    store.create(c);
    let lost = store.create(nowhere);
    let mut m = map();
    reap(&mut store, &mut m, &items());
    assert_eq!(store.len(), 6);
    let first = store.get(Entity { index: 4 }).unwrap();
    assert_eq!(first.name, Some(Name::new("Log")));
    assert_eq!(first.position, Some(Position::new(0, 0)));
    let second = store.get(Entity { index: 5 }).unwrap();
    assert_eq!(second.name, Some(Name::missing_item_name()));
    assert_eq!(second.position, Some(Position::new(2, 0)));
    assert!(second.renderable.is_none());
    assert_eq!(second.item, Some(Item { id: ItemID(77) }));
    assert_eq!(store.get(lost).unwrap().doomed, Some(Doomed));
    assert!(store.get(lost).unwrap().breakable.is_none());
    assert_eq!(m.tiles[0], WorldTile { atlas_index: 50 });
    assert_eq!(m.tiles[1], WorldTile { atlas_index: 1 });
    assert_eq!(m.tiles[2], WorldTile { atlas_index: 52 });
}

#[test]
fn a_dead_thing_off_the_grid_changes_no_tile() {
    let mut store = Store::new();
    let mut rock = thing(3, 0, 0);
    rock.breakable = Some(Breakable::new(ToolType::Axe));
    store.create(rock);
    let mut m = map();
    let before = m.tiles.clone();
    reap(&mut store, &mut m, &items());
    assert_eq!(m.tiles, before);
}

#[test]
fn items_are_built_from_their_definitions() {
    let db = items();
    let c = item_components(ItemID(2), Position::new(4, 5), &db);
    assert_eq!(c.name, Some(Name::new("Log")));
    assert_eq!(c.position, Some(Position::new(4, 5)));
    assert_eq!(c.item, Some(Item { id: ItemID(2) }));
    assert_eq!(c.renderable, Some(Renderable::default_bg(34, (9, 8, 7), ITEM_Z)));
    let mut store = Store::new();
    store.create(Components::empty());
    let e = build_item(ItemID(3), Position::new(0, 1), &db, &mut store);
    assert_eq!(e, Entity { index: 1 });
    assert_eq!(store.get(e).unwrap().name, Some(Name::new("MISSING_ITEM_NAME")));
    assert!(store.get(e).unwrap().renderable.is_none());
    assert_eq!(store.get(e).unwrap().position, Some(Position::new(0, 1)));
}

#[test]
fn a_timed_condition_counts_down_and_then_dooms() {
    let mut store = Store::new();
    let mut c = Components::empty();
    c.delete_condition = Some(DeleteCondition::Timed(100));
    let e = store.create(c);
    evaluate_delete_conditions(&mut store, 30);
    assert_eq!(store.get(e).unwrap().delete_condition, Some(DeleteCondition::Timed(70)));
    assert!(store.get(e).unwrap().doomed.is_none());
    evaluate_delete_conditions(&mut store, 69);
    assert_eq!(store.get(e).unwrap().delete_condition, Some(DeleteCondition::Timed(1)));
    assert!(store.get(e).unwrap().doomed.is_none());
    evaluate_delete_conditions(&mut store, 1);
    assert_eq!(store.get(e).unwrap().doomed, Some(Doomed));
    assert!(store.is_alive(e));
    store.maintain();
    assert!(!store.is_alive(e));
}

#[test]
fn a_timed_condition_of_zero_dooms_at_once() {
    let mut store = Store::new();
    let mut c = Components::empty();
    c.delete_condition = Some(DeleteCondition::Timed(0));
    let e = store.create(c);
    evaluate_delete_conditions(&mut store, 0);
    assert_eq!(store.get(e).unwrap().doomed, Some(Doomed));
}

#[test]
fn an_activity_condition_waits_for_the_signal() {
    let mut store = Store::new();
    let player = store.create(Components::empty());
    let mut rod = Components::empty();
    rod.delete_condition = Some(DeleteCondition::ActivityFinish(player));
    let rod = store.create(rod);
    let mut early = Components::empty();
    early.delete_condition = Some(DeleteCondition::ActivityFinish(Entity { index: 3 }));
    let early = store.create(early);
    let mut late = Components::empty();
    late.finished_activity = Some(FinishedActivity);
    store.create(late);

    evaluate_delete_conditions(&mut store, 1000);
    assert!(store.get(rod).unwrap().doomed.is_none());
    assert_eq!(store.get(early).unwrap().doomed, Some(Doomed));
    assert_eq!(
        store.get(rod).unwrap().delete_condition,
        Some(DeleteCondition::ActivityFinish(player))
    );

    let mut c = Components::empty();
    c.finished_activity = Some(FinishedActivity);
    c.delete_condition = Some(DeleteCondition::ActivityFinish(rod));
    store.slots[player.index] = Some(c);
    evaluate_delete_conditions(&mut store, 0);
    assert_eq!(store.get(rod).unwrap().doomed, Some(Doomed));
    assert!(store.get(player).unwrap().doomed.is_none());
}

#[test]
fn a_condition_on_a_dangling_handle_is_never_met() {
    let mut store = Store::new();
    let mut other = Components::empty();
    other.finished_activity = Some(FinishedActivity);
    let other = store.create(other);
    let mut c = Components::empty();
    c.delete_condition = Some(DeleteCondition::ActivityFinish(other));
    let waits = store.create(c);
    let mut d = Components::empty();
    d.delete_condition = Some(DeleteCondition::ActivityFinish(Entity { index: 50 }));
    let never = store.create(d);
    store.delete(other);
    evaluate_delete_conditions(&mut store, 5);
    assert!(store.get(waits).unwrap().doomed.is_none());
    assert!(store.get(never).unwrap().doomed.is_none());
}

#[test]
fn signals_are_cleared_whether_read_or_not() {
    let mut store = Store::new();
    let mut a = Components::empty();
    a.finished_activity = Some(FinishedActivity);
    a.name = Some(Name::new("a"));
    let a = store.create(a);
    let b = store.create(Components::empty());
    clear_signals(&mut store);
    assert!(store.get(a).unwrap().finished_activity.is_none());
    assert_eq!(store.get(a).unwrap().name, Some(Name::new("a")));
    assert!(store.get(b).unwrap().finished_activity.is_none());
    assert_eq!(store.len(), 2);
}
