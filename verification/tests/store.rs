use tile_rpg::components::Entity;
use tile_rpg::components::Name;
use tile_rpg::components::Position;
use tile_rpg::store::Components;
use tile_rpg::store::Doomed;
use tile_rpg::store::Store;
use tile_rpg::tile_map::tile_index;
use tile_rpg::tile_map::TileMap;
use tile_rpg::tile_map::WorldTile;
use tile_rpg::time::wait;

#[test]
fn bare_components_carry_nothing() {
    let c = Components::empty();
    assert!(c.name.is_none());
    assert!(c.position.is_none());
    assert!(c.renderable.is_none());
    assert!(c.blocking.is_none());
    assert!(c.breakable.is_none());
    assert!(c.fishable.is_none());
    assert!(c.water.is_none());
    assert!(c.grass.is_none());
    assert!(c.item.is_none());
    assert!(c.monster.is_none());
    assert!(c.random_walker.is_none());
    assert!(c.goal_mover.is_none());
    assert!(c.interactor.is_none());
    assert!(c.strength.is_none());
    assert!(c.equipped.is_none());
    assert!(c.health.is_none());
    assert!(c.death_drop.is_none());
    assert!(c.backpack.is_none());
    assert!(c.in_bag.is_none());
    assert!(c.selected_item.is_none());
    assert!(c.wants_to_move.is_none());
    assert!(c.attack_action.is_none());
    assert!(c.break_action.is_none());
    assert!(c.pickup_action.is_none());
    assert!(c.fish_action.is_none());
    assert!(c.cancel_activity.is_none());
    assert!(c.suffer_damage.is_none());
    assert!(c.waiting_for_fish.is_none());
    assert!(c.fish_on_the_line.is_none());
    assert!(c.finished_activity.is_none());
    assert!(c.delete_condition.is_none());
    assert!(c.doomed.is_none());
}

#[test]
fn store_hands_out_slots_in_order() {
    let mut store = Store::new();
    assert_eq!(store.len(), 0);
    let a = store.create(Components::empty());
    let b = store.create(Components::empty());
    assert_eq!(a, Entity { index: 0 });
    assert_eq!(b, Entity { index: 1 });
    assert_eq!(store.len(), 2);
    assert!(store.is_alive(a));
    assert!(store.is_alive(b));
    assert!(!store.is_alive(Entity { index: 2 }));
    assert!(store.get(Entity { index: 2 }).is_none());
}

#[test]
fn store_get_gives_what_was_created() {
    let mut store = Store::new();
    let mut c = Components::empty();
    c.name = Some(Name::new("Rock"));
    c.position = Some(Position::new(2, 3));
    let e = store.create(c);
    let got = store.get(e).unwrap();
    assert_eq!(got.name, Some(Name::new("Rock")));
    assert_eq!(got.position, Some(Position::new(2, 3)));
}

#[test]
fn deleted_handle_is_dangling_but_detectable() {
    let mut store = Store::new();
    let a = store.create(Components::empty());
    let b = store.create(Components::empty());
    assert!(store.delete(a));
    assert!(!store.is_alive(a));
    assert!(store.get(a).is_none());
    assert!(store.is_alive(b));
    assert!(!store.delete(a));
    assert!(!store.delete(Entity { index: 99 }));
    let c = store.create(Components::empty());
    assert_eq!(c, Entity { index: 2 });
    assert!(!store.is_alive(a));
    assert_eq!(store.len(), 3);
}

#[test]
fn maintain_removes_the_doomed_only() {
    let mut store = Store::new();
    let stays = store.create(Components::empty());
    let mut marked = Components::empty();
    marked.doomed = Some(Doomed);
    let goes = store.create(marked);
    let also_stays = store.create(Components::empty());
    store.maintain();
    assert!(store.is_alive(stays));
    assert!(!store.is_alive(goes));
    assert!(store.is_alive(also_stays));
    assert_eq!(store.len(), 3);
    store.maintain();
    assert!(store.is_alive(stays));
    assert!(store.is_alive(also_stays));
}

#[test]
fn new_map_is_all_ground() {
    let map = TileMap::new(4, 3, WorldTile { atlas_index: 5 });
    assert_eq!(map.width, 4);
    assert_eq!(map.height, 3);
    assert_eq!(map.tiles.len(), 12);
    assert!(map.tiles.iter().all(|t| *t == WorldTile { atlas_index: 5 }));
    assert_eq!(map.ground, WorldTile { atlas_index: 5 });
    let empty = TileMap::new(0, 7, WorldTile { atlas_index: 5 });
    assert!(empty.tiles.is_empty());
}

#[test]
fn map_index_is_row_major() {
    let map = TileMap::new(40, 27, WorldTile { atlas_index: 0 });
    assert_eq!(map.xy_to_idx(10, 15), 610);
    assert_eq!(map.xy_to_idx(0, 0), 0);
    assert_eq!(map.xy_to_idx(39, 26), 1079);
    assert!(map.in_bounds(&Position::new(39, 26)));
    assert!(!map.in_bounds(&Position::new(40, 26)));
    assert!(!map.in_bounds(&Position::new(39, 27)));
}

#[test]
fn tile_index_is_none_off_the_grid() {
    assert_eq!(tile_index(&Position::new(10, 15), 40, 27), Some(610));
    assert_eq!(tile_index(&Position::new(40, 0), 40, 27), None);
    assert_eq!(tile_index(&Position::new(0, 27), 40, 27), None);
    assert_eq!(tile_index(&Position::new(0, 0), 0, 0), None);
}

#[test]
fn clearing_a_tile_makes_it_ground() {
    let mut map = TileMap::new(3, 2, WorldTile { atlas_index: 1 });
    map.tiles[4] = WorldTile { atlas_index: 80 };
    map.tiles[5] = WorldTile { atlas_index: 80 };
    map.clear_tile(&Position::new(1, 1));
    assert_eq!(map.tiles[4], WorldTile { atlas_index: 1 });
    assert_eq!(map.tiles[5], WorldTile { atlas_index: 80 });
    map.clear_tile(&Position::new(3, 1));
    map.clear_tile(&Position::new(2, 2));
    assert_eq!(map.tiles[5], WorldTile { atlas_index: 80 });
    assert_eq!(map.tiles.len(), 6);
}

#[test]
fn waiting_time_adds_up_and_stops_at_the_top() {
    assert_eq!(wait(0, 0), 0);
    assert_eq!(wait(5, 7), 12);
    assert_eq!(wait(u64::MAX, 0), u64::MAX);
    assert_eq!(wait(u64::MAX - 1, 1), u64::MAX);
    assert_eq!(wait(u64::MAX - 1, 2), u64::MAX);
    assert_eq!(wait(u64::MAX, u64::MAX), u64::MAX);
}
