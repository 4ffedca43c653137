use tile_rpg::components::Entity;
use tile_rpg::components::InBag;
use tile_rpg::components::Item;
use tile_rpg::components::Name;
use tile_rpg::components::PickupAction;
use tile_rpg::components::Position;
use tile_rpg::inventory::inventory_entries;
use tile_rpg::items::ItemID;
use tile_rpg::pickup::resolve_pickups;
use tile_rpg::store::Components;
use tile_rpg::store::Store;

fn lying(id: u32, x: usize, y: usize) -> Components {
    let mut c = Components::empty();
    c.item = Some(Item { id: ItemID(id) });
    c.name = Some(Name::new("Thing"));
    c.position = Some(Position::new(x, y));
    c
}

fn reaching(x: usize, y: usize, item: Entity) -> Components {
    let mut c = Components::empty();
    c.position = Some(Position::new(x, y));
    c.pickup_action = Some(PickupAction { item });
    c
}

#[test]
fn an_item_goes_into_the_bag_of_who_stands_on_it() {
    let mut store = Store::new();
    let item = store.create(lying(3, 2, 2));
    let actor = store.create(reaching(2, 2, item));
    resolve_pickups(&mut store);
    let it = store.get(item).unwrap();
    assert_eq!(it.in_bag, Some(InBag { owner: actor }));
    assert_eq!(it.position, None);
    assert_eq!(it.item, Some(Item { id: ItemID(3) }));
    assert_eq!(it.name, Some(Name::new("Thing")));
    let a = store.get(actor).unwrap();
    assert!(a.pickup_action.is_none());
    assert_eq!(a.position, Some(Position::new(2, 2)));
    let entries = inventory_entries(&store);
    assert_eq!(entries.len(), 1);
    assert_eq!(entries[0].entity, item);
    assert_eq!(entries[0].owner, actor);
}

#[test]
fn the_first_to_reach_gets_the_item() {
    let mut store = Store::new();
    let far = store.create(reaching(0, 0, Entity { index: 2 }));
    let first = store.create(reaching(2, 2, Entity { index: 2 }));
    let item = store.create(lying(3, 2, 2));
    let second = store.create(reaching(2, 2, item));
    resolve_pickups(&mut store);
    assert_eq!(store.get(item).unwrap().in_bag, Some(InBag { owner: first }));
    for e in [far, first, second] {
        assert!(store.get(e).unwrap().pickup_action.is_none());
        assert!(store.get(e).unwrap().in_bag.is_none());
    }
    assert_eq!(store.get(far).unwrap().position, Some(Position::new(0, 0)));
}

#[test]
fn what_cannot_be_picked_up_stays() {
    let mut store = Store::new();
    let elsewhere = store.create(lying(1, 5, 5));
    let a = store.create(reaching(2, 2, elsewhere));
    let mut held = lying(2, 2, 2);
    held.in_bag = Some(InBag { owner: Entity { index: 9 } });
    let held = store.create(held);
    let b = store.create(reaching(2, 2, held));
    let mut not_item = lying(3, 2, 2);
    not_item.item = None;
    let not_item = store.create(not_item);
    let c = store.create(reaching(2, 2, not_item));
    let gone = store.create(lying(4, 2, 2));
    let d = store.create(reaching(2, 2, gone));
    let e = store.create(reaching(2, 2, Entity { index: 99 }));
    store.delete(gone);
    resolve_pickups(&mut store);
    assert_eq!(store.get(elsewhere).unwrap().position, Some(Position::new(5, 5)));
    assert!(store.get(elsewhere).unwrap().in_bag.is_none());
    assert_eq!(store.get(held).unwrap().in_bag, Some(InBag { owner: Entity { index: 9 } }));
    assert_eq!(store.get(held).unwrap().position, Some(Position::new(2, 2)));
    assert!(store.get(not_item).unwrap().in_bag.is_none());
    assert!(store.get(gone).is_none());
    for actor in [a, b, c, d, e] {
        assert!(store.get(actor).unwrap().pickup_action.is_none());
    }
}

#[test]
fn items_do_not_pick_up_items() {
    let mut store = Store::new();
    let item = store.create(lying(3, 2, 2));
    let mut greedy = lying(4, 2, 2);
    greedy.pickup_action = Some(PickupAction { item });
    let greedy = store.create(greedy);
    let mut nowhere = Components::empty();
    nowhere.pickup_action = Some(PickupAction { item });
    let nowhere = store.create(nowhere);
    resolve_pickups(&mut store);
    assert!(store.get(item).unwrap().in_bag.is_none());
    assert_eq!(store.get(item).unwrap().position, Some(Position::new(2, 2)));
    assert!(store.get(greedy).unwrap().pickup_action.is_none());
    assert!(store.get(nowhere).unwrap().pickup_action.is_none());
}
