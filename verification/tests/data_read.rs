use tile_rpg::components::Blocking;
use tile_rpg::components::Entity;
use tile_rpg::components::HealthStats;
use tile_rpg::components::Monster;
use tile_rpg::components::Name;
use tile_rpg::components::Position;
use tile_rpg::components::RandomWalkerAI;
use tile_rpg::components::Renderable;
use tile_rpg::components::Strength;
use tile_rpg::components::ToolType;
use tile_rpg::data_read::beings::build_being;
use tile_rpg::data_read::beings::Being;
use tile_rpg::data_read::beings::BeingDatabase;
use tile_rpg::data_read::beings::BeingID;
use tile_rpg::data_read::items::ItemDatabase;
use tile_rpg::data_read::items::RawConsumable;
use tile_rpg::data_read::items::RawItemDatabase;
use tile_rpg::data_read::items::RawItemInfo;
use tile_rpg::data_read::EntityBuildError;
use tile_rpg::data_read::EntityDatabase;
use tile_rpg::data_read::RawHealthStats;
use tile_rpg::items::AttackBonus;
use tile_rpg::items::ConsumeEffect;
use tile_rpg::items::Consumable;
use tile_rpg::items::Equipable;
use tile_rpg::items::ItemID;
use tile_rpg::items::ItemInfo;
use tile_rpg::items::ItemQty;
use tile_rpg::store::Components;
use tile_rpg::store::Store;
use tile_rpg::z_order::BEING_Z;

fn being(id: u32, name: &str) -> Being {
    Being {
        identifier: BeingID(id),
        name: name.to_string(),
        monster: None,
        is_blocking: false,
        ai: None,
        goals: None,
        atlas_index: 16,
        fg: (255, 255, 255),
        quips: None,
        strength: None,
        health_stats: None,
    }
}

fn raw(id: u32, name: &str) -> RawItemInfo {
    RawItemInfo {
        identifier: ItemID(id),
        name: name.to_string(),
        examine_text: format!("A {}.", name),
        atlas_index: 7,
        fg: (1, 2, 3),
        pickup_text: None,
        equipable: None,
        attack_bonus: None,
        consumable: None,
    }
}

#[test]
fn empty_databases_find_nothing() {
    let db = EntityDatabase::empty();
    assert!(db.beings.get_by_name(&"Sheep".to_string()).is_none());
    assert!(db.beings.get_by_id(0).is_none());
    assert!(db.items.get_by_name("Fish").is_none());
    assert!(db.items.get_by_id(ItemID(0)).is_none());
    assert_eq!(db.items.len(), 0);
    assert!(BeingDatabase::empty().get_by_id(1).is_none());
    assert!(ItemDatabase::empty().get_by_name("").is_none());
}

#[test]
fn beings_are_found_by_name_and_id_first_match_first() {
    let mut twin = being(3, "Sheep");
    twin.atlas_index = 99;
    let mut same_id = being(1, "Goat");
    same_id.atlas_index = 98;
    let db = BeingDatabase::new(vec![being(1, "Sheep"), being(2, "Wolf"), twin, same_id]);
    assert_eq!(db.get_by_name(&"Sheep".to_string()).unwrap().identifier, BeingID(1));
    assert_eq!(db.get_by_name(&"Wolf".to_string()).unwrap().identifier, BeingID(2));
    assert_eq!(db.get_by_name(&"Goat".to_string()).unwrap().atlas_index, 98);
    assert!(db.get_by_name(&"sheep".to_string()).is_none());
    assert!(db.get_by_name(&"".to_string()).is_none());
    assert_eq!(db.get_by_id(1).unwrap().name, "Sheep");
    assert_eq!(db.get_by_id(3).unwrap().atlas_index, 99);
    assert!(db.get_by_id(4).is_none());
}

#[test]
fn items_are_found_by_name_and_id_first_match_first() {
    let db = ItemDatabase::new(vec![
        ItemInfo::from_raw(&raw(5, "Fish")),
        ItemInfo::from_raw(&raw(6, "Log")),
        ItemInfo::from_raw(&raw(7, "Fish")),
        ItemInfo::from_raw(&raw(6, "Twig")),
    ]);
    assert_eq!(db.len(), 4);
    assert_eq!(db.get_by_name("Fish").unwrap().identifier, ItemID(5));
    assert_eq!(db.get_by_name("Twig").unwrap().identifier, ItemID(6));
    assert!(db.get_by_name("Fis").is_none());
    assert_eq!(db.get_by_name_unchecked(&"Log".to_string()).identifier, ItemID(6));
    assert_eq!(db.get_by_name_unchecked(&"Fish".to_string()).identifier, ItemID(5));
    assert_eq!(db.get_by_id(ItemID(6)).unwrap().name, "Log");
    assert_eq!(db.get_by_id(ItemID(7)).unwrap().name, "Fish");
    assert!(db.get_by_id(ItemID(8)).is_none());
}

#[test]
fn an_item_is_made_from_its_raw_definition() {
    let mut r = raw(11, "Bread");
    r.pickup_text = Some("Yum".to_string());
    r.equipable = Some("Pickaxe".to_string());
    r.attack_bonus = Some(4);
    r.consumable = Some(RawConsumable { effect: "heal".to_string(), amount: Some(3) });
    assert!(r.is_complete());
    let info = ItemInfo::from_raw(&r);
    assert_eq!(info.identifier, ItemID(11));
    assert_eq!(info.name, "Bread");
    assert_eq!(info.examine_text, "A Bread.");
    assert_eq!(info.atlas_index, 7);
    assert_eq!(info.fg, (1, 2, 3));
    assert_eq!(info.pickup_text, Some("Yum".to_string()));
    assert_eq!(info.equipable, Some(Equipable { tool: ToolType::Pickaxe }));
    assert_eq!(info.attack_bonus, Some(AttackBonus(4)));
    assert_eq!(info.consumable, Some(Consumable { effect: ConsumeEffect::Heal, amount: 3 }));
}

#[test]
fn a_plain_item_has_no_extras() {
    let info = ItemInfo::from_raw(&raw(12, "Pebble"));
    assert_eq!(info.pickup_text, None);
    assert_eq!(info.equipable, None);
    assert_eq!(info.attack_bonus, None);
    assert_eq!(info.consumable, None);
}

#[test]
fn unknown_names_fall_back() {
    assert_eq!(Equipable::from_str("Axe"), Equipable { tool: ToolType::Axe });
    assert_eq!(Equipable::from_str("Hand"), Equipable { tool: ToolType::Hand });
    assert_eq!(Equipable::from_str("Sword"), Equipable { tool: ToolType::Hand });
    assert_eq!(Consumable::from_str("heal", 2), Consumable { effect: ConsumeEffect::Heal, amount: 2 });
    assert_eq!(
        Consumable::from_str("Heal", 2),
        Consumable { effect: ConsumeEffect::Nothing, amount: 2 }
    );
    let mut r = raw(1, "Odd");
    r.attack_bonus = Some(4294967301);
    assert_eq!(ItemInfo::from_raw(&r).attack_bonus, Some(AttackBonus(5)));
    r.attack_bonus = Some(2147483648);
    assert_eq!(ItemInfo::from_raw(&r).attack_bonus, Some(AttackBonus(i32::MIN)));
}

#[test]
fn a_consumable_without_amount_is_incomplete() {
    let mut r = raw(1, "Odd");
    r.consumable = Some(RawConsumable { effect: "heal".to_string(), amount: None });
    assert!(!r.is_complete());
    r.consumable = None;
    assert!(r.is_complete());
}

#[test]
fn a_raw_database_gives_one_item_each_in_order() {
    let db = ItemDatabase::from_raws(&RawItemDatabase {
        data: vec![raw(3, "c"), raw(1, "a"), raw(2, "b")],
    });
    assert_eq!(db.len(), 3);
    assert_eq!(db.get_by_name("c").unwrap().identifier, ItemID(3));
    assert_eq!(db.get_by_id(ItemID(1)).unwrap().name, "a");
    assert_eq!(db.get_by_id(ItemID(2)).unwrap().examine_text, "A b.");
    assert_eq!(ItemDatabase::from_raws(&RawItemDatabase { data: Vec::new() }).len(), 0);
}

#[test]
fn quantities_add_up() {
    let mut q = ItemQty::new(2);
    q.increase(5);
    assert_eq!(q, ItemQty(7));
    q.increase(0);
    assert_eq!(q.0, 7);
}

#[test]
fn a_being_is_built_from_its_definition() {
    let mut sheep = being(1, "Bahhhby");
    sheep.monster = Some("yes".to_string());
    sheep.is_blocking = true;
    sheep.ai = Some("random_walk".to_string());
    sheep.strength = Some(2);
    sheep.health_stats = Some(RawHealthStats { max_hp: 9, defense: 1 });
    sheep.goals = Some(vec!["Grass".to_string()]);
    let db = BeingDatabase::new(vec![being(0, "Wolf"), sheep]);
    let mut store = Store::new();
    store.create(Components::empty());
    let e = build_being("Bahhhby", Position::new(5, 15), &db, &mut store).unwrap();
    assert_eq!(e, Entity { index: 1 });
    assert_eq!(store.len(), 2);
    let c = store.get(e).unwrap();
    assert_eq!(c.name, Some(Name::new("Bahhhby")));
    assert_eq!(c.position, Some(Position::new(5, 15)));
    assert_eq!(c.renderable, Some(Renderable::default_bg(16, (255, 255, 255), BEING_Z)));
    assert_eq!(c.monster, Some(Monster));
    assert_eq!(c.blocking, Some(Blocking));
    assert_eq!(c.strength, Some(Strength { amt: 2 }));
    assert_eq!(c.random_walker, Some(RandomWalkerAI));
    assert!(c.goal_mover.is_none());
    assert_eq!(c.health, Some(HealthStats::new(9, 1)));
    assert!(c.item.is_none());
    assert!(c.backpack.is_none());
    assert!(c.doomed.is_none());
}

#[test]
fn a_plain_being_carries_name_place_and_looks_only() {
    let db = BeingDatabase::new(vec![being(0, "Wolf")]);
    let c = db.get_by_id(0).unwrap().components(Position::new(1, 1)).unwrap();
    assert_eq!(c.name, Some(Name::new("Wolf")));
    assert_eq!(c.position, Some(Position::new(1, 1)));
    assert!(c.renderable.is_some());
    assert!(c.monster.is_none());
    assert!(c.blocking.is_none());
    assert!(c.strength.is_none());
    assert!(c.random_walker.is_none());
    assert!(c.goal_mover.is_none());
    assert!(c.health.is_none());
}

#[test]
fn a_goal_seeker_desires_its_goals_in_order() {
    let mut cow = being(4, "Cow");
    cow.ai = Some("goal".to_string());
    cow.goals = Some(vec!["Grass".to_string(), "Water".to_string()]);
    let db = BeingDatabase::new(vec![cow]);
    let mut store = Store::new();
    let e = build_being("Cow", Position::new(0, 0), &db, &mut store).unwrap();
    let c = store.get(e).unwrap();
    let ai = c.goal_mover.as_ref().unwrap();
    assert!(ai.current.is_none());
    assert_eq!(ai.desires, vec![Name::new("Grass"), Name::new("Water")]);
    assert!(c.random_walker.is_none());
}

#[test]
fn an_unknown_ai_gives_no_ai() {
    let mut odd = being(4, "Odd");
    odd.ai = Some("swim".to_string());
    odd.goals = None;
    let c = odd.components(Position::new(0, 0)).unwrap();
    assert!(c.random_walker.is_none());
    assert!(c.goal_mover.is_none());
}

#[test]
fn an_unknown_being_is_not_built() {
    let db = BeingDatabase::new(vec![being(0, "Wolf")]);
    let mut store = Store::new();
    store.create(Components::empty());
    assert_eq!(
        build_being("Dragon", Position::new(0, 0), &db, &mut store),
        Err(EntityBuildError::UnknownBeing)
    );
    assert_eq!(store.len(), 1);
}

#[test]
fn a_goal_seeker_without_goals_is_not_built() {
    let mut cow = being(4, "Cow");
    cow.ai = Some("goal".to_string());
    let db = BeingDatabase::new(vec![cow]);
    let mut store = Store::new();
    assert_eq!(
        build_being("Cow", Position::new(0, 0), &db, &mut store),
        Err(EntityBuildError::MissingGoals)
    );
    assert_eq!(store.len(), 0);
}
