use tile_rpg::components::HealthStats;
use tile_rpg::components::SufferDamage;
use tile_rpg::damage::resolve_damage;
use tile_rpg::damage::take_damage;
use tile_rpg::damage::weakened;
use tile_rpg::store::Components;
use tile_rpg::store::Store;

fn hurt(max_hp: usize, defense: usize, blows: Vec<i32>) -> Components {
    let mut c = Components::empty();
    c.health = Some(HealthStats::new(max_hp, defense));
    c.suffer_damage = Some(SufferDamage { amount: blows });
    c
}

#[test]
fn two_blows_against_defense() {
    let mut stats = HealthStats::new(10, 2);
    stats.apply_damage(&vec![5, 3]);
    assert_eq!(stats.hp, 6);
    assert_eq!(stats.max_hp, 10);
    assert_eq!(stats.defense, 2);
}

#[test]
fn entity_with_two_pending_amounts_loses_their_weakened_sum() {
    let mut store = Store::new();
    let e = store.create(hurt(10, 2, vec![5, 3]));
    resolve_damage(&mut store);
    let c = store.get(e).unwrap();
    assert_eq!(c.health.unwrap().hp, 6);
    assert_eq!(c.health.unwrap().max_hp, 10);
    assert_eq!(c.health.unwrap().defense, 2);
    assert!(c.suffer_damage.is_none());
}

#[test]
fn a_blow_is_weakened_by_the_defense() {
    assert_eq!(weakened(5, 2), 3);
    assert_eq!(weakened(3, 2), 1);
    assert_eq!(weakened(2, 2), 0);
    assert_eq!(weakened(1, 2), 0);
    assert_eq!(weakened(0, 0), 0);
    assert_eq!(weakened(-4, 0), 0);
    assert_eq!(weakened(-4, 9), 0);
    assert_eq!(weakened(i32::MAX, 0), 2147483647);
    assert_eq!(weakened(i32::MAX, 1), 2147483646);
    assert_eq!(weakened(i32::MIN, 0), 0);
    assert_eq!(weakened(7, usize::MAX), 0);
}

#[test]
fn hit_points_stop_at_zero() {
    let mut stats = HealthStats::new(4, 1);
    stats.apply_damage(&vec![3, 3, 3]);
    assert_eq!(stats.hp, 0);
    assert!(stats.is_dead());
    let mut exact = HealthStats::new(4, 1);
    exact.apply_damage(&vec![3, 3]);
    assert_eq!(exact.hp, 0);
    let mut huge = HealthStats::new(usize::MAX, 0);
    huge.apply_damage(&vec![i32::MAX, i32::MAX]);
    assert_eq!(huge.hp, usize::MAX - 2 * 2147483647);
}

#[test]
fn defense_is_taken_off_every_blow_not_off_the_sum() {
    let mut stats = HealthStats::new(20, 3);
    stats.apply_damage(&vec![4, 4, 4, 2, 3]);
    assert_eq!(stats.hp, 17);
}

#[test]
fn no_blows_no_harm() {
    let mut stats = HealthStats::new(9, 0);
    stats.hp = 5;
    stats.apply_damage(&Vec::new());
    assert_eq!(stats.hp, 5);
}

#[test]
fn negative_amounts_do_not_heal() {
    let mut stats = HealthStats::new(9, 0);
    stats.hp = 5;
    stats.apply_damage(&vec![-3, -100]);
    assert_eq!(stats.hp, 5);
}

#[test]
fn damage_without_health_only_empties_the_queue() {
    let mut c = Components::empty();
    c.suffer_damage = Some(SufferDamage { amount: vec![4] });
    take_damage(&mut c);
    assert!(c.suffer_damage.is_none());
    assert!(c.health.is_none());
}

#[test]
fn health_without_damage_stays() {
    let mut c = Components::empty();
    c.health = Some(HealthStats::new(8, 1));
    take_damage(&mut c);
    assert_eq!(c.health, Some(HealthStats::new(8, 1)));
    assert!(c.suffer_damage.is_none());
}

#[test]
fn every_entity_takes_its_own_damage() {
    let mut store = Store::new();
    let a = store.create(hurt(10, 0, vec![1]));
    let b = store.create(hurt(10, 5, vec![7, 7]));
    let gone = store.create(hurt(10, 0, vec![9]));
    let c = store.create(hurt(3, 0, vec![2, 2]));
    assert!(store.delete(gone));
    resolve_damage(&mut store);
    assert_eq!(store.len(), 4);
    assert_eq!(store.get(a).unwrap().health.unwrap().hp, 9);
    assert_eq!(store.get(b).unwrap().health.unwrap().hp, 6);
    assert!(store.get(gone).is_none());
    assert_eq!(store.get(c).unwrap().health.unwrap().hp, 0);
    resolve_damage(&mut store);
    assert_eq!(store.get(a).unwrap().health.unwrap().hp, 9);
    assert_eq!(store.get(b).unwrap().health.unwrap().hp, 6);
}
