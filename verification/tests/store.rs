use formicarium::components::{Ant, AntState, FoodSource, Position};
use formicarium::store::{Components, StoreError, World};

fn food_at(x: i64, y: i64, amount: u32) -> Components {
    let mut c = Components::empty();
    c.position = Some(Position { x, y });
    c.food = Some(FoodSource { amount });
    c
}

#[test]
fn test_spawn_get_despawn_round_trip() {
    let mut w = World::new();
    let id = w.spawn(food_at(1_000, 2_000, 5));
    assert_eq!(w.get_position(id).unwrap(), Position { x: 1_000, y: 2_000 });
    assert_eq!(w.get_food(id).unwrap().amount, 5);
    assert!(w.despawn(id).is_ok());
    assert_eq!(w.get(id), Err(StoreError::NoSuchEntity));
    assert_eq!(w.despawn(id), Err(StoreError::NoSuchEntity));
}

#[test]
fn test_stale_identifier_does_not_alias_reused_slot() {
    let mut w = World::new();
    let first = w.spawn(food_at(0, 0, 1));
    w.despawn(first).unwrap();
    // the slot is reused with a bumped generation
    let second = w.spawn(food_at(9, 9, 2));
    assert_eq!(second.index, first.index);
    assert_ne!(second.generation, first.generation);
    // the stale handle fails distinguishably instead of reading the newcomer
    assert_eq!(w.get(first), Err(StoreError::NoSuchEntity));
    assert_eq!(w.get_food(second).unwrap().amount, 2);
}

#[test]
fn test_missing_component_is_distinguished_from_missing_entity() {
    let mut w = World::new();
    let id = w.spawn(food_at(0, 0, 1));
    assert_eq!(w.get_ant(id), Err(StoreError::MissingComponent));
    w.despawn(id).unwrap();
    assert_eq!(w.get_ant(id), Err(StoreError::NoSuchEntity));
}

#[test]
fn test_insert_overlays_and_remove_drops_components() {
    let mut w = World::new();
    let id = w.spawn(food_at(4, 5, 10));
    let mut extra = Components::empty();
    extra.ant = Some(Ant { health: 3 });
    extra.state = Some(AntState::Wandering);
    w.insert(id, extra).unwrap();
    // present fields were overlaid, absent ones kept
    assert_eq!(w.get_food(id).unwrap().amount, 10);
    assert_eq!(w.get_ant(id).unwrap().health, 3);
    assert_eq!(w.get_state(id).unwrap(), AntState::Wandering);

    w.remove_target(id).unwrap();
    assert_eq!(w.get_target(id), Err(StoreError::MissingComponent));
}

#[test]
fn test_random_below_stays_in_range() {
    let mut rng = formicarium::rng::SimRng::from_seed(5);
    assert_eq!(rng.random_below(1), 0);
    let mut distinct = [false; 10];
    for _ in 0..1000 {
        let v = rng.random_below(10);
        assert!(v < 10);
        distinct[v as usize] = true;
    }
    // a uniform draw visits every residue over a thousand samples
    assert!(distinct.iter().all(|b| *b));
}
