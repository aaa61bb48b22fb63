use formicarium::components::{
    Ant, AntState, FoodPayload, FoodSource, Nest, PheromoneDeposit, PheromoneType, Position,
    Target, Velocity,
};
use formicarium::config::{AntConfig, MovementConfig, PheromoneConfig, WorldConfig};
use formicarium::rng::SimRng;
use formicarium::store::{Components, World};
use formicarium::systems::ant::{
    ant_dying_system, ant_find_food_system, ant_foraging_system, ant_lifecycle_system,
    ant_returning_system,
};
use formicarium::systems::movement::{
    apply_velocity_system, pheromone_following_system, target_movement_system, wandering_system,
};
use formicarium::systems::pheromone::{pheromone_decay_system, pheromone_emission_system};
use formicarium::systems::stats::{update_world_stats, Stats};
use formicarium::systems::world::{despawn_system, enforce_bounds_system, food_spawn_system};

fn at(x: i64, y: i64) -> Components {
    let mut c = Components::empty();
    c.position = Some(Position { x, y });
    c
}

fn ant_at(x: i64, y: i64, state: AntState, health: u32) -> Components {
    let mut c = at(x, y);
    c.ant = Some(Ant { health });
    c.state = Some(state);
    c
}

fn count_ants(w: &World) -> usize {
    let mut n = 0;
    for s in w.slots.iter() {
        if s.alive && s.comps.position.is_some() && s.comps.ant.is_some() {
            n += 1;
        }
    }
    n
}

fn count_food(w: &World) -> usize {
    let mut n = 0;
    for s in w.slots.iter() {
        if s.alive && s.comps.position.is_some() && s.comps.food.is_some() {
            n += 1;
        }
    }
    n
}

#[test]
fn test_ant_find_food_system_updates_ant_to_foraging() {
    let mut world = World::new();
    let mut c = ant_at(10_000, 10_000, AntState::Wandering, 100);
    c.velocity = Some(Velocity { dx: 0, dy: 0 });
    let ant_entity = world.spawn(c);
    let mut fc = at(12_000, 12_000);
    fc.food = Some(FoodSource { amount: 100 });
    let food_entity = world.spawn(fc);

    ant_find_food_system(&mut world, &AntConfig::default());

    let target = world.get_target(ant_entity).unwrap();
    assert_eq!(target.0, food_entity);
    let state = world.get_state(ant_entity).unwrap();
    assert_eq!(state, AntState::Foraging);
}

#[test]
fn test_ant_foraging_system_updates_ant_to_wandering_when_food_is_gone() {
    let mut world = World::new();
    let mut nc = at(0, 0);
    nc.nest = Some(Nest::new());
    world.spawn(nc);
    let mut fc = at(10_000, 10_000);
    fc.food = Some(FoodSource { amount: 100 });
    let food_entity = world.spawn(fc);
    let mut c = ant_at(9_900, 9_900, AntState::Foraging, 100);
    c.target = Some(Target(food_entity));
    let ant_entity = world.spawn(c);

    world.despawn(food_entity).unwrap();
    ant_foraging_system(&mut world, &AntConfig::default());

    assert_eq!(world.get_state(ant_entity).unwrap(), AntState::Wandering);
    assert!(world.get_target(ant_entity).is_err());
}

#[test]
fn test_ant_foraging_system_updates_ant_to_wandering_when_food_is_empty() {
    let mut world = World::new();
    let mut nc = at(0, 0);
    nc.nest = Some(Nest::new());
    world.spawn(nc);
    let mut fc = at(10_000, 10_000);
    fc.food = Some(FoodSource { amount: 0 });
    let food_entity = world.spawn(fc);
    let mut c = ant_at(9_900, 9_900, AntState::Foraging, 100);
    c.target = Some(Target(food_entity));
    let ant_entity = world.spawn(c);

    ant_foraging_system(&mut world, &AntConfig::default());

    assert_eq!(world.get_state(ant_entity).unwrap(), AntState::Wandering);
    assert!(world.get_target(ant_entity).is_err());
}

#[test]
fn test_ant_foraging_system_gathers_food_and_returns_to_nest() {
    let mut world = World::new();
    let mut nc = at(0, 0);
    nc.nest = Some(Nest::new());
    let nest_entity = world.spawn(nc);
    let mut fc = at(10_000, 10_000);
    fc.food = Some(FoodSource { amount: 100 });
    let food_entity = world.spawn(fc);
    let mut c = ant_at(9_900, 9_900, AntState::Foraging, 100);
    c.target = Some(Target(food_entity));
    let ant_entity = world.spawn(c);

    ant_foraging_system(&mut world, &AntConfig::default());

    assert_eq!(world.get_state(ant_entity).unwrap(), AntState::ReturningToNest);
    assert_eq!(world.get_food(food_entity).unwrap().amount, 90);
    assert_eq!(world.get_payload(ant_entity).unwrap().0, 10);
    assert_eq!(world.get_target(ant_entity).unwrap().0, nest_entity);
}

#[test]
fn test_ant_returning_system_updates_ant_to_wandering_at_nest() {
    let mut world = World::new();
    let mut nc = at(0, 0);
    nc.nest = Some(Nest::new());
    let nest_entity = world.spawn(nc);
    let mut c = ant_at(100, 100, AntState::ReturningToNest, 100);
    c.payload = Some(FoodPayload(10));
    c.target = Some(Target(nest_entity));
    let ant_entity = world.spawn(c);

    ant_returning_system(&mut world, &AntConfig::default());

    assert_eq!(world.get_state(ant_entity).unwrap(), AntState::Wandering);
    assert!(world.get_payload(ant_entity).is_err());
    assert!(world.get_target(ant_entity).is_err());
    assert_eq!(world.get_nest(nest_entity).unwrap().food_store, 10);
}

#[test]
fn test_ant_lifecycle_system_decreases_health_of_all_ants() {
    let mut rng = SimRng::from_seed(42);
    let mut world = World::new();
    let mut c = ant_at(10_000, 10_000, AntState::Wandering, 100);
    c.velocity = Some(Velocity { dx: 0, dy: 0 });
    let ant_entity = world.spawn(c);
    let mut c2 = ant_at(10_000, 10_000, AntState::Foraging, 100);
    c2.velocity = Some(Velocity { dx: 0, dy: 0 });
    let ant_entity2 = world.spawn(c2);

    ant_lifecycle_system(&mut world, &mut rng, &AntConfig::default());

    assert_eq!(world.get_ant(ant_entity).unwrap().health, 99);
    assert_eq!(world.get_ant(ant_entity2).unwrap().health, 99);
}

#[test]
fn test_ant_lifecycle_system_spawns_new_ants() {
    let mut rng = SimRng::from_seed(42);
    let mut world = World::new();
    let mut nc = at(0, 0);
    nc.nest = Some(Nest { food_store: 150 });
    world.spawn(nc);
    let mut c = ant_at(10_000, 10_000, AntState::Wandering, 100);
    c.velocity = Some(Velocity { dx: 0, dy: 0 });
    world.spawn(c);

    ant_lifecycle_system(&mut world, &mut rng, &AntConfig::default());

    assert_eq!(count_ants(&world), 16);
}

#[test]
fn test_ant_dying_system_marks_exhausted_ants_once() {
    // Scenario: an ant with zero health in state Wandering enters Dying with
    // the configured countdown, and a second pass does not re-trigger it.
    let mut world = World::new();
    let cfg = AntConfig::default();
    let mut stats = Stats::default();
    let c = ant_at(5_000, 5_000, AntState::Wandering, 0);
    let ant_entity = world.spawn(c);

    ant_dying_system(&mut world, &mut stats, &cfg);
    assert_eq!(world.get_state(ant_entity).unwrap(), AntState::Dying(30));
    assert_eq!(stats.dead_ants, 1);

    ant_dying_system(&mut world, &mut stats, &cfg);
    assert_eq!(world.get_state(ant_entity).unwrap(), AntState::Dying(30));
    assert_eq!(stats.dead_ants, 1);

    // after the configured number of despawn sweeps the ant is gone
    for _ in 0..30 {
        despawn_system(&mut world);
    }
    assert!(world.get(ant_entity).is_err());
}

#[test]
fn test_pheromone_emission_system_emits_to_food_pheromones() {
    let mut world = World::new();
    let mut rng = SimRng::from_seed(42);
    let mut nc = at(0, 0);
    nc.nest = Some(Nest::new());
    world.spawn(nc);
    let mut c = ant_at(36_000, 48_000, AntState::ReturningToNest, 100);
    c.payload = Some(FoodPayload(10));
    world.spawn(c);

    for _ in 0..50 {
        pheromone_emission_system(&mut world, &mut rng, &PheromoneConfig::default());
    }

    let mut found = false;
    for s in world.slots.iter() {
        if s.alive && s.comps.pheromone.is_some() {
            assert_eq!(s.comps.pheromone.unwrap().strength, 100_000);
            assert_eq!(s.comps.pheromone_kind, Some(PheromoneType::ToFood));
            let p = s.comps.position.unwrap();
            assert_eq!(p.x, 36_000);
            assert_eq!(p.y, 48_000);
            found = true;
        }
    }
    assert!(found);
}

#[test]
fn test_pheromone_decay_system_decrements_pheromone_strength() {
    let mut world = World::new();
    let mut c = at(0, 0);
    c.pheromone = Some(PheromoneDeposit { strength: 100_000 });
    c.pheromone_kind = Some(PheromoneType::ToFood);
    let dep = world.spawn(c);

    pheromone_decay_system(&mut world, &PheromoneConfig::default());

    assert_eq!(world.get_pheromone(dep).unwrap().strength, 95_000);
}

#[test]
fn test_enforce_bounds_system_clamps_bounds_and_inverts_velocity() {
    // Scenario: an entity at (-10, 110) with velocity (-1, 1) in a 100 x 100
    // world ends at (0, 100) with velocity (1, -1).
    let mut world = World::new();
    let mut c = at(-10_000, 110_000);
    c.velocity = Some(Velocity { dx: -1_000, dy: 1_000 });
    let e = world.spawn(c);

    enforce_bounds_system(&mut world, 100_000, 100_000);

    let pos = world.get_position(e).unwrap();
    let vel = world.get_velocity(e).unwrap();
    assert_eq!(pos.x, 0);
    assert_eq!(pos.y, 100_000);
    assert_eq!(vel.dx, 1_000);
    assert_eq!(vel.dy, -1_000);
}

#[test]
fn test_enforce_bounds_system_leaves_inside_entities_alone() {
    let mut world = World::new();
    let mut c = at(40_000, 60_000);
    c.velocity = Some(Velocity { dx: -1_000, dy: 1_000 });
    let e = world.spawn(c);

    enforce_bounds_system(&mut world, 100_000, 100_000);

    assert_eq!(world.get_position(e).unwrap(), Position { x: 40_000, y: 60_000 });
    assert_eq!(world.get_velocity(e).unwrap(), Velocity { dx: -1_000, dy: 1_000 });
}

#[test]
fn test_food_spawn_system_spawns_food_at_random_positions() {
    let mut rng = SimRng::from_seed(42);
    let mut world = World::new();
    let mut nc = at(0, 0);
    nc.nest = Some(Nest::new());
    world.spawn(nc);

    let cfg = WorldConfig { food_spawn_chance_milli: 100, food_spawn_min_distance_to_nest: 25_000 };
    for _ in 0..500 {
        food_spawn_system(&mut world, 100_000, 100_000, 100, &mut rng, &cfg);
    }

    assert!(count_food(&world) > 1);
}

#[test]
fn test_despawn_system_removes_depleted_food_sources() {
    let mut world = World::new();
    let mut fc = at(10_000, 10_000);
    fc.food = Some(FoodSource { amount: 0 });
    let food_entity = world.spawn(fc);

    despawn_system(&mut world);

    assert!(world.get_food(food_entity).is_err());
}

#[test]
fn test_despawn_system_removes_decayed_pheromones() {
    let mut world = World::new();
    let mut c = at(10_000, 10_000);
    c.pheromone = Some(PheromoneDeposit { strength: 0 });
    c.pheromone_kind = Some(PheromoneType::ToFood);
    let dep = world.spawn(c);

    despawn_system(&mut world);

    assert!(world.get_pheromone(dep).is_err());
}

#[test]
fn test_target_movement_system_moves_towards_target() {
    let mut world = World::new();
    let mut fc = at(10_000, 10_000);
    fc.food = Some(FoodSource { amount: 100 });
    let food_entity = world.spawn(fc);
    let mut c = at(0, 0);
    c.velocity = Some(Velocity { dx: 0, dy: 0 });
    c.target = Some(Target(food_entity));
    let ant_entity = world.spawn(c);

    target_movement_system(&mut world);

    // the unit vector toward (10, 10) is about (0.707, 0.707)
    let vel = world.get_velocity(ant_entity).unwrap();
    assert_eq!(vel.dx, 707);
    assert_eq!(vel.dy, 707);
}

#[test]
fn test_apply_velocity_system_updates_positions() {
    let mut world = World::new();
    let mut c = at(10_000, 10_000);
    c.velocity = Some(Velocity { dx: 2_500, dy: -1_500 });
    let e = world.spawn(c);

    apply_velocity_system(&mut world);

    let pos = world.get_position(e).unwrap();
    assert_eq!(pos.x, 12_500);
    assert_eq!(pos.y, 8_500);
}

#[test]
fn test_wandering_system() {
    // with the default redraw probability a wandering ant eventually gets a
    // fresh unit heading, and the heading stays a unit vector
    let mut world = World::new();
    let mut rng = SimRng::from_seed(7);
    let mut c = ant_at(50_000, 50_000, AntState::Wandering, 100);
    c.velocity = Some(Velocity { dx: 0, dy: 0 });
    let ant_entity = world.spawn(c);

    for _ in 0..200 {
        wandering_system(&mut world, &mut rng, &MovementConfig::default());
        let v = world.get_velocity(ant_entity).unwrap();
        assert!(v.dx.abs() <= 1_000 && v.dy.abs() <= 1_000);
    }
    let v = world.get_velocity(ant_entity).unwrap();
    assert!(v.dx != 0 || v.dy != 0);
}

#[test]
fn test_pheromone_following_system_no_pheromones_fallback_to_wandering() {
    let mut world = World::new();
    let mut rng = SimRng::from_seed(123);
    let mut c = ant_at(0, 0, AntState::Wandering, 100);
    c.velocity = Some(Velocity { dx: 0, dy: 0 });
    let ant_entity = world.spawn(c);

    for _ in 0..100 {
        pheromone_following_system(&mut world, &mut rng, &PheromoneConfig::default());
    }

    let v = world.get_velocity(ant_entity).unwrap();
    assert!(v.dx != 0 || v.dy != 0);
}

#[test]
fn test_pheromone_following_system_steers_toward_food() {
    let mut world = World::new();
    let mut rng = SimRng::from_seed(42);
    // an ant very close to a pheromone
    let mut c = ant_at(9_900, 0, AntState::Wandering, 100);
    c.velocity = Some(Velocity { dx: 0, dy: 0 });
    let ant_entity = world.spawn(c);
    // a food source further away
    let mut fc = at(20_000, 0);
    fc.food = Some(FoodSource { amount: 100 });
    world.spawn(fc);
    // a pheromone right next to the ant
    let mut pc = at(10_000, 0);
    pc.pheromone = Some(PheromoneDeposit { strength: 50_000 });
    pc.pheromone_kind = Some(PheromoneType::ToFood);
    world.spawn(pc);

    for _ in 0..10 {
        pheromone_following_system(&mut world, &mut rng, &PheromoneConfig::default());
    }

    // it steers toward the food, not the nearby marker
    let v = world.get_velocity(ant_entity).unwrap();
    assert!(v.dx > 0);
    assert_eq!(v.dy, 0);
}

#[test]
fn test_update_world_stats_counts_living_ants_and_food() {
    let mut world = World::new();
    let mut nc = at(0, 0);
    nc.nest = Some(Nest { food_store: 42 });
    world.spawn(nc);
    world.spawn(ant_at(1_000, 1_000, AntState::Wandering, 10));
    world.spawn(ant_at(2_000, 2_000, AntState::Dying(5), 0));
    let mut fc = at(3_000, 3_000);
    fc.food = Some(FoodSource { amount: 7 });
    world.spawn(fc);

    let mut stats = Stats::default();
    update_world_stats(&world, &mut stats);

    assert_eq!(stats.alive_ants, 1);
    assert_eq!(stats.food_sources, 1);
    assert_eq!(stats.food_in_nest, 42);
}

#[test]
fn test_round_trip_discover_forage_return() {
    // An ant discovers food, forages, and returns: it ends wandering with no
    // target or payload, and the nest store rose by exactly the payload.
    let mut world = World::new();
    let mut nc = at(0, 0);
    nc.nest = Some(Nest::new());
    let nest_entity = world.spawn(nc);
    let mut fc = at(5_000, 5_000);
    fc.food = Some(FoodSource { amount: 100 });
    let food_entity = world.spawn(fc);
    let mut c = ant_at(4_000, 4_000, AntState::Wandering, 100);
    c.velocity = Some(Velocity { dx: 0, dy: 0 });
    let ant_entity = world.spawn(c);
    let cfg = AntConfig::default();

    ant_find_food_system(&mut world, &cfg);
    assert_eq!(world.get_state(ant_entity).unwrap(), AntState::Foraging);
    assert_eq!(world.get_target(ant_entity).unwrap().0, food_entity);

    // the ant is already within the arrival distance of the source
    ant_foraging_system(&mut world, &cfg);
    assert_eq!(world.get_state(ant_entity).unwrap(), AntState::ReturningToNest);
    assert_eq!(world.get_payload(ant_entity).unwrap().0, 10);
    assert_eq!(world.get_food(food_entity).unwrap().amount, 90);

    // walk it home and resolve the return
    world.insert(ant_entity, at(100, 100)).unwrap();
    ant_returning_system(&mut world, &cfg);
    assert_eq!(world.get_state(ant_entity).unwrap(), AntState::Wandering);
    assert!(world.get_target(ant_entity).is_err());
    assert!(world.get_payload(ant_entity).is_err());
    assert_eq!(world.get_nest(nest_entity).unwrap().food_store, 10);
}

#[test]
fn test_movement_system_moves_towards_target() {
    let mut world = World::new();
    let mut fc = at(10_000, 10_000);
    fc.food = Some(FoodSource { amount: 100 });
    let food_entity = world.spawn(fc);
    let mut c = at(0, 0);
    c.velocity = Some(Velocity { dx: 0, dy: 0 });
    c.target = Some(Target(food_entity));
    let ant_entity = world.spawn(c);

    target_movement_system(&mut world);

    let vel = world.get_velocity(ant_entity).unwrap();
    assert_eq!(vel.dx, 707);
    assert_eq!(vel.dy, 707);
}

#[test]
fn test_apply_velocity_system() {
    let mut world = World::new();
    let mut c = at(10_000, 10_000);
    c.velocity = Some(Velocity { dx: 2_500, dy: -1_500 });
    let e = world.spawn(c);

    apply_velocity_system(&mut world);

    let pos = world.get_position(e).unwrap();
    assert_eq!(pos.x, 12_500);
    assert_eq!(pos.y, 8_500);
}

#[test]
fn test_enforce_bounds_system() {
    let mut world = World::new();
    let mut c = at(-10_000, 110_000);
    c.velocity = Some(Velocity { dx: -1_000, dy: 1_000 });
    let e = world.spawn(c);

    enforce_bounds_system(&mut world, 100_000, 100_000);

    let pos = world.get_position(e).unwrap();
    let vel = world.get_velocity(e).unwrap();
    assert_eq!(pos.x, 0);
    assert_eq!(pos.y, 100_000);
    assert_eq!(vel.dx, 1_000);
    assert_eq!(vel.dy, -1_000);
}
