use formicarium::components::{Position, Velocity};
use formicarium::dto::NestDto;
use formicarium::simulation::{Simulation, SimulationOptions};
use formicarium::store::Components;

fn default_options() -> SimulationOptions {
    SimulationOptions::default()
}

#[test]
fn test_simulation_tick_updates_position() {
    let params = default_options();
    let mut simulation = Simulation::new_seeded(params, 9);
    let mut c = Components::empty();
    c.position = Some(Position { x: 10_000, y: 10_000 });
    c.velocity = Some(Velocity { dx: 5_000, dy: -5_000 });
    let entity = simulation.world.spawn(c);

    simulation.tick();

    // one tick applies the velocity exactly once
    let position = simulation.world.get_position(entity).unwrap();
    assert_eq!(position.x, 15_000);
    assert_eq!(position.y, 5_000);
}

#[test]
fn test_simulation_new_spawns_correct_entities() {
    let params = default_options();
    let simulation = Simulation::new(params);
    let mut ants = 0;
    let mut nests = 0;
    let mut food_sources = 0;
    for s in simulation.world.slots.iter() {
        if s.alive && s.comps.position.is_some() {
            if s.comps.ant.is_some() {
                ants += 1;
            }
            if s.comps.nest.is_some() {
                nests += 1;
            }
            if s.comps.food.is_some() {
                food_sources += 1;
            }
        }
    }
    assert_eq!(ants, 50);
    assert_eq!(nests, 1);
    assert_eq!(food_sources, 50);
}

#[test]
fn test_get_world_state_dto_includes_all_entities_and_dimensions() {
    let params = default_options();
    let simulation = Simulation::new(params);

    let dto = simulation.get_world_state_dto().unwrap();

    assert_eq!(dto.width, 100_000);
    assert_eq!(dto.height, 100_000);
    assert_eq!(dto.nest, NestDto { x: 40_000, y: 40_000 });
    assert_eq!(dto.food_sources.len(), 50);
    assert_eq!(dto.ants.len(), 50);
}

#[test]
fn test_get_world_statistics_includes_all_expected_stats() {
    let params = default_options();
    let mut simulation = Simulation::new(params);
    simulation.tick();

    let dto = simulation.get_world_statistics_dto();

    assert!(dto.alive_ants >= 50);
    assert!(dto.food_source_count >= 50);
}

#[test]
fn test_lone_wandering_ant_keeps_a_nonzero_heading() {
    // Scenario: no food, no pheromones, one wandering ant. After many ticks
    // its velocity is a nonzero vector bounded by the unit length, kept alive
    // by the wandering fallback.
    let params = SimulationOptions {
        width: 100_000,
        height: 100_000,
        starting_ants: 1,
        starting_food_sources: 0,
        max_food_sources: 0,
    };
    let mut simulation = Simulation::new_seeded(params, 42);
    for _ in 0..100 {
        simulation.tick();
    }
    let mut seen = false;
    for s in simulation.world.slots.iter() {
        if s.alive && s.comps.ant.is_some() {
            seen = true;
            let v = s.comps.velocity.unwrap();
            assert!(v.dx != 0 || v.dy != 0);
            assert!(v.dx.abs() <= 1_000 && v.dy.abs() <= 1_000);
        }
    }
    assert!(seen);
}

#[test]
fn test_seeded_runs_are_reproducible() {
    let params = default_options();
    let mut a = Simulation::new_seeded(params, 1234);
    let mut b = Simulation::new_seeded(params, 1234);
    for _ in 0..20 {
        a.tick();
        b.tick();
    }
    let da = a.get_world_state_dto().unwrap();
    let db = b.get_world_state_dto().unwrap();
    assert_eq!(da.ants.len(), db.ants.len());
    for (x, y) in da.ants.iter().zip(db.ants.iter()) {
        assert_eq!(x, y);
    }
    let sa = a.get_world_statistics_dto();
    let sb = b.get_world_statistics_dto();
    assert_eq!(sa, sb);
}
