use vstd::prelude::*;

use crate::maths::{COORD_LIMIT, STRENGTH_LIMIT};

verus! {

/// Probabilities are expressed in thousandths: a chance of `n` fires when a
/// uniform draw from `0..1000` lands below `n`.
pub const CHANCE_DENOM: u64 = 1000;

/// World-level tuning: food spawning.
#[derive(Debug, PartialEq, Eq, Structural, Clone, Copy)]
pub struct WorldConfig {
    /// Chance per tick to place a new food source, in thousandths.
    pub food_spawn_chance_milli: u32,
    /// New food sources must lie farther than this from the nest (sub-units).
    pub food_spawn_min_distance_to_nest: i64,
}

impl WorldConfig {
    pub open spec fn wf(self) -> bool {
        0 <= self.food_spawn_min_distance_to_nest <= COORD_LIMIT
    }

    pub open spec fn default_spec() -> WorldConfig {
        WorldConfig { food_spawn_chance_milli: 10, food_spawn_min_distance_to_nest: 25_000 }
    }
}

impl Default for WorldConfig {
    fn default() -> (c: WorldConfig)
        ensures
            c == WorldConfig::default_spec(),
            c.wf(),
    {
        WorldConfig { food_spawn_chance_milli: 10, food_spawn_min_distance_to_nest: 25_000 }
    }
}

/// Ant-level tuning: thresholds, payloads, health, and dying countdown.
#[derive(Debug, PartialEq, Eq, Structural, Clone, Copy)]
pub struct AntConfig {
    /// An ant within this distance of its target has arrived (sub-units).
    pub arrival_distance: i64,
    /// Food units taken from a source on arrival.
    pub food_payload_amount: u32,
    /// A wandering ant spots food within this distance (sub-units).
    pub discovery_radius: i64,
    /// Newborn ants draw their health from `min_health..max_health`.
    pub min_health: u32,
    pub max_health: u32,
    /// Ticks an ant lingers in `Dying` before it is despawned.
    pub death_animation_ticks: u32,
}

impl AntConfig {
    pub open spec fn wf(self) -> bool {
        &&& 0 <= self.arrival_distance <= COORD_LIMIT
        &&& 0 <= self.discovery_radius <= COORD_LIMIT
        &&& self.min_health < self.max_health
        &&& self.death_animation_ticks >= 1
    }

    pub open spec fn default_spec() -> AntConfig {
        AntConfig {
            arrival_distance: 10_000,
            food_payload_amount: 10,
            discovery_radius: 31_600,
            min_health: 500,
            max_health: 1000,
            death_animation_ticks: 30,
        }
    }
}

impl Default for AntConfig {
    fn default() -> (c: AntConfig)
        ensures
            c == AntConfig::default_spec(),
            c.wf(),
    {
        AntConfig {
            arrival_distance: 10_000,
            food_payload_amount: 10,
            discovery_radius: 31_600,
            min_health: 500,
            max_health: 1000,
            death_animation_ticks: 30,
        }
    }
}

/// Pheromone tuning: emission chance, strength, decay, detection.
#[derive(Debug, PartialEq, Eq, Structural, Clone, Copy)]
pub struct PheromoneConfig {
    /// Chance per tick that a returning ant drops a deposit, in thousandths.
    pub emit_chance_milli: u32,
    /// Strength of a fresh deposit (sub-units).
    pub initial_strength: i64,
    /// Strength lost by every deposit each tick (sub-units).
    pub decay_amount: i64,
    /// A wandering ant senses deposits within this distance (sub-units).
    pub detection_radius: i64,
}

impl PheromoneConfig {
    pub open spec fn wf(self) -> bool {
        &&& 0 < self.initial_strength <= STRENGTH_LIMIT
        &&& 0 <= self.decay_amount <= STRENGTH_LIMIT
        &&& 0 <= self.detection_radius <= COORD_LIMIT
    }

    pub open spec fn default_spec() -> PheromoneConfig {
        PheromoneConfig {
            emit_chance_milli: 500,
            initial_strength: 100_000,
            decay_amount: 5_000,
            detection_radius: 20_000,
        }
    }
}

impl Default for PheromoneConfig {
    fn default() -> (c: PheromoneConfig)
        ensures
            c == PheromoneConfig::default_spec(),
            c.wf(),
    {
        PheromoneConfig {
            emit_chance_milli: 500,
            initial_strength: 100_000,
            decay_amount: 5_000,
            detection_radius: 20_000,
        }
    }
}

/// Movement tuning.
#[derive(Debug, PartialEq, Eq, Structural, Clone, Copy)]
pub struct MovementConfig {
    /// Chance per tick that a wandering ant redraws its heading, in
    /// thousandths.
    pub wander_probability_milli: u32,
    /// Nominal speed in sub-units per tick.
    pub speed: i64,
}

impl MovementConfig {
    pub open spec fn default_spec() -> MovementConfig {
        MovementConfig { wander_probability_milli: 100, speed: 3_000 }
    }
}

impl Default for MovementConfig {
    fn default() -> (c: MovementConfig)
        ensures
            c == MovementConfig::default_spec(),
    {
        MovementConfig { wander_probability_milli: 100, speed: 3_000 }
    }
}

/// Host rendering pace; read by the shell around the simulation, never by
/// the core itself.
#[derive(Debug, PartialEq, Eq, Structural, Clone, Copy)]
pub struct RenderingConfig {
    pub animation_speed: u64,
}

impl Default for RenderingConfig {
    fn default() -> (c: RenderingConfig)
        ensures
            c.animation_speed == 1,
    {
        RenderingConfig { animation_speed: 1 }
    }
}

/// The immutable configuration value constructed once at startup and passed
/// by reference into the driver and systems.
#[derive(Debug, PartialEq, Eq, Structural, Clone, Copy)]
pub struct SimulationConfig {
    pub world: WorldConfig,
    pub ant: AntConfig,
    pub pheromone: PheromoneConfig,
    pub movement: MovementConfig,
}

impl SimulationConfig {
    pub open spec fn wf(self) -> bool {
        self.world.wf() && self.ant.wf() && self.pheromone.wf()
    }

    pub open spec fn default_spec() -> SimulationConfig {
        SimulationConfig {
            world: WorldConfig::default_spec(),
            ant: AntConfig::default_spec(),
            pheromone: PheromoneConfig::default_spec(),
            movement: MovementConfig::default_spec(),
        }
    }
}

impl Default for SimulationConfig {
    fn default() -> (c: SimulationConfig)
        ensures
            c == SimulationConfig::default_spec(),
            c.wf(),
    {
        SimulationConfig {
            world: WorldConfig::default(),
            ant: AntConfig::default(),
            pheromone: PheromoneConfig::default(),
            movement: MovementConfig::default(),
        }
    }
}

} // verus!
