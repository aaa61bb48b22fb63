//! Formicarium: an ant colony simulation with a verified core.
//!
//! Agents forage for food, lay and follow pheromone trails, return resources
//! to a nest, reproduce from stored food, and die. The entity/component store
//! and the fixed per-tick system pipeline are verified; randomness is drawn
//! from a PCG generator owned by the driver and threaded explicitly through
//! every system that needs it.
//!
//! Coordinates are fixed-point: `maths::SCALE` sub-units make one world unit.

pub mod components;
pub mod config;
pub mod dto;
pub mod laws;
pub mod maths;
pub mod rng;
pub mod simulation;
pub mod store;
pub mod systems;
