use vstd::prelude::*;

verus! {

/// A spatial location, in fixed-point sub-units (`maths::SCALE` per unit).
#[derive(Debug, PartialEq, Eq, Structural, Clone, Copy)]
pub struct Position {
    pub x: i64,
    pub y: i64,
}

/// A per-tick displacement, in fixed-point sub-units.
#[derive(Debug, PartialEq, Eq, Structural, Clone, Copy)]
pub struct Velocity {
    pub dx: i64,
    pub dy: i64,
}

/// A handle to a store slot; the generation tag distinguishes it from later
/// occupants of the same slot.
#[derive(Debug, PartialEq, Eq, Structural, Clone, Copy)]
pub struct EntityId {
    pub index: usize,
    pub generation: u64,
}

/// A weak reference to another entity (a food source or the nest); present
/// only while an ant is actively seeking something.
#[derive(Debug, PartialEq, Eq, Structural, Clone, Copy)]
pub struct Target(pub EntityId);

/// An ant; health is decremented once per tick while positive.
#[derive(Debug, PartialEq, Eq, Structural, Clone, Copy)]
pub struct Ant {
    pub health: u32,
}

/// The behavioural state of an ant. `Dying` carries the remaining ticks of
/// its countdown.
#[derive(Debug, PartialEq, Eq, Structural, Clone, Copy)]
pub enum AntState {
    Wandering,
    Foraging,
    ReturningToNest,
    Dying(u32),
}

/// Food carried by an ant on its way back to the nest.
#[derive(Debug, PartialEq, Eq, Structural, Clone, Copy)]
pub struct FoodPayload(pub u32);

/// A decaying scent mark, in fixed-point strength sub-units.
#[derive(Debug, PartialEq, Eq, Structural, Clone, Copy)]
pub struct PheromoneDeposit {
    pub strength: i64,
}

/// Tag for a deposit that marks the way to food.
#[derive(Debug, PartialEq, Eq, Structural, Clone, Copy)]
pub struct PheromoneToFood;

/// Tag for a deposit that marks the way to the nest (reserved).
#[derive(Debug, PartialEq, Eq, Structural, Clone, Copy)]
pub struct PheromoneToNest;

/// The kind of signal a pheromone deposit carries.
#[derive(Debug, PartialEq, Eq, Structural, Clone, Copy)]
pub enum PheromoneType {
    ToFood,
    ToNest,
}

/// The colony's home; food brought back accumulates in its store.
#[derive(Debug, PartialEq, Eq, Structural, Clone, Copy)]
pub struct Nest {
    pub food_store: u64,
}

impl Nest {
    pub fn new() -> (n: Nest)
        ensures
            n.food_store == 0,
    {
        Nest { food_store: 0 }
    }
}

/// A finite resource; despawned once its amount reaches zero.
#[derive(Debug, PartialEq, Eq, Structural, Clone, Copy)]
pub struct FoodSource {
    pub amount: u32,
}

} // verus!
