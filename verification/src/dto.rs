use vstd::prelude::*;

use crate::components::AntState;
use crate::store::Slot;
use crate::systems::{is_ant, is_food, live, pos_of};

verus! {

/// A rendering-friendly copy of an ant's state tag and dying countdown.
#[derive(Debug, PartialEq, Eq, Structural, Clone, Copy)]
pub enum AntStateDto {
    Wandering,
    Foraging,
    ReturningToNest,
    Dying(u32),
}

impl AntStateDto {
    pub open spec fn of_spec(s: AntState) -> AntStateDto {
        match s {
            AntState::Wandering => AntStateDto::Wandering,
            AntState::Foraging => AntStateDto::Foraging,
            AntState::ReturningToNest => AntStateDto::ReturningToNest,
            AntState::Dying(t) => AntStateDto::Dying(t),
        }
    }

    pub fn from_state(s: &AntState) -> (d: AntStateDto)
        ensures
            d == AntStateDto::of_spec(*s),
    {
        match s {
            AntState::Wandering => AntStateDto::Wandering,
            AntState::Foraging => AntStateDto::Foraging,
            AntState::ReturningToNest => AntStateDto::ReturningToNest,
            AntState::Dying(t) => AntStateDto::Dying(*t),
        }
    }
}

/// One ant as the snapshot reports it.
#[derive(Debug, PartialEq, Eq, Structural, Clone, Copy)]
pub struct AntDto {
    pub id: u64,
    pub x: i64,
    pub y: i64,
    pub state: AntStateDto,
    pub health: u32,
}

/// The nest's position as the snapshot reports it.
#[derive(Debug, PartialEq, Eq, Structural, Clone, Copy)]
pub struct NestDto {
    pub x: i64,
    pub y: i64,
}

/// One food source as the snapshot reports it.
#[derive(Debug, PartialEq, Eq, Structural, Clone, Copy)]
pub struct FoodSourceDto {
    pub id: u64,
    pub x: i64,
    pub y: i64,
    pub amount: u32,
}

/// Aggregate counters as the snapshot reports them.
#[derive(Debug, PartialEq, Eq, Structural, Clone, Copy)]
pub struct StatsDto {
    pub alive_ants: u64,
    pub dead_ants: u64,
    pub food_source_count: u64,
    pub food_in_nest: u64,
}

/// A read-only snapshot of the world for rendering: the nest, every food
/// source, every ant, and the world dimensions.
#[derive(Debug, Clone)]
pub struct WorldDto {
    pub nest: NestDto,
    pub food_sources: Vec<FoodSourceDto>,
    pub ants: Vec<AntDto>,
    pub width: i64,
    pub height: i64,
}

/// The ant snapshot entry for slot `i`.
pub open spec fn ant_dto_of(w: Seq<Slot>, i: int) -> AntDto {
    AntDto {
        id: i as u64,
        x: pos_of(w, i).x,
        y: pos_of(w, i).y,
        state: AntStateDto::of_spec(w[i].comps.state->Some_0),
        health: w[i].comps.ant->Some_0.health,
    }
}

/// The ant snapshot entries for slots `[0, j)`, in slot order.
pub open spec fn ants_dto_upto(w: Seq<Slot>, j: int) -> Seq<AntDto>
    decreases j,
{
    if j <= 0 {
        Seq::empty()
    } else {
        let prev = ants_dto_upto(w, j - 1);
        if is_ant(w, j - 1) {
            prev.push(ant_dto_of(w, j - 1))
        } else {
            prev
        }
    }
}

/// The food snapshot entry for slot `i`.
pub open spec fn food_dto_of(w: Seq<Slot>, i: int) -> FoodSourceDto {
    FoodSourceDto {
        id: i as u64,
        x: pos_of(w, i).x,
        y: pos_of(w, i).y,
        amount: w[i].comps.food->Some_0.amount,
    }
}

/// The food snapshot entries for slots `[0, j)`, in slot order.
pub open spec fn foods_dto_upto(w: Seq<Slot>, j: int) -> Seq<FoodSourceDto>
    decreases j,
{
    if j <= 0 {
        Seq::empty()
    } else {
        let prev = foods_dto_upto(w, j - 1);
        if is_food(w, j - 1) {
            prev.push(food_dto_of(w, j - 1))
        } else {
            prev
        }
    }
}

} // verus!
