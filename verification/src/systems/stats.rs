use vstd::prelude::*;

use crate::components::AntState;
use crate::store::{Slot, World};
use crate::systems::{first_nest, has_nest, is_ant, is_food, live};

verus! {

/// Aggregate counters over the world, refreshed at the end of every tick.
#[derive(Debug, PartialEq, Eq, Structural, Clone, Copy)]
pub struct Stats {
    pub alive_ants: u64,
    pub dead_ants: u64,
    pub food_sources: u64,
    pub food_in_nest: u64,
}

impl Stats {
    pub open spec fn default_spec() -> Stats {
        Stats { alive_ants: 0, dead_ants: 0, food_sources: 0, food_in_nest: 0 }
    }
}

impl Default for Stats {
    fn default() -> (s: Stats)
        ensures
            s == Stats::default_spec(),
    {
        Stats { alive_ants: 0, dead_ants: 0, food_sources: 0, food_in_nest: 0 }
    }
}

/// Slot `i` is an ant counted as alive: positioned, stateful, and not dying.
pub open spec fn is_living_ant(w: Seq<Slot>, i: int) -> bool {
    is_ant(w, i) && !(w[i].comps.state->Some_0 is Dying)
}

/// The number of living (non-dying) ants among slots `[0, j)`.
pub open spec fn count_living_ants_upto(w: Seq<Slot>, j: int) -> int
    decreases j,
{
    if j <= 0 {
        0
    } else {
        count_living_ants_upto(w, j - 1) + if is_living_ant(w, j - 1) {
            1int
        } else {
            0int
        }
    }
}

pub open spec fn count_living_ants(w: Seq<Slot>) -> int {
    count_living_ants_upto(w, w.len() as int)
}

/// Sequences that agree slotwise on `[0, j)` hold the same count there.
pub proof fn lemma_count_living_ants_agree(w1: Seq<Slot>, w2: Seq<Slot>, j: int)
    requires
        j <= w1.len(),
        j <= w2.len(),
        forall|k: int| 0 <= k < j ==> w1[k] == w2[k],
    ensures
        count_living_ants_upto(w1, j) == count_living_ants_upto(w2, j),
    decreases j,
{
    if j > 0 {
        lemma_count_living_ants_agree(w1, w2, j - 1);
    }
}

/// Refresh the alive-ant count (ants not in `Dying`), the food-source count,
/// and the food stored at the nest; the dead-ant total is accumulated
/// elsewhere and left alone.
pub fn update_world_stats(w: &World, stats: &mut Stats)
    ensures
        final(stats).alive_ants == count_living_ants(w.slots@),
        final(stats).food_sources == crate::systems::world::count_food(w.slots@),
        final(stats).food_in_nest == if has_nest(w.slots@) {
            w.slots@[first_nest(w.slots@)].comps.nest->Some_0.food_store
        } else {
            old(stats).food_in_nest
        },
        final(stats).dead_ants == old(stats).dead_ants,
{
    let n = w.slots.len();
    let mut ants: u64 = 0;
    let mut foods: u64 = 0;
    let mut i: usize = 0;
    while i < n
        invariant
            i <= n,
            n == w.slots@.len(),
            ants == count_living_ants_upto(w.slots@, i as int),
            foods == crate::systems::world::count_food_upto(w.slots@, i as int),
            ants <= i,
            foods <= i,
        decreases n - i,
    {
        let s = w.slots[i];
        if s.alive && s.comps.position.is_some() && s.comps.ant.is_some() && (match s.comps.state {
            Some(AntState::Dying(_)) => false,
            Some(_) => true,
            None => false,
        }) {
            ants = ants + 1;
        }
        if s.alive && s.comps.position.is_some() && s.comps.food.is_some() {
            foods = foods + 1;
        }
        i += 1;
    }
    stats.alive_ants = ants;
    stats.food_sources = foods;
    match crate::systems::find_first_nest(w) {
        Some(ni) => {
            proof {
                crate::systems::lemma_first_nest_is_nest(w.slots@);
            }
            match w.slots[ni].comps.nest {
                Some(nest) => {
                    stats.food_in_nest = nest.food_store;
                },
                None => {},
            }
        },
        None => {},
    }
}

} // verus!
