pub mod ant;
pub mod movement;
pub mod pheromone;
pub mod stats;
pub mod world;

use vstd::prelude::*;

use crate::components::{EntityId, PheromoneType, Position};
use crate::maths::{dist_sq, COORD_LIMIT, STRENGTH_LIMIT, VEL_LIMIT};
use crate::store::{Slot, World};

verus! {

/// Slot `i` exists and is live.
pub open spec fn live(w: Seq<Slot>, i: int) -> bool {
    0 <= i < w.len() && w[i].alive
}

/// Slot `i` is a live ant as the systems query one: position, state, and
/// ant component all present.
pub open spec fn is_ant(w: Seq<Slot>, i: int) -> bool {
    live(w, i) && w[i].comps.ant is Some && w[i].comps.state is Some && w[i].comps.position is Some
}

/// Slot `i` is a live, positioned food source.
pub open spec fn is_food(w: Seq<Slot>, i: int) -> bool {
    live(w, i) && w[i].comps.food is Some && w[i].comps.position is Some
}

/// Slot `i` is a live, positioned pheromone deposit marking the way to food.
pub open spec fn is_to_food_pheromone(w: Seq<Slot>, i: int) -> bool {
    live(w, i) && w[i].comps.pheromone is Some && w[i].comps.position is Some
        && w[i].comps.pheromone_kind == Some(PheromoneType::ToFood)
}

/// The position of slot `i` (meaningful only when present).
pub open spec fn pos_of(w: Seq<Slot>, i: int) -> Position {
    w[i].comps.position->Some_0
}

/// Squared distance between the positions of slot `i` and slot `j`.
pub open spec fn slot_dist_sq(w: Seq<Slot>, i: int, j: int) -> int {
    dist_sq(
        pos_of(w, i).x as int,
        pos_of(w, i).y as int,
        pos_of(w, j).x as int,
        pos_of(w, j).y as int,
    )
}

/// The first live slot carrying a `Nest` at or after `i`, or the length when
/// there is none.
pub open spec fn first_nest_from(w: Seq<Slot>, i: int) -> int
    decreases w.len() - i,
{
    if i < 0 || i >= w.len() {
        w.len() as int
    } else if w[i].alive && w[i].comps.nest is Some {
        i
    } else {
        first_nest_from(w, i + 1)
    }
}

pub open spec fn first_nest(w: Seq<Slot>) -> int {
    first_nest_from(w, 0)
}

pub open spec fn has_nest(w: Seq<Slot>) -> bool {
    first_nest(w) < w.len()
}

/// When a nest exists, the slot the scan reports really is a live nest.
pub proof fn lemma_first_nest_is_nest(w: Seq<Slot>)
    requires
        has_nest(w),
    ensures
        live(w, first_nest(w)),
        w[first_nest(w)].comps.nest is Some,
{
    lemma_first_nest_from_is_nest(w, 0);
}

proof fn lemma_first_nest_from_is_nest(w: Seq<Slot>, j: int)
    requires
        0 <= j <= w.len(),
        first_nest_from(w, j) < w.len(),
    ensures
        live(w, first_nest_from(w, j)),
        w[first_nest_from(w, j)].comps.nest is Some,
    decreases w.len() - j,
{
    if j < w.len() {
        if !(w[j].alive && w[j].comps.nest is Some) {
            lemma_first_nest_from_is_nest(w, j + 1);
        }
    }
}

/// The handle naming the current occupant of slot `i`.
pub open spec fn id_of(w: Seq<Slot>, i: int) -> EntityId {
    EntityId { index: i as usize, generation: w[i].generation }
}

/// A slot's numeric components are within the fixed-point working range.
pub open spec fn slot_bounded(s: Slot) -> bool {
    &&& (s.comps.position is Some ==> -COORD_LIMIT <= s.comps.position->Some_0.x <= COORD_LIMIT
        && -COORD_LIMIT <= s.comps.position->Some_0.y <= COORD_LIMIT)
    &&& (s.comps.velocity is Some ==> -VEL_LIMIT <= s.comps.velocity->Some_0.dx <= VEL_LIMIT
        && -VEL_LIMIT <= s.comps.velocity->Some_0.dy <= VEL_LIMIT)
    &&& (s.comps.pheromone is Some ==> -STRENGTH_LIMIT <= s.comps.pheromone->Some_0.strength
        <= STRENGTH_LIMIT)
}

/// Every live slot's numeric components are within the fixed-point working
/// range, so squared distances and decays stay inside `i64`.
pub open spec fn slots_bounded(w: Seq<Slot>) -> bool {
    forall|i: int| live(w, i) ==> slot_bounded(#[trigger] w[i])
}

/// Every live position is within `lim` of the origin in each coordinate.
pub open spec fn positions_within(w: Seq<Slot>, lim: int) -> bool {
    forall|i: int|
        live(w, i) && (#[trigger] w[i]).comps.position is Some ==> -lim
            <= w[i].comps.position->Some_0.x <= lim && -lim <= w[i].comps.position->Some_0.y <= lim
}

/// The first live nest found by a scan, as an exec search with the spec
/// above as its meaning.
pub fn find_first_nest(w: &World) -> (r: Option<usize>)
    ensures
        r is Some <==> has_nest(w.slots@),
        r is Some ==> r->Some_0 == first_nest(w.slots@),
{
    let n = w.slots.len();
    let mut i: usize = 0;
    proof {
        lemma_first_nest_from_lb(w.slots@, 0);
    }
    while i < n
        invariant
            i <= n,
            n == w.slots@.len(),
            first_nest(w.slots@) >= i,
            forall|j: int| 0 <= j < i ==> !(w.slots@[j].alive && w.slots@[j].comps.nest is Some),
        decreases n - i,
    {
        let s = w.slots[i];
        if s.alive && s.comps.nest.is_some() {
            proof {
                lemma_first_nest_bound(w.slots@, 0, i as int);
            }
            return Some(i);
        }
        proof {
            lemma_first_nest_step(w.slots@, i as int);
        }
        i += 1;
    }
    None
}

/// If no live nest occurs before `i` and slot `i` is a live nest, the scan
/// reports `i`.
pub proof fn lemma_first_nest_bound_pub(w: Seq<Slot>, i: int)
    requires
        0 <= i < w.len(),
        forall|k: int| 0 <= k < i ==> !(w[k].alive && w[k].comps.nest is Some),
        w[i].alive && w[i].comps.nest is Some,
    ensures
        first_nest(w) == i,
{
    lemma_first_nest_bound(w, 0, i);
}

/// If no nest occurs before `i` and slot `i` is a nest, the first nest is `i`.
proof fn lemma_first_nest_bound(w: Seq<Slot>, j: int, i: int)
    requires
        0 <= j <= i < w.len(),
        forall|k: int| j <= k < i ==> !(w[k].alive && w[k].comps.nest is Some),
        w[i].alive && w[i].comps.nest is Some,
    ensures
        first_nest_from(w, j) == i,
    decreases i - j,
{
    if j < i {
        lemma_first_nest_bound(w, j + 1, i);
    }
}

/// If slot `i` is not a nest, the scan from `i` continues at `i + 1`.
proof fn lemma_first_nest_step(w: Seq<Slot>, i: int)
    requires
        0 <= i < w.len(),
        !(w[i].alive && w[i].comps.nest is Some),
        first_nest(w) >= i,
    ensures
        first_nest(w) >= i + 1,
{
    lemma_first_nest_from_ge(w, 0, i);
}

proof fn lemma_first_nest_from_ge(w: Seq<Slot>, j: int, i: int)
    requires
        0 <= j <= i < w.len(),
        !(w[i].alive && w[i].comps.nest is Some),
        first_nest_from(w, j) >= i,
    ensures
        first_nest_from(w, j) >= i + 1,
    decreases i - j,
{
    if j < i {
        if !(w[j].alive && w[j].comps.nest is Some) {
            lemma_first_nest_from_ge(w, j + 1, i);
        }
    } else {
        lemma_first_nest_from_lb(w, j + 1);
    }
}

/// The scan from `j` never reports an index before `j`.
proof fn lemma_first_nest_from_lb(w: Seq<Slot>, j: int)
    requires
        0 <= j <= w.len(),
    ensures
        first_nest_from(w, j) >= j,
    decreases w.len() - j,
{
    if j < w.len() {
        if !(w[j].alive && w[j].comps.nest is Some) {
            lemma_first_nest_from_lb(w, j + 1);
        }
    }
}

/// Two worlds that agree on liveness and nest presence have the same first
/// nest.
pub proof fn lemma_first_nest_agree(w1: Seq<Slot>, w2: Seq<Slot>)
    requires
        w1.len() == w2.len(),
        forall|k: int|
            0 <= k < w1.len() ==> (#[trigger] w1[k]).alive == w2[k].alive && (w1[k].comps.nest
                is Some <==> w2[k].comps.nest is Some),
    ensures
        first_nest(w1) == first_nest(w2),
{
    lemma_first_nest_from_agree(w1, w2, 0);
}

proof fn lemma_first_nest_from_agree(w1: Seq<Slot>, w2: Seq<Slot>, j: int)
    requires
        0 <= j <= w1.len(),
        w1.len() == w2.len(),
        forall|k: int|
            0 <= k < w1.len() ==> (#[trigger] w1[k]).alive == w2[k].alive && (w1[k].comps.nest
                is Some <==> w2[k].comps.nest is Some),
    ensures
        first_nest_from(w1, j) == first_nest_from(w2, j),
    decreases w1.len() - j,
{
    if j < w1.len() {
        if !(w1[j].alive && w1[j].comps.nest is Some) {
            lemma_first_nest_from_agree(w1, w2, j + 1);
        }
    }
}

/// The number of live slots among `[0, j)`.
pub open spec fn count_live_upto(w: Seq<Slot>, j: int) -> int
    decreases j,
{
    if j <= 0 {
        0
    } else {
        count_live_upto(w, j - 1) + if w[j - 1].alive {
            1int
        } else {
            0int
        }
    }
}

/// The number of live slots: the population of the world.
pub open spec fn count_live(w: Seq<Slot>) -> int {
    count_live_upto(w, w.len() as int)
}

/// Two slot sequences that agree on `[0, j)` hold the same count there.
pub proof fn lemma_count_live_agree(w1: Seq<Slot>, w2: Seq<Slot>, j: int)
    requires
        forall|k: int| 0 <= k < j ==> w1[k].alive == w2[k].alive,
    ensures
        count_live_upto(w1, j) == count_live_upto(w2, j),
    decreases j,
{
    if j > 0 {
        lemma_count_live_agree(w1, w2, j - 1);
    }
}

/// Updating slot `i` changes the count by the difference in liveness.
pub proof fn lemma_count_live_update(w: Seq<Slot>, i: int, s: Slot, j: int)
    requires
        0 <= i < j <= w.len(),
    ensures
        count_live_upto(w.update(i, s), j) == count_live_upto(w, j) - (if w[i].alive {
            1int
        } else {
            0int
        }) + (if s.alive {
            1int
        } else {
            0int
        }),
    decreases j,
{
    if j - 1 > i {
        lemma_count_live_update(w, i, s, j - 1);
    } else {
        lemma_count_live_agree(w.update(i, s), w, j - 1);
    }
}

/// Appending a slot adds its liveness to the count.
pub proof fn lemma_count_live_push(w: Seq<Slot>, s: Slot)
    ensures
        count_live(w.push(s)) == count_live(w) + (if s.alive {
            1int
        } else {
            0int
        }),
{
    lemma_count_live_agree(w.push(s), w, w.len() as int);
}

/// The nearest food source to `(px, py)` strictly within squared radius
/// `r2`, considering slots `[0, j)`: the index and its squared distance,
/// with ties broken in favour of the earliest slot.
pub open spec fn best_food_upto(w: Seq<Slot>, px: int, py: int, r2: int, j: int) -> Option<
    (int, int),
>
    decreases j,
{
    if j <= 0 {
        None
    } else {
        let prev = best_food_upto(w, px, py, r2, j - 1);
        let i = j - 1;
        if is_food(w, i) {
            let d = dist_sq(px, py, pos_of(w, i).x as int, pos_of(w, i).y as int);
            if d < r2 && (prev is None || d < prev->Some_0.1) {
                Some((i, d))
            } else {
                prev
            }
        } else {
            prev
        }
    }
}

/// The nearest food source strictly within squared radius `r2` of `(px, py)`.
pub open spec fn nearest_food(w: Seq<Slot>, px: int, py: int, r2: int) -> Option<(int, int)> {
    best_food_upto(w, px, py, r2, w.len() as int)
}

/// A reported nearest food source really is a food slot in range.
pub proof fn lemma_best_food_is_food(w: Seq<Slot>, px: int, py: int, r2: int, j: int)
    requires
        best_food_upto(w, px, py, r2, j) is Some,
    ensures
        is_food(w, best_food_upto(w, px, py, r2, j)->Some_0.0),
        0 <= best_food_upto(w, px, py, r2, j)->Some_0.0 < j,
    decreases j,
{
    if j > 0 {
        let prev = best_food_upto(w, px, py, r2, j - 1);
        if best_food_upto(w, px, py, r2, j) != prev {
        } else {
            lemma_best_food_is_food(w, px, py, r2, j - 1);
        }
    }
}

/// Scan every food source and keep the nearest strictly within `r2`,
/// earliest slot winning ties.
pub fn find_nearest_food(w: &World, px: i64, py: i64, r2: i64) -> (r: Option<(usize, i64)>)
    requires
        slots_bounded(w.slots@),
        -COORD_LIMIT <= px <= COORD_LIMIT,
        -COORD_LIMIT <= py <= COORD_LIMIT,
    ensures
        match r {
            Some((i, d)) => nearest_food(w.slots@, px as int, py as int, r2 as int) == Some(
                (i as int, d as int),
            ),
            None => nearest_food(w.slots@, px as int, py as int, r2 as int) is None,
        },
{
    let n = w.slots.len();
    let mut best: Option<(usize, i64)> = None;
    let mut j: usize = 0;
    while j < n
        invariant
            j <= n,
            n == w.slots@.len(),
            slots_bounded(w.slots@),
            -COORD_LIMIT <= px <= COORD_LIMIT,
            -COORD_LIMIT <= py <= COORD_LIMIT,
            match best {
                Some((i, d)) => best_food_upto(w.slots@, px as int, py as int, r2 as int, j as int)
                    == Some((i as int, d as int)),
                None => best_food_upto(w.slots@, px as int, py as int, r2 as int, j as int)
                    is None,
            },
        decreases n - j,
    {
        let s = w.slots[j];
        if s.alive && s.comps.food.is_some() && s.comps.position.is_some() {
            let p = match s.comps.position {
                Some(p) => p,
                None => Position { x: 0, y: 0 },
            };
            proof {
                assert(live(w.slots@, j as int));
            }
            let d = crate::maths::target_distance_sq(px, py, p.x, p.y);
            let replace = d < r2 && (match best {
                Some((_, bd)) => d < bd,
                None => true,
            });
            if replace {
                best = Some((j, d));
            }
        }
        j += 1;
    }
    best
}

} // verus!
