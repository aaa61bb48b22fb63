use vstd::prelude::*;

use crate::components::{AntState, FoodSource, Position, Velocity};
use crate::config::{WorldConfig, CHANCE_DENOM};
use crate::maths::{dist_sq, target_distance_sq, COORD_LIMIT};
use crate::rng::SimRng;
use crate::store::{Components, Slot, World};
use crate::systems::{
    find_first_nest, first_nest, has_nest, is_food, lemma_first_nest_is_nest, live, pos_of,
    slot_bounded, slots_bounded,
};

verus! {

/// Reflect one coordinate at the walls `0` and `hi`: the clamped coordinate
/// and the (possibly negated) velocity component.
pub open spec fn bounce(x: int, v: int, hi: int) -> (int, int) {
    if x < 0 {
        (0, -v)
    } else if x > hi {
        (hi, -v)
    } else {
        (x, v)
    }
}

/// One bounds-enforcement step for a slot with position and velocity.
pub open spec fn enforce_bounds_slot(s: Slot, width: int, height: int) -> Slot {
    if s.alive && s.comps.position is Some && s.comps.velocity is Some {
        let p = s.comps.position->Some_0;
        let v = s.comps.velocity->Some_0;
        let bx = bounce(p.x as int, v.dx as int, width);
        let by = bounce(p.y as int, v.dy as int, height);
        Slot {
            comps: Components {
                position: Some(Position { x: bx.0 as i64, y: by.0 as i64 }),
                velocity: Some(Velocity { dx: bx.1 as i64, dy: by.1 as i64 }),
                ..s.comps
            },
            ..s
        }
    } else {
        s
    }
}

/// Clamp every moving entity into `[0, width] x [0, height]`, negating the
/// velocity component along any wall it crossed. An entity already inside
/// the world is untouched.
pub fn enforce_bounds_system(w: &mut World, width: i64, height: i64)
    requires
        slots_bounded(old(w).slots@),
        0 <= width <= COORD_LIMIT,
        0 <= height <= COORD_LIMIT,
    ensures
        final(w).slots@.len() == old(w).slots@.len(),
        forall|i: int|
            0 <= i < old(w).slots@.len() ==> final(w).slots@[i] == enforce_bounds_slot(
                old(w).slots@[i],
                width as int,
                height as int,
            ),
        // idempotence: an in-bounds entity is left exactly as it was
        forall|i: int|
            live(old(w).slots@, i) && old(w).slots@[i].comps.position is Some && old(w).slots@[i].comps.velocity is Some && 0 <= pos_of(old(w).slots@, i).x <= width && 0
                <= pos_of(old(w).slots@, i).y <= height ==> final(w).slots@[i] == old(w).slots@[i],
        slots_bounded(final(w).slots@),
{
    let n = w.slots.len();
    let mut i: usize = 0;
    while i < n
        invariant
            i <= n,
            n == w.slots@.len(),
            n == old(w).slots@.len(),
            slots_bounded(old(w).slots@),
            0 <= width <= COORD_LIMIT,
            0 <= height <= COORD_LIMIT,
            forall|j: int|
                0 <= j < i ==> w.slots@[j] == enforce_bounds_slot(
                    old(w).slots@[j],
                    width as int,
                    height as int,
                ),
            forall|j: int| i <= j < n ==> w.slots@[j] == old(w).slots@[j],
            slots_bounded(w.slots@),
        decreases n - i,
    {
        let s = w.slots[i];
        if s.alive && s.comps.position.is_some() && s.comps.velocity.is_some() {
            let p = match s.comps.position {
                Some(p) => p,
                None => Position { x: 0, y: 0 },
            };
            let v = match s.comps.velocity {
                Some(v) => v,
                None => Velocity { dx: 0, dy: 0 },
            };
            proof {
                assert(live(old(w).slots@, i as int));
                assert(live(w.slots@, i as int));
            }
            let mut nx = p.x;
            let mut ny = p.y;
            let mut ndx = v.dx;
            let mut ndy = v.dy;
            if nx < 0 {
                nx = 0;
                ndx = -ndx;
            } else if nx > width {
                nx = width;
                ndx = -ndx;
            }
            if ny < 0 {
                ny = 0;
                ndy = -ndy;
            } else if ny > height {
                ny = height;
                ndy = -ndy;
            }
            let ns = Slot {
                generation: s.generation,
                alive: s.alive,
                comps: Components {
                    position: Some(Position { x: nx, y: ny }),
                    velocity: Some(Velocity { dx: ndx, dy: ndy }),
                    ..s.comps
                },
            };
            proof {
                assert(slot_bounded(ns));
            }
            w.slots.set(i, ns);
        }
        i += 1;
    }
}

/// Advance the generation tag the way a despawn does.
pub open spec fn next_generation(g: u64) -> u64 {
    if g == u64::MAX {
        0u64
    } else {
        (g + 1) as u64
    }
}

/// One despawn-sweep step: decrement a `Dying` countdown, then despawn the
/// slot if the countdown ran out, its food is exhausted, or its pheromone
/// has fully decayed.
pub open spec fn despawn_slot(s: Slot) -> Slot {
    if !s.alive {
        s
    } else {
        let s1 = match s.comps.state {
            Some(AntState::Dying(t)) => Slot {
                comps: Components {
                    state: Some(AntState::Dying(if t > 0 { (t - 1) as u32 } else { 0u32 })),
                    ..s.comps
                },
                ..s
            },
            _ => s,
        };
        let gone = (s.comps.food is Some && s.comps.food->Some_0.amount == 0) || (s.comps.pheromone
            is Some && s.comps.pheromone->Some_0.strength <= 0) || (match s1.comps.state {
            Some(AntState::Dying(t)) => t == 0,
            _ => false,
        });
        if gone {
            Slot { generation: next_generation(s1.generation), alive: false, comps: s1.comps }
        } else {
            s1
        }
    }
}

/// Remove depleted food sources, fully decayed pheromones, and ants whose
/// dying countdown (decremented here) has run out. Afterwards no live food
/// source is empty and no live deposit is exhausted, so a depleted source
/// can never be rediscovered.
pub fn despawn_system(w: &mut World)
    ensures
        final(w).slots@.len() == old(w).slots@.len(),
        forall|i: int|
            0 <= i < old(w).slots@.len() ==> final(w).slots@[i] == despawn_slot(old(w).slots@[i]),
        forall|i: int|
            live(final(w).slots@, i) && final(w).slots@[i].comps.food is Some
                ==> final(w).slots@[i].comps.food->Some_0.amount > 0,
        forall|i: int|
            live(final(w).slots@, i) && final(w).slots@[i].comps.pheromone is Some
                ==> final(w).slots@[i].comps.pheromone->Some_0.strength > 0,
        // retention: a stocked source that is not also something the sweep
        // removes is kept exactly as it was
        forall|i: int|
            live(old(w).slots@, i) && (#[trigger] old(w).slots@[i]).comps.food is Some && old(w).slots@[i].comps.food->Some_0.amount > 0 && old(w).slots@[i].comps.pheromone is None
                && !(old(w).slots@[i].comps.state is Some
                && old(w).slots@[i].comps.state->Some_0 is Dying) ==> final(w).slots@[i] == old(w).slots@[i],
{
    let n = w.slots.len();
    let mut i: usize = 0;
    while i < n
        invariant
            i <= n,
            n == w.slots@.len(),
            n == old(w).slots@.len(),
            forall|j: int| 0 <= j < i ==> w.slots@[j] == despawn_slot(old(w).slots@[j]),
            forall|j: int| i <= j < n ==> w.slots@[j] == old(w).slots@[j],
        decreases n - i,
    {
        let s = w.slots[i];
        if s.alive {
            let s1 = match s.comps.state {
                Some(AntState::Dying(t)) => {
                    let nt = if t > 0 {
                        t - 1
                    } else {
                        0
                    };
                    Slot {
                        generation: s.generation,
                        alive: s.alive,
                        comps: Components { state: Some(AntState::Dying(nt)), ..s.comps },
                    }
                },
                _ => s,
            };
            let dead_food = match s.comps.food {
                Some(f) => f.amount == 0,
                None => false,
            };
            let dead_pher = match s.comps.pheromone {
                Some(d) => d.strength <= 0,
                None => false,
            };
            let dead_dying = match s1.comps.state {
                Some(AntState::Dying(t)) => t == 0,
                _ => false,
            };
            if dead_food || dead_pher || dead_dying {
                let g = if s1.generation == u64::MAX {
                    0
                } else {
                    s1.generation + 1
                };
                w.slots.set(i, Slot { generation: g, alive: false, comps: s1.comps });
            } else {
                w.slots.set(i, s1);
            }
        }
        i += 1;
    }
}

/// The number of live, positioned food sources among slots `[0, j)`.
pub open spec fn count_food_upto(w: Seq<Slot>, j: int) -> int
    decreases j,
{
    if j <= 0 {
        0
    } else {
        count_food_upto(w, j - 1) + if is_food(w, j - 1) {
            1int
        } else {
            0int
        }
    }
}

pub open spec fn count_food(w: Seq<Slot>) -> int {
    count_food_upto(w, w.len() as int)
}

/// Sequences that agree slotwise on `[0, j)` hold the same food count there.
pub proof fn lemma_count_food_agree(w1: Seq<Slot>, w2: Seq<Slot>, j: int)
    requires
        j <= w1.len(),
        j <= w2.len(),
        forall|k: int| 0 <= k < j ==> w1[k] == w2[k],
    ensures
        count_food_upto(w1, j) == count_food_upto(w2, j),
    decreases j,
{
    if j > 0 {
        lemma_count_food_agree(w1, w2, j - 1);
    }
}

/// A slot holding nothing but a fresh food source inside the world and
/// farther than the configured minimum from the nest position `(nx, ny)`.
pub open spec fn fresh_food_slot(
    s: Slot,
    nx: int,
    ny: int,
    width: int,
    height: int,
    cfg: WorldConfig,
) -> bool {
    &&& s.alive
    &&& s.comps == Components {
        position: s.comps.position,
        velocity: None,
        ant: None,
        state: None,
        target: None,
        payload: None,
        nest: None,
        food: Some(FoodSource { amount: 100 }),
        pheromone: None,
        pheromone_kind: None,
    }
    &&& s.comps.position is Some
    &&& 0 <= s.comps.position->Some_0.x < width
    &&& 0 <= s.comps.position->Some_0.y < height
    &&& dist_sq(nx, ny, s.comps.position->Some_0.x as int, s.comps.position->Some_0.y as int)
        > cfg.food_spawn_min_distance_to_nest * cfg.food_spawn_min_distance_to_nest
}

/// While fewer than `max_food_sources` sources are live, place (with the
/// configured chance) one new source of 100 food at a random position,
/// redrawn a bounded number of times until it falls farther than the
/// configured minimum distance from the nest; if no draw qualifies, no
/// source is placed this tick.
pub fn food_spawn_system(
    w: &mut World,
    world_width: i64,
    world_height: i64,
    max_food_sources: u32,
    rng: &mut SimRng,
    cfg: &WorldConfig,
)
    requires
        slots_bounded(old(w).slots@),
        cfg.wf(),
        0 <= world_width <= COORD_LIMIT,
        0 <= world_height <= COORD_LIMIT,
        has_nest(old(w).slots@),
        old(w).slots@[first_nest(old(w).slots@)].comps.position is Some,
    ensures
        old(w).slots@.len() <= final(w).slots@.len() <= old(w).slots@.len() + 1,
        forall|i: int| live(old(w).slots@, i) ==> final(w).slots@[i] == old(w).slots@[i],
        forall|i: int|
            0 <= i < old(w).slots@.len() && !live(old(w).slots@, i)
                ==> final(w).slots@[i] == old(w).slots@[i] || fresh_food_slot(
                final(w).slots@[i],
                pos_of(old(w).slots@, first_nest(old(w).slots@)).x as int,
                pos_of(old(w).slots@, first_nest(old(w).slots@)).y as int,
                world_width as int,
                world_height as int,
                *cfg,
            ),
        forall|i: int|
            old(w).slots@.len() <= i < final(w).slots@.len() ==> fresh_food_slot(
                final(w).slots@[i],
                pos_of(old(w).slots@, first_nest(old(w).slots@)).x as int,
                pos_of(old(w).slots@, first_nest(old(w).slots@)).y as int,
                world_width as int,
                world_height as int,
                *cfg,
            ),
        final(w).slots@ != old(w).slots@ ==> count_food(old(w).slots@) < max_food_sources,
        slots_bounded(final(w).slots@),
{
    let nest_idx = match find_first_nest(w) {
        Some(i) => i,
        None => 0,
    };
    proof {
        lemma_first_nest_is_nest(w.slots@);
        assert(nest_idx as int == first_nest(old(w).slots@));
    }
    let npos = match w.slots[nest_idx].comps.position {
        Some(p) => p,
        None => Position { x: 0, y: 0 },
    };
    proof {
        assert(npos == pos_of(old(w).slots@, first_nest(old(w).slots@)));
    }

    let n = w.slots.len();
    let mut count: u64 = 0;
    let mut i: usize = 0;
    while i < n
        invariant
            i <= n,
            n == w.slots@.len(),
            w.slots@ == old(w).slots@,
            count == count_food_upto(w.slots@, i as int),
            count <= i,
        decreases n - i,
    {
        let s = w.slots[i];
        if s.alive && s.comps.food.is_some() && s.comps.position.is_some() {
            count = count + 1;
        }
        i += 1;
    }

    if count < max_food_sources as u64 && rng.random_below(CHANCE_DENOM)
        < cfg.food_spawn_chance_milli as u64 && world_width > 0 && world_height > 0 {
        let min_d = cfg.food_spawn_min_distance_to_nest;
        proof {
            assert(min_d * min_d <= 40_000_000_000_000_000 && min_d * min_d >= 0)
                by (nonlinear_arith)
                requires
                    0 <= min_d <= COORD_LIMIT,
            ;
        }
        let min_d2: i64 = min_d * min_d;
        let mut attempts: u32 = 0;
        while attempts < 64
            invariant
                w.slots@ == old(w).slots@,
                0 < world_width <= COORD_LIMIT,
                0 < world_height <= COORD_LIMIT,
                -COORD_LIMIT <= npos.x <= COORD_LIMIT,
                -COORD_LIMIT <= npos.y <= COORD_LIMIT,
                min_d2 == cfg.food_spawn_min_distance_to_nest
                    * cfg.food_spawn_min_distance_to_nest,
                count_food(old(w).slots@) < max_food_sources,
                slots_bounded(old(w).slots@),
                has_nest(old(w).slots@),
                npos == pos_of(old(w).slots@, first_nest(old(w).slots@)),
            decreases 64 - attempts,
        {
            let x = rng.random_below(world_width as u64) as i64;
            let y = rng.random_below(world_height as u64) as i64;
            let d2 = target_distance_sq(npos.x, npos.y, x, y);
            if d2 > min_d2 {
                let mut c = Components::empty();
                c.position = Some(Position { x, y });
                c.food = Some(FoodSource { amount: 100 });
                let ghost pre = w.slots@;
                let id = w.spawn(c);
                proof {
                    let gnx = pos_of(old(w).slots@, first_nest(old(w).slots@)).x as int;
                    let gny = pos_of(old(w).slots@, first_nest(old(w).slots@)).y as int;
                    let gw = world_width as int;
                    let gh = world_height as int;
                    assert(fresh_food_slot(w.slots@[id.index as int], gnx, gny, gw, gh, *cfg));
                    assert forall|i2: int| live(old(w).slots@, i2) implies w.slots@[i2] == old(w).slots@[i2] by {
                        assert(pre[i2] == old(w).slots@[i2]);
                        assert(pre[i2].alive);
                    }
                    assert forall|i2: int|
                        0 <= i2 < old(w).slots@.len() && !live(old(w).slots@, i2) implies w
                        .slots@[i2] == old(w).slots@[i2] || fresh_food_slot(
                        w.slots@[i2],
                        gnx,
                        gny,
                        gw,
                        gh,
                        *cfg,
                    ) by {
                        if i2 != id.index as int {
                            assert(w.slots@[i2] == pre[i2]);
                        }
                    }
                    assert forall|i2: int|
                        old(w).slots@.len() <= i2 < w.slots@.len() implies fresh_food_slot(
                        w.slots@[i2],
                        gnx,
                        gny,
                        gw,
                        gh,
                        *cfg,
                    ) by {
                        assert(i2 == id.index as int);
                    }
                }
                return ;
            }
            attempts += 1;
        }
    }
}

} // verus!
