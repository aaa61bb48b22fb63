use vstd::prelude::*;

use crate::components::{AntState, Position, Velocity};
use crate::config::{MovementConfig, PheromoneConfig, CHANCE_DENOM};
use crate::maths::{
    dist_sq, normalize_spec, normalize_vector, target_distance_sq, COORD_LIMIT, SCALE, VEL_LIMIT,
};
use crate::rng::SimRng;
use crate::store::{valid_id, Components, Slot, World};
use crate::systems::{
    find_nearest_food, is_food, is_to_food_pheromone, live, nearest_food, pos_of, positions_within,
    slot_bounded, slots_bounded,
};

verus! {

/// A velocity of unit length (up to fixed-point rounding): bounded by
/// `SCALE` and nonzero.
pub open spec fn unit_vel(v: Velocity) -> bool {
    -SCALE <= v.dx <= SCALE && -SCALE <= v.dy <= SCALE && (v.dx != 0 || v.dy != 0)
}

/// The effect of writing velocity `d` to slot `s`, skipping entities that
/// are dead or carry no `Velocity` (as the apply pass of each movement
/// system does).
pub open spec fn vel_write_slot(s: Slot, d: Option<Velocity>) -> Slot {
    match d {
        None => s,
        Some(v) => if s.alive && s.comps.velocity is Some {
            Slot { comps: Components { velocity: Some(v), ..s.comps }, ..s }
        } else {
            s
        },
    }
}

/// How a wandering redraw may leave a slot: untouched, or with its velocity
/// replaced by a fresh unit heading. Everything else is preserved.
pub open spec fn wander_step_ok(s0: Slot, s1: Slot) -> bool {
    &&& s1.generation == s0.generation
    &&& s1.alive == s0.alive
    &&& s1.comps == Components { velocity: s1.comps.velocity, ..s0.comps }
    &&& (s1.comps.velocity == s0.comps.velocity || (s1.comps.velocity is Some && unit_vel(
        s1.comps.velocity->Some_0,
    )))
}

/// Write the buffered velocity decisions back into the store. Decisions are
/// unit headings, so boundedness is preserved.
fn apply_velocity_writes(w: &mut World, dec: &Vec<Option<Velocity>>)
    requires
        dec@.len() == old(w).slots@.len(),
        slots_bounded(old(w).slots@),
        forall|i: int| 0 <= i < dec@.len() && dec@[i] is Some ==> unit_vel(dec@[i]->Some_0),
    ensures
        final(w).slots@.len() == old(w).slots@.len(),
        forall|i: int|
            0 <= i < old(w).slots@.len() ==> final(w).slots@[i] == vel_write_slot(
                old(w).slots@[i],
                dec@[i],
            ),
        slots_bounded(final(w).slots@),
{
    let n = w.slots.len();
    let mut i: usize = 0;
    while i < n
        invariant
            i <= n,
            n == w.slots@.len(),
            n == old(w).slots@.len(),
            n == dec@.len(),
            slots_bounded(old(w).slots@),
            forall|k: int| 0 <= k < dec@.len() && dec@[k] is Some ==> unit_vel(dec@[k]->Some_0),
            forall|j: int|
                0 <= j < i ==> w.slots@[j] == vel_write_slot(old(w).slots@[j], dec@[j]),
            forall|j: int| i <= j < n ==> w.slots@[j] == old(w).slots@[j],
            slots_bounded(w.slots@),
        decreases n - i,
    {
        match dec[i] {
            Some(v) => {
                let s = w.slots[i];
                if s.alive && s.comps.velocity.is_some() {
                    let ns = Slot {
                        generation: s.generation,
                        alive: s.alive,
                        comps: Components { velocity: Some(v), ..s.comps },
                    };
                    proof {
                        assert(live(w.slots@, i as int));
                        assert(slot_bounded(ns));
                    }
                    w.slots.set(i, ns);
                }
            },
            None => {},
        }
        i += 1;
    }
}

/// One step of position integration: add the velocity to the position;
/// entities lacking either component are untouched.
pub open spec fn apply_velocity_slot(s: Slot) -> Slot {
    if s.alive && s.comps.position is Some && s.comps.velocity is Some {
        let p = s.comps.position->Some_0;
        let v = s.comps.velocity->Some_0;
        Slot {
            comps: Components {
                position: Some(
                    Position { x: (p.x + v.dx) as i64, y: (p.y + v.dy) as i64 },
                ),
                ..s.comps
            },
            ..s
        }
    } else {
        s
    }
}

/// Unconditionally add each entity's velocity to its position.
pub fn apply_velocity_system(w: &mut World)
    requires
        slots_bounded(old(w).slots@),
        positions_within(old(w).slots@, COORD_LIMIT - VEL_LIMIT),
    ensures
        final(w).slots@.len() == old(w).slots@.len(),
        forall|i: int|
            0 <= i < old(w).slots@.len() ==> final(w).slots@[i] == apply_velocity_slot(
                old(w).slots@[i],
            ),
        slots_bounded(final(w).slots@),
{
    let n = w.slots.len();
    let mut i: usize = 0;
    while i < n
        invariant
            i <= n,
            n == w.slots@.len(),
            n == old(w).slots@.len(),
            slots_bounded(old(w).slots@),
            positions_within(old(w).slots@, COORD_LIMIT - VEL_LIMIT),
            forall|j: int|
                0 <= j < i ==> w.slots@[j] == apply_velocity_slot(old(w).slots@[j]),
            forall|j: int| i <= j < n ==> w.slots@[j] == old(w).slots@[j],
            slots_bounded(w.slots@),
        decreases n - i,
    {
        let s = w.slots[i];
        if s.alive && s.comps.position.is_some() && s.comps.velocity.is_some() {
            let p = match s.comps.position {
                Some(p) => p,
                None => Position { x: 0, y: 0 },
            };
            let v = match s.comps.velocity {
                Some(v) => v,
                None => Velocity { dx: 0, dy: 0 },
            };
            proof {
                assert(live(w.slots@, i as int));
                assert(live(old(w).slots@, i as int));
            }
            let ns = Slot {
                generation: s.generation,
                alive: s.alive,
                comps: Components {
                    position: Some(Position { x: p.x + v.dx, y: p.y + v.dy }),
                    ..s.comps
                },
            };
            proof {
                assert(slot_bounded(ns));
            }
            w.slots.set(i, ns);
        }
        i += 1;
    }
}

/// The velocity the target-seeking system writes for slot `i`: the
/// normalized direction to a resolvable target's position, if any.
pub open spec fn steer_decision(w: Seq<Slot>, i: int) -> Option<Velocity> {
    let s = w[i];
    if live(w, i) && s.comps.position is Some && s.comps.target is Some {
        let t = s.comps.target->Some_0.0;
        if valid_id(w, t) && w[t.index as int].comps.position is Some {
            let p = s.comps.position->Some_0;
            let q = pos_of(w, t.index as int);
            match normalize_spec(q.x - p.x, q.y - p.y) {
                Some((nx, ny)) => Some(Velocity { dx: nx as i64, dy: ny as i64 }),
                None => None,
            }
        } else {
            None
        }
    } else {
        None
    }
}

/// For every entity with a position and a resolvable target, point its
/// velocity at the target (normalized); unresolvable targets and zero-length
/// directions leave the velocity alone.
pub fn target_movement_system(w: &mut World)
    requires
        slots_bounded(old(w).slots@),
    ensures
        final(w).slots@.len() == old(w).slots@.len(),
        forall|i: int|
            0 <= i < old(w).slots@.len() ==> final(w).slots@[i] == vel_write_slot(
                old(w).slots@[i],
                steer_decision(old(w).slots@, i),
            ),
        slots_bounded(final(w).slots@),
{
    let n = w.slots.len();
    let mut dec: Vec<Option<Velocity>> = Vec::new();
    let mut i: usize = 0;
    while i < n
        invariant
            i <= n,
            n == w.slots@.len(),
            w.slots@ == old(w).slots@,
            slots_bounded(w.slots@),
            dec@.len() == i,
            forall|j: int| 0 <= j < i ==> dec@[j] == steer_decision(old(w).slots@, j),
            forall|j: int| 0 <= j < i && dec@[j] is Some ==> unit_vel(dec@[j]->Some_0),
        decreases n - i,
    {
        let s = w.slots[i];
        let mut d: Option<Velocity> = None;
        if s.alive && s.comps.position.is_some() {
            match s.comps.target {
                Some(tgt) => {
                    let t = tgt.0;
                    if t.index < n {
                        let ts = w.slots[t.index];
                        if ts.alive && ts.generation == t.generation
                            && ts.comps.position.is_some() {
                            let p = match s.comps.position {
                                Some(p) => p,
                                None => Position { x: 0, y: 0 },
                            };
                            let q = match ts.comps.position {
                                Some(q) => q,
                                None => Position { x: 0, y: 0 },
                            };
                            proof {
                                assert(live(w.slots@, i as int));
                                assert(live(w.slots@, t.index as int));
                            }
                            match normalize_vector(q.x - p.x, q.y - p.y) {
                                Some((nx, ny)) => {
                                    d = Some(Velocity { dx: nx, dy: ny });
                                },
                                None => {},
                            }
                        }
                    }
                },
                None => {},
            }
        }
        dec.push(d);
        i += 1;
    }
    proof {
        assert forall|k: int|
            0 <= k < dec@.len() && dec@[k] is Some implies unit_vel(dec@[k]->Some_0) by {}
    }
    apply_velocity_writes(w, &dec);
}

/// Whether the wandering redraw concerns slot `i`: a live, wandering ant
/// with a velocity (the query the wandering system iterates).
pub open spec fn wander_applies(w: Seq<Slot>, i: int) -> bool {
    live(w, i) && w[i].comps.velocity is Some && w[i].comps.ant is Some && w[i].comps.state
        == Some(AntState::Wandering)
}

/// With a fixed per-tick probability, give each wandering ant a fresh
/// normalized random heading; other entities and non-wandering ants are
/// untouched, and a redraw never zeroes a velocity.
pub fn wandering_system(w: &mut World, rng: &mut SimRng, cfg: &MovementConfig)
    requires
        slots_bounded(old(w).slots@),
    ensures
        slots_bounded(final(w).slots@),
        final(w).slots@.len() == old(w).slots@.len(),
        forall|i: int|
            0 <= i < old(w).slots@.len() && wander_applies(old(w).slots@, i) ==> wander_step_ok(
                old(w).slots@[i],
                final(w).slots@[i],
            ),
        forall|i: int|
            0 <= i < old(w).slots@.len() && !wander_applies(old(w).slots@, i)
                ==> final(w).slots@[i] == old(w).slots@[i],
{
    let n = w.slots.len();
    let mut dec: Vec<Option<Velocity>> = Vec::new();
    let mut i: usize = 0;
    while i < n
        invariant
            i <= n,
            n == w.slots@.len(),
            w.slots@ == old(w).slots@,
            slots_bounded(w.slots@),
            dec@.len() == i,
            forall|j: int|
                0 <= j < i ==> (dec@[j] is Some ==> wander_applies(old(w).slots@, j) && unit_vel(
                    dec@[j]->Some_0,
                )),
        decreases n - i,
    {
        let s = w.slots[i];
        let mut d: Option<Velocity> = None;
        let applies = s.alive && s.comps.velocity.is_some() && s.comps.ant.is_some() && (match s
            .comps
            .state {
            Some(AntState::Wandering) => true,
            _ => false,
        });
        if applies {
            d = draw_wander_heading(rng, cfg.wander_probability_milli);
        }
        dec.push(d);
        i += 1;
    }
    proof {
        assert forall|k: int|
            0 <= k < dec@.len() && dec@[k] is Some implies unit_vel(dec@[k]->Some_0) by {
            assert(dec@[k] is Some ==> wander_applies(old(w).slots@, k) && unit_vel(
                dec@[k]->Some_0,
            ));
        }
    }
    apply_velocity_writes(w, &dec);
}

/// The heading a redraw produces from the raw direction draws: the
/// normalized direction, or nothing when the draw has no direction.
pub open spec fn wander_redraw_spec(ndx: int, ndy: int) -> Option<Velocity> {
    match normalize_spec(ndx, ndy) {
        Some((nx, ny)) => Some(Velocity { dx: nx as i64, dy: ny as i64 }),
        None => None,
    }
}

/// The redraw decision on the drawn values alone: exact, so the random
/// draws are the only unknowns of a wandering step.
pub fn wander_redraw(ndx: i64, ndy: i64) -> (d: Option<Velocity>)
    requires
        -1000 <= ndx <= 1000,
        -1000 <= ndy <= 1000,
    ensures
        d == wander_redraw_spec(ndx as int, ndy as int),
        d is Some ==> unit_vel(d->Some_0),
        d is None <==> ndx == 0 && ndy == 0,
{
    match normalize_vector(ndx, ndy) {
        Some((nx, ny)) => Some(Velocity { dx: nx, dy: ny }),
        None => None,
    }
}

/// With probability `chance_milli / 1000`, draw a fresh unit heading;
/// otherwise (or when the raw draw has no direction) report nothing.
fn draw_wander_heading(rng: &mut SimRng, chance_milli: u32) -> (d: Option<Velocity>)
    ensures
        d is Some ==> unit_vel(d->Some_0),
{
    if rng.random_below(CHANCE_DENOM) < chance_milli as u64 {
        let ndx: i64 = rng.random_below(2000) as i64 - 1000;
        let ndy: i64 = rng.random_below(2000) as i64 - 1000;
        wander_redraw(ndx, ndy)
    } else {
        None
    }
}

/// Whether the pheromone-following system concerns slot `i`: a live,
/// wandering ant with position and velocity.
pub open spec fn follow_applies(w: Seq<Slot>, i: int) -> bool {
    live(w, i) && w[i].comps.position is Some && w[i].comps.velocity is Some && w[i].comps.ant
        is Some && w[i].comps.state == Some(AntState::Wandering)
}

/// Some deposit marking the way to food lies within squared range `r2` of
/// `(px, py)`.
pub open spec fn detects_pheromone(w: Seq<Slot>, px: int, py: int, r2: int) -> bool {
    exists|j: int|
        is_to_food_pheromone(w, j) && dist_sq(px, py, pos_of(w, j).x as int, pos_of(w, j).y as int)
            <= r2
}

/// The steering outcome for a wandering ant that senses a pheromone:
/// `Some(Some(v))` writes `v`, `Some(None)` keeps the velocity, and `None`
/// means no pheromone was sensed, so the ant falls back to wandering.
pub open spec fn follow_steer(w: Seq<Slot>, i: int, r2: int) -> Option<Option<Velocity>> {
    let p = pos_of(w, i);
    if detects_pheromone(w, p.x as int, p.y as int, r2) {
        match nearest_food(w, p.x as int, p.y as int, i64::MAX as int) {
            Some((f, d)) => {
                let q = pos_of(w, f);
                match normalize_spec(q.x - p.x, q.y - p.y) {
                    Some((nx, ny)) => Some(Some(Velocity { dx: nx as i64, dy: ny as i64 })),
                    None => Some(None),
                }
            },
            // a pheromone with no food source anywhere falls back to wandering
            None => None,
        }
    } else {
        None
    }
}

/// Exec scan for a deposit within range.
fn scan_for_pheromone(w: &World, px: i64, py: i64, r2: i64) -> (r: bool)
    requires
        slots_bounded(w.slots@),
        -COORD_LIMIT <= px <= COORD_LIMIT,
        -COORD_LIMIT <= py <= COORD_LIMIT,
    ensures
        r == detects_pheromone(w.slots@, px as int, py as int, r2 as int),
{
    let n = w.slots.len();
    let mut j: usize = 0;
    while j < n
        invariant
            j <= n,
            n == w.slots@.len(),
            slots_bounded(w.slots@),
            -COORD_LIMIT <= px <= COORD_LIMIT,
            -COORD_LIMIT <= py <= COORD_LIMIT,
            forall|k: int|
                0 <= k < j ==> !(is_to_food_pheromone(w.slots@, k) && dist_sq(
                    px as int,
                    py as int,
                    pos_of(w.slots@, k).x as int,
                    pos_of(w.slots@, k).y as int,
                ) <= r2),
        decreases n - j,
    {
        let s = w.slots[j];
        if s.alive && s.comps.pheromone.is_some() && s.comps.position.is_some() && (match s
            .comps
            .pheromone_kind {
            Some(crate::components::PheromoneType::ToFood) => true,
            _ => false,
        }) {
            let p = match s.comps.position {
                Some(p) => p,
                None => Position { x: 0, y: 0 },
            };
            proof {
                assert(live(w.slots@, j as int));
            }
            let d = target_distance_sq(px, py, p.x, p.y);
            if d <= r2 {
                proof {
                    assert(is_to_food_pheromone(w.slots@, j as int));
                }
                return true;
            }
        }
        j += 1;
    }
    false
}

/// Wandering ants that sense a `ToFood` deposit within the detection radius
/// steer toward the nearest food source anywhere in the world (the deposit
/// only signals that food is out there); without a sensed deposit, or with
/// no food source left, they fall back to the wandering redraw.
pub fn pheromone_following_system(w: &mut World, rng: &mut SimRng, cfg: &PheromoneConfig)
    requires
        slots_bounded(old(w).slots@),
        cfg.wf(),
    ensures
        final(w).slots@.len() == old(w).slots@.len(),
        slots_bounded(final(w).slots@),
        forall|i: int|
            #![trigger final(w).slots@[i]]
            0 <= i < old(w).slots@.len() ==> {
                let r2 = cfg.detection_radius * cfg.detection_radius;
                if follow_applies(old(w).slots@, i) {
                    match follow_steer(old(w).slots@, i, r2) {
                        Some(d) => final(w).slots@[i] == vel_write_slot(old(w).slots@[i], d),
                        None => wander_step_ok(old(w).slots@[i], final(w).slots@[i]),
                    }
                } else {
                    final(w).slots@[i] == old(w).slots@[i]
                }
            },
{
    let n = w.slots.len();
    proof {
        assert(cfg.detection_radius * cfg.detection_radius <= 40_000_000_000_000_000)
            by (nonlinear_arith)
            requires
                0 <= cfg.detection_radius <= COORD_LIMIT,
        ;
    }
    let r2: i64 = cfg.detection_radius * cfg.detection_radius;
    let mut dec: Vec<Option<Velocity>> = Vec::new();
    let mut fell_back: Vec<bool> = Vec::new();
    let mut i: usize = 0;
    while i < n
        invariant
            i <= n,
            n == w.slots@.len(),
            w.slots@ == old(w).slots@,
            slots_bounded(w.slots@),
            r2 == cfg.detection_radius * cfg.detection_radius,
            dec@.len() == i,
            fell_back@.len() == i,
            forall|j: int| 0 <= j < i && dec@[j] is Some ==> unit_vel(dec@[j]->Some_0),
            forall|j: int|
                #![trigger dec@[j]]
                0 <= j < i ==> {
                    if follow_applies(old(w).slots@, j) {
                        if fell_back@[j] {
                            follow_steer(old(w).slots@, j, r2 as int) is None && (dec@[j] is Some
                                ==> unit_vel(dec@[j]->Some_0))
                        } else {
                            Some(dec@[j]) == follow_steer(old(w).slots@, j, r2 as int)
                        }
                    } else {
                        dec@[j] is None
                    }
                },
        decreases n - i,
    {
        let s = w.slots[i];
        let mut d: Option<Velocity> = None;
        let mut fb: bool = false;
        let applies = s.alive && s.comps.position.is_some() && s.comps.velocity.is_some()
            && s.comps.ant.is_some() && (match s.comps.state {
            Some(AntState::Wandering) => true,
            _ => false,
        });
        if applies {
            let p = match s.comps.position {
                Some(p) => p,
                None => Position { x: 0, y: 0 },
            };
            proof {
                assert(live(w.slots@, i as int));
            }
            if scan_for_pheromone(w, p.x, p.y, r2) {
                match find_nearest_food(w, p.x, p.y, i64::MAX) {
                    Some((f, _fd)) => {
                        proof {
                            assert(is_food(w.slots@, f as int)) by {
                                crate::systems::lemma_best_food_is_food(
                                    w.slots@,
                                    p.x as int,
                                    p.y as int,
                                    i64::MAX as int,
                                    n as int,
                                );
                            }
                        }
                        let q = match w.slots[f].comps.position {
                            Some(q) => q,
                            None => Position { x: 0, y: 0 },
                        };
                        match normalize_vector(q.x - p.x, q.y - p.y) {
                            Some((nx, ny)) => {
                                d = Some(Velocity { dx: nx, dy: ny });
                            },
                            None => {},
                        }
                    },
                    None => {
                        fb = true;
                        // the fallback redraw chance is fixed at 5%,
                        // independent of the configured wandering probability
                        d = draw_wander_heading(rng, 50);
                    },
                }
            } else {
                fb = true;
                d = draw_wander_heading(rng, 50);
            }
        }
        dec.push(d);
        fell_back.push(fb);
        i += 1;
    }
    apply_velocity_writes(w, &dec);
}

} // verus!
