use vstd::prelude::*;

use crate::components::{
    Ant, AntState, EntityId, FoodPayload, FoodSource, Nest, Position, Target, Velocity,
};
use crate::config::AntConfig;
use crate::maths::{dist_sq, target_distance_sq, COORD_LIMIT};
use crate::rng::SimRng;
use crate::store::{valid_id, Components, Slot, World};
use crate::systems::stats::Stats;
use crate::systems::{
    find_first_nest, find_nearest_food, first_nest, has_nest, id_of, is_ant, is_food,
    lemma_first_nest_is_nest, live, nearest_food, pos_of, slot_bounded, slots_bounded,
};

verus! {

/// Slot `i` is a live ant currently wandering.
pub open spec fn wandering_ant(w: Seq<Slot>, i: int) -> bool {
    is_ant(w, i) && w[i].comps.state == Some(AntState::Wandering)
}

/// One discovery step: a wandering ant with a food source strictly within
/// the discovery radius locks onto the nearest one (earliest slot wins ties)
/// and starts foraging.
pub open spec fn discover_slot(w: Seq<Slot>, i: int, r2: int) -> Slot {
    let s = w[i];
    if wandering_ant(w, i) {
        match nearest_food(w, pos_of(w, i).x as int, pos_of(w, i).y as int, r2) {
            Some((f, d)) => Slot {
                comps: Components {
                    state: Some(AntState::Foraging),
                    target: Some(Target(id_of(w, f))),
                    ..s.comps
                },
                ..s
            },
            None => s,
        }
    } else {
        s
    }
}

/// Every wandering ant scans all food sources; the nearest one strictly
/// within the discovery radius (first minimum wins) becomes its target and
/// the ant turns to foraging. Ants with no source in range keep wandering.
pub fn ant_find_food_system(w: &mut World, cfg: &AntConfig)
    requires
        slots_bounded(old(w).slots@),
        cfg.wf(),
    ensures
        final(w).slots@.len() == old(w).slots@.len(),
        forall|i: int|
            0 <= i < old(w).slots@.len() ==> final(w).slots@[i] == discover_slot(
                old(w).slots@,
                i,
                cfg.discovery_radius * cfg.discovery_radius,
            ),
        slots_bounded(final(w).slots@),
{
    let n = w.slots.len();
    proof {
        assert(cfg.discovery_radius * cfg.discovery_radius <= 40_000_000_000_000_000
            && cfg.discovery_radius * cfg.discovery_radius >= 0) by (nonlinear_arith)
            requires
                0 <= cfg.discovery_radius <= COORD_LIMIT,
        ;
    }
    let r2: i64 = cfg.discovery_radius * cfg.discovery_radius;

    let mut dec: Vec<Option<usize>> = Vec::new();
    let mut i: usize = 0;
    while i < n
        invariant
            i <= n,
            n == w.slots@.len(),
            w.slots@ == old(w).slots@,
            slots_bounded(w.slots@),
            dec@.len() == i,
            forall|j: int|
                #![trigger dec@[j]]
                0 <= j < i ==> {
                    if wandering_ant(old(w).slots@, j) {
                        match nearest_food(
                            old(w).slots@,
                            pos_of(old(w).slots@, j).x as int,
                            pos_of(old(w).slots@, j).y as int,
                            r2 as int,
                        ) {
                            Some((f, d)) => dec@[j] == Some(f as usize),
                            None => dec@[j] is None,
                        }
                    } else {
                        dec@[j] is None
                    }
                },
        decreases n - i,
    {
        let s = w.slots[i];
        let mut d: Option<usize> = None;
        let relevant = s.alive && s.comps.position.is_some() && s.comps.ant.is_some() && (match s
            .comps
            .state {
            Some(AntState::Wandering) => true,
            _ => false,
        });
        if relevant {
            let p = match s.comps.position {
                Some(p) => p,
                None => Position { x: 0, y: 0 },
            };
            proof {
                assert(live(w.slots@, i as int));
            }
            match find_nearest_food(w, p.x, p.y, r2) {
                Some((f, _fd)) => {
                    d = Some(f);
                },
                None => {},
            }
        }
        dec.push(d);
        i += 1;
    }

    let mut k: usize = 0;
    while k < n
        invariant
            k <= n,
            n == old(w).slots@.len(),
            n == w.slots@.len(),
            n == dec@.len(),
            slots_bounded(old(w).slots@),
            forall|j: int|
                #![trigger dec@[j]]
                0 <= j < n ==> {
                    if wandering_ant(old(w).slots@, j) {
                        match nearest_food(
                            old(w).slots@,
                            pos_of(old(w).slots@, j).x as int,
                            pos_of(old(w).slots@, j).y as int,
                            r2 as int,
                        ) {
                            Some((f, d)) => dec@[j] == Some(f as usize),
                            None => dec@[j] is None,
                        }
                    } else {
                        dec@[j] is None
                    }
                },
            forall|j: int|
                0 <= j < k ==> w.slots@[j] == discover_slot(old(w).slots@, j, r2 as int),
            forall|j: int| k <= j < n ==> w.slots@[j] == old(w).slots@[j],
            slots_bounded(w.slots@),
        decreases n - k,
    {
        match dec[k] {
            Some(f) => {
                let s = w.slots[k];
                proof {
                    crate::systems::lemma_best_food_is_food(
                        old(w).slots@,
                        pos_of(old(w).slots@, k as int).x as int,
                        pos_of(old(w).slots@, k as int).y as int,
                        r2 as int,
                        n as int,
                    );
                }
                let gen = w.slots[f].generation;
                let ns = Slot {
                    generation: s.generation,
                    alive: s.alive,
                    comps: Components {
                        state: Some(AntState::Foraging),
                        target: Some(Target(EntityId { index: f, generation: gen })),
                        ..s.comps
                    },
                };
                proof {
                    assert(slot_bounded(ns));
                }
                w.slots.set(k, ns);
            },
            None => {},
        }
        k += 1;
    }
}

/// One dying-transition step: an ant whose health has reached zero and which
/// is not already dying enters `Dying` with the configured countdown and
/// stops seeking: its target and any carried payload are dropped.
pub open spec fn newly_dying(w: Seq<Slot>, i: int) -> bool {
    live(w, i) && w[i].comps.ant is Some && w[i].comps.state is Some
        && w[i].comps.ant->Some_0.health == 0 && !(w[i].comps.state->Some_0 is Dying)
}

pub open spec fn dying_slot(w: Seq<Slot>, i: int, ticks: u32) -> Slot {
    let s = w[i];
    if newly_dying(w, i) {
        Slot {
            comps: Components {
                state: Some(AntState::Dying(ticks)),
                target: None,
                payload: None,
                ..s.comps
            },
            ..s
        }
    } else {
        s
    }
}

/// The number of ants entering `Dying` this pass among slots `[0, j)`.
pub open spec fn count_newly_dying_upto(w: Seq<Slot>, j: int) -> int
    decreases j,
{
    if j <= 0 {
        0
    } else {
        count_newly_dying_upto(w, j - 1) + if newly_dying(w, j - 1) {
            1int
        } else {
            0int
        }
    }
}

/// Saturating addition within `u64`.
pub open spec fn sat_add64(a: int, b: int) -> int {
    if a + b > u64::MAX {
        u64::MAX as int
    } else {
        a + b
    }
}

/// Ants whose health reached zero enter the dying countdown exactly once
/// (re-triggering is suppressed for ants already dying), drop their target
/// and payload, and are added to the dead-ant total.
pub fn ant_dying_system(w: &mut World, stats: &mut Stats, cfg: &AntConfig)
    requires
        cfg.wf(),
    ensures
        final(w).slots@.len() == old(w).slots@.len(),
        forall|i: int|
            0 <= i < old(w).slots@.len() ==> final(w).slots@[i] == dying_slot(
                old(w).slots@,
                i,
                cfg.death_animation_ticks,
            ),
        final(stats).dead_ants == sat_add64(
            old(stats).dead_ants as int,
            count_newly_dying_upto(old(w).slots@, old(w).slots@.len() as int),
        ),
        final(stats).alive_ants == old(stats).alive_ants,
        final(stats).food_sources == old(stats).food_sources,
        final(stats).food_in_nest == old(stats).food_in_nest,
{
    let n = w.slots.len();
    let mut newly: u64 = 0;
    let mut i: usize = 0;
    while i < n
        invariant
            i <= n,
            n == w.slots@.len(),
            n == old(w).slots@.len(),
            cfg.wf(),
            newly == count_newly_dying_upto(old(w).slots@, i as int),
            newly <= i,
            forall|j: int|
                0 <= j < i ==> w.slots@[j] == dying_slot(
                    old(w).slots@,
                    j,
                    cfg.death_animation_ticks,
                ),
            forall|j: int| i <= j < n ==> w.slots@[j] == old(w).slots@[j],
        decreases n - i,
    {
        let s = w.slots[i];
        let relevant = s.alive && s.comps.state.is_some() && (match s.comps.ant {
            Some(a) => a.health == 0,
            None => false,
        }) && (match s.comps.state {
            Some(AntState::Dying(_)) => false,
            _ => true,
        });
        if relevant {
            let ns = Slot {
                generation: s.generation,
                alive: s.alive,
                comps: Components {
                    state: Some(AntState::Dying(cfg.death_animation_ticks)),
                    target: None,
                    payload: None,
                    ..s.comps
                },
            };
            w.slots.set(i, ns);
            newly = newly + 1;
        }
        i += 1;
    }
    let total = if stats.dead_ants <= u64::MAX - newly {
        stats.dead_ants + newly
    } else {
        u64::MAX
    };
    stats.dead_ants = total;
}

/// One health-decrement step: a live ant loses one health, held at zero.
pub open spec fn health_dec_slot(s: Slot) -> Slot {
    if s.alive && s.comps.ant is Some {
        let h = s.comps.ant->Some_0.health;
        Slot {
            comps: Components {
                ant: Some(Ant { health: if h > 0 { (h - 1) as u32 } else { 0u32 } }),
                ..s.comps
            },
            ..s
        }
    } else {
        s
    }
}

/// The nest converts stored food into new ants this tick: it exists, is
/// positioned, and holds at least the reproduction threshold of 100 food.
pub open spec fn reproduces(w: Seq<Slot>) -> bool {
    has_nest(w) && w[first_nest(w)].comps.position is Some
        && w[first_nest(w)].comps.nest->Some_0.food_store >= 100
}

/// How many ants are born this tick, at 10 food each.
pub open spec fn spawn_count(w: Seq<Slot>) -> int {
    if reproduces(w) {
        w[first_nest(w)].comps.nest->Some_0.food_store as int / 10
    } else {
        0
    }
}

/// The lifecycle pass over an existing slot: health decrement, plus the
/// food-store deduction on the nest when it reproduces.
pub open spec fn lifecycle_mapped(w: Seq<Slot>, i: int) -> Slot {
    let s1 = health_dec_slot(w[i]);
    if reproduces(w) && i == first_nest(w) {
        let store = w[first_nest(w)].comps.nest->Some_0.food_store;
        Slot {
            comps: Components {
                nest: Some(Nest { food_store: (store - spawn_count(w) * 10) as u64 }),
                ..s1.comps
            },
            ..s1
        }
    } else {
        s1
    }
}

/// A newborn ant: at the nest, wandering, with a random heading and health
/// drawn from the configured range, and nothing else.
pub open spec fn new_ant_slot(s: Slot, p: Position, cfg: AntConfig) -> bool {
    &&& s.alive
    &&& s.comps.position == Some(p)
    &&& s.comps.state == Some(AntState::Wandering)
    &&& s.comps.velocity is Some
    &&& -1000 <= s.comps.velocity->Some_0.dx < 1000
    &&& -1000 <= s.comps.velocity->Some_0.dy < 1000
    &&& s.comps.ant is Some
    &&& cfg.min_health <= s.comps.ant->Some_0.health < cfg.max_health
    &&& s.comps.target is None
    &&& s.comps.payload is None
    &&& s.comps.nest is None
    &&& s.comps.food is None
    &&& s.comps.pheromone is None
    &&& s.comps.pheromone_kind is None
}

/// Every ant loses one health (held at zero). When the nest has gathered at
/// least 100 food it converts the store into newborn ants at 10 food each,
/// spawned at the nest with random headings and health; the deduction and
/// the number of births are exact.
pub fn ant_lifecycle_system(w: &mut World, rng: &mut SimRng, cfg: &AntConfig)
    requires
        slots_bounded(old(w).slots@),
        cfg.wf(),
    ensures
        old(w).slots@.len() <= final(w).slots@.len(),
        forall|i: int|
            live(old(w).slots@, i) ==> final(w).slots@[i] == lifecycle_mapped(old(w).slots@, i),
        forall|i: int|
            0 <= i < old(w).slots@.len() && !live(old(w).slots@, i)
                ==> final(w).slots@[i] == old(w).slots@[i] || new_ant_slot(
                final(w).slots@[i],
                pos_of(old(w).slots@, first_nest(old(w).slots@)),
                *cfg,
            ),
        forall|i: int|
            old(w).slots@.len() <= i < final(w).slots@.len() ==> new_ant_slot(
                final(w).slots@[i],
                pos_of(old(w).slots@, first_nest(old(w).slots@)),
                *cfg,
            ),
        crate::systems::count_live(final(w).slots@) == crate::systems::count_live(old(w).slots@)
            + spawn_count(old(w).slots@),
        slots_bounded(final(w).slots@),
{
    let n = w.slots.len();

    let nest_idx = find_first_nest(w);
    proof {
        if has_nest(w.slots@) {
            lemma_first_nest_is_nest(w.slots@);
        }
    }

    // health decrement pass
    let mut i: usize = 0;
    while i < n
        invariant
            i <= n,
            n == w.slots@.len(),
            n == old(w).slots@.len(),
            slots_bounded(old(w).slots@),
            forall|j: int| 0 <= j < i ==> w.slots@[j] == health_dec_slot(old(w).slots@[j]),
            forall|j: int| i <= j < n ==> w.slots@[j] == old(w).slots@[j],
        decreases n - i,
    {
        let s = w.slots[i];
        if s.alive && s.comps.ant.is_some() {
            let h = match s.comps.ant {
                Some(a) => a.health,
                None => 0,
            };
            let nh = if h > 0 {
                h - 1
            } else {
                0
            };
            let ns = Slot {
                generation: s.generation,
                alive: s.alive,
                comps: Components { ant: Some(Ant { health: nh }), ..s.comps },
            };
            w.slots.set(i, ns);
        }
        i += 1;
    }

    // reproduction: deduct the spent food, then spawn the newborns
    let mut n_new: u64 = 0;
    let mut spawn_pos = Position { x: 0, y: 0 };
    match nest_idx {
        Some(ni) => {
            let ns = w.slots[ni];
            match (ns.comps.position, ns.comps.nest) {
                (Some(npos), Some(nest)) => {
                    if nest.food_store >= 100 {
                        n_new = nest.food_store / 10;
                        spawn_pos = npos;
                        proof {
                            assert((nest.food_store as int / 10) * 10 <= nest.food_store as int
                                && (nest.food_store as int / 10) * 10 >= 0) by (nonlinear_arith)
                                requires
                                    nest.food_store >= 0,
                            ;
                        }
                        let spent: u64 = n_new * 10;
                        let upd = Slot {
                            generation: ns.generation,
                            alive: ns.alive,
                            comps: Components {
                                nest: Some(Nest { food_store: nest.food_store - spent }),
                                ..ns.comps
                            },
                        };
                        w.slots.set(ni, upd);
                    }
                },
                _ => {},
            }
        },
        None => {},
    }
    proof {
        assert forall|j: int| 0 <= j < n implies w.slots@[j] == lifecycle_mapped(
            old(w).slots@,
            j,
        ) by {}
        crate::systems::lemma_count_live_agree(w.slots@, old(w).slots@, n as int);
    }

    let ghost mapped = w.slots@;
    let mut k: u64 = 0;
    while k < n_new
        invariant
            k <= n_new,
            cfg.wf(),
            n == old(w).slots@.len(),
            mapped.len() == n,
            n_new == spawn_count(old(w).slots@),
            n_new > 0 ==> spawn_pos == pos_of(old(w).slots@, first_nest(old(w).slots@)),
            -COORD_LIMIT <= spawn_pos.x <= COORD_LIMIT,
            -COORD_LIMIT <= spawn_pos.y <= COORD_LIMIT,
            forall|j: int| 0 <= j < n ==> mapped[j] == lifecycle_mapped(old(w).slots@, j),
            forall|j: int| 0 <= j < n ==> mapped[j].alive == old(w).slots@[j].alive,
            crate::systems::count_live(mapped) == crate::systems::count_live(old(w).slots@),
            slots_bounded(mapped),
            n <= w.slots@.len(),
            forall|j: int| live(old(w).slots@, j) ==> w.slots@[j] == mapped[j],
            forall|j: int|
                0 <= j < n && !live(old(w).slots@, j) ==> w.slots@[j] == mapped[j] || new_ant_slot(
                    w.slots@[j],
                    pos_of(old(w).slots@, first_nest(old(w).slots@)),
                    *cfg,
                ),
            forall|j: int|
                n <= j < w.slots@.len() ==> new_ant_slot(
                    w.slots@[j],
                    pos_of(old(w).slots@, first_nest(old(w).slots@)),
                    *cfg,
                ),
            crate::systems::count_live(w.slots@) == crate::systems::count_live(old(w).slots@)
                + k,
            slots_bounded(w.slots@),
        decreases n_new - k,
    {
        let dx: i64 = rng.random_below(2000) as i64 - 1000;
        let dy: i64 = rng.random_below(2000) as i64 - 1000;
        let span: u64 = (cfg.max_health - cfg.min_health) as u64;
        let h: u32 = cfg.min_health + rng.random_below(span) as u32;
        let mut c = Components::empty();
        c.position = Some(spawn_pos);
        c.velocity = Some(Velocity { dx, dy });
        c.state = Some(AntState::Wandering);
        c.ant = Some(Ant { health: h });
        let ghost pre = w.slots@;
        let id = w.spawn(c);
        proof {
            assert(new_ant_slot(
                w.slots@[id.index as int],
                pos_of(old(w).slots@, first_nest(old(w).slots@)),
                *cfg,
            ));
            assert forall|j: int| live(old(w).slots@, j) implies w.slots@[j] == mapped[j] by {
                assert(pre[j] == mapped[j]);
                assert(pre[j].alive);
            }
            if id.index < pre.len() {
                crate::systems::lemma_count_live_update(
                    pre,
                    id.index as int,
                    w.slots@[id.index as int],
                    pre.len() as int,
                );
            } else {
                crate::systems::lemma_count_live_push(pre, w.slots@[id.index as int]);
            }
        }
        k += 1;
    }
    proof {
        if has_nest(old(w).slots@) {
            lemma_first_nest_is_nest(old(w).slots@);
        }
        assert forall|j: int|
            0 <= j < n && !live(old(w).slots@, j) implies w.slots@[j] == old(w).slots@[j]
            || new_ant_slot(
            w.slots@[j],
            pos_of(old(w).slots@, first_nest(old(w).slots@)),
            *cfg,
        ) by {
            assert(w.slots@[j] == mapped[j] || new_ant_slot(
                w.slots@[j],
                pos_of(old(w).slots@, first_nest(old(w).slots@)),
                *cfg,
            ));
            if w.slots@[j] == mapped[j] {
                assert(mapped[j] == lifecycle_mapped(old(w).slots@, j));
                assert(health_dec_slot(old(w).slots@[j]) == old(w).slots@[j]);
                if reproduces(old(w).slots@) {
                    assert(live(old(w).slots@, first_nest(old(w).slots@)));
                    assert(j != first_nest(old(w).slots@));
                }
                assert(lifecycle_mapped(old(w).slots@, j) == old(w).slots@[j]);
            }
        }
    }
}

/// Slot `i` is a live foraging ant with a target.
pub open spec fn foraging_ant(w: Seq<Slot>, i: int) -> bool {
    is_ant(w, i) && w[i].comps.state == Some(AntState::Foraging) && w[i].comps.target is Some
}

/// What the collect pass of the foraging system decides for slot `i`.
#[derive(Debug, PartialEq, Eq, Structural, Clone, Copy)]
pub enum ForageAction {
    /// Not a foraging ant, or not yet arrived: nothing to do.
    Leave,
    /// The target is gone or empty: fall back to wandering.
    ToWandering,
    /// Arrived at the food source in this slot: try to take a payload.
    Arrive(usize),
}

/// The foraging decision for slot `i`, read against the tick-start world:
/// an invalid or exhausted target reverts the ant to wandering; a valid one
/// within the arrival distance is harvested.
pub open spec fn forage_decision(w: Seq<Slot>, i: int, arrival2: int) -> ForageAction {
    if foraging_ant(w, i) {
        let t = w[i].comps.target->Some_0.0;
        if !(valid_id(w, t) && w[t.index as int].comps.food is Some && w[t.index
            as int].comps.food->Some_0.amount > 0) {
            ForageAction::ToWandering
        } else {
            match w[t.index as int].comps.position {
                Some(q) => {
                    if dist_sq(
                        pos_of(w, i).x as int,
                        pos_of(w, i).y as int,
                        q.x as int,
                        q.y as int,
                    ) < arrival2 {
                        ForageAction::Arrive(t.index)
                    } else {
                        ForageAction::Leave
                    }
                },
                None => ForageAction::Leave,
            }
        }
    } else {
        ForageAction::Leave
    }
}

/// An ant sent back to wandering: it loses its target and state alone.
pub open spec fn wanderized(s: Slot) -> Slot {
    Slot {
        comps: Components { state: Some(AntState::Wandering), target: None, ..s.comps },
        ..s
    }
}

/// An ant that picked up food: it returns to the nest carrying the payload.
pub open spec fn grabbed(s: Slot, payload: u32, nest_id: EntityId) -> Slot {
    Slot {
        comps: Components {
            state: Some(AntState::ReturningToNest),
            payload: Some(FoodPayload(payload)),
            target: Some(Target(nest_id)),
            ..s.comps
        },
        ..s
    }
}

/// A source after a harvest: the payload is deducted, not below zero.
pub open spec fn food_taken(s: Slot, payload: u32) -> Slot {
    let a = s.comps.food->Some_0.amount;
    Slot {
        comps: Components {
            food: Some(
                FoodSource {
                    amount: if a >= payload {
                        (a - payload) as u32
                    } else {
                        0u32
                    },
                },
            ),
            ..s.comps
        },
        ..s
    }
}

/// Apply slot `i`'s foraging decision to the evolving world `cur`. Arrivals
/// re-check the source's current amount: earlier arrivals this pass may have
/// drained it, in which case the ant reverts to wandering.
pub open spec fn forage_apply(
    w0: Seq<Slot>,
    cur: Seq<Slot>,
    i: int,
    arrival2: int,
    payload: u32,
    nest_id: EntityId,
) -> Seq<Slot> {
    match forage_decision(w0, i, arrival2) {
        ForageAction::Leave => cur,
        ForageAction::ToWandering => cur.update(i, wanderized(cur[i])),
        ForageAction::Arrive(t) => {
            let ti = t as int;
            match cur[ti].comps.food {
                Some(f) => {
                    if f.amount > 0 {
                        let cur1 = cur.update(ti, food_taken(cur[ti], payload));
                        cur1.update(i, grabbed(cur1[i], payload, nest_id))
                    } else {
                        cur.update(i, wanderized(cur[i]))
                    }
                },
                None => cur,
            }
        },
    }
}

/// The foraging pass over slots `[0, k)`, applied in slot order.
pub open spec fn forage_fold(
    w0: Seq<Slot>,
    k: int,
    arrival2: int,
    payload: u32,
    nest_id: EntityId,
) -> Seq<Slot>
    decreases k,
{
    if k <= 0 {
        w0
    } else {
        forage_apply(
            w0,
            forage_fold(w0, k - 1, arrival2, payload, nest_id),
            k - 1,
            arrival2,
            payload,
            nest_id,
        )
    }
}

/// Foraging resolution. An ant whose targeted source is gone or empty drops
/// its target and wanders again; one that has arrived (squared distance
/// strictly below the squared arrival distance) deducts the fixed payload
/// from the source (not below zero), takes the payload, and heads for the
/// nest. Ants are resolved in slot order against the tick-start world, with
/// the deduction re-checked against the current amount.
pub fn ant_foraging_system(w: &mut World, cfg: &AntConfig)
    requires
        slots_bounded(old(w).slots@),
        cfg.wf(),
        has_nest(old(w).slots@),
    ensures
        final(w).slots@.len() == old(w).slots@.len(),
        final(w).slots@ == forage_fold(
            old(w).slots@,
            old(w).slots@.len() as int,
            cfg.arrival_distance * cfg.arrival_distance,
            cfg.food_payload_amount,
            id_of(old(w).slots@, first_nest(old(w).slots@)),
        ),
        slots_bounded(final(w).slots@),
{
    let n = w.slots.len();
    proof {
        assert(cfg.arrival_distance * cfg.arrival_distance <= 40_000_000_000_000_000
            && cfg.arrival_distance * cfg.arrival_distance >= 0) by (nonlinear_arith)
            requires
                0 <= cfg.arrival_distance <= COORD_LIMIT,
        ;
        lemma_first_nest_is_nest(old(w).slots@);
    }
    let a2: i64 = cfg.arrival_distance * cfg.arrival_distance;
    let nest_i = match find_first_nest(w) {
        Some(ni) => ni,
        None => 0,
    };
    let nest_id = EntityId { index: nest_i, generation: w.slots[nest_i].generation };
    proof {
        assert(nest_id == id_of(old(w).slots@, first_nest(old(w).slots@)));
    }

    let mut dec: Vec<ForageAction> = Vec::new();
    let mut i: usize = 0;
    while i < n
        invariant
            i <= n,
            n == w.slots@.len(),
            w.slots@ == old(w).slots@,
            slots_bounded(w.slots@),
            dec@.len() == i,
            forall|j: int|
                0 <= j < i ==> #[trigger] dec@[j] == forage_decision(old(w).slots@, j, a2 as int),
        decreases n - i,
    {
        let s = w.slots[i];
        let mut d: ForageAction = ForageAction::Leave;
        let relevant = s.alive && s.comps.position.is_some() && s.comps.ant.is_some()
            && s.comps.target.is_some() && (match s.comps.state {
            Some(AntState::Foraging) => true,
            _ => false,
        });
        if relevant {
            match s.comps.target {
                Some(tgt) => {
                    let t = tgt.0;
                    let valid = t.index < n && {
                        let ts = w.slots[t.index];
                        ts.alive && ts.generation == t.generation && (match ts.comps.food {
                            Some(f) => f.amount > 0,
                            None => false,
                        })
                    };
                    if !valid {
                        d = ForageAction::ToWandering;
                    } else {
                        match w.slots[t.index].comps.position {
                            Some(q) => {
                                let p = match s.comps.position {
                                    Some(p) => p,
                                    None => Position { x: 0, y: 0 },
                                };
                                proof {
                                    assert(live(w.slots@, i as int));
                                    assert(live(w.slots@, t.index as int));
                                }
                                let dsq = target_distance_sq(p.x, p.y, q.x, q.y);
                                if dsq < a2 {
                                    d = ForageAction::Arrive(t.index);
                                }
                            },
                            None => {},
                        }
                    }
                },
                None => {},
            }
        }
        dec.push(d);
        i += 1;
    }

    let mut k: usize = 0;
    while k < n
        invariant
            k <= n,
            n == old(w).slots@.len(),
            n == dec@.len(),
            slots_bounded(old(w).slots@),
            cfg.wf(),
            a2 == cfg.arrival_distance * cfg.arrival_distance,
            forall|j: int|
                0 <= j < n ==> #[trigger] dec@[j] == forage_decision(old(w).slots@, j, a2 as int),
            w.slots@ == forage_fold(
                old(w).slots@,
                k as int,
                a2 as int,
                cfg.food_payload_amount,
                nest_id,
            ),
            n == w.slots@.len(),
            slots_bounded(w.slots@),
        decreases n - k,
    {
        let ghost prev = w.slots@;
        match dec[k] {
            ForageAction::Leave => {},
            ForageAction::ToWandering => {
                let s = w.slots[k];
                let ns = Slot {
                    generation: s.generation,
                    alive: s.alive,
                    comps: Components {
                        state: Some(AntState::Wandering),
                        target: None,
                        ..s.comps
                    },
                };
                w.slots.set(k, ns);
                proof {
                    assert(ns == wanderized(prev[k as int]));
                }
            },
            ForageAction::Arrive(t) => {
                proof {
                    assert(forage_decision(old(w).slots@, k as int, a2 as int)
                        == ForageAction::Arrive(t));
                    assert(foraging_ant(old(w).slots@, k as int));
                    assert(valid_id(
                        old(w).slots@,
                        old(w).slots@[k as int].comps.target->Some_0.0,
                    ));
                }
                let ft = w.slots[t];
                match ft.comps.food {
                    Some(f) => {
                        if f.amount > 0 {
                            let taken = if f.amount >= cfg.food_payload_amount {
                                f.amount - cfg.food_payload_amount
                            } else {
                                0
                            };
                            let nf = Slot {
                                generation: ft.generation,
                                alive: ft.alive,
                                comps: Components {
                                    food: Some(FoodSource { amount: taken }),
                                    ..ft.comps
                                },
                            };
                            w.slots.set(t, nf);
                            proof {
                                assert(nf == food_taken(prev[t as int], cfg.food_payload_amount));
                            }
                            let s = w.slots[k];
                            let ns = Slot {
                                generation: s.generation,
                                alive: s.alive,
                                comps: Components {
                                    state: Some(AntState::ReturningToNest),
                                    payload: Some(FoodPayload(cfg.food_payload_amount)),
                                    target: Some(Target(nest_id)),
                                    ..s.comps
                                },
                            };
                            w.slots.set(k, ns);
                            proof {
                                let cur1 = prev.update(
                                    t as int,
                                    food_taken(prev[t as int], cfg.food_payload_amount),
                                );
                                assert(ns == grabbed(
                                    cur1[k as int],
                                    cfg.food_payload_amount,
                                    nest_id,
                                ));
                                assert(w.slots@ == cur1.update(
                                    k as int,
                                    grabbed(cur1[k as int], cfg.food_payload_amount, nest_id),
                                ));
                            }
                        } else {
                            let s = w.slots[k];
                            let ns = Slot {
                                generation: s.generation,
                                alive: s.alive,
                                comps: Components {
                                    state: Some(AntState::Wandering),
                                    target: None,
                                    ..s.comps
                                },
                            };
                            w.slots.set(k, ns);
                            proof {
                                assert(ns == wanderized(prev[k as int]));
                            }
                        }
                    },
                    None => {},
                }
            },
        }
        proof {
            assert(w.slots@ == forage_apply(
                old(w).slots@,
                prev,
                k as int,
                a2 as int,
                cfg.food_payload_amount,
                nest_id,
            ));
        }
        k += 1;
    }
}

/// Slot `i` is a returning ant that has reached its nest target: state
/// `ReturningToNest`, a payload, and a target that resolves to a positioned
/// nest strictly within the arrival distance.
pub open spec fn returning_arrival(w: Seq<Slot>, i: int, arrival2: int) -> bool {
    &&& is_ant(w, i)
    &&& w[i].comps.state == Some(AntState::ReturningToNest)
    &&& w[i].comps.target is Some
    &&& w[i].comps.payload is Some
    &&& {
        let t = w[i].comps.target->Some_0.0;
        &&& valid_id(w, t)
        &&& w[t.index as int].comps.position is Some
        &&& w[t.index as int].comps.nest is Some
        &&& dist_sq(
            pos_of(w, i).x as int,
            pos_of(w, i).y as int,
            pos_of(w, t.index as int).x as int,
            pos_of(w, t.index as int).y as int,
        ) < arrival2
    }
}

/// An arrived ant after dropping its food: wandering, with no payload or
/// target.
pub open spec fn return_slot(w: Seq<Slot>, i: int, arrival2: int) -> Slot {
    let s = w[i];
    if returning_arrival(w, i, arrival2) {
        Slot {
            comps: Components {
                state: Some(AntState::Wandering),
                target: None,
                payload: None,
                ..s.comps
            },
            ..s
        }
    } else {
        s
    }
}

/// The food dropped at the nest by arrivals among slots `[0, j)`,
/// accumulated with saturation at `u64::MAX`.
pub open spec fn sum_returned_upto(w: Seq<Slot>, j: int, arrival2: int) -> int
    decreases j,
{
    if j <= 0 {
        0
    } else {
        let prev = sum_returned_upto(w, j - 1, arrival2);
        if returning_arrival(w, j - 1, arrival2) {
            sat_add64(prev, w[j - 1].comps.payload->Some_0.0 as int)
        } else {
            prev
        }
    }
}

/// Return resolution. Every returning ant within the arrival distance of its
/// nest target drops its payload and wanders again; the summed payloads are
/// added to the first nest's store (saturating), and an ant arriving with no
/// nest in the world simply loses its food.
pub fn ant_returning_system(w: &mut World, cfg: &AntConfig)
    requires
        slots_bounded(old(w).slots@),
        cfg.wf(),
    ensures
        final(w).slots@.len() == old(w).slots@.len(),
        forall|i: int|
            0 <= i < old(w).slots@.len() && !(has_nest(old(w).slots@) && i == first_nest(
                old(w).slots@,
            )) ==> final(w).slots@[i] == return_slot(
                old(w).slots@,
                i,
                cfg.arrival_distance * cfg.arrival_distance,
            ),
        has_nest(old(w).slots@) ==> {
            let ni = first_nest(old(w).slots@);
            let mapped = return_slot(old(w).slots@, ni, cfg.arrival_distance
                * cfg.arrival_distance);
            final(w).slots@[ni] == Slot {
                comps: Components {
                    nest: Some(
                        Nest {
                            food_store: sat_add64(
                                mapped.comps.nest->Some_0.food_store as int,
                                sum_returned_upto(
                                    old(w).slots@,
                                    old(w).slots@.len() as int,
                                    cfg.arrival_distance * cfg.arrival_distance,
                                ),
                            ) as u64,
                        },
                    ),
                    ..mapped.comps
                },
                ..mapped
            }
        },
        slots_bounded(final(w).slots@),
{
    let n = w.slots.len();
    proof {
        assert(cfg.arrival_distance * cfg.arrival_distance <= 40_000_000_000_000_000
            && cfg.arrival_distance * cfg.arrival_distance >= 0) by (nonlinear_arith)
            requires
                0 <= cfg.arrival_distance <= COORD_LIMIT,
        ;
    }
    let a2: i64 = cfg.arrival_distance * cfg.arrival_distance;
    let nest_i = find_first_nest(w);
    proof {
        if has_nest(w.slots@) {
            lemma_first_nest_is_nest(w.slots@);
        }
    }

    // collect arrivals and the total food they drop
    let mut arrived: Vec<bool> = Vec::new();
    let mut total: u64 = 0;
    let mut i: usize = 0;
    while i < n
        invariant
            i <= n,
            n == w.slots@.len(),
            w.slots@ == old(w).slots@,
            slots_bounded(w.slots@),
            arrived@.len() == i,
            forall|j: int|
                0 <= j < i ==> #[trigger] arrived@[j] == returning_arrival(
                    old(w).slots@,
                    j,
                    a2 as int,
                ),
            total == sum_returned_upto(old(w).slots@, i as int, a2 as int),
        decreases n - i,
    {
        let s = w.slots[i];
        let mut hit = false;
        let relevant = s.alive && s.comps.position.is_some() && s.comps.ant.is_some()
            && s.comps.target.is_some() && s.comps.payload.is_some() && (match s.comps.state {
            Some(AntState::ReturningToNest) => true,
            _ => false,
        });
        if relevant {
            match s.comps.target {
                Some(tgt) => {
                    let t = tgt.0;
                    if t.index < n {
                        let ts = w.slots[t.index];
                        if ts.alive && ts.generation == t.generation && ts.comps.position.is_some()
                            && ts.comps.nest.is_some() {
                            let p = match s.comps.position {
                                Some(p) => p,
                                None => Position { x: 0, y: 0 },
                            };
                            let q = match ts.comps.position {
                                Some(q) => q,
                                None => Position { x: 0, y: 0 },
                            };
                            proof {
                                assert(live(w.slots@, i as int));
                                assert(live(w.slots@, t.index as int));
                            }
                            let dsq = target_distance_sq(p.x, p.y, q.x, q.y);
                            if dsq < a2 {
                                hit = true;
                                let payload = match s.comps.payload {
                                    Some(fp) => fp.0,
                                    None => 0,
                                };
                                total = if total <= u64::MAX - payload as u64 {
                                    total + payload as u64
                                } else {
                                    u64::MAX
                                };
                            }
                        }
                    }
                },
                None => {},
            }
        }
        arrived.push(hit);
        i += 1;
    }

    // send the arrivals back to wandering
    let mut k: usize = 0;
    while k < n
        invariant
            k <= n,
            n == old(w).slots@.len(),
            n == w.slots@.len(),
            n == arrived@.len(),
            slots_bounded(old(w).slots@),
            forall|j: int|
                0 <= j < n ==> #[trigger] arrived@[j] == returning_arrival(
                    old(w).slots@,
                    j,
                    a2 as int,
                ),
            forall|j: int| 0 <= j < k ==> w.slots@[j] == return_slot(old(w).slots@, j, a2 as int),
            forall|j: int| k <= j < n ==> w.slots@[j] == old(w).slots@[j],
            slots_bounded(w.slots@),
        decreases n - k,
    {
        if arrived[k] {
            let s = w.slots[k];
            let ns = Slot {
                generation: s.generation,
                alive: s.alive,
                comps: Components {
                    state: Some(AntState::Wandering),
                    target: None,
                    payload: None,
                    ..s.comps
                },
            };
            w.slots.set(k, ns);
        }
        k += 1;
    }

    // deposit the food at the nest
    match nest_i {
        Some(ni) => {
            let s = w.slots[ni];
            match s.comps.nest {
                Some(nest) => {
                    let store = if nest.food_store <= u64::MAX - total {
                        nest.food_store + total
                    } else {
                        u64::MAX
                    };
                    let ns = Slot {
                        generation: s.generation,
                        alive: s.alive,
                        comps: Components { nest: Some(Nest { food_store: store }), ..s.comps },
                    };
                    w.slots.set(ni, ns);
                },
                None => {},
            }
        },
        None => {},
    }
}

} // verus!
