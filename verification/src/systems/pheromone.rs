use vstd::prelude::*;

use crate::components::{AntState, PheromoneDeposit, PheromoneType, Position};
use crate::config::{PheromoneConfig, CHANCE_DENOM};
use crate::rng::SimRng;
use crate::store::{Components, Slot, World};
use crate::systems::{
    count_live, lemma_count_live_push, lemma_count_live_update, live, pos_of, slot_bounded,
    slots_bounded,
};

verus! {

/// One decay step: a live, positioned deposit loses exactly `decay`
/// strength; everything else is untouched.
pub open spec fn decay_slot(s: Slot, decay: int) -> Slot {
    if s.alive && s.comps.pheromone is Some && s.comps.position is Some {
        Slot {
            comps: Components {
                pheromone: Some(
                    PheromoneDeposit {
                        strength: (s.comps.pheromone->Some_0.strength - decay) as i64,
                    },
                ),
                ..s.comps
            },
            ..s
        }
    } else {
        s
    }
}

/// Every deposit loses the configured decay amount each tick; the floor is
/// unbounded, and the despawn sweep later removes exhausted deposits.
pub fn pheromone_decay_system(w: &mut World, cfg: &PheromoneConfig)
    requires
        slots_bounded(old(w).slots@),
        cfg.wf(),
    ensures
        final(w).slots@.len() == old(w).slots@.len(),
        forall|i: int|
            0 <= i < old(w).slots@.len() ==> final(w).slots@[i] == decay_slot(
                old(w).slots@[i],
                cfg.decay_amount as int,
            ),
        // the strength of every live, positioned deposit strictly decreases
        // by the decay amount
        forall|i: int|
            live(old(w).slots@, i) && old(w).slots@[i].comps.pheromone is Some && old(w).slots@[i].comps.position is Some ==> final(w).slots@[i].comps.pheromone->Some_0.strength
                == old(w).slots@[i].comps.pheromone->Some_0.strength - cfg.decay_amount,
{
    let n = w.slots.len();
    let mut i: usize = 0;
    while i < n
        invariant
            i <= n,
            n == w.slots@.len(),
            n == old(w).slots@.len(),
            slots_bounded(old(w).slots@),
            cfg.wf(),
            forall|j: int|
                0 <= j < i ==> w.slots@[j] == decay_slot(old(w).slots@[j], cfg.decay_amount as int),
            forall|j: int| i <= j < n ==> w.slots@[j] == old(w).slots@[j],
        decreases n - i,
    {
        let s = w.slots[i];
        if s.alive && s.comps.pheromone.is_some() && s.comps.position.is_some() {
            let d = match s.comps.pheromone {
                Some(d) => d,
                None => PheromoneDeposit { strength: 0 },
            };
            proof {
                assert(live(old(w).slots@, i as int));
            }
            let ns = Slot {
                generation: s.generation,
                alive: s.alive,
                comps: Components {
                    pheromone: Some(PheromoneDeposit { strength: d.strength - cfg.decay_amount }),
                    ..s.comps
                },
            };
            w.slots.set(i, ns);
        }
        i += 1;
    }
}

/// Slot `i` is an ant on its way home with food: the emission system's
/// query.
pub open spec fn emitting_ant(w: Seq<Slot>, i: int) -> bool {
    &&& live(w, i)
    &&& w[i].comps.position is Some
    &&& w[i].comps.state == Some(AntState::ReturningToNest)
    &&& w[i].comps.payload is Some
    &&& w[i].comps.payload->Some_0.0 > 0
    &&& w[i].comps.ant is Some
}

/// The number of emitting ants among slots `[0, j)`.
pub open spec fn count_emitting_upto(w: Seq<Slot>, j: int) -> int
    decreases j,
{
    if j <= 0 {
        0
    } else {
        count_emitting_upto(w, j - 1) + if emitting_ant(w, j - 1) {
            1int
        } else {
            0int
        }
    }
}

/// `p` is the position of some emitting ant of `w0`.
pub open spec fn emitted_pos(w0: Seq<Slot>, p: Position) -> bool {
    exists|j: int| #[trigger] emitting_ant(w0, j) && p == pos_of(w0, j)
}

/// A slot holding nothing but a fresh `ToFood` deposit at the position of
/// some emitting ant of `w0`.
pub open spec fn fresh_deposit_slot(s: Slot, w0: Seq<Slot>, cfg: PheromoneConfig) -> bool {
    &&& s.alive
    &&& s.comps == Components {
        position: s.comps.position,
        velocity: None,
        ant: None,
        state: None,
        target: None,
        payload: None,
        nest: None,
        food: None,
        pheromone: Some(PheromoneDeposit { strength: cfg.initial_strength }),
        pheromone_kind: Some(PheromoneType::ToFood),
    }
    &&& s.comps.position is Some
    &&& emitted_pos(w0, s.comps.position->Some_0)
}

/// Each ant returning with a nonzero payload drops, with the configured
/// chance, an independent `ToFood` deposit at its current position: at most
/// one per emitting ant. Live entities are never touched; every newly live
/// slot is a fresh deposit.
pub fn pheromone_emission_system(w: &mut World, rng: &mut SimRng, cfg: &PheromoneConfig)
    requires
        slots_bounded(old(w).slots@),
        cfg.wf(),
    ensures
        old(w).slots@.len() <= final(w).slots@.len(),
        final(w).slots@.len() <= old(w).slots@.len() + count_emitting_upto(
            old(w).slots@,
            old(w).slots@.len() as int,
        ),
        count_live(final(w).slots@) <= count_live(old(w).slots@) + count_emitting_upto(
            old(w).slots@,
            old(w).slots@.len() as int,
        ),
        forall|i: int| live(old(w).slots@, i) ==> final(w).slots@[i] == old(w).slots@[i],
        forall|i: int|
            0 <= i < old(w).slots@.len() && !live(old(w).slots@, i) ==> final(w).slots@[i] == old(w).slots@[i] || fresh_deposit_slot(final(w).slots@[i], old(w).slots@, *cfg),
        forall|i: int|
            old(w).slots@.len() <= i < final(w).slots@.len() ==> fresh_deposit_slot(
                final(w).slots@[i],
                old(w).slots@,
                *cfg,
            ),
        slots_bounded(final(w).slots@),
{
    let n = w.slots.len();
    let mut to_emit: Vec<Position> = Vec::new();
    let mut i: usize = 0;
    while i < n
        invariant
            i <= n,
            n == w.slots@.len(),
            w.slots@ == old(w).slots@,
            slots_bounded(w.slots@),
            cfg.wf(),
            forall|k: int|
                0 <= k < to_emit@.len() ==> emitted_pos(old(w).slots@, #[trigger] to_emit@[k]),
            to_emit@.len() <= count_emitting_upto(old(w).slots@, i as int),
        decreases n - i,
    {
        let s = w.slots[i];
        let relevant = s.alive && s.comps.position.is_some() && s.comps.payload.is_some()
            && s.comps.ant.is_some() && (match s.comps.state {
            Some(AntState::ReturningToNest) => true,
            _ => false,
        }) && (match s.comps.payload {
            Some(p) => p.0 > 0,
            None => false,
        });
        if relevant {
            if rng.random_below(CHANCE_DENOM) < cfg.emit_chance_milli as u64 {
                let p = match s.comps.position {
                    Some(p) => p,
                    None => Position { x: 0, y: 0 },
                };
                proof {
                    assert(emitting_ant(old(w).slots@, i as int));
                    assert(emitted_pos(old(w).slots@, p));
                }
                to_emit.push(p);
            }
        }
        i += 1;
    }
    let m = to_emit.len();
    let mut k: usize = 0;
    while k < m
        invariant
            k <= m,
            m == to_emit@.len(),
            cfg.wf(),
            old(w).slots@.len() <= w.slots@.len(),
            slots_bounded(old(w).slots@),
            m <= count_emitting_upto(old(w).slots@, old(w).slots@.len() as int),
            w.slots@.len() <= old(w).slots@.len() + k,
            count_live(w.slots@) == count_live(old(w).slots@) + k,
            forall|kk: int|
                0 <= kk < m ==> emitted_pos(old(w).slots@, #[trigger] to_emit@[kk]),
            forall|i2: int| live(old(w).slots@, i2) ==> w.slots@[i2] == old(w).slots@[i2],
            forall|i2: int|
                0 <= i2 < old(w).slots@.len() && !live(old(w).slots@, i2) ==> w.slots@[i2] == old(w).slots@[i2] || fresh_deposit_slot(w.slots@[i2], old(w).slots@, *cfg),
            forall|i2: int|
                old(w).slots@.len() <= i2 < w.slots@.len() ==> fresh_deposit_slot(
                    w.slots@[i2],
                    old(w).slots@,
                    *cfg,
                ),
            slots_bounded(w.slots@),
        decreases m - k,
    {
        let p = to_emit[k];
        let mut c = Components::empty();
        c.position = Some(p);
        c.pheromone = Some(PheromoneDeposit { strength: cfg.initial_strength });
        c.pheromone_kind = Some(PheromoneType::ToFood);
        let ghost pre = w.slots@;
        let id = w.spawn(c);
        proof {
            let j = choose|j: int| #[trigger] emitting_ant(old(w).slots@, j) && to_emit@[k as int]
                == pos_of(old(w).slots@, j);
            assert(live(old(w).slots@, j));
            assert(slot_bounded(old(w).slots@[j]));
            assert(fresh_deposit_slot(w.slots@[id.index as int], old(w).slots@, *cfg));
            if id.index < pre.len() {
                lemma_count_live_update(
                    pre,
                    id.index as int,
                    w.slots@[id.index as int],
                    pre.len() as int,
                );
            } else {
                lemma_count_live_push(pre, w.slots@[id.index as int]);
            }
            assert forall|i2: int| live(old(w).slots@, i2) implies w.slots@[i2] == old(w).slots@[i2] by {
                assert(pre[i2] == old(w).slots@[i2]);
                assert(pre[i2].alive);
            }
        }
        k += 1;
    }
}

} // verus!
