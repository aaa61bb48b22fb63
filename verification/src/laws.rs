//! Laws that span several systems: what the foraging pass preserves, what a
//! sole resolver does to the world, and the full forage-and-return round
//! trip.

use vstd::prelude::*;

use crate::components::{AntState, EntityId, FoodPayload, Nest, Target};
use crate::config::AntConfig;
use crate::simulation::{ants_ok, foods_ok};
use crate::store::{valid_id, Components, Slot};
use crate::systems::ant::{
    forage_apply, forage_decision, forage_fold, foraging_ant, food_taken, grabbed, return_slot,
    returning_arrival, sat_add64, sum_returned_upto, wanderized, ForageAction,
};
use crate::systems::{first_nest, has_nest, id_of, lemma_first_nest_is_nest, live};

verus! {

/// The fields the foraging pass never touches: liveness, generation,
/// position, velocity, health, nest, pheromone, and the presence of food.
pub open spec fn forage_frame(a: Slot, b: Slot) -> bool {
    &&& b.alive == a.alive
    &&& b.generation == a.generation
    &&& b.comps.position == a.comps.position
    &&& b.comps.velocity == a.comps.velocity
    &&& b.comps.ant == a.comps.ant
    &&& b.comps.nest == a.comps.nest
    &&& b.comps.pheromone == a.comps.pheromone
    &&& b.comps.pheromone_kind == a.comps.pheromone_kind
    &&& (b.comps.food is Some <==> a.comps.food is Some)
}

/// The foraging pass keeps its frame, touches the state, target, and payload
/// only of ants it has already resolved, and preserves the ant component
/// invariants.
pub proof fn lemma_forage_fold_props(
    w0: Seq<Slot>,
    k: int,
    a2: int,
    payload: u32,
    nest_id: EntityId,
)
    requires
        0 <= k <= w0.len(),
        ants_ok(w0),
    ensures
        forage_fold(w0, k, a2, payload, nest_id).len() == w0.len(),
        forall|j: int|
            0 <= j < w0.len() ==> forage_frame(
                w0[j],
                #[trigger] forage_fold(w0, k, a2, payload, nest_id)[j],
            ),
        forall|j: int|
            k <= j < w0.len() ==> {
                let c = #[trigger] forage_fold(w0, k, a2, payload, nest_id)[j];
                c.comps.state == w0[j].comps.state && c.comps.target == w0[j].comps.target
                    && c.comps.payload == w0[j].comps.payload
            },
        forall|j: int|
            0 <= j < w0.len() && w0[j].comps.ant is None ==> {
                let c = #[trigger] forage_fold(w0, k, a2, payload, nest_id)[j];
                c.comps.state == w0[j].comps.state && c.comps.target == w0[j].comps.target
                    && c.comps.payload == w0[j].comps.payload
            },
        forall|j: int|
            0 <= j < w0.len() && w0[j].comps.food is Some ==> {
                let c = #[trigger] forage_fold(w0, k, a2, payload, nest_id)[j];
                c.comps.food is Some && c.comps.food->Some_0.amount
                    <= w0[j].comps.food->Some_0.amount
            },
        ants_ok(forage_fold(w0, k, a2, payload, nest_id)),
    decreases k,
{
    if k > 0 {
        lemma_forage_fold_props(w0, k - 1, a2, payload, nest_id);
        let prev = forage_fold(w0, k - 1, a2, payload, nest_id);
        let cur = forage_fold(w0, k, a2, payload, nest_id);
        let i = k - 1;
        assert(cur == forage_apply(w0, prev, i, a2, payload, nest_id));
        match forage_decision(w0, i, a2) {
            ForageAction::Leave => {},
            ForageAction::ToWandering => {
                assert(foraging_ant(w0, i));
                assert(prev[i].comps.state == w0[i].comps.state);
                assert(prev[i].comps.payload == w0[i].comps.payload);
                assert(live(w0, i) && w0[i].comps.ant is Some);
                assert(w0[i].comps.payload is None);
                assert(cur == prev.update(i, wanderized(prev[i])));
                assert forall|j: int|
                    live(cur, j) && (#[trigger] cur[j]).comps.ant is Some implies {
                    &&& cur[j].comps.state is Some
                    &&& cur[j].comps.position is Some
                    &&& (cur[j].comps.target is Some <==> (cur[j].comps.state->Some_0 is Foraging
                        || cur[j].comps.state->Some_0 is ReturningToNest))
                    &&& (cur[j].comps.payload is Some
                        <==> cur[j].comps.state->Some_0 is ReturningToNest)
                } by {
                    if j != i {
                        assert(cur[j] == prev[j]);
                        assert(live(prev, j));
                    }
                }
            },
            ForageAction::Arrive(t) => {
                assert(foraging_ant(w0, i));
                let tid = w0[i].comps.target->Some_0.0;
                assert(valid_id(w0, tid));
                let ti = t as int;
                assert(ti == tid.index as int);
                assert(0 <= ti < w0.len());
                assert(prev[i].comps.state == w0[i].comps.state);
                assert(prev[i].comps.payload == w0[i].comps.payload);
                assert(w0[i].comps.payload is None);
                match prev[ti].comps.food {
                    Some(fc) => {
                        if fc.amount > 0 {
                            let cur1 = prev.update(ti, food_taken(prev[ti], payload));
                            assert(cur == cur1.update(i, grabbed(cur1[i], payload, nest_id)));
                            assert(forage_frame(w0[ti], cur[ti]) || ti == i);
                            assert forall|j: int|
                                live(cur, j) && (#[trigger] cur[j]).comps.ant is Some implies {
                                &&& cur[j].comps.state is Some
                                &&& cur[j].comps.position is Some
                                &&& (cur[j].comps.target is Some <==> (
                                cur[j].comps.state->Some_0 is Foraging
                                    || cur[j].comps.state->Some_0 is ReturningToNest))
                                &&& (cur[j].comps.payload is Some
                                    <==> cur[j].comps.state->Some_0 is ReturningToNest)
                            } by {
                                if j == i {
                                    assert(cur[i] == grabbed(cur1[i], payload, nest_id));
                                } else if j == ti {
                                    assert(cur[j] == food_taken(prev[j], payload));
                                    assert(live(prev, j));
                                } else {
                                    assert(cur[j] == prev[j]);
                                    assert(live(prev, j));
                                }
                            }
                        } else {
                            assert(cur == prev.update(i, wanderized(prev[i])));
                            assert forall|j: int|
                                live(cur, j) && (#[trigger] cur[j]).comps.ant is Some implies {
                                &&& cur[j].comps.state is Some
                                &&& cur[j].comps.position is Some
                                &&& (cur[j].comps.target is Some <==> (
                                cur[j].comps.state->Some_0 is Foraging
                                    || cur[j].comps.state->Some_0 is ReturningToNest))
                                &&& (cur[j].comps.payload is Some
                                    <==> cur[j].comps.state->Some_0 is ReturningToNest)
                            } by {
                                if j != i {
                                    assert(cur[j] == prev[j]);
                                    assert(live(prev, j));
                                }
                            }
                        }
                    },
                    None => {},
                }
            },
        }
    }
}

/// A depleted source is never rediscoverable: between ticks every live food
/// source holds food, so whatever the discovery scan selects still has some.
pub proof fn lemma_discovered_target_has_food(w: Seq<Slot>, px: int, py: int, r2: int)
    requires
        foods_ok(w),
        crate::systems::nearest_food(w, px, py, r2) is Some,
    ensures
        w[crate::systems::nearest_food(w, px, py, r2)->Some_0.0].comps.food->Some_0.amount > 0,
{
    crate::systems::lemma_best_food_is_food(w, px, py, r2, w.len() as int);
}

/// When only slot `i` resolves this pass, the whole foraging fold is that
/// single step applied to the start world.
pub proof fn lemma_forage_fold_sole(
    w0: Seq<Slot>,
    k: int,
    a2: int,
    payload: u32,
    nest_id: EntityId,
    i: int,
)
    requires
        0 <= k <= w0.len(),
        0 <= i < w0.len(),
        forall|j: int|
            0 <= j < w0.len() && j != i ==> #[trigger] forage_decision(w0, j, a2)
                == ForageAction::Leave,
    ensures
        forage_fold(w0, k, a2, payload, nest_id) == if k <= i {
            w0
        } else {
            forage_apply(w0, w0, i, a2, payload, nest_id)
        },
    decreases k,
{
    if k > 0 {
        lemma_forage_fold_sole(w0, k - 1, a2, payload, nest_id, i);
    }
}

/// With `i` the only arrival, the food dropped at the nest this pass is
/// exactly `i`'s payload.
proof fn lemma_sum_sole(w: Seq<Slot>, j: int, a2: int, i: int)
    requires
        0 <= j <= w.len(),
        0 <= i < w.len(),
        returning_arrival(w, i, a2),
        forall|j2: int| 0 <= j2 < w.len() && j2 != i ==> !(#[trigger] returning_arrival(w, j2, a2)),
    ensures
        sum_returned_upto(w, j, a2) == if i < j {
            w[i].comps.payload->Some_0.0 as int
        } else {
            0
        },
    decreases j,
{
    if j > 0 {
        lemma_sum_sole(w, j - 1, a2, i);
    }
}

/// Round trip. An ant that has discovered a food source and arrives there
/// leaves the foraging pass returning to the nest with the configured
/// payload, the source having lost that amount (not below zero). If it later
/// reaches the nest still carrying what it took, the return pass leaves it
/// wandering with no target and no payload, and the nest store has grown by
/// exactly the payload amount. `u` is the world entering the foraging pass,
/// `w` the world entering the return pass, and `r` what that pass produced;
/// in each pass the ant is the only one that resolves.
pub proof fn lemma_forage_return_round_trip(
    u: Seq<Slot>,
    w: Seq<Slot>,
    r: Seq<Slot>,
    cfg: AntConfig,
    i: int,
    t: usize,
)
    requires
        cfg.wf(),
        ants_ok(u),
        0 <= i < u.len(),
        t < u.len(),
        t != i,
        forage_decision(
            u,
            i,
            cfg.arrival_distance * cfg.arrival_distance,
        ) == ForageAction::Arrive(t),
        forall|j: int|
            0 <= j < u.len() && j != i ==> #[trigger] forage_decision(
                u,
                j,
                cfg.arrival_distance * cfg.arrival_distance,
            ) == ForageAction::Leave,
        // on arrival at the nest the ant still carries what the foraging
        // pass gave it
        0 <= i < w.len(),
        i != first_nest(w),
        w[i].comps.payload == forage_fold(
            u,
            u.len() as int,
            cfg.arrival_distance * cfg.arrival_distance,
            cfg.food_payload_amount,
            id_of(u, first_nest(u)),
        )[i].comps.payload,
        returning_arrival(w, i, cfg.arrival_distance * cfg.arrival_distance),
        forall|j2: int|
            0 <= j2 < w.len() && j2 != i ==> !(#[trigger] returning_arrival(
                w,
                j2,
                cfg.arrival_distance * cfg.arrival_distance,
            )),
        has_nest(w),
        w[first_nest(w)].comps.nest is Some,
        w[first_nest(w)].comps.nest->Some_0.food_store + cfg.food_payload_amount <= u64::MAX,
        // what the return pass produced
        r.len() == w.len(),
        forall|k: int|
            0 <= k < w.len() && k != first_nest(w) ==> #[trigger] r[k] == return_slot(
                w,
                k,
                cfg.arrival_distance * cfg.arrival_distance,
            ),
        r[first_nest(w)] == {
            let mapped = return_slot(w, first_nest(w), cfg.arrival_distance
                * cfg.arrival_distance);
            Slot {
                comps: Components {
                    nest: Some(
                        Nest {
                            food_store: sat_add64(
                                mapped.comps.nest->Some_0.food_store as int,
                                sum_returned_upto(
                                    w,
                                    w.len() as int,
                                    cfg.arrival_distance * cfg.arrival_distance,
                                ),
                            ) as u64,
                        },
                    ),
                    ..mapped.comps
                },
                ..mapped
            }
        },
    ensures
        // after foraging: the ant heads home with the payload, the source
        // lost it (not below zero)
        ({
            let v = forage_fold(
                u,
                u.len() as int,
                cfg.arrival_distance * cfg.arrival_distance,
                cfg.food_payload_amount,
                id_of(u, first_nest(u)),
            );
            &&& v[i].comps.state == Some(AntState::ReturningToNest)
            &&& v[i].comps.payload == Some(FoodPayload(cfg.food_payload_amount))
            &&& v[i].comps.target == Some(Target(id_of(u, first_nest(u))))
            &&& v[t as int].comps.food->Some_0.amount == if u[t as int].comps.food->Some_0.amount
                >= cfg.food_payload_amount {
                u[t as int].comps.food->Some_0.amount - cfg.food_payload_amount
            } else {
                0
            }
        }),
        // after returning: the ant wanders empty-handed and the nest store
        // rose by exactly the payload it carried
        r[i].comps.state == Some(AntState::Wandering),
        r[i].comps.target is None,
        r[i].comps.payload is None,
        w[i].comps.payload->Some_0.0 == cfg.food_payload_amount,
        r[first_nest(w)].comps.nest->Some_0.food_store == w[first_nest(
            w,
        )].comps.nest->Some_0.food_store + cfg.food_payload_amount,
{
    let a2 = cfg.arrival_distance * cfg.arrival_distance;
    let nid = id_of(u, first_nest(u));
    let p = cfg.food_payload_amount;

    // the foraging leg
    lemma_forage_fold_sole(u, u.len() as int, a2, p, nid, i);
    let v = forage_fold(u, u.len() as int, a2, p, nid);
    assert(v == forage_apply(u, u, i, a2, p, nid));
    assert(foraging_ant(u, i));
    let tid = u[i].comps.target->Some_0.0;
    assert(valid_id(u, tid));
    assert(t == tid.index);
    let ti = t as int;
    assert(u[ti].comps.food is Some && u[ti].comps.food->Some_0.amount > 0);
    let cur1 = u.update(ti, food_taken(u[ti], p));
    assert(v == cur1.update(i, grabbed(cur1[i], p, nid)));
    assert(v[i] == grabbed(u[i], p, nid));
    assert(v[ti] == food_taken(u[ti], p));

    // the returning leg
    let ni = first_nest(w);
    lemma_sum_sole(w, w.len() as int, a2, i);
    assert(sum_returned_upto(w, w.len() as int, a2) == w[i].comps.payload->Some_0.0 as int);
    assert(r[i] == return_slot(w, i, a2));
    assert(!returning_arrival(w, ni, a2));
    assert(return_slot(w, ni, a2) == w[ni]);
}

} // verus!
