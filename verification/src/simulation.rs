use vstd::prelude::*;

use crate::components::{Ant, AntState, FoodSource, Nest, PheromoneDeposit, Position, Velocity};
use crate::config::SimulationConfig;
use crate::dto::{
    ant_dto_of, ants_dto_upto, food_dto_of, foods_dto_upto, AntDto, AntStateDto, FoodSourceDto,
    NestDto, StatsDto, WorldDto,
};
use crate::maths::target_distance_sq;
use crate::rng::SimRng;
use crate::store::{Components, Slot, World};
use crate::systems::stats::{count_living_ants, lemma_count_living_ants_agree, Stats};
use crate::systems::world::{count_food, lemma_count_food_agree};
use crate::systems::{
    first_nest, has_nest, is_ant, is_food, lemma_first_nest_is_nest, live, pos_of,
    positions_within, slot_bounded, slots_bounded,
};

verus! {

/// The largest world dimension, in sub-units: positions then stay inside the
/// fixed-point working range even after one step of movement.
pub const DIM_LIMIT: i64 = 100_000_000;

/// The knobs a host passes when constructing a simulation. Dimensions are in
/// fixed-point sub-units.
#[derive(Debug, PartialEq, Eq, Structural, Clone, Copy)]
pub struct SimulationOptions {
    pub width: i64,
    pub height: i64,
    pub starting_ants: u32,
    pub starting_food_sources: u32,
    pub max_food_sources: u32,
}

impl SimulationOptions {
    pub open spec fn wf(self) -> bool {
        0 <= self.width <= DIM_LIMIT && 0 <= self.height <= DIM_LIMIT
    }

    pub open spec fn default_spec() -> SimulationOptions {
        SimulationOptions {
            width: 100_000,
            height: 100_000,
            starting_ants: 50,
            starting_food_sources: 50,
            max_food_sources: 50,
        }
    }
}

impl Default for SimulationOptions {
    fn default() -> (o: SimulationOptions)
        ensures
            o == SimulationOptions::default_spec(),
            o.wf(),
    {
        SimulationOptions {
            width: 100_000,
            height: 100_000,
            starting_ants: 50,
            starting_food_sources: 50,
            max_food_sources: 50,
        }
    }
}

/// Every live ant has exactly one state and a position, carries a target
/// exactly while foraging or returning, and a payload exactly while
/// returning.
pub open spec fn ants_ok(w: Seq<Slot>) -> bool {
    forall|i: int|
        live(w, i) && (#[trigger] w[i]).comps.ant is Some ==> {
            &&& w[i].comps.state is Some
            &&& w[i].comps.position is Some
            &&& (w[i].comps.target is Some <==> (w[i].comps.state->Some_0 is Foraging
                || w[i].comps.state->Some_0 is ReturningToNest))
            &&& (w[i].comps.payload is Some <==> w[i].comps.state->Some_0 is ReturningToNest)
        }
}

/// Exactly one live nest exists; it has a position and carries nothing that
/// the lifecycle or the despawn sweep act on.
pub open spec fn one_nest(w: Seq<Slot>) -> bool {
    &&& has_nest(w)
    &&& w[first_nest(w)].comps.position is Some
    &&& w[first_nest(w)].comps.ant is None
    &&& w[first_nest(w)].comps.state is None
    &&& w[first_nest(w)].comps.food is None
    &&& w[first_nest(w)].comps.pheromone is None
    &&& forall|j: int|
        live(w, j) && (#[trigger] w[j]).comps.nest is Some ==> j == first_nest(w)
}

/// Every live food source is positioned and still holds food.
pub open spec fn foods_ok(w: Seq<Slot>) -> bool {
    forall|i: int|
        live(w, i) && (#[trigger] w[i]).comps.food is Some ==> w[i].comps.position is Some
            && w[i].comps.food->Some_0.amount > 0
}

/// A slot is one kind of thing: a deposit carries nothing but its scent
/// mark, a food source and the nest carry no ant-side components, and a
/// state never occurs without an ant.
pub open spec fn kinds_slot(s: Slot) -> bool {
    &&& (s.comps.pheromone is Some ==> s.comps.ant is None && s.comps.food is None
        && s.comps.nest is None && s.comps.state is None && s.comps.velocity is None
        && s.comps.target is None)
    &&& (s.comps.food is Some ==> s.comps.ant is None && s.comps.nest is None && s.comps.state
        is None)
    &&& (s.comps.state is Some ==> s.comps.ant is Some)
}

/// The component exclusivity of the data model, over every live slot.
pub open spec fn kinds_ok(w: Seq<Slot>) -> bool {
    forall|i: int| live(w, i) ==> kinds_slot(#[trigger] w[i])
}

/// Every live pheromone deposit is positioned and not yet exhausted.
pub open spec fn pheromones_ok(w: Seq<Slot>) -> bool {
    forall|i: int|
        live(w, i) && (#[trigger] w[i]).comps.pheromone is Some ==> w[i].comps.position is Some
            && w[i].comps.pheromone->Some_0.strength > 0
}

/// The well-formedness of a world between ticks: the component invariants of
/// the data model, plus the numeric bounds the systems compute under.
pub open spec fn world_ok(w: Seq<Slot>) -> bool {
    &&& slots_bounded(w)
    &&& positions_within(w, DIM_LIMIT as int)
    &&& ants_ok(w)
    &&& one_nest(w)
    &&& foods_ok(w)
    &&& pheromones_ok(w)
    &&& kinds_ok(w)
}


/// The nest slot a constructor creates: left of centre, an empty store, and
/// nothing else.
pub open spec fn constructor_nest_slot(s: Slot, options: SimulationOptions) -> bool {
    &&& s.alive
    &&& s.comps == (Components {
        position: Some(
            Position {
                x: (options.width / 2 - 10_000) as i64,
                y: (options.height / 2 - 10_000) as i64,
            },
        ),
        velocity: None,
        ant: None,
        state: None,
        target: None,
        payload: None,
        nest: Some(Nest { food_store: 0u64 }),
        food: None,
        pheromone: None,
        pheromone_kind: None,
    })
}

/// A food slot a constructor creates: 100 food somewhere inside the world,
/// and nothing else.
pub open spec fn constructor_food_slot(s: Slot, options: SimulationOptions) -> bool {
    &&& s.alive
    &&& s.comps.position is Some
    &&& 0 <= s.comps.position->Some_0.x <= options.width
    &&& 0 <= s.comps.position->Some_0.y <= options.height
    &&& s.comps.food == Some(FoodSource { amount: 100u32 })
    &&& s.comps.velocity is None
    &&& s.comps.ant is None
    &&& s.comps.state is None
    &&& s.comps.target is None
    &&& s.comps.payload is None
    &&& s.comps.nest is None
    &&& s.comps.pheromone is None
    &&& s.comps.pheromone_kind is None
}

/// An ant slot a constructor creates: at the centre, wandering, with a
/// random heading and health drawn from the configured range, and nothing
/// else.
pub open spec fn constructor_ant_slot(
    s: Slot,
    options: SimulationOptions,
    config: SimulationConfig,
) -> bool {
    &&& s.alive
    &&& s.comps.position == Some(
        Position { x: (options.width / 2) as i64, y: (options.height / 2) as i64 },
    )
    &&& s.comps.state == Some(AntState::Wandering)
    &&& s.comps.ant is Some
    &&& config.ant.min_health <= s.comps.ant->Some_0.health < config.ant.max_health
    &&& s.comps.velocity is Some
    &&& -1000 <= s.comps.velocity->Some_0.dx < 1000
    &&& -1000 <= s.comps.velocity->Some_0.dy < 1000
    &&& s.comps.target is None
    &&& s.comps.payload is None
    &&& s.comps.nest is None
    &&& s.comps.food is None
    &&& s.comps.pheromone is None
    &&& s.comps.pheromone_kind is None
}

/// The full layout a constructor guarantees: the nest in the first slot, the
/// food sources next, the ants last, every slot live.
pub open spec fn constructor_layout(
    w: Seq<Slot>,
    options: SimulationOptions,
    config: SimulationConfig,
) -> bool {
    &&& w.len() == 1 + options.starting_food_sources + options.starting_ants
    &&& (forall|k: int| 0 <= k < w.len() ==> (#[trigger] w[k]).alive)
    &&& constructor_nest_slot(w[0], options)
    &&& first_nest(w) == 0
    &&& (forall|k: int|
        1 <= k < 1 + options.starting_food_sources ==> constructor_food_slot(
            #[trigger] w[k],
            options,
        ))
    &&& (forall|k: int|
        1 + options.starting_food_sources <= k < w.len() ==> constructor_ant_slot(
            #[trigger] w[k],
            options,
            config,
        ))
}

/// A step that only rewrites velocities preserves the model invariants other
/// than the velocity values themselves.
proof fn vel_frame_preserves(wa: Seq<Slot>, wb: Seq<Slot>, ni: int)
    requires
        wa.len() == wb.len(),
        forall|k: int|
            0 <= k < wb.len() ==> (#[trigger] wb[k]).alive == wa[k].alive && wb[k].generation
                == wa[k].generation && wb[k].comps == (crate::store::Components {
                velocity: wb[k].comps.velocity,
                ..wa[k].comps
            }),
        one_nest(wa),
        ni == first_nest(wa),
        positions_within(wa, DIM_LIMIT as int),
        ants_ok(wa),
        foods_ok(wa),
        pheromones_ok(wa),
    ensures
        first_nest(wb) == ni,
        one_nest(wb),
        positions_within(wb, DIM_LIMIT as int),
        ants_ok(wb),
        foods_ok(wb),
        pheromones_ok(wb),
        wb[ni].generation == wa[ni].generation,
{
    lemma_first_nest_is_nest(wa);
    assert forall|k: int| 0 <= k < wb.len() implies wb[k].alive == wa[k].alive && (wb[k].comps.nest
        is Some <==> wa[k].comps.nest is Some) by {}
    crate::systems::lemma_first_nest_agree(wb, wa);
    assert(0 <= ni < wb.len());
    assert(wb[ni].comps == (crate::store::Components {
        velocity: wb[ni].comps.velocity,
        ..wa[ni].comps
    }));
    assert forall|k: int|
        live(wb, k) implies (wb[k].comps.position is Some ==> -DIM_LIMIT
        <= wb[k].comps.position->Some_0.x <= DIM_LIMIT && -DIM_LIMIT
        <= wb[k].comps.position->Some_0.y <= DIM_LIMIT) && (wb[k].comps.pheromone is Some
        ==> wb[k].comps.position is Some && wb[k].comps.pheromone->Some_0.strength > 0) && (
    wb[k].comps.food is Some ==> wb[k].comps.position is Some
        && wb[k].comps.food->Some_0.amount > 0) && (wb[k].comps.ant is Some ==> {
        &&& wb[k].comps.state is Some
        &&& wb[k].comps.position is Some
        &&& (wb[k].comps.target is Some <==> (wb[k].comps.state->Some_0 is Foraging
            || wb[k].comps.state->Some_0 is ReturningToNest))
        &&& (wb[k].comps.payload is Some <==> wb[k].comps.state->Some_0 is ReturningToNest)
    }) by {
        assert(live(wa, k));
    }
}

/// The simulation driver: it owns the store, the deterministic generator,
/// the configuration, and the aggregate counters, and advances the world one
/// tick at a time. A snapshot taken between ticks always reflects a fully
/// applied, consistent tick.
pub struct Simulation {
    pub world: World,
    pub options: SimulationOptions,
    pub config: SimulationConfig,
    pub rng: SimRng,
    pub stats: Stats,
}

impl Simulation {
    /// The between-ticks invariant: constructors establish it and `tick`
    /// preserves it.
    pub open spec fn wf(self) -> bool {
        self.options.wf() && self.config.wf() && world_ok(self.world.slots@)
    }

    /// Build a world from explicit options, configuration, and generator:
    /// one nest left of centre, the requested food sources somewhere inside
    /// the world (each position redrawn a bounded number of times to land
    /// beyond the configured distance from the nest, keeping the last draw
    /// if none qualifies), and the requested ants at the centre, all
    /// wandering.
    pub fn with_rng(options: SimulationOptions, config: SimulationConfig, rng: SimRng) -> (sim:
        Simulation)
        requires
            options.wf(),
            config.wf(),
        ensures
            sim.wf(),
            sim.options == options,
            sim.config == config,
            sim.stats == Stats::default_spec(),
            count_living_ants(sim.world.slots@) == options.starting_ants,
            count_food(sim.world.slots@) == options.starting_food_sources,
            sim.world.slots@.len() == 1 + options.starting_ants + options.starting_food_sources,
            constructor_layout(sim.world.slots@, options, config),
    {
        let mut world = World::new();
        let mut rng = rng;

        let start_x = options.width / 2;
        let start_y = options.height / 2;
        let nest_x = start_x - 10_000;
        let nest_y = start_y - 10_000;

        let mut c = Components::empty();
        c.position = Some(Position { x: nest_x, y: nest_y });
        c.nest = Some(Nest::new());
        world.spawn(c);
        proof {
            assert(world.slots@.len() == 1);
            assert(has_nest(world.slots@));
            assert(first_nest(world.slots@) == 0);
            assert(crate::systems::stats::count_living_ants_upto(world.slots@, 0) == 0);
            assert(crate::systems::world::count_food_upto(world.slots@, 0) == 0);
            assert(count_living_ants(world.slots@) == 0);
            assert(count_food(world.slots@) == 0);
        }

        let min_d = config.world.food_spawn_min_distance_to_nest;
        proof {
            assert(min_d * min_d <= 40_000_000_000_000_000 && min_d * min_d >= 0)
                by (nonlinear_arith)
                requires
                    0 <= min_d <= crate::maths::COORD_LIMIT,
            ;
        }
        let min_d2: i64 = min_d * min_d;

        let mut f: u32 = 0;
        while f < options.starting_food_sources
            invariant
                f <= options.starting_food_sources,
                options.wf(),
                config.wf(),
                min_d2 == config.world.food_spawn_min_distance_to_nest
                    * config.world.food_spawn_min_distance_to_nest,
                -DIM_LIMIT <= nest_x <= DIM_LIMIT,
                -DIM_LIMIT <= nest_y <= DIM_LIMIT,
                world.slots@.len() == 1 + f,
                forall|k: int| 0 <= k < world.slots@.len() ==> (#[trigger] world.slots@[k]).alive,
                nest_x == options.width / 2 - 10_000,
                nest_y == options.height / 2 - 10_000,
                constructor_nest_slot(world.slots@[0], options),
                first_nest(world.slots@) == 0,
                forall|k: int|
                    1 <= k < world.slots@.len() ==> constructor_food_slot(
                        #[trigger] world.slots@[k],
                        options,
                    ),
                count_living_ants(world.slots@) == 0,
                count_food(world.slots@) == f,
            decreases options.starting_food_sources - f,
        {
            let mut x: i64 = 0;
            let mut y: i64 = 0;
            let mut attempts: u32 = 0;
            loop
                invariant
                    options.wf(),
                    -DIM_LIMIT <= nest_x <= DIM_LIMIT,
                    -DIM_LIMIT <= nest_y <= DIM_LIMIT,
                    0 <= x <= options.width,
                    0 <= y <= options.height,
                    attempts <= 64,
                ensures
                    0 <= x <= options.width,
                    0 <= y <= options.height,
                decreases 64 - attempts,
            {
                if options.width > 0 {
                    x = rng.random_below(options.width as u64) as i64;
                }
                if options.height > 0 {
                    y = rng.random_below(options.height as u64) as i64;
                }
                let d2 = target_distance_sq(nest_x, nest_y, x, y);
                if d2 > min_d2 || attempts >= 63 {
                    break ;
                }
                attempts += 1;
            }
            let mut c = Components::empty();
            c.position = Some(Position { x, y });
            c.food = Some(FoodSource { amount: 100 });
            let ghost pre = world.slots@;
            world.spawn(c);
            proof {
                assert(world.slots@ == pre.push(world.slots@[pre.len() as int]));
                lemma_count_food_agree(world.slots@, pre, pre.len() as int);
                lemma_count_living_ants_agree(world.slots@, pre, pre.len() as int);
                crate::systems::lemma_first_nest_is_nest(pre);
                crate::systems::lemma_first_nest_bound_pub(world.slots@, 0);
            }
            f += 1;
        }

        let mut a: u32 = 0;
        while a < options.starting_ants
            invariant
                a <= options.starting_ants,
                options.wf(),
                world.slots@.len() == 1 + options.starting_food_sources + a,
                forall|k: int| 0 <= k < world.slots@.len() ==> (#[trigger] world.slots@[k]).alive,
                0 <= start_x <= DIM_LIMIT,
                0 <= start_y <= DIM_LIMIT,
                start_x == options.width / 2,
                start_y == options.height / 2,
                config.wf(),
                constructor_nest_slot(world.slots@[0], options),
                first_nest(world.slots@) == 0,
                forall|k: int|
                    1 <= k < 1 + options.starting_food_sources ==> constructor_food_slot(
                        #[trigger] world.slots@[k],
                        options,
                    ),
                forall|k: int|
                    1 + options.starting_food_sources <= k < world.slots@.len()
                        ==> constructor_ant_slot(#[trigger] world.slots@[k], options, config),
                count_living_ants(world.slots@) == a,
                count_food(world.slots@) == options.starting_food_sources,
            decreases options.starting_ants - a,
        {
            let dx: i64 = rng.random_below(2000) as i64 - 1000;
            let dy: i64 = rng.random_below(2000) as i64 - 1000;
            let span: u64 = (config.ant.max_health - config.ant.min_health) as u64;
            let health: u32 = config.ant.min_health + rng.random_below(span) as u32;
            let mut c = Components::empty();
            c.position = Some(Position { x: start_x, y: start_y });
            c.velocity = Some(Velocity { dx, dy });
            c.state = Some(AntState::Wandering);
            c.ant = Some(Ant { health });
            let ghost pre = world.slots@;
            world.spawn(c);
            proof {
                assert(world.slots@ == pre.push(world.slots@[pre.len() as int]));
                lemma_count_food_agree(world.slots@, pre, pre.len() as int);
                lemma_count_living_ants_agree(world.slots@, pre, pre.len() as int);
                crate::systems::lemma_first_nest_bound_pub(world.slots@, 0);
            }
            a += 1;
        }

        proof {
            let ws = world.slots@;
            assert forall|k: int| live(ws, k) implies slot_bounded(#[trigger] ws[k]) by {}
            assert(slots_bounded(ws));
            assert forall|k: int|
                live(ws, k) && (#[trigger] ws[k]).comps.position is Some implies -DIM_LIMIT
                <= ws[k].comps.position->Some_0.x <= DIM_LIMIT && -DIM_LIMIT
                <= ws[k].comps.position->Some_0.y <= DIM_LIMIT by {}
            assert(positions_within(ws, DIM_LIMIT as int));
            assert(ants_ok(ws));
            assert(one_nest(ws));
            assert(foods_ok(ws));
            assert(pheromones_ok(ws));
            assert forall|k: int| live(ws, k) implies kinds_slot(#[trigger] ws[k]) by {}
            assert(kinds_ok(ws));
            assert(constructor_layout(ws, options, config));
        }
        Simulation { world, options, config, rng, stats: Stats::default() }
    }


    /// Advance the world by exactly one step: the fixed pipeline of systems,
    /// in order, each completing before the next begins. The data-model
    /// invariants hold again once the tick is done, and the statistics
    /// reflect the world as of its end.
    #[verifier::rlimit(100)]
    pub fn tick(&mut self)
        requires
            old(self).wf(),
        ensures
            final(self).wf(),
            final(self).options == old(self).options,
            final(self).config == old(self).config,
            final(self).stats.alive_ants == count_living_ants(final(self).world.slots@),
            final(self).stats.food_sources == count_food(final(self).world.slots@),
            final(self).stats.food_in_nest == final(self).world.slots@[first_nest(
                final(self).world.slots@,
            )].comps.nest->Some_0.food_store,
            // the nest is the same entity throughout: same slot, same
            // generation, never despawned or recreated
            first_nest(final(self).world.slots@) == first_nest(old(self).world.slots@),
            final(self).world.slots@[first_nest(old(self).world.slots@)].generation == old(self).world.slots@[first_nest(old(self).world.slots@)].generation,
            final(self).world.slots@[first_nest(old(self).world.slots@)].alive,
            final(self).world.slots@[first_nest(old(self).world.slots@)].comps.nest is Some,
            // the pipeline really ran: every deposit alive at the start lost
            // exactly the decay amount, surviving exactly while its strength
            // stays positive, in place and under its generation
            forall|k: int|
                live(old(self).world.slots@, k) && (#[trigger] old(self).world.slots@[k]).comps.pheromone is Some ==> {
                    let s0 = old(self).world.slots@[k].comps.pheromone->Some_0.strength;
                    let dec = old(self).config.pheromone.decay_amount;
                    if s0 - dec > 0 {
                        &&& live(final(self).world.slots@, k)
                        &&& final(self).world.slots@[k].comps.pheromone == Some(
                            PheromoneDeposit { strength: (s0 - dec) as i64 },
                        )
                        &&& final(self).world.slots@[k].comps.position == old(self).world.slots@[k].comps.position
                        &&& final(self).world.slots@[k].generation == old(self).world.slots@[k].generation
                    } else {
                        !final(self).world.slots@[k].alive
                    }
                },
            // every ant alive at the start that survives the tick lost
            // exactly one health, held at zero
            forall|k: int|
                live(old(self).world.slots@, k) && (#[trigger] old(self).world.slots@[k]).comps.ant is Some && live(final(self).world.slots@, k)
                    ==> final(self).world.slots@[k].comps.ant == Some(
                    Ant {
                        health: if old(self).world.slots@[k].comps.ant->Some_0.health > 0 {
                            (old(self).world.slots@[k].comps.ant->Some_0.health - 1) as u32
                        } else {
                            0u32
                        },
                    },
                ),
            // no source ever gains: a surviving source holds at most what it
            // held at the start
            forall|k: int|
                live(old(self).world.slots@, k) && (#[trigger] old(self).world.slots@[k]).comps.food is Some && live(final(self).world.slots@, k)
                    ==> final(self).world.slots@[k].comps.food is Some && final(self).world.slots@[k].comps.food->Some_0.amount <= old(self).world.slots@[k].comps.food->Some_0.amount,
    {
        let ghost w0 = self.world.slots@;
        let ghost ni = first_nest(w0);
        let cfg = self.config;
        let opts = self.options;
        proof {
            lemma_first_nest_is_nest(w0);
        }

        // 1. ant lifecycle: health decrement, reproduction
        crate::systems::ant::ant_lifecycle_system(&mut self.world, &mut self.rng, &cfg.ant);
        let ghost w1 = self.world.slots@;
        proof {
            let gp = pos_of(w0, ni);
            assert forall|k: int| 0 <= k < ni implies !(w1[k].alive && w1[k].comps.nest is Some) by {
                if live(w0, k) {
                    assert(w1[k] == crate::systems::ant::lifecycle_mapped(w0, k));
                }
            }
            assert(w1[ni] == crate::systems::ant::lifecycle_mapped(w0, ni));
            crate::systems::lemma_first_nest_bound_pub(w1, ni);
            assert forall|k: int|
                live(w1, k) implies (w1[k].comps.position is Some ==> -DIM_LIMIT
                <= w1[k].comps.position->Some_0.x <= DIM_LIMIT && -DIM_LIMIT
                <= w1[k].comps.position->Some_0.y <= DIM_LIMIT) && (w1[k].comps.pheromone is Some
                ==> w1[k].comps.position is Some && w1[k].comps.pheromone->Some_0.strength > 0) && (
            w1[k].comps.food is Some ==> w1[k].comps.position is Some) && (w1[k].comps.ant is Some
                ==> {
                &&& w1[k].comps.state is Some
                &&& w1[k].comps.position is Some
                &&& (w1[k].comps.target is Some <==> (w1[k].comps.state->Some_0 is Foraging
                    || w1[k].comps.state->Some_0 is ReturningToNest))
                &&& (w1[k].comps.payload is Some
                    <==> w1[k].comps.state->Some_0 is ReturningToNest)
            }) && (w1[k].comps.nest is Some ==> k == ni) by {
                if k < w0.len() && live(w0, k) {
                    assert(w1[k] == crate::systems::ant::lifecycle_mapped(w0, k));
                } else {
                    assert(crate::systems::ant::new_ant_slot(w1[k], gp, cfg.ant));
                }
            }
            assert(one_nest(w1));
            assert(positions_within(w1, DIM_LIMIT as int));
            assert(ants_ok(w1));
            assert forall|k: int| live(w1, k) implies kinds_slot(#[trigger] w1[k]) by {
                if k < w0.len() && live(w0, k) {
                    assert(w1[k] == crate::systems::ant::lifecycle_mapped(w0, k));
                    assert(kinds_slot(w0[k]));
                } else {
                    assert(crate::systems::ant::new_ant_slot(w1[k], gp, cfg.ant));
                }
            }
            assert(kinds_ok(w1));
        }

        // 2. dying transition
        crate::systems::ant::ant_dying_system(&mut self.world, &mut self.stats, &cfg.ant);
        let ghost w2 = self.world.slots@;
        proof {
            assert forall|k: int| 0 <= k < w2.len() implies w2[k].alive == w1[k].alive && (
            w2[k].comps.nest is Some <==> w1[k].comps.nest is Some) by {
                assert(w2[k] == crate::systems::ant::dying_slot(w1, k, cfg.ant.death_animation_ticks));
            }
            crate::systems::lemma_first_nest_agree(w2, w1);
            assert forall|k: int| live(w2, k) implies slot_bounded(#[trigger] w2[k]) && (
            w2[k].comps.position is Some ==> -DIM_LIMIT <= w2[k].comps.position->Some_0.x
                <= DIM_LIMIT && -DIM_LIMIT <= w2[k].comps.position->Some_0.y <= DIM_LIMIT) && (
            w2[k].comps.pheromone is Some ==> w2[k].comps.position is Some
                && w2[k].comps.pheromone->Some_0.strength > 0) && (w2[k].comps.food is Some
                ==> w2[k].comps.position is Some) && (w2[k].comps.ant is Some ==> {
                &&& w2[k].comps.state is Some
                &&& w2[k].comps.position is Some
                &&& (w2[k].comps.target is Some <==> (w2[k].comps.state->Some_0 is Foraging
                    || w2[k].comps.state->Some_0 is ReturningToNest))
                &&& (w2[k].comps.payload is Some
                    <==> w2[k].comps.state->Some_0 is ReturningToNest)
            }) by {
                assert(w2[k] == crate::systems::ant::dying_slot(w1, k, cfg.ant.death_animation_ticks));
                assert(live(w1, k));
                assert(slot_bounded(w1[k]));
            }
            assert(w2[ni] == crate::systems::ant::dying_slot(w1, ni, cfg.ant.death_animation_ticks));
            assert(one_nest(w2));
            assert(slots_bounded(w2));
            assert forall|k: int| live(w2, k) implies kinds_slot(#[trigger] w2[k]) by {
                assert(w2[k] == crate::systems::ant::dying_slot(w1, k, cfg.ant.death_animation_ticks));
                assert(live(w1, k));
                assert(kinds_slot(w1[k]));
            }
            assert(kinds_ok(w2));
        }

        // 3. food economy: conditional spawn of a new source
        crate::systems::world::food_spawn_system(
            &mut self.world,
            opts.width,
            opts.height,
            opts.max_food_sources,
            &mut self.rng,
            &cfg.world,
        );
        let ghost w3 = self.world.slots@;
        proof {
            let gnx = pos_of(w2, ni).x as int;
            let gny = pos_of(w2, ni).y as int;
            assert forall|k: int| 0 <= k < ni implies !(w3[k].alive && w3[k].comps.nest is Some) by {
                if live(w2, k) {
                    assert(w3[k] == w2[k]);
                }
            }
            assert(w3[ni] == w2[ni]);
            crate::systems::lemma_first_nest_bound_pub(w3, ni);
            assert forall|k: int|
                live(w3, k) implies (w3[k].comps.position is Some ==> -DIM_LIMIT
                <= w3[k].comps.position->Some_0.x <= DIM_LIMIT && -DIM_LIMIT
                <= w3[k].comps.position->Some_0.y <= DIM_LIMIT) && (w3[k].comps.pheromone is Some
                ==> w3[k].comps.position is Some && w3[k].comps.pheromone->Some_0.strength > 0) && (
            w3[k].comps.food is Some ==> w3[k].comps.position is Some) && (w3[k].comps.ant is Some
                ==> {
                &&& w3[k].comps.state is Some
                &&& w3[k].comps.position is Some
                &&& (w3[k].comps.target is Some <==> (w3[k].comps.state->Some_0 is Foraging
                    || w3[k].comps.state->Some_0 is ReturningToNest))
                &&& (w3[k].comps.payload is Some
                    <==> w3[k].comps.state->Some_0 is ReturningToNest)
            }) && (w3[k].comps.nest is Some ==> k == ni) by {
                if k < w2.len() && live(w2, k) {
                    assert(w3[k] == w2[k]);
                } else {
                    assert(crate::systems::world::fresh_food_slot(
                        w3[k],
                        gnx,
                        gny,
                        opts.width as int,
                        opts.height as int,
                        cfg.world,
                    ));
                }
            }
            assert(one_nest(w3));
            assert(positions_within(w3, DIM_LIMIT as int));
            assert(ants_ok(w3));
            assert forall|k: int| live(w3, k) implies kinds_slot(#[trigger] w3[k]) by {
                if k < w2.len() && live(w2, k) {
                    assert(w3[k] == w2[k]);
                    assert(kinds_slot(w2[k]));
                } else {
                    assert(crate::systems::world::fresh_food_slot(
                        w3[k],
                        gnx,
                        gny,
                        opts.width as int,
                        opts.height as int,
                        cfg.world,
                    ));
                }
            }
            assert(kinds_ok(w3));
        }

        // 4. discovery: wandering ants lock onto nearby food
        crate::systems::ant::ant_find_food_system(&mut self.world, &cfg.ant);
        let ghost w4 = self.world.slots@;
        proof {
            let ghost r2 = cfg.ant.discovery_radius * cfg.ant.discovery_radius;
            assert forall|k: int| 0 <= k < w4.len() implies w4[k].alive == w3[k].alive && (
            w4[k].comps.nest is Some <==> w3[k].comps.nest is Some) by {
                assert(w4[k] == crate::systems::ant::discover_slot(w3, k, r2));
            }
            crate::systems::lemma_first_nest_agree(w4, w3);
            assert forall|k: int|
                live(w4, k) implies (w4[k].comps.position is Some ==> -DIM_LIMIT
                <= w4[k].comps.position->Some_0.x <= DIM_LIMIT && -DIM_LIMIT
                <= w4[k].comps.position->Some_0.y <= DIM_LIMIT) && (w4[k].comps.pheromone is Some
                ==> w4[k].comps.position is Some && w4[k].comps.pheromone->Some_0.strength > 0) && (
            w4[k].comps.food is Some ==> w4[k].comps.position is Some) && (w4[k].comps.ant is Some
                ==> {
                &&& w4[k].comps.state is Some
                &&& w4[k].comps.position is Some
                &&& (w4[k].comps.target is Some <==> (w4[k].comps.state->Some_0 is Foraging
                    || w4[k].comps.state->Some_0 is ReturningToNest))
                &&& (w4[k].comps.payload is Some
                    <==> w4[k].comps.state->Some_0 is ReturningToNest)
            }) by {
                assert(w4[k] == crate::systems::ant::discover_slot(w3, k, r2));
                assert(live(w3, k));
            }
            assert(w4[ni] == crate::systems::ant::discover_slot(w3, ni, r2));
            assert(one_nest(w4));
            assert(positions_within(w4, DIM_LIMIT as int));
            assert(ants_ok(w4));
            assert forall|k: int| live(w4, k) implies kinds_slot(#[trigger] w4[k]) by {
                assert(w4[k] == crate::systems::ant::discover_slot(w3, k, r2));
                assert(live(w3, k));
                assert(kinds_slot(w3[k]));
            }
            assert(kinds_ok(w4));
        }

        // 5. foraging resolution
        crate::systems::ant::ant_foraging_system(&mut self.world, &cfg.ant);
        let ghost w5 = self.world.slots@;
        proof {
            let ghost a2 = cfg.ant.arrival_distance * cfg.ant.arrival_distance;
            let ghost nid = crate::systems::id_of(w4, first_nest(w4));
            crate::laws::lemma_forage_fold_props(
                w4,
                w4.len() as int,
                a2,
                cfg.ant.food_payload_amount,
                nid,
            );
            assert forall|k: int| 0 <= k < w5.len() implies w5[k].alive == w4[k].alive && (
            w5[k].comps.nest is Some <==> w4[k].comps.nest is Some) by {
                assert(crate::laws::forage_frame(w4[k], w5[k]));
            }
            crate::systems::lemma_first_nest_agree(w5, w4);
            assert forall|k: int|
                live(w5, k) implies (w5[k].comps.position is Some ==> -DIM_LIMIT
                <= w5[k].comps.position->Some_0.x <= DIM_LIMIT && -DIM_LIMIT
                <= w5[k].comps.position->Some_0.y <= DIM_LIMIT) && (w5[k].comps.pheromone is Some
                ==> w5[k].comps.position is Some && w5[k].comps.pheromone->Some_0.strength > 0) && (
            w5[k].comps.food is Some ==> w5[k].comps.position is Some) by {
                assert(crate::laws::forage_frame(w4[k], w5[k]));
                assert(live(w4, k));
            }
            assert(crate::laws::forage_frame(w4[ni], w5[ni]));
            assert(w4[ni].comps.ant is None);
            assert(w5[ni].comps.state == w4[ni].comps.state);
            assert(one_nest(w5));
            assert(positions_within(w5, DIM_LIMIT as int));
            assert(ants_ok(w5));
            assert forall|k: int| live(w5, k) implies kinds_slot(#[trigger] w5[k]) by {
                assert(crate::laws::forage_frame(w4[k], w5[k]));
                assert(live(w4, k));
                assert(kinds_slot(w4[k]));
                if w4[k].comps.ant is None {
                    assert(w5[k].comps.state == w4[k].comps.state && w5[k].comps.target
                        == w4[k].comps.target && w5[k].comps.payload == w4[k].comps.payload);
                }
            }
            assert(kinds_ok(w5));
        }

        // 6. return resolution
        crate::systems::ant::ant_returning_system(&mut self.world, &cfg.ant);
        let ghost w6 = self.world.slots@;
        proof {
            let ghost a2 = cfg.ant.arrival_distance * cfg.ant.arrival_distance;
            assert forall|k: int| 0 <= k < w6.len() implies w6[k].alive == w5[k].alive && (
            w6[k].comps.nest is Some <==> w5[k].comps.nest is Some) by {
                if !(has_nest(w5) && k == first_nest(w5)) {
                    assert(w6[k] == crate::systems::ant::return_slot(w5, k, a2));
                }
            }
            crate::systems::lemma_first_nest_agree(w6, w5);
            assert forall|k: int|
                live(w6, k) implies (w6[k].comps.position is Some ==> -DIM_LIMIT
                <= w6[k].comps.position->Some_0.x <= DIM_LIMIT && -DIM_LIMIT
                <= w6[k].comps.position->Some_0.y <= DIM_LIMIT) && (w6[k].comps.pheromone is Some
                ==> w6[k].comps.position is Some && w6[k].comps.pheromone->Some_0.strength > 0) && (
            w6[k].comps.food is Some ==> w6[k].comps.position is Some) && (w6[k].comps.ant is Some
                ==> {
                &&& w6[k].comps.state is Some
                &&& w6[k].comps.position is Some
                &&& (w6[k].comps.target is Some <==> (w6[k].comps.state->Some_0 is Foraging
                    || w6[k].comps.state->Some_0 is ReturningToNest))
                &&& (w6[k].comps.payload is Some
                    <==> w6[k].comps.state->Some_0 is ReturningToNest)
            }) by {
                assert(live(w5, k));
                if !(has_nest(w5) && k == first_nest(w5)) {
                    assert(w6[k] == crate::systems::ant::return_slot(w5, k, a2));
                }
            }
            assert(w6[ni].generation == w5[ni].generation);
            assert(one_nest(w6));
            assert(positions_within(w6, DIM_LIMIT as int));
            assert(ants_ok(w6));
            assert forall|k: int| live(w6, k) implies kinds_slot(#[trigger] w6[k]) by {
                assert(live(w5, k));
                assert(kinds_slot(w5[k]));
                if !(has_nest(w5) && k == first_nest(w5)) {
                    assert(w6[k] == crate::systems::ant::return_slot(w5, k, a2));
                }
            }
            assert(kinds_ok(w6));
        }

        // 7. pheromone emission
        crate::systems::pheromone::pheromone_emission_system(
            &mut self.world,
            &mut self.rng,
            &cfg.pheromone,
        );
        let ghost w7 = self.world.slots@;
        proof {
            assert forall|k: int| 0 <= k < ni implies !(w7[k].alive && w7[k].comps.nest is Some) by {
                if live(w6, k) {
                    assert(w7[k] == w6[k]);
                }
            }
            assert(w7[ni] == w6[ni]);
            crate::systems::lemma_first_nest_bound_pub(w7, ni);
            assert forall|k: int|
                live(w7, k) implies (w7[k].comps.position is Some ==> -DIM_LIMIT
                <= w7[k].comps.position->Some_0.x <= DIM_LIMIT && -DIM_LIMIT
                <= w7[k].comps.position->Some_0.y <= DIM_LIMIT) && (w7[k].comps.pheromone is Some
                ==> w7[k].comps.position is Some && w7[k].comps.pheromone->Some_0.strength > 0) && (
            w7[k].comps.food is Some ==> w7[k].comps.position is Some) && (w7[k].comps.ant is Some
                ==> {
                &&& w7[k].comps.state is Some
                &&& w7[k].comps.position is Some
                &&& (w7[k].comps.target is Some <==> (w7[k].comps.state->Some_0 is Foraging
                    || w7[k].comps.state->Some_0 is ReturningToNest))
                &&& (w7[k].comps.payload is Some
                    <==> w7[k].comps.state->Some_0 is ReturningToNest)
            }) && (w7[k].comps.nest is Some ==> k == ni) by {
                if k < w6.len() && live(w6, k) {
                    assert(w7[k] == w6[k]);
                } else {
                    assert(crate::systems::pheromone::fresh_deposit_slot(w7[k], w6, cfg.pheromone));
                    let j = choose|j: int|
                        #[trigger] crate::systems::pheromone::emitting_ant(w6, j)
                            && w7[k].comps.position == Some(pos_of(w6, j));
                    assert(live(w6, j));
                }
            }
            assert(one_nest(w7));
            assert(positions_within(w7, DIM_LIMIT as int));
            assert(ants_ok(w7));
            assert forall|k: int| live(w7, k) implies kinds_slot(#[trigger] w7[k]) by {
                if k < w6.len() && live(w6, k) {
                    assert(w7[k] == w6[k]);
                    assert(kinds_slot(w6[k]));
                } else {
                    assert(crate::systems::pheromone::fresh_deposit_slot(w7[k], w6, cfg.pheromone));
                }
            }
            assert(kinds_ok(w7));
        }

        // 8. pheromone decay
        crate::systems::pheromone::pheromone_decay_system(&mut self.world, &cfg.pheromone);
        let ghost w8 = self.world.slots@;
        proof {
            assert forall|k: int| 0 <= k < w8.len() implies w8[k].alive == w7[k].alive && (
            w8[k].comps.nest is Some <==> w7[k].comps.nest is Some) by {
                assert(w8[k] == crate::systems::pheromone::decay_slot(
                    w7[k],
                    cfg.pheromone.decay_amount as int,
                ));
            }
            crate::systems::lemma_first_nest_agree(w8, w7);
            assert forall|k: int|
                live(w8, k) implies slot_bounded(#[trigger] w8[k]) && (w8[k].comps.position
                is Some ==> -DIM_LIMIT <= w8[k].comps.position->Some_0.x <= DIM_LIMIT && -DIM_LIMIT
                <= w8[k].comps.position->Some_0.y <= DIM_LIMIT) && (w8[k].comps.food is Some
                ==> w8[k].comps.position is Some) && (w8[k].comps.pheromone is Some
                ==> w8[k].comps.position is Some) && (w8[k].comps.ant is Some ==> {
                &&& w8[k].comps.state is Some
                &&& w8[k].comps.position is Some
                &&& (w8[k].comps.target is Some <==> (w8[k].comps.state->Some_0 is Foraging
                    || w8[k].comps.state->Some_0 is ReturningToNest))
                &&& (w8[k].comps.payload is Some
                    <==> w8[k].comps.state->Some_0 is ReturningToNest)
            }) by {
                assert(w8[k] == crate::systems::pheromone::decay_slot(
                    w7[k],
                    cfg.pheromone.decay_amount as int,
                ));
                assert(live(w7, k));
                assert(slot_bounded(w7[k]));
            }
            assert(w8[ni] == crate::systems::pheromone::decay_slot(
                w7[ni],
                cfg.pheromone.decay_amount as int,
            ));
            assert(one_nest(w8));
            assert(slots_bounded(w8));
            assert forall|k: int| live(w8, k) implies kinds_slot(#[trigger] w8[k]) by {
                assert(w8[k] == crate::systems::pheromone::decay_slot(
                    w7[k],
                    cfg.pheromone.decay_amount as int,
                ));
                assert(live(w7, k));
                assert(kinds_slot(w7[k]));
            }
            assert(kinds_ok(w8));
        }

        // 9. despawn sweep
        crate::systems::world::despawn_system(&mut self.world);
        let ghost w9 = self.world.slots@;
        proof {
            assert forall|k: int| 0 <= k < ni implies !(w9[k].alive && w9[k].comps.nest is Some) by {
                assert(w9[k] == crate::systems::world::despawn_slot(w8[k]));
            }
            assert(w9[ni] == crate::systems::world::despawn_slot(w8[ni]));
            crate::systems::lemma_first_nest_bound_pub(w9, ni);
            assert forall|k: int|
                live(w9, k) implies slot_bounded(#[trigger] w9[k]) && (w9[k].comps.position
                is Some ==> -DIM_LIMIT <= w9[k].comps.position->Some_0.x <= DIM_LIMIT && -DIM_LIMIT
                <= w9[k].comps.position->Some_0.y <= DIM_LIMIT) && (w9[k].comps.food is Some
                ==> w9[k].comps.position is Some) && (w9[k].comps.pheromone is Some
                ==> w9[k].comps.position is Some) && (w9[k].comps.ant is Some ==> {
                &&& w9[k].comps.state is Some
                &&& w9[k].comps.position is Some
                &&& (w9[k].comps.target is Some <==> (w9[k].comps.state->Some_0 is Foraging
                    || w9[k].comps.state->Some_0 is ReturningToNest))
                &&& (w9[k].comps.payload is Some
                    <==> w9[k].comps.state->Some_0 is ReturningToNest)
            }) && (w9[k].comps.nest is Some ==> k == ni) by {
                assert(w9[k] == crate::systems::world::despawn_slot(w8[k]));
                assert(live(w8, k));
                assert(slot_bounded(w8[k]));
            }
            assert(w9[ni] == w8[ni]);
            assert(one_nest(w9));
            assert(slots_bounded(w9));
            assert(positions_within(w9, DIM_LIMIT as int));
            assert(ants_ok(w9));
            assert forall|k: int| live(w9, k) implies kinds_slot(#[trigger] w9[k]) by {
                assert(w9[k] == crate::systems::world::despawn_slot(w8[k]));
                assert(live(w8, k));
                assert(kinds_slot(w8[k]));
            }
            assert(kinds_ok(w9));
        }

        // 10. pheromone following / wandering velocity for wandering ants
        crate::systems::movement::pheromone_following_system(
            &mut self.world,
            &mut self.rng,
            &cfg.pheromone,
        );
        let ghost w10 = self.world.slots@;
        proof {
            vel_frame_preserves(w9, w10, ni);
            assert forall|k: int| live(w10, k) implies kinds_slot(#[trigger] w10[k]) by {
                assert(live(w9, k));
                assert(kinds_slot(w9[k]));
                if !crate::systems::movement::follow_applies(w9, k) {
                    assert(w10[k] == w9[k]);
                }
            }
            assert(kinds_ok(w10));
        }

        // 11. target-seeking velocity
        crate::systems::movement::target_movement_system(&mut self.world);
        let ghost w11 = self.world.slots@;
        proof {
            assert forall|k: int|
                0 <= k < w11.len() implies w11[k].alive == w10[k].alive && w11[k].generation
                == w10[k].generation && w11[k].comps == crate::store::Components {
                velocity: w11[k].comps.velocity,
                ..w10[k].comps
            } by {
                assert(w11[k] == crate::systems::movement::vel_write_slot(
                    w10[k],
                    crate::systems::movement::steer_decision(w10, k),
                ));
            }
            vel_frame_preserves(w10, w11, ni);
            assert forall|k: int| live(w11, k) implies kinds_slot(#[trigger] w11[k]) by {
                assert(w11[k] == crate::systems::movement::vel_write_slot(
                    w10[k],
                    crate::systems::movement::steer_decision(w10, k),
                ));
                assert(live(w10, k));
                assert(kinds_slot(w10[k]));
            }
            assert(kinds_ok(w11));
        }

        // 12. velocity application
        crate::systems::movement::apply_velocity_system(&mut self.world);
        let ghost w12 = self.world.slots@;
        proof {
            assert forall|k: int|
                live(w12, k) implies (w12[k].comps.pheromone is Some ==> w12[k].comps.position
                is Some && w12[k].comps.pheromone->Some_0.strength > 0) && (w12[k].comps.food
                is Some ==> w12[k].comps.position is Some
                && w12[k].comps.food->Some_0.amount > 0) && (w12[k].comps.ant is Some ==> {
                &&& w12[k].comps.state is Some
                &&& w12[k].comps.position is Some
                &&& (w12[k].comps.target is Some <==> (w12[k].comps.state->Some_0 is Foraging
                    || w12[k].comps.state->Some_0 is ReturningToNest))
                &&& (w12[k].comps.payload is Some
                    <==> w12[k].comps.state->Some_0 is ReturningToNest)
            }) by {
                assert(w12[k] == crate::systems::movement::apply_velocity_slot(w11[k]));
                assert(live(w11, k));
            }
            assert forall|k: int| 0 <= k < w12.len() implies w12[k].alive == w11[k].alive && (
            w12[k].comps.nest is Some <==> w11[k].comps.nest is Some) by {
                assert(w12[k] == crate::systems::movement::apply_velocity_slot(w11[k]));
            }
            crate::systems::lemma_first_nest_agree(w12, w11);
            assert(w12[ni] == crate::systems::movement::apply_velocity_slot(w11[ni]));
            assert(one_nest(w12));
            assert forall|k: int| live(w12, k) implies kinds_slot(#[trigger] w12[k]) by {
                assert(w12[k] == crate::systems::movement::apply_velocity_slot(w11[k]));
                assert(live(w11, k));
                assert(kinds_slot(w11[k]));
            }
            assert(kinds_ok(w12));
        }

        // 13. bounds enforcement
        crate::systems::world::enforce_bounds_system(&mut self.world, opts.width, opts.height);
        let ghost w13 = self.world.slots@;
        proof {
            assert forall|k: int|
                live(w13, k) implies (w13[k].comps.position is Some ==> -DIM_LIMIT
                <= w13[k].comps.position->Some_0.x <= DIM_LIMIT && -DIM_LIMIT
                <= w13[k].comps.position->Some_0.y <= DIM_LIMIT) && (w13[k].comps.pheromone
                is Some ==> w13[k].comps.position is Some
                && w13[k].comps.pheromone->Some_0.strength > 0) && (w13[k].comps.food is Some
                ==> w13[k].comps.position is Some && w13[k].comps.food->Some_0.amount > 0) && (
            w13[k].comps.ant is Some ==> {
                &&& w13[k].comps.state is Some
                &&& w13[k].comps.position is Some
                &&& (w13[k].comps.target is Some <==> (w13[k].comps.state->Some_0 is Foraging
                    || w13[k].comps.state->Some_0 is ReturningToNest))
                &&& (w13[k].comps.payload is Some
                    <==> w13[k].comps.state->Some_0 is ReturningToNest)
            }) by {
                assert(w13[k] == crate::systems::world::enforce_bounds_slot(
                    w12[k],
                    opts.width as int,
                    opts.height as int,
                ));
                assert(live(w12, k));
                if w12[k].comps.position is Some && w12[k].comps.velocity is Some {
                } else {
                    assert(w13[k] == w12[k]);
                    assert(w12[k] == crate::systems::movement::apply_velocity_slot(w11[k]));
                    assert(w12[k] == w11[k]);
                    assert(live(w11, k));
                }
            }
            assert forall|k: int| 0 <= k < w13.len() implies w13[k].alive == w12[k].alive && (
            w13[k].comps.nest is Some <==> w12[k].comps.nest is Some) by {
                assert(w13[k] == crate::systems::world::enforce_bounds_slot(
                    w12[k],
                    opts.width as int,
                    opts.height as int,
                ));
            }
            crate::systems::lemma_first_nest_agree(w13, w12);
            assert(w13[ni] == crate::systems::world::enforce_bounds_slot(
                w12[ni],
                opts.width as int,
                opts.height as int,
            ));
            assert(one_nest(w13));
            assert(positions_within(w13, DIM_LIMIT as int));
            assert(ants_ok(w13));
            assert(foods_ok(w13));
            assert(pheromones_ok(w13));
            assert forall|k: int| live(w13, k) implies kinds_slot(#[trigger] w13[k]) by {
                assert(w13[k] == crate::systems::world::enforce_bounds_slot(
                    w12[k],
                    opts.width as int,
                    opts.height as int,
                ));
                assert(live(w12, k));
                assert(kinds_slot(w12[k]));
            }
            assert(kinds_ok(w13));
        }

        proof {
            assert(w13[ni].generation == w0[ni].generation);
            assert(first_nest(w13) == ni);
            assert(w13[ni].alive && w13[ni].comps.nest is Some);
        }
        proof {
            let ghost r2d = cfg.ant.discovery_radius * cfg.ant.discovery_radius;
            let ghost a2d = cfg.ant.arrival_distance * cfg.ant.arrival_distance;
            // deposits: decayed in place or swept
            assert forall|k: int|
                live(w0, k) && (#[trigger] w0[k]).comps.pheromone is Some implies {
                let s0 = w0[k].comps.pheromone->Some_0.strength;
                let dec = cfg.pheromone.decay_amount;
                if s0 - dec > 0 {
                    &&& live(w13, k)
                    &&& w13[k].comps.pheromone == Some(
                        PheromoneDeposit { strength: (s0 - dec) as i64 },
                    )
                    &&& w13[k].comps.position == w0[k].comps.position
                    &&& w13[k].generation == w0[k].generation
                } else {
                    !w13[k].alive
                }
            } by {
                assert(kinds_slot(w0[k]));
                assert(k != ni);
                assert(w1[k] == crate::systems::ant::lifecycle_mapped(w0, k));
                assert(w1[k] == w0[k]);
                assert(w2[k] == crate::systems::ant::dying_slot(
                    w1,
                    k,
                    cfg.ant.death_animation_ticks,
                ));
                assert(w2[k] == w1[k]);
                assert(w3[k] == w2[k]);
                assert(w4[k] == crate::systems::ant::discover_slot(w3, k, r2d));
                assert(w4[k] == w3[k]);
                assert(crate::laws::forage_frame(w4[k], w5[k]));
                assert(w5[k].comps.state == w4[k].comps.state && w5[k].comps.target
                    == w4[k].comps.target && w5[k].comps.payload == w4[k].comps.payload);
                assert(w5[k].comps == w4[k].comps);
                assert(w5[k] == w4[k]);
                assert(k != first_nest(w5));
                assert(w6[k] == crate::systems::ant::return_slot(w5, k, a2d));
                assert(w6[k] == w5[k]);
                assert(w7[k] == w6[k]);
                assert(w8[k] == crate::systems::pheromone::decay_slot(
                    w7[k],
                    cfg.pheromone.decay_amount as int,
                ));
                assert(w9[k] == crate::systems::world::despawn_slot(w8[k]));
                if w0[k].comps.pheromone->Some_0.strength - cfg.pheromone.decay_amount > 0 {
                    assert(w9[k] == w8[k]);
                    assert(live(w9, k));
                    assert(!crate::systems::movement::follow_applies(w9, k));
                    assert(w10[k] == w9[k]);
                } else {
                    assert(!w9[k].alive);
                    assert(!crate::systems::movement::follow_applies(w9, k));
                    assert(w10[k] == w9[k]);
                }
                assert(w11[k] == crate::systems::movement::vel_write_slot(
                    w10[k],
                    crate::systems::movement::steer_decision(w10, k),
                ));
                assert(w11[k] == w10[k]);
                assert(w12[k] == crate::systems::movement::apply_velocity_slot(w11[k]));
                assert(w12[k] == w11[k]);
                assert(w13[k] == crate::systems::world::enforce_bounds_slot(
                    w12[k],
                    opts.width as int,
                    opts.height as int,
                ));
                assert(w13[k] == w12[k]);
            }
            // ants: exactly one health lost while they live
            assert forall|k: int|
                live(w0, k) && (#[trigger] w0[k]).comps.ant is Some && live(w13, k) implies w13[k].comps.ant
                == Some(
                Ant {
                    health: if w0[k].comps.ant->Some_0.health > 0 {
                        (w0[k].comps.ant->Some_0.health - 1) as u32
                    } else {
                        0u32
                    },
                },
            ) by {
                assert(kinds_slot(w0[k]));
                assert(w0[k].comps.nest is None);
                assert(k != ni);
                assert(w1[k] == crate::systems::ant::lifecycle_mapped(w0, k));
                assert(w1[k].comps.ant == Some(
                    Ant {
                        health: if w0[k].comps.ant->Some_0.health > 0 {
                            (w0[k].comps.ant->Some_0.health - 1) as u32
                        } else {
                            0u32
                        },
                    },
                ) && w1[k].alive);
                assert(w2[k] == crate::systems::ant::dying_slot(
                    w1,
                    k,
                    cfg.ant.death_animation_ticks,
                ));
                assert(w2[k].comps.ant == w1[k].comps.ant && w2[k].alive);
                assert(w3[k] == w2[k]);
                assert(w4[k] == crate::systems::ant::discover_slot(w3, k, r2d));
                assert(w4[k].comps.ant == w3[k].comps.ant && w4[k].alive);
                assert(crate::laws::forage_frame(w4[k], w5[k]));
                assert(k != first_nest(w5));
                assert(w6[k] == crate::systems::ant::return_slot(w5, k, a2d));
                assert(w6[k].comps.ant == w5[k].comps.ant && w6[k].alive == w5[k].alive);
                assert(w7[k] == w6[k]);
                assert(w8[k] == crate::systems::pheromone::decay_slot(
                    w7[k],
                    cfg.pheromone.decay_amount as int,
                ));
                assert(w8[k].comps.ant == w7[k].comps.ant && w8[k].alive == w7[k].alive);
                assert(w9[k] == crate::systems::world::despawn_slot(w8[k]));
                if w9[k].alive {
                    assert(w9[k].comps.ant == w8[k].comps.ant);
                    if crate::systems::movement::follow_applies(w9, k) {
                    } else {
                        assert(w10[k] == w9[k]);
                    }
                    assert(w10[k].comps.ant == w9[k].comps.ant && w10[k].alive == w9[k].alive);
                    assert(w11[k] == crate::systems::movement::vel_write_slot(
                        w10[k],
                        crate::systems::movement::steer_decision(w10, k),
                    ));
                    assert(w11[k].comps.ant == w10[k].comps.ant && w11[k].alive == w10[k].alive);
                    assert(w12[k] == crate::systems::movement::apply_velocity_slot(w11[k]));
                    assert(w12[k].comps.ant == w11[k].comps.ant && w12[k].alive == w11[k].alive);
                    assert(w13[k] == crate::systems::world::enforce_bounds_slot(
                        w12[k],
                        opts.width as int,
                        opts.height as int,
                    ));
                    assert(w13[k].comps.ant == w12[k].comps.ant);
                } else {
                    assert(!crate::systems::movement::follow_applies(w9, k));
                    assert(w10[k] == w9[k]);
                    assert(w11[k] == crate::systems::movement::vel_write_slot(
                        w10[k],
                        crate::systems::movement::steer_decision(w10, k),
                    ));
                    assert(w11[k] == w10[k]);
                    assert(w12[k] == crate::systems::movement::apply_velocity_slot(w11[k]));
                    assert(w12[k] == w11[k]);
                    assert(w13[k] == crate::systems::world::enforce_bounds_slot(
                        w12[k],
                        opts.width as int,
                        opts.height as int,
                    ));
                    assert(!w13[k].alive);
                }
            }
            // sources: never a gain
            assert forall|k: int|
                live(w0, k) && (#[trigger] w0[k]).comps.food is Some && live(w13, k) implies w13[k].comps.food
                is Some && w13[k].comps.food->Some_0.amount <= w0[k].comps.food->Some_0.amount by {
                assert(kinds_slot(w0[k]));
                assert(w0[k].comps.nest is None);
                assert(k != ni);
                assert(w1[k] == crate::systems::ant::lifecycle_mapped(w0, k));
                assert(w1[k] == w0[k]);
                assert(w2[k] == crate::systems::ant::dying_slot(
                    w1,
                    k,
                    cfg.ant.death_animation_ticks,
                ));
                assert(w2[k] == w1[k]);
                assert(w3[k] == w2[k]);
                assert(w4[k] == crate::systems::ant::discover_slot(w3, k, r2d));
                assert(w4[k] == w3[k]);
                assert(crate::laws::forage_frame(w4[k], w5[k]));
                assert(w5[k].comps.food is Some && w5[k].comps.food->Some_0.amount
                    <= w4[k].comps.food->Some_0.amount);
                assert(w5[k].comps.state == w4[k].comps.state && w5[k].comps.target
                    == w4[k].comps.target && w5[k].comps.payload == w4[k].comps.payload);
                assert(k != first_nest(w5));
                assert(w6[k] == crate::systems::ant::return_slot(w5, k, a2d));
                assert(w6[k] == w5[k]);
                assert(w7[k] == w6[k]);
                assert(w8[k] == crate::systems::pheromone::decay_slot(
                    w7[k],
                    cfg.pheromone.decay_amount as int,
                ));
                assert(w8[k] == w7[k]);
                assert(w9[k] == crate::systems::world::despawn_slot(w8[k]));
                if w9[k].alive {
                    assert(w9[k].comps.food == w8[k].comps.food);
                    assert(!crate::systems::movement::follow_applies(w9, k));
                    assert(w10[k] == w9[k]);
                    assert(w11[k] == crate::systems::movement::vel_write_slot(
                        w10[k],
                        crate::systems::movement::steer_decision(w10, k),
                    ));
                    assert(w11[k].comps.food == w10[k].comps.food && w11[k].alive
                        == w10[k].alive);
                    assert(w12[k] == crate::systems::movement::apply_velocity_slot(w11[k]));
                    assert(w12[k].comps.food == w11[k].comps.food && w12[k].alive
                        == w11[k].alive);
                    assert(w13[k] == crate::systems::world::enforce_bounds_slot(
                        w12[k],
                        opts.width as int,
                        opts.height as int,
                    ));
                    assert(w13[k].comps.food == w12[k].comps.food);
                } else {
                    assert(!crate::systems::movement::follow_applies(w9, k));
                    assert(w10[k] == w9[k]);
                    assert(w11[k] == crate::systems::movement::vel_write_slot(
                        w10[k],
                        crate::systems::movement::steer_decision(w10, k),
                    ));
                    assert(w11[k] == w10[k]);
                    assert(w12[k] == crate::systems::movement::apply_velocity_slot(w11[k]));
                    assert(w12[k] == w11[k]);
                    assert(w13[k] == crate::systems::world::enforce_bounds_slot(
                        w12[k],
                        opts.width as int,
                        opts.height as int,
                    ));
                    assert(!w13[k].alive);
                }
            }
        }

        // 14. stats aggregation
        crate::systems::stats::update_world_stats(&self.world, &mut self.stats);
    }

    /// A simulation seeded from the thread-local entropy source, with the
    /// default configuration.
    pub fn new(options: SimulationOptions) -> (sim: Simulation)
        requires
            options.wf(),
        ensures
            sim.wf(),
            sim.options == options,
            sim.config == SimulationConfig::default_spec(),
            sim.stats == Stats::default_spec(),
            count_living_ants(sim.world.slots@) == options.starting_ants,
            count_food(sim.world.slots@) == options.starting_food_sources,
            sim.world.slots@.len() == 1 + options.starting_ants + options.starting_food_sources,
            constructor_layout(sim.world.slots@, options, SimulationConfig::default_spec()),
    {
        Simulation::with_rng(options, SimulationConfig::default(), SimRng::from_entropy())
    }

    /// A deterministically seeded simulation: two instances built from the
    /// same seed and ticked alike stay bit-identical.
    pub fn new_seeded(options: SimulationOptions, seed: u64) -> (sim: Simulation)
        requires
            options.wf(),
        ensures
            sim.wf(),
            sim.options == options,
            sim.config == SimulationConfig::default_spec(),
            sim.stats == Stats::default_spec(),
            count_living_ants(sim.world.slots@) == options.starting_ants,
            count_food(sim.world.slots@) == options.starting_food_sources,
            sim.world.slots@.len() == 1 + options.starting_ants + options.starting_food_sources,
            constructor_layout(sim.world.slots@, options, SimulationConfig::default_spec()),
    {
        Simulation::with_rng(options, SimulationConfig::default(), SimRng::from_seed(seed))
    }

    /// The read-only snapshot for rendering: the nest position, every food
    /// source, and every ant, in store order, plus the world dimensions.
    pub fn get_world_state_dto(&self) -> (r: Result<WorldDto, &'static str>)
        ensures
            r is Ok <==> has_nest(self.world.slots@) && self.world.slots@[first_nest(
                self.world.slots@,
            )].comps.position is Some,
            r is Ok ==> {
                let dto = r->Ok_0;
                &&& dto.nest == NestDto {
                    x: pos_of(self.world.slots@, first_nest(self.world.slots@)).x,
                    y: pos_of(self.world.slots@, first_nest(self.world.slots@)).y,
                }
                &&& dto.ants@ == ants_dto_upto(self.world.slots@, self.world.slots@.len() as int)
                &&& dto.food_sources@ == foods_dto_upto(
                    self.world.slots@,
                    self.world.slots@.len() as int,
                )
                &&& dto.width == self.options.width
                &&& dto.height == self.options.height
            },
    {
        let nest = match crate::systems::find_first_nest(&self.world) {
            Some(ni) => {
                proof {
                    lemma_first_nest_is_nest(self.world.slots@);
                }
                match self.world.slots[ni].comps.position {
                    Some(p) => NestDto { x: p.x, y: p.y },
                    None => {
                        return Err("Could not find nest in world");
                    },
                }
            },
            None => {
                return Err("Could not find nest in world");
            },
        };

        let n = self.world.slots.len();
        let mut ants: Vec<AntDto> = Vec::new();
        let mut foods: Vec<FoodSourceDto> = Vec::new();
        let mut i: usize = 0;
        while i < n
            invariant
                i <= n,
                n == self.world.slots@.len(),
                ants@ == ants_dto_upto(self.world.slots@, i as int),
                foods@ == foods_dto_upto(self.world.slots@, i as int),
            decreases n - i,
        {
            let s = self.world.slots[i];
            if s.alive && s.comps.position.is_some() && s.comps.ant.is_some()
                && s.comps.state.is_some() {
                let p = match s.comps.position {
                    Some(p) => p,
                    None => Position { x: 0, y: 0 },
                };
                let st = match s.comps.state {
                    Some(st) => st,
                    None => AntState::Wandering,
                };
                let h = match s.comps.ant {
                    Some(an) => an.health,
                    None => 0,
                };
                ants.push(
                    AntDto {
                        id: i as u64,
                        x: p.x,
                        y: p.y,
                        state: AntStateDto::from_state(&st),
                        health: h,
                    },
                );
                proof {
                    assert(is_ant(self.world.slots@, i as int));
                    assert(ants@.last() == ant_dto_of(self.world.slots@, i as int));
                }
            }
            if s.alive && s.comps.position.is_some() && s.comps.food.is_some() {
                let p = match s.comps.position {
                    Some(p) => p,
                    None => Position { x: 0, y: 0 },
                };
                let amt = match s.comps.food {
                    Some(fs) => fs.amount,
                    None => 0,
                };
                foods.push(FoodSourceDto { id: i as u64, x: p.x, y: p.y, amount: amt });
                proof {
                    assert(is_food(self.world.slots@, i as int));
                    assert(foods@.last() == food_dto_of(self.world.slots@, i as int));
                }
            }
            i += 1;
        }

        Ok(
            WorldDto {
                nest,
                food_sources: foods,
                ants,
                width: self.options.width,
                height: self.options.height,
            },
        )
    }

    /// The aggregate counters as of the end of the last tick.
    pub fn get_world_statistics_dto(&self) -> (r: StatsDto)
        ensures
            r.alive_ants == self.stats.alive_ants,
            r.dead_ants == self.stats.dead_ants,
            r.food_source_count == self.stats.food_sources,
            r.food_in_nest == self.stats.food_in_nest,
    {
        StatsDto {
            alive_ants: self.stats.alive_ants,
            dead_ants: self.stats.dead_ants,
            food_source_count: self.stats.food_sources,
            food_in_nest: self.stats.food_in_nest,
        }
    }
}

} // verus!
