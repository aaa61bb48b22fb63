use vstd::prelude::*;

use crate::components::{
    Ant, AntState, EntityId, FoodPayload, FoodSource, Nest, PheromoneDeposit, PheromoneType,
    Position, Target, Velocity,
};

verus! {

/// Why a store operation failed: the identifier no longer names a live
/// entity, or the entity is live but lacks the requested component.
#[derive(Debug, PartialEq, Eq, Structural, Clone, Copy)]
pub enum StoreError {
    NoSuchEntity,
    MissingComponent,
}

/// The full set of typed component values an entity may carry. Absent
/// components are `None`.
#[derive(Debug, PartialEq, Eq, Structural, Clone, Copy)]
pub struct Components {
    pub position: Option<Position>,
    pub velocity: Option<Velocity>,
    pub ant: Option<Ant>,
    pub state: Option<AntState>,
    pub target: Option<Target>,
    pub payload: Option<FoodPayload>,
    pub nest: Option<Nest>,
    pub food: Option<FoodSource>,
    pub pheromone: Option<PheromoneDeposit>,
    pub pheromone_kind: Option<PheromoneType>,
}

impl Components {
    /// A component set with every component absent.
    pub fn empty() -> (c: Components)
        ensures
            c == Components::empty_spec(),
    {
        Components {
            position: None,
            velocity: None,
            ant: None,
            state: None,
            target: None,
            payload: None,
            nest: None,
            food: None,
            pheromone: None,
            pheromone_kind: None,
        }
    }

    pub open spec fn empty_spec() -> Components {
        Components {
            position: None,
            velocity: None,
            ant: None,
            state: None,
            target: None,
            payload: None,
            nest: None,
            food: None,
            pheromone: None,
            pheromone_kind: None,
        }
    }
}

/// Componentwise overlay: fields present in `b` replace those of `a`.
pub open spec fn merge(a: Components, b: Components) -> Components {
    Components {
        position: if b.position is Some {
            b.position
        } else {
            a.position
        },
        velocity: if b.velocity is Some {
            b.velocity
        } else {
            a.velocity
        },
        ant: if b.ant is Some {
            b.ant
        } else {
            a.ant
        },
        state: if b.state is Some {
            b.state
        } else {
            a.state
        },
        target: if b.target is Some {
            b.target
        } else {
            a.target
        },
        payload: if b.payload is Some {
            b.payload
        } else {
            a.payload
        },
        nest: if b.nest is Some {
            b.nest
        } else {
            a.nest
        },
        food: if b.food is Some {
            b.food
        } else {
            a.food
        },
        pheromone: if b.pheromone is Some {
            b.pheromone
        } else {
            a.pheromone
        },
        pheromone_kind: if b.pheromone_kind is Some {
            b.pheromone_kind
        } else {
            a.pheromone_kind
        },
    }
}

/// One arena slot: a generation tag, a liveness flag, and the occupant's
/// components.
#[derive(Debug, PartialEq, Eq, Structural, Clone, Copy)]
pub struct Slot {
    pub generation: u64,
    pub alive: bool,
    pub comps: Components,
}

/// `id` names the current occupant of a live slot.
pub open spec fn valid_id(w: Seq<Slot>, id: EntityId) -> bool {
    0 <= id.index < w.len() && w[id.index as int].alive && w[id.index as int].generation
        == id.generation
}

/// The component-store arena. Slots are reused after despawn; the generation
/// tag lets stale identifiers fail instead of aliasing the new occupant.
///
/// Systems read and mutate `slots` directly in two passes (collect into a
/// buffer, then apply), which is the store's required usage pattern while a
/// query is conceptually live.
pub struct World {
    pub slots: Vec<Slot>,
}

impl World {
    pub fn new() -> (w: World)
        ensures
            w.slots@.len() == 0,
    {
        World { slots: Vec::new() }
    }

    pub fn len(&self) -> (n: usize)
        ensures
            n == self.slots@.len(),
    {
        self.slots.len()
    }

    /// Create an entity carrying `c`, reusing the first dead slot if one
    /// exists and appending otherwise.
    pub fn spawn(&mut self, c: Components) -> (id: EntityId)
        ensures
            id.index <= old(self).slots@.len(),
            valid_id(final(self).slots@, id),
            final(self).slots@[id.index as int].comps == c,
            id.index < old(self).slots@.len() ==> {
                &&& !old(self).slots@[id.index as int].alive
                &&& (forall|k: int|
                    0 <= k < id.index ==> old(self).slots@[k].alive)
                &&& id.generation == old(self).slots@[id.index as int].generation
                &&& final(self).slots@ == old(self).slots@.update(
                    id.index as int,
                    Slot { generation: id.generation, alive: true, comps: c },
                )
            },
            id.index == old(self).slots@.len() ==> {
                &&& (forall|k: int| 0 <= k < old(self).slots@.len() ==> old(self).slots@[k].alive)
                &&& id.generation == 0
                &&& final(self).slots@ == old(self).slots@.push(
                    Slot { generation: 0, alive: true, comps: c },
                )
            },
    {
        let n = self.slots.len();
        let mut i: usize = 0;
        while i < n
            invariant
                i <= n,
                self.slots@ == old(self).slots@,
                n == self.slots@.len(),
                forall|k: int| 0 <= k < i ==> self.slots@[k].alive,
            decreases n - i,
        {
            if !self.slots[i].alive {
                let gen = self.slots[i].generation;
                let slot = Slot { generation: gen, alive: true, comps: c };
                self.slots.set(i, slot);
                return EntityId { index: i, generation: gen };
            }
            i += 1;
        }
        self.slots.push(Slot { generation: 0, alive: true, comps: c });
        EntityId { index: n, generation: 0 }
    }

    /// Destroy the entity `id` names. The slot's generation advances so the
    /// stale identifier no longer resolves.
    pub fn despawn(&mut self, id: EntityId) -> (r: Result<(), StoreError>)
        ensures
            r is Ok <==> valid_id(old(self).slots@, id),
            r is Ok ==> final(self).slots@ == old(self).slots@.update(
                id.index as int,
                Slot {
                    generation: if old(self).slots@[id.index as int].generation == u64::MAX {
                        0u64
                    } else {
                        (old(self).slots@[id.index as int].generation + 1) as u64
                    },
                    alive: false,
                    comps: old(self).slots@[id.index as int].comps,
                },
            ),
            r is Err ==> final(self).slots@ == old(self).slots@ && r == Err::<(), StoreError>(
                StoreError::NoSuchEntity,
            ),
    {
        if id.index < self.slots.len() {
            let s = self.slots[id.index];
            if s.alive && s.generation == id.generation {
                let dead = Slot {
                    generation: if s.generation == u64::MAX {
                        0
                    } else {
                        s.generation + 1
                    },
                    alive: false,
                    comps: s.comps,
                };
                self.slots.set(id.index, dead);
                return Ok(());
            }
        }
        Err(StoreError::NoSuchEntity)
    }

    /// Read the full component set of a live entity.
    pub fn get(&self, id: EntityId) -> (r: Result<Components, StoreError>)
        ensures
            r is Ok <==> valid_id(self.slots@, id),
            r is Ok ==> r->Ok_0 == self.slots@[id.index as int].comps,
            r is Err ==> r == Err::<Components, StoreError>(StoreError::NoSuchEntity),
    {
        if id.index < self.slots.len() {
            let s = self.slots[id.index];
            if s.alive && s.generation == id.generation {
                return Ok(s.comps);
            }
        }
        Err(StoreError::NoSuchEntity)
    }

    /// Overlay `c` onto a live entity's components: present fields of `c`
    /// replace the entity's, absent fields are left alone.
    pub fn insert(&mut self, id: EntityId, c: Components) -> (r: Result<(), StoreError>)
        ensures
            r is Ok <==> valid_id(old(self).slots@, id),
            r is Ok ==> final(self).slots@ == old(self).slots@.update(
                id.index as int,
                Slot {
                    generation: id.generation,
                    alive: true,
                    comps: merge(old(self).slots@[id.index as int].comps, c),
                },
            ),
            r is Err ==> final(self).slots@ == old(self).slots@ && r == Err::<(), StoreError>(
                StoreError::NoSuchEntity,
            ),
    {
        if id.index < self.slots.len() {
            let s = self.slots[id.index];
            if s.alive && s.generation == id.generation {
                let merged = Components {
                    position: if c.position.is_some() {
                        c.position
                    } else {
                        s.comps.position
                    },
                    velocity: if c.velocity.is_some() {
                        c.velocity
                    } else {
                        s.comps.velocity
                    },
                    ant: if c.ant.is_some() {
                        c.ant
                    } else {
                        s.comps.ant
                    },
                    state: if c.state.is_some() {
                        c.state
                    } else {
                        s.comps.state
                    },
                    target: if c.target.is_some() {
                        c.target
                    } else {
                        s.comps.target
                    },
                    payload: if c.payload.is_some() {
                        c.payload
                    } else {
                        s.comps.payload
                    },
                    nest: if c.nest.is_some() {
                        c.nest
                    } else {
                        s.comps.nest
                    },
                    food: if c.food.is_some() {
                        c.food
                    } else {
                        s.comps.food
                    },
                    pheromone: if c.pheromone.is_some() {
                        c.pheromone
                    } else {
                        s.comps.pheromone
                    },
                    pheromone_kind: if c.pheromone_kind.is_some() {
                        c.pheromone_kind
                    } else {
                        s.comps.pheromone_kind
                    },
                };
                self.slots.set(
                    id.index,
                    Slot { generation: id.generation, alive: true, comps: merged },
                );
                return Ok(());
            }
        }
        Err(StoreError::NoSuchEntity)
    }

    /// Drop the `Target` component of a live entity, if any.
    pub fn remove_target(&mut self, id: EntityId) -> (r: Result<(), StoreError>)
        ensures
            r is Ok <==> valid_id(old(self).slots@, id),
            r is Ok ==> final(self).slots@ == old(self).slots@.update(
                id.index as int,
                Slot {
                    generation: id.generation,
                    alive: true,
                    comps: Components {
                        target: None,
                        ..old(self).slots@[id.index as int].comps
                    },
                },
            ),
            r is Err ==> final(self).slots@ == old(self).slots@,
    {
        if id.index < self.slots.len() {
            let s = self.slots[id.index];
            if s.alive && s.generation == id.generation {
                let comps = Components { target: None, ..s.comps };
                self.slots.set(id.index, Slot { generation: id.generation, alive: true, comps });
                return Ok(());
            }
        }
        Err(StoreError::NoSuchEntity)
    }

    /// Drop the `FoodPayload` component of a live entity, if any.
    pub fn remove_payload(&mut self, id: EntityId) -> (r: Result<(), StoreError>)
        ensures
            r is Ok <==> valid_id(old(self).slots@, id),
            r is Ok ==> final(self).slots@ == old(self).slots@.update(
                id.index as int,
                Slot {
                    generation: id.generation,
                    alive: true,
                    comps: Components {
                        payload: None,
                        ..old(self).slots@[id.index as int].comps
                    },
                },
            ),
            r is Err ==> final(self).slots@ == old(self).slots@,
    {
        if id.index < self.slots.len() {
            let s = self.slots[id.index];
            if s.alive && s.generation == id.generation {
                let comps = Components { payload: None, ..s.comps };
                self.slots.set(id.index, Slot { generation: id.generation, alive: true, comps });
                return Ok(());
            }
        }
        Err(StoreError::NoSuchEntity)
    }

    pub fn get_position(&self, id: EntityId) -> (r: Result<Position, StoreError>)
        ensures
            r is Ok <==> valid_id(self.slots@, id) && self.slots@[id.index as int].comps.position
                is Some,
            r is Ok ==> Some(r->Ok_0) == self.slots@[id.index as int].comps.position,
    {
        match self.get(id) {
            Ok(c) => match c.position {
                Some(v) => Ok(v),
                None => Err(StoreError::MissingComponent),
            },
            Err(e) => Err(e),
        }
    }

    pub fn get_velocity(&self, id: EntityId) -> (r: Result<Velocity, StoreError>)
        ensures
            r is Ok <==> valid_id(self.slots@, id) && self.slots@[id.index as int].comps.velocity
                is Some,
            r is Ok ==> Some(r->Ok_0) == self.slots@[id.index as int].comps.velocity,
    {
        match self.get(id) {
            Ok(c) => match c.velocity {
                Some(v) => Ok(v),
                None => Err(StoreError::MissingComponent),
            },
            Err(e) => Err(e),
        }
    }

    pub fn get_ant(&self, id: EntityId) -> (r: Result<Ant, StoreError>)
        ensures
            r is Ok <==> valid_id(self.slots@, id) && self.slots@[id.index as int].comps.ant
                is Some,
            r is Ok ==> Some(r->Ok_0) == self.slots@[id.index as int].comps.ant,
    {
        match self.get(id) {
            Ok(c) => match c.ant {
                Some(v) => Ok(v),
                None => Err(StoreError::MissingComponent),
            },
            Err(e) => Err(e),
        }
    }

    pub fn get_state(&self, id: EntityId) -> (r: Result<AntState, StoreError>)
        ensures
            r is Ok <==> valid_id(self.slots@, id) && self.slots@[id.index as int].comps.state
                is Some,
            r is Ok ==> Some(r->Ok_0) == self.slots@[id.index as int].comps.state,
    {
        match self.get(id) {
            Ok(c) => match c.state {
                Some(v) => Ok(v),
                None => Err(StoreError::MissingComponent),
            },
            Err(e) => Err(e),
        }
    }

    pub fn get_target(&self, id: EntityId) -> (r: Result<Target, StoreError>)
        ensures
            r is Ok <==> valid_id(self.slots@, id) && self.slots@[id.index as int].comps.target
                is Some,
            r is Ok ==> Some(r->Ok_0) == self.slots@[id.index as int].comps.target,
    {
        match self.get(id) {
            Ok(c) => match c.target {
                Some(v) => Ok(v),
                None => Err(StoreError::MissingComponent),
            },
            Err(e) => Err(e),
        }
    }

    pub fn get_payload(&self, id: EntityId) -> (r: Result<FoodPayload, StoreError>)
        ensures
            r is Ok <==> valid_id(self.slots@, id) && self.slots@[id.index as int].comps.payload
                is Some,
            r is Ok ==> Some(r->Ok_0) == self.slots@[id.index as int].comps.payload,
    {
        match self.get(id) {
            Ok(c) => match c.payload {
                Some(v) => Ok(v),
                None => Err(StoreError::MissingComponent),
            },
            Err(e) => Err(e),
        }
    }

    pub fn get_nest(&self, id: EntityId) -> (r: Result<Nest, StoreError>)
        ensures
            r is Ok <==> valid_id(self.slots@, id) && self.slots@[id.index as int].comps.nest
                is Some,
            r is Ok ==> Some(r->Ok_0) == self.slots@[id.index as int].comps.nest,
    {
        match self.get(id) {
            Ok(c) => match c.nest {
                Some(v) => Ok(v),
                None => Err(StoreError::MissingComponent),
            },
            Err(e) => Err(e),
        }
    }

    pub fn get_food(&self, id: EntityId) -> (r: Result<FoodSource, StoreError>)
        ensures
            r is Ok <==> valid_id(self.slots@, id) && self.slots@[id.index as int].comps.food
                is Some,
            r is Ok ==> Some(r->Ok_0) == self.slots@[id.index as int].comps.food,
    {
        match self.get(id) {
            Ok(c) => match c.food {
                Some(v) => Ok(v),
                None => Err(StoreError::MissingComponent),
            },
            Err(e) => Err(e),
        }
    }

    pub fn get_pheromone(&self, id: EntityId) -> (r: Result<PheromoneDeposit, StoreError>)
        ensures
            r is Ok <==> valid_id(self.slots@, id) && self.slots@[id.index as int].comps.pheromone
                is Some,
            r is Ok ==> Some(r->Ok_0) == self.slots@[id.index as int].comps.pheromone,
    {
        match self.get(id) {
            Ok(c) => match c.pheromone {
                Some(v) => Ok(v),
                None => Err(StoreError::MissingComponent),
            },
            Err(e) => Err(e),
        }
    }
}

} // verus!
