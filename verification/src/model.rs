//! The complete system state.
use vstd::prelude::*;
use crate::actor::{ActorId, Context};
use crate::entity::EntityStore;
use crate::rng::{seeded_state, GameRng};
use crate::time::{Clock, Speed, Timestamp};
use crate::value::{has_key, insert_model, lookup, Value, ValueMap};

verus! {

/// The complete system state.
#[derive(Debug)]
pub struct Model {
    /// All entities.
    pub entities: EntityStore,
    /// Global properties.
    pub globals: ValueMap,
    /// System clock.
    pub time: Clock,
    /// Deterministic random number generator.
    pub rng: GameRng,
    /// Actor contexts, at most one per actor ID, in the order added.
    pub actors: Vec<Context>,
}

impl Model {
    /// An empty model: no entities or globals, a new clock, seed 12345.
    pub fn new() -> (r: Self)
        ensures
            r.entities@.len() == 0,
            r.entities.spec_next_id() == 0,
            r.globals@.len() == 0,
            r.time == Clock::new_spec(),
            r.rng@ == 12345,
            r.actors@.len() == 0,
    {
        Self::with_seed(12345)
    }

    /// An empty model with a specific seed.
    pub fn with_seed(seed: u64) -> (r: Self)
        ensures
            r.entities@.len() == 0,
            r.entities.spec_next_id() == 0,
            r.globals@.len() == 0,
            r.time == Clock::new_spec(),
            r.rng@ == seeded_state(seed),
            r.actors@.len() == 0,
    {
        Model {
            entities: EntityStore::new(),
            globals: ValueMap::new(),
            time: Clock::new(),
            rng: GameRng::new(seed),
            actors: Vec::new(),
        }
    }

    /// A copy of this model.
    pub fn duplicate(&self) -> (r: Self)
        ensures
            r.entities@ == self.entities@,
            r.entities.spec_next_id() == self.entities.spec_next_id(),
            r.globals@ == self.globals@,
            r.time == self.time,
            r.rng@ == self.rng@,
            r.actors@.len() == self.actors@.len(),
            forall|i: int|
                0 <= i < r.actors@.len() ==> (#[trigger] r.actors@[i]).id == self.actors@[i].id
                    && r.actors@[i].controlled_entities@ == self.actors@[i].controlled_entities@
                    && r.actors@[i].connected == self.actors@[i].connected && r.actors@[i].ready
                    == self.actors@[i].ready,
    {
        self.rng.state_is_nonzero();
        let mut actors: Vec<Context> = Vec::new();
        let n = self.actors.len();
        let mut i: usize = 0;
        while i < n
            invariant
                n == self.actors@.len(),
                i <= n,
                actors@.len() == i,
                forall|j: int|
                    0 <= j < i ==> (#[trigger] actors@[j]).id == self.actors@[j].id
                        && actors@[j].controlled_entities@ == self.actors@[j].controlled_entities@
                        && actors@[j].connected == self.actors@[j].connected && actors@[j].ready
                        == self.actors@[j].ready,
            decreases n - i,
        {
            actors.push(self.actors[i].duplicate());
            i = i + 1;
        }
        Model {
            entities: self.entities.duplicate(),
            globals: self.globals.duplicate(),
            time: self.time,
            rng: GameRng::from_state(self.rng.state()),
            actors,
        }
    }

    /// The entity store.
    pub fn entities(&self) -> (r: &EntityStore)
        ensures
            r == &self.entities,
    {
        &self.entities
    }

    /// The global properties.
    pub fn globals(&self) -> (r: &ValueMap)
        ensures
            r == &self.globals,
    {
        &self.globals
    }

    /// A global property.
    pub fn get_global(&self, key: &str) -> (r: Option<&Value>)
        ensures
            r.is_some() == has_key(self.globals@, key@),
            r matches Some(v) ==> lookup(self.globals@, key@) == Some(v.model()),
    {
        self.globals.get(key)
    }

    /// Set a global property.
    pub fn set_global(&mut self, key: &str, value: Value)
        ensures
            final(self).globals@ == insert_model(old(self).globals@, key@, value.model()),
            final(self).entities == old(self).entities,
            final(self).time == old(self).time,
            final(self).rng == old(self).rng,
            final(self).actors == old(self).actors,
    {
        let _ = self.globals.insert(String::from_str(key), value);
    }

    /// The position of an actor's context.
    pub fn actor_position(&self, id: ActorId) -> (r: Option<usize>)
        ensures
            r.is_some() == (exists|i: int| 0 <= i < self.actors@.len() && #[trigger] self.actors@[i].id == id),
            r matches Some(i) ==> i < self.actors@.len() && self.actors@[i as int].id == id && forall|j: int|
                0 <= j < i ==> #[trigger] self.actors@[j].id != id,
    {
        let n = self.actors.len();
        let mut i: usize = 0;
        while i < n
            invariant
                n == self.actors@.len(),
                i <= n,
                forall|j: int| 0 <= j < i ==> #[trigger] self.actors@[j].id != id,
            decreases n - i,
        {
            if self.actors[i].id == id {
                return Some(i);
            }
            i = i + 1;
        }
        None
    }

    /// Add an actor's context, replacing (in place) one with the same ID.
    pub fn add_actor(&mut self, actor: Context)
        ensures
            ({
                let pos = choose|i: int| 0 <= i < old(self).actors@.len() && #[trigger] old(self).actors@[i].id == actor.id && forall|j: int| 0 <= j < i ==> #[trigger] old(self).actors@[j].id != actor.id;
                if exists|i: int| 0 <= i < old(self).actors@.len() && #[trigger] old(self).actors@[i].id == actor.id {
                    final(self).actors@ == old(self).actors@.update(pos, actor)
                } else {
                    final(self).actors@ == old(self).actors@.push(actor)
                }
            }),
            final(self).entities == old(self).entities,
            final(self).globals == old(self).globals,
            final(self).time == old(self).time,
            final(self).rng == old(self).rng,
    {
        match self.actor_position(actor.id) {
            Some(i) => {
                let ghost pos = choose|k: int| 0 <= k < old(self).actors@.len() && #[trigger] old(self).actors@[k].id == actor.id && forall|j: int| 0 <= j < k ==> #[trigger] old(self).actors@[j].id != actor.id;
                assert(pos == i) by {
                    if pos < i {
                        assert(old(self).actors@[pos].id != actor.id);
                    } else if pos > i {
                        assert(old(self).actors@[i as int].id != actor.id);
                    }
                }
                self.actors.set(i, actor);
            },
            None => {
                self.actors.push(actor);
            },
        }
    }

    /// An actor's context.
    pub fn get_actor(&self, id: ActorId) -> (r: Option<&Context>)
        ensures
            r.is_some() == (exists|i: int| 0 <= i < self.actors@.len() && #[trigger] self.actors@[i].id == id),
            r matches Some(c) ==> c.id == id,
    {
        match self.actor_position(id) {
            Some(i) => Some(&self.actors[i]),
            None => None,
        }
    }

    /// An actor's context, to change it; the first with the ID.
    pub fn get_actor_mut(&mut self, id: ActorId) -> (r: Option<&mut Context>)
        ensures
            r.is_some() == (exists|i: int| 0 <= i < old(self).actors@.len() && #[trigger] old(self).actors@[i].id == id),
            r is None ==> *final(self) == *old(self),
            r matches Some(c) ==> c.id == id && exists|i: int|
                0 <= i < old(self).actors@.len() && old(self).actors@[i] == *c && (forall|j: int|
                    0 <= j < i ==> #[trigger] old(self).actors@[j].id != id) && final(self).actors@ == old(
                    self).actors@.update(i, *final(c)),
            final(self).entities == old(self).entities,
            final(self).globals == old(self).globals,
            final(self).time == old(self).time,
            final(self).rng == old(self).rng,
    {
        match self.actor_position(id) {
            Some(i) => Some(&mut self.actors[i]),
            None => None,
        }
    }

    /// The entity store, to change it.
    pub fn entities_mut(&mut self) -> (r: &mut EntityStore)
        ensures
            *r == old(self).entities,
            *final(self) == (Model { entities: *final(r), ..*old(self) }),
    {
        &mut self.entities
    }

    /// The global properties, to change them.
    pub fn globals_mut(&mut self) -> (r: &mut ValueMap)
        ensures
            *r == old(self).globals,
            *final(self) == (Model { globals: *final(r), ..*old(self) }),
    {
        &mut self.globals
    }

    /// What expressions read and draw from: the entities, the globals and the generator.
    pub fn eval_refs(&mut self) -> (r: (&EntityStore, &ValueMap, &mut GameRng))
        ensures
            *r.0 == old(self).entities,
            *r.1 == old(self).globals,
            *r.2 == old(self).rng,
            *final(self) == (Model { rng: *final(r.2), ..*old(self) }),
    {
        (&self.entities, &self.globals, &mut self.rng)
    }

    /// A model made of its parts.
    pub fn from_snapshot_data(
        entities: EntityStore,
        globals: ValueMap,
        time: Clock,
        rng: GameRng,
        actors: Vec<Context>,
    ) -> (r: Self)
        ensures
            r == (Model { entities, globals, time, rng, actors }),
    {
        Model { entities, globals, time, rng, actors }
    }

    /// The clock.
    pub fn clock(&self) -> (r: &Clock)
        ensures
            *r == self.time,
    {
        &self.time
    }

    /// Advance the clock by one tick.
    pub fn advance_tick(&mut self)
        requires
            old(self).time.tick < u64::MAX,
        ensures
            final(self).time.tick == old(self).time.tick + 1,
            final(self).time.speed == old(self).time.speed,
            final(self).time.start_date == old(self).time.start_date,
            final(self).time.ticks_per_day == old(self).time.ticks_per_day,
            final(self).entities == old(self).entities,
            final(self).globals == old(self).globals,
            final(self).rng == old(self).rng,
            final(self).actors == old(self).actors,
    {
        self.time.advance();
    }

    /// The current tick.
    pub fn current_tick(&self) -> (r: u64)
        ensures
            r == self.time.tick,
    {
        self.time.tick
    }

    /// The random number generator.
    pub fn rng(&self) -> (r: &GameRng)
        ensures
            r == &self.rng,
    {
        &self.rng
    }
}

/// `m` holds the entities, globals, clock and actors of `s` (its generator may differ).
pub open spec fn same_contents(m: Model, s: Model) -> bool {
    &&& m.entities@ == s.entities@
    &&& m.entities.spec_next_id() == s.entities.spec_next_id()
    &&& m.globals@ == s.globals@
    &&& m.time == s.time
    &&& m.actors@.len() == s.actors@.len()
    &&& forall|i: int|
        0 <= i < m.actors@.len() ==> (#[trigger] m.actors@[i]).id == s.actors@[i].id
            && m.actors@[i].controlled_entities@ == s.actors@[i].controlled_entities@
            && m.actors@[i].connected == s.actors@[i].connected && m.actors@[i].ready
            == s.actors@[i].ready
}

/// `m` holds the entities, globals, clock and random state of `s`.
pub open spec fn restored_from(m: Model, s: Model) -> bool {
    &&& m.entities@ == s.entities@
    &&& m.entities.spec_next_id() == s.entities.spec_next_id()
    &&& m.globals@ == s.globals@
    &&& m.time == s.time
    &&& m.rng@ == s.rng@
}

} // verus!
