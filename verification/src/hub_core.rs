//! A core: one runtime with its own local model, identified within a group, with a
//! seed from which the generator of its model is derived at each tick.
use vstd::prelude::*;
use crate::collect::{
    evaluator_is_total, evaluator_reads_scene, picker_is_function, picker_is_total, Evaluated,
};
use crate::config::{hash_seed, mix};
use crate::cores::CoreId;
use crate::dispatch::ticked;
use crate::effect::ModifyOp;
use crate::execute::{numeric_is_total, numeric_reads_models};
use crate::expr::Expr;
use crate::identity::EntityId;
use crate::model::Model;
use crate::rng::{seeded_state, GameRng};
use crate::runtime::{Runtime, UpdateResult};
use crate::time::Clock;
use crate::value::{Value, ValueMap};

verus! {

/// A runtime and its local model, with an identifier and a seed.
#[derive(Debug)]
pub struct Core {
    /// Identifier within a group.
    pub id: CoreId,
    /// The runtime.
    pub runtime: Runtime,
    /// The local model.
    pub model: Model,
    /// Seed from which the generator of the local model is derived.
    pub rng_seed: u64,
}

/// `m` holds a fresh model's contents: no entities, globals or actors, a new clock.
pub open spec fn is_empty_model(m: Model) -> bool {
    &&& m.entities@.len() == 0
    &&& m.globals@.len() == 0
    &&& m.time == Clock::new_spec()
    &&& m.actors@.len() == 0
}

/// `m1` is `m0` with its generator replaced by one whose state is `state`.
pub open spec fn reseeded(m0: Model, m1: Model, state: u64) -> bool {
    &&& m1.entities == m0.entities
    &&& m1.globals == m0.globals
    &&& m1.time == m0.time
    &&& m1.actors == m0.actors
    &&& m1.rng@ == state
}

impl Core {
    /// A core with a runtime, an empty model and a seed.
    pub fn new(id: CoreId, runtime: Runtime, seed: u64) -> (r: Self)
        ensures
            r.id == id,
            r.runtime == runtime,
            is_empty_model(r.model),
            r.model.rng@ == 12345,
            r.rng_seed == seed,
    {
        Core { id, runtime, model: Model::new(), rng_seed: seed }
    }

    /// A core with an empty runtime, an empty model and a seed.
    pub fn with_seed(id: CoreId, seed: u64) -> (r: Self)
        ensures
            r.id == id,
            r.runtime.spec_queue().len() == 0,
            r.runtime.spec_scheduled().len() == 0,
            r.runtime.spec_event_handlers().len() == 0,
            r.runtime.spec_tick_handlers().len() == 0,
            is_empty_model(r.model),
            r.model.rng@ == 12345,
            r.rng_seed == seed,
    {
        Self::new(id, Runtime::new(), seed)
    }

    /// The runtime.
    pub fn runtime(&self) -> (r: &Runtime)
        ensures
            r == &self.runtime,
    {
        &self.runtime
    }

    /// The runtime, to register handlers.
    pub fn runtime_mut(&mut self) -> (r: &mut Runtime)
        ensures
            *r == old(self).runtime,
            *final(self) == (Core { runtime: *final(r), ..*old(self) }),
    {
        &mut self.runtime
    }

    /// The local model.
    pub fn model(&self) -> (r: &Model)
        ensures
            r == &self.model,
    {
        &self.model
    }

    /// Replace the local model; its generator is reseeded with
    /// `hash_seed(seed, id, tick)` for the model's tick.
    pub fn load_model(&mut self, model: Model)
        ensures
            reseeded(
                model,
                final(self).model,
                seeded_state(mix(old(self).rng_seed, old(self).id.0 as u64, model.time.tick)),
            ),
            final(self).id == old(self).id,
            final(self).runtime == old(self).runtime,
            final(self).rng_seed == old(self).rng_seed,
    {
        self.model = model;
        let tick = self.model.current_tick();
        self.model.rng = GameRng::new(hash_seed(self.rng_seed, self.id.0 as u64, tick));
    }

    /// Run one tick of the runtime on the local model (see [`Runtime::tick`]).
    pub fn tick<
        E: Fn(&Expr, &Model, Option<EntityId>, &ValueMap, &GameRng) -> Evaluated,
        P: Fn(&Vec<u64>, &GameRng) -> (Option<usize>, GameRng),
        F: Fn(ModifyOp, Option<Value>, u64) -> u64,
    >(&mut self, eval: &E, pick: &P, numeric: &F) -> (r: UpdateResult)
        requires
            old(self).model.time.tick < u64::MAX,
            evaluator_reads_scene(*eval),
            evaluator_is_total(*eval),
            picker_is_function(*pick),
            picker_is_total(*pick),
            numeric_is_total(*numeric),
            numeric_reads_models(*numeric),
        ensures
            ticked(
                *eval,
                *pick,
                *numeric,
                old(self).runtime,
                old(self).model,
                final(self).runtime,
                final(self).model,
                r,
            ),
            final(self).id == old(self).id,
            final(self).rng_seed == old(self).rng_seed,
    {
        self.runtime.tick(&mut self.model, eval, pick, numeric)
    }

    /// The tick of the local model.
    pub fn current_tick(&self) -> (r: u64)
        ensures
            r == self.model.time.tick,
    {
        self.model.current_tick()
    }

    /// Reseed the local model's generator with `hash_seed(seed, id, tick)`.
    pub fn reseed_rng(&mut self, tick: u64)
        ensures
            reseeded(
                old(self).model,
                final(self).model,
                seeded_state(mix(old(self).rng_seed, old(self).id.0 as u64, tick)),
            ),
            final(self).id == old(self).id,
            final(self).runtime == old(self).runtime,
            final(self).rng_seed == old(self).rng_seed,
    {
        self.model.rng = GameRng::new(hash_seed(self.rng_seed, self.id.0 as u64, tick));
    }
}

} // verus!
