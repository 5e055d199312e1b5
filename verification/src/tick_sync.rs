//! A group whose cores all stay at the same tick: every core loads the same model, every
//! core runs the tick, and only then does the group's tick advance.
use vstd::prelude::*;
use crate::collect::{
    evaluator_is_total, evaluator_reads_scene, picker_is_function, picker_is_total, Evaluated,
};
use crate::config::{hash_seed, mix};
use crate::cores::{CoreId, GroupId};
use crate::dispatch::ticked;
use crate::effect::ModifyOp;
use crate::execute::{numeric_is_total, numeric_reads_models};
use crate::expr::Expr;
use crate::group::CoreGroup;
use crate::hub_core::{is_empty_model, reseeded, Core};
use crate::identity::EntityId;
use crate::model::{same_contents, Model};
use crate::rng::{seeded_state, GameRng};
use crate::runtime::{
    event_handler_copy, insert_point, tick_handler_copy, EventHandler, Runtime, TickHandler,
    UpdateResult,
};
use crate::value::{Value, ValueMap};

verus! {

/// A group where all cores stay synchronized at the same tick.
#[derive(Debug)]
pub struct TickSyncGroup {
    id: GroupId,
    tick: u64,
    cores: Vec<Core>,
    base_seed: u64,
}

/// `c` is a fresh core number `i` of a group with base seed `base_seed`: an empty runtime,
/// an empty model, and the seed `hash_seed(base_seed, i, 0)`.
pub open spec fn fresh_core(c: Core, i: int, base_seed: u64) -> bool {
    &&& c.id == CoreId(i as usize)
    &&& c.rng_seed == mix(base_seed, i as u64, 0)
    &&& c.runtime.spec_queue().len() == 0
    &&& c.runtime.spec_scheduled().len() == 0
    &&& c.runtime.spec_event_handlers().len() == 0
    &&& c.runtime.spec_tick_handlers().len() == 0
    &&& is_empty_model(c.model)
    &&& c.model.rng@ == 12345
}

/// `c1` is `c0` with only its local model changed.
pub open spec fn same_core(c0: Core, c1: Core) -> bool {
    &&& c1.id == c0.id
    &&& c1.runtime == c0.runtime
    &&& c1.rng_seed == c0.rng_seed
}

/// `rt1` is `rt0` with a copy of `handler` registered as an event handler, after the
/// handlers of higher or equal priority and before those of lower priority.
pub open spec fn event_registered(rt0: Runtime, rt1: Runtime, handler: EventHandler) -> bool {
    &&& exists|pos: int, h: EventHandler|
        event_handler_copy(handler, h) && insert_point(
            rt0.spec_event_handlers(),
            |x: EventHandler| x.priority >= handler.priority,
            pos,
        ) && rt1.spec_event_handlers() == #[trigger] rt0.spec_event_handlers().insert(pos, h)
    &&& rt1.spec_tick_handlers() == rt0.spec_tick_handlers()
    &&& rt1.spec_queue() == rt0.spec_queue()
    &&& rt1.spec_scheduled() == rt0.spec_scheduled()
}

/// `rt1` is `rt0` with a copy of `handler` registered as a tick handler, after the
/// handlers of higher or equal priority and before those of lower priority.
pub open spec fn tick_registered(rt0: Runtime, rt1: Runtime, handler: TickHandler) -> bool {
    &&& exists|pos: int, h: TickHandler|
        tick_handler_copy(handler, h) && insert_point(
            rt0.spec_tick_handlers(),
            |x: TickHandler| x.priority >= handler.priority,
            pos,
        ) && rt1.spec_tick_handlers() == #[trigger] rt0.spec_tick_handlers().insert(pos, h)
    &&& rt1.spec_event_handlers() == rt0.spec_event_handlers()
    &&& rt1.spec_queue() == rt0.spec_queue()
    &&& rt1.spec_scheduled() == rt0.spec_scheduled()
}

impl TickSyncGroup {
    /// The cores, in order.
    pub closed spec fn spec_cores(&self) -> Seq<Core> {
        self.cores@
    }

    /// The base seed of the group.
    pub closed spec fn spec_base_seed(&self) -> u64 {
        self.base_seed
    }

    /// The cores' local models are the group's models.
    pub proof fn models_are_cores_models(&self)
        ensures
            self.spec_models().len() == self.spec_cores().len(),
            forall|i: int|
                0 <= i < self.spec_cores().len() ==> #[trigger] self.spec_models()[i]
                    == self.spec_cores()[i].model,
    {
    }

    /// A group at tick 0 with the given cores.
    pub fn new(id: GroupId, cores: Vec<Core>, base_seed: u64) -> (r: Self)
        ensures
            r.spec_id() == id,
            r.spec_tick() == 0,
            r.spec_cores() == cores@,
            r.spec_base_seed() == base_seed,
    {
        TickSyncGroup { id, tick: 0, cores, base_seed }
    }

    /// A group at tick 0 with `count` fresh cores; core `i` has the seed
    /// `hash_seed(base_seed, i, 0)`.
    pub fn with_core_count(id: GroupId, count: usize, base_seed: u64) -> (r: Self)
        ensures
            r.spec_id() == id,
            r.spec_tick() == 0,
            r.spec_base_seed() == base_seed,
            r.spec_cores().len() == count,
            forall|i: int| 0 <= i < count ==> fresh_core(#[trigger] r.spec_cores()[i], i, base_seed),
    {
        let mut cores: Vec<Core> = Vec::new();
        let mut i: usize = 0;
        while i < count
            invariant
                i <= count,
                cores@.len() == i,
                forall|j: int| 0 <= j < i ==> fresh_core(#[trigger] cores@[j], j, base_seed),
            decreases count - i,
        {
            let seed = hash_seed(base_seed, i as u64, 0);
            cores.push(Core::with_seed(CoreId(i), seed));
            i = i + 1;
        }
        Self::new(id, cores, base_seed)
    }

    /// A group with one fresh core.
    pub fn single(id: GroupId, seed: u64) -> (r: Self)
        ensures
            r.spec_id() == id,
            r.spec_tick() == 0,
            r.spec_base_seed() == seed,
            r.spec_cores().len() == 1,
            fresh_core(r.spec_cores()[0], 0, seed),
    {
        Self::with_core_count(id, 1, seed)
    }

    /// Add a core at the end.
    pub fn add_core(&mut self, core: Core)
        ensures
            final(self).spec_cores() == old(self).spec_cores().push(core),
            final(self).spec_id() == old(self).spec_id(),
            final(self).spec_tick() == old(self).spec_tick(),
            final(self).spec_base_seed() == old(self).spec_base_seed(),
    {
        self.cores.push(core);
    }

    /// The cores, in order.
    pub fn cores(&self) -> (r: &[Core])
        ensures
            r@ == self.spec_cores(),
    {
        self.cores.as_slice()
    }

    /// The cores, to register handlers.
    pub fn cores_mut(&mut self) -> (r: &mut [Core])
        ensures
            r@ == old(self).spec_cores(),
            final(self).spec_cores() == final(r)@,
            final(self).spec_id() == old(self).spec_id(),
            final(self).spec_tick() == old(self).spec_tick(),
            final(self).spec_base_seed() == old(self).spec_base_seed(),
    {
        self.cores.as_mut_slice()
    }

    /// Register a copy of an event handler on every core.
    pub fn on_event(&mut self, handler: EventHandler)
        ensures
            final(self).spec_cores().len() == old(self).spec_cores().len(),
            final(self).spec_id() == old(self).spec_id(),
            final(self).spec_tick() == old(self).spec_tick(),
            final(self).spec_base_seed() == old(self).spec_base_seed(),
            forall|i: int|
                0 <= i < final(self).spec_cores().len() ==> (#[trigger] final(self).spec_cores()[i]).id
                    == old(self).spec_cores()[i].id && final(self).spec_cores()[i].model == old(
                    self,
                ).spec_cores()[i].model && final(self).spec_cores()[i].rng_seed == old(
                    self,
                ).spec_cores()[i].rng_seed && event_registered(
                    old(self).spec_cores()[i].runtime,
                    final(self).spec_cores()[i].runtime,
                    handler,
                ),
    {
        let ghost c0 = self.cores@;
        let n = self.cores.len();
        let mut i: usize = 0;
        while i < n
            invariant
                n == c0.len(),
                i <= n,
                self.cores@.len() == n,
                self.id == old(self).id,
                self.tick == old(self).tick,
                self.base_seed == old(self).base_seed,
                c0 == old(self).cores@,
                forall|j: int|
                    0 <= j < i ==> (#[trigger] self.cores@[j]).id == c0[j].id && self.cores@[j].model
                        == c0[j].model && self.cores@[j].rng_seed == c0[j].rng_seed && event_registered(
                        c0[j].runtime,
                        self.cores@[j].runtime,
                        handler,
                    ),
                forall|j: int| i <= j < n ==> #[trigger] self.cores@[j] == c0[j],
            decreases n - i,
        {
            let copy = handler.duplicate();
            self.cores[i].runtime.on_event(copy);
            i = i + 1;
        }
    }

    /// Register a copy of a tick handler on every core.
    pub fn on_tick(&mut self, handler: TickHandler)
        ensures
            final(self).spec_cores().len() == old(self).spec_cores().len(),
            final(self).spec_id() == old(self).spec_id(),
            final(self).spec_tick() == old(self).spec_tick(),
            final(self).spec_base_seed() == old(self).spec_base_seed(),
            forall|i: int|
                0 <= i < final(self).spec_cores().len() ==> (#[trigger] final(self).spec_cores()[i]).id
                    == old(self).spec_cores()[i].id && final(self).spec_cores()[i].model == old(
                    self,
                ).spec_cores()[i].model && final(self).spec_cores()[i].rng_seed == old(
                    self,
                ).spec_cores()[i].rng_seed && tick_registered(
                    old(self).spec_cores()[i].runtime,
                    final(self).spec_cores()[i].runtime,
                    handler,
                ),
    {
        let ghost c0 = self.cores@;
        let n = self.cores.len();
        let mut i: usize = 0;
        while i < n
            invariant
                n == c0.len(),
                i <= n,
                self.cores@.len() == n,
                self.id == old(self).id,
                self.tick == old(self).tick,
                self.base_seed == old(self).base_seed,
                c0 == old(self).cores@,
                forall|j: int|
                    0 <= j < i ==> (#[trigger] self.cores@[j]).id == c0[j].id && self.cores@[j].model
                        == c0[j].model && self.cores@[j].rng_seed == c0[j].rng_seed && tick_registered(
                        c0[j].runtime,
                        self.cores@[j].runtime,
                        handler,
                    ),
                forall|j: int| i <= j < n ==> #[trigger] self.cores@[j] == c0[j],
            decreases n - i,
        {
            let copy = handler.duplicate();
            self.cores[i].runtime.on_tick(copy);
            i = i + 1;
        }
    }

    /// A group with one core that runs `runtime`, with seed `seed`.
    pub fn from_runtime(id: GroupId, runtime: Runtime, seed: u64) -> (r: Self)
        ensures
            r.spec_id() == id,
            r.spec_tick() == 0,
            r.spec_base_seed() == seed,
            r.spec_cores().len() == 1,
            r.spec_cores()[0].id == CoreId(0),
            r.spec_cores()[0].runtime == runtime,
            r.spec_cores()[0].rng_seed == seed,
            is_empty_model(r.spec_cores()[0].model),
            r.spec_cores()[0].model.rng@ == 12345,
    {
        let core = Core::new(CoreId(0), runtime, seed);
        let mut cores: Vec<Core> = Vec::new();
        cores.push(core);
        Self::new(id, cores, seed)
    }
}

impl CoreGroup for TickSyncGroup {
    closed spec fn spec_id(&self) -> GroupId {
        self.id
    }

    closed spec fn spec_tick(&self) -> u64 {
        self.tick
    }

    closed spec fn spec_models(&self) -> Seq<Model> {
        self.cores@.map_values(|c: Core| c.model)
    }

    fn id(&self) -> (r: GroupId) {
        self.id
    }

    fn tick(&self) -> (r: u64) {
        self.tick
    }

    fn core_count(&self) -> (r: usize) {
        self.cores.len()
    }

    /// Every core loads a copy of `model` and reseeds its generator for the model's tick
    /// (see [`Core::load_model`]).
    fn load_model(&mut self, model: &Model)
        ensures
            final(self).spec_cores().len() == old(self).spec_cores().len(),
            final(self).spec_base_seed() == old(self).spec_base_seed(),
            forall|i: int|
                0 <= i < final(self).spec_cores().len() ==> same_core(
                    old(self).spec_cores()[i],
                    #[trigger] final(self).spec_cores()[i],
                ) && same_contents(final(self).spec_cores()[i].model, *model)
                    && final(self).spec_cores()[i].model.rng@ == seeded_state(
                    mix(old(self).spec_cores()[i].rng_seed, old(self).spec_cores()[i].id.0 as u64, model.time.tick),
                ),
    {
        let ghost c0 = self.cores@;
        let n = self.cores.len();
        let mut i: usize = 0;
        while i < n
            invariant
                n == c0.len(),
                i <= n,
                self.cores@.len() == n,
                self.id == old(self).id,
                self.tick == old(self).tick,
                self.base_seed == old(self).base_seed,
                c0 == old(self).cores@,
                forall|j: int|
                    0 <= j < i ==> same_core(c0[j], #[trigger] self.cores@[j]) && same_contents(
                        self.cores@[j].model,
                        *model,
                    ) && self.cores@[j].model.rng@ == seeded_state(
                        mix(c0[j].rng_seed, c0[j].id.0 as u64, model.time.tick),
                    ),
                forall|j: int| i <= j < n ==> #[trigger] self.cores@[j] == c0[j],
            decreases n - i,
        {
            let copy = model.duplicate();
            self.cores[i].load_model(copy);
            i = i + 1;
        }
        proof {
            assert forall|j: int| 0 <= j < self.spec_models().len() implies same_contents(
                #[trigger] self.spec_models()[j],
                *model,
            ) by {
                assert(self.spec_models()[j] == self.cores@[j].model);
            }
        }
    }

    /// Every core runs one tick, in order (see [`Core::tick`]).
    fn execute_tick<
        E: Fn(&Expr, &Model, Option<EntityId>, &ValueMap, &GameRng) -> Evaluated,
        P: Fn(&Vec<u64>, &GameRng) -> (Option<usize>, GameRng),
        F: Fn(ModifyOp, Option<Value>, u64) -> u64,
    >(&mut self, eval: &E, pick: &P, numeric: &F) -> (r: Vec<UpdateResult>)
        ensures
            final(self).spec_cores().len() == old(self).spec_cores().len(),
            final(self).spec_base_seed() == old(self).spec_base_seed(),
            forall|i: int|
                0 <= i < final(self).spec_cores().len() ==> ticked(
                    *eval,
                    *pick,
                    *numeric,
                    old(self).spec_cores()[i].runtime,
                    old(self).spec_cores()[i].model,
                    (#[trigger] final(self).spec_cores()[i]).runtime,
                    final(self).spec_cores()[i].model,
                    r@[i],
                ) && final(self).spec_cores()[i].id == old(self).spec_cores()[i].id
                    && final(self).spec_cores()[i].rng_seed == old(self).spec_cores()[i].rng_seed,
    {
        let ghost c0 = self.cores@;
        proof {
            assert forall|j: int| 0 <= j < c0.len() implies (#[trigger] c0[j]).model.time.tick < u64::MAX by {
                assert(old(self).spec_models()[j] == c0[j].model);
            }
        }
        let n = self.cores.len();
        let mut results: Vec<UpdateResult> = Vec::new();
        if n == 1 {
            let result = self.cores[0].tick(eval, pick, numeric);
            results.push(result);
        } else {
            let mut i: usize = 0;
            while i < n
                invariant
                    n == c0.len(),
                    i <= n,
                    self.cores@.len() == n,
                    results@.len() == i,
                    self.id == old(self).id,
                    self.tick == old(self).tick,
                    self.base_seed == old(self).base_seed,
                    c0 == old(self).cores@,
                    forall|j: int| 0 <= j < c0.len() ==> (#[trigger] c0[j]).model.time.tick < u64::MAX,
                    evaluator_reads_scene(*eval),
                    evaluator_is_total(*eval),
                    picker_is_function(*pick),
                    picker_is_total(*pick),
                    numeric_is_total(*numeric),
                    numeric_reads_models(*numeric),
                    forall|j: int|
                        0 <= j < i ==> ticked(
                            *eval,
                            *pick,
                            *numeric,
                            c0[j].runtime,
                            c0[j].model,
                            (#[trigger] self.cores@[j]).runtime,
                            self.cores@[j].model,
                            results@[j],
                        ) && self.cores@[j].id == c0[j].id && self.cores@[j].rng_seed == c0[j].rng_seed,
                    forall|j: int| i <= j < n ==> #[trigger] self.cores@[j] == c0[j],
                decreases n - i,
            {
                let result = self.cores[i].tick(eval, pick, numeric);
                results.push(result);
                i = i + 1;
            }
        }
        proof {
            assert forall|j: int| 0 <= j < self.spec_models().len() implies (#[trigger] self.spec_models()[j]).time.tick
                == old(self).spec_models()[j].time.tick + 1 by {
                assert(self.spec_models()[j] == self.cores@[j].model);
                assert(old(self).spec_models()[j] == c0[j].model);
            }
        }
        results
    }

    fn extract_models(&self) -> (r: Vec<&Model>) {
        let mut models: Vec<&Model> = Vec::new();
        let n = self.cores.len();
        let mut i: usize = 0;
        while i < n
            invariant
                n == self.cores@.len(),
                i <= n,
                models@.len() == i,
                forall|j: int| 0 <= j < i ==> *(#[trigger] models@[j]) == self.cores@[j].model,
            decreases n - i,
        {
            models.push(self.cores[i].model());
            i = i + 1;
        }
        models
    }

    /// The tick goes up by one and the generator of core number `i` is reseeded with
    /// `hash_seed(base_seed, i, tick)` for the new tick.
    fn advance_tick(&mut self)
        ensures
            final(self).spec_cores().len() == old(self).spec_cores().len(),
            final(self).spec_base_seed() == old(self).spec_base_seed(),
            forall|i: int|
                0 <= i < final(self).spec_cores().len() ==> same_core(
                    old(self).spec_cores()[i],
                    #[trigger] final(self).spec_cores()[i],
                ) && reseeded(
                    old(self).spec_cores()[i].model,
                    final(self).spec_cores()[i].model,
                    seeded_state(mix(old(self).spec_base_seed(), i as u64, final(self).spec_tick())),
                ),
    {
        self.tick = self.tick + 1;
        let ghost c0 = self.cores@;
        let n = self.cores.len();
        let mut i: usize = 0;
        while i < n
            invariant
                n == c0.len(),
                i <= n,
                self.cores@.len() == n,
                self.id == old(self).id,
                self.tick == old(self).tick + 1,
                self.base_seed == old(self).base_seed,
                c0 == old(self).cores@,
                forall|j: int|
                    0 <= j < i ==> same_core(c0[j], #[trigger] self.cores@[j]) && reseeded(
                        c0[j].model,
                        self.cores@[j].model,
                        seeded_state(mix(self.base_seed, j as u64, self.tick)),
                    ),
                forall|j: int| i <= j < n ==> #[trigger] self.cores@[j] == c0[j],
            decreases n - i,
        {
            let tick = self.tick;
            self.cores[i].reseed_rng(tick);
            let new_seed = hash_seed(self.base_seed, i as u64, tick);
            self.cores[i].model.rng = GameRng::new(new_seed);
            i = i + 1;
        }
    }
}

} // verus!
