//! The hub: the owner of the global model, which drives its core groups one tick at a
//! time and takes the model that the first core of each group produced.
use vstd::prelude::*;
use crate::collect::{
    evaluator_is_total, evaluator_reads_scene, picker_is_function, picker_is_total, Evaluated,
};
use crate::config::{clamp, max_cores, mix, HubConfig, DEFAULT_GLOBAL_SEED};
use crate::cores::GroupId;
use crate::dispatch::ticked;
use crate::effect::ModifyOp;
use crate::execute::{numeric_is_total, numeric_reads_models};
use crate::expr::Expr;
use crate::group::CoreGroup;
use crate::hub_core::{reseeded, Core};
use crate::hub_error::Error;
use crate::identity::EntityId;
use crate::model::{same_contents, Model};
use crate::rng::{seeded_state, GameRng};
use crate::runtime::UpdateResult;
use crate::snapshot::ModelSnapshot;
use crate::tick_sync::{same_core, TickSyncGroup};
use crate::value::{Value, ValueMap};

verus! {

broadcast use vstd::seq_lib::group_seq_properties;

/// The result of a hub tick.
#[derive(Debug)]
pub struct TickResult {
    /// The tick of the global model after the tick.
    pub tick: u64,
    /// The results of every core of every group, group by group.
    pub updates: Vec<UpdateResult>,
}

/// Core `c0` loads `l`, a copy of `m` whose generator is reseeded with
/// `hash_seed(seed, id, tick)`, then runs one tick, giving `c1` and `r`.
pub open spec fn core_step<
    E: Fn(&Expr, &Model, Option<EntityId>, &ValueMap, &GameRng) -> Evaluated,
    P: Fn(&Vec<u64>, &GameRng) -> (Option<usize>, GameRng),
    F: Fn(ModifyOp, Option<Value>, u64) -> u64,
>(eval: E, pick: P, numeric: F, c0: Core, m: Model, l: Model, c1: Core, r: UpdateResult) -> bool {
    &&& same_contents(l, m)
    &&& l.rng@ == seeded_state(mix(c0.rng_seed, c0.id.0 as u64, m.time.tick))
    &&& ticked(eval, pick, numeric, c0.runtime, l, c1.runtime, c1.model, r)
    &&& c1.id == c0.id
    &&& c1.rng_seed == c0.rng_seed
}

/// One tick of group `g0` from the global model `m0`, with the loaded models `loads` and
/// the cores `mid` after their tick: every core loads `m0` and runs one tick (result
/// `rs[i]`), the group's tick goes up by one, every core is reseeded for it, and the
/// global model becomes a copy of the first core's model after its tick (unchanged when
/// the group has no core).
pub open spec fn group_step_with<
    E: Fn(&Expr, &Model, Option<EntityId>, &ValueMap, &GameRng) -> Evaluated,
    P: Fn(&Vec<u64>, &GameRng) -> (Option<usize>, GameRng),
    F: Fn(ModifyOp, Option<Value>, u64) -> u64,
>(
    eval: E,
    pick: P,
    numeric: F,
    g0: TickSyncGroup,
    m0: Model,
    g1: TickSyncGroup,
    m1: Model,
    rs: Seq<UpdateResult>,
    loads: Seq<Model>,
    mid: Seq<Core>,
) -> bool {
    let c0 = g0.spec_cores();
    let c1 = g1.spec_cores();
    &&& g1.spec_id() == g0.spec_id()
    &&& g1.spec_tick() == g0.spec_tick() + 1
    &&& g1.spec_base_seed() == g0.spec_base_seed()
    &&& c1.len() == c0.len()
    &&& rs.len() == c0.len()
    &&& loads.len() == c0.len()
    &&& mid.len() == c0.len()
    &&& forall|i: int|
        0 <= i < c0.len() ==> #[trigger] core_step(eval, pick, numeric, c0[i], m0, loads[i], mid[i], rs[i])
            && same_core(mid[i], c1[i]) && reseeded(
            mid[i].model,
            c1[i].model,
            seeded_state(mix(g0.spec_base_seed(), i as u64, g1.spec_tick())),
        )
    &&& c0.len() > 0 ==> same_contents(m1, mid[0].model) && m1.rng@ == mid[0].model.rng@
    &&& c0.len() == 0 ==> m1 == m0
}

/// One tick of group `g0` from the global model `m0` to `g1` and `m1`, with results `rs`
/// (see [`group_step_with`]).
pub open spec fn group_step<
    E: Fn(&Expr, &Model, Option<EntityId>, &ValueMap, &GameRng) -> Evaluated,
    P: Fn(&Vec<u64>, &GameRng) -> (Option<usize>, GameRng),
    F: Fn(ModifyOp, Option<Value>, u64) -> u64,
>(
    eval: E,
    pick: P,
    numeric: F,
    g0: TickSyncGroup,
    m0: Model,
    g1: TickSyncGroup,
    m1: Model,
    rs: Seq<UpdateResult>,
) -> bool {
    exists|loads: Seq<Model>, mid: Seq<Core>|
        #[trigger] group_step_with(eval, pick, numeric, g0, m0, g1, m1, rs, loads, mid)
}

/// One hub tick over the groups `gs0` from the global model `m0`, with the global models
/// `before` and `after` each group's step and the results `rs` of each group: the groups
/// run in order, each from the model the previous one left, and the results are
/// gathered group by group.
pub open spec fn hub_step_with<
    E: Fn(&Expr, &Model, Option<EntityId>, &ValueMap, &GameRng) -> Evaluated,
    P: Fn(&Vec<u64>, &GameRng) -> (Option<usize>, GameRng),
    F: Fn(ModifyOp, Option<Value>, u64) -> u64,
>(
    eval: E,
    pick: P,
    numeric: F,
    gs0: Seq<TickSyncGroup>,
    m0: Model,
    gs1: Seq<TickSyncGroup>,
    m1: Model,
    updates: Seq<UpdateResult>,
    before: Seq<Model>,
    after: Seq<Model>,
    rs: Seq<Seq<UpdateResult>>,
) -> bool {
    &&& gs1.len() == gs0.len()
    &&& before.len() == gs0.len()
    &&& after.len() == gs0.len()
    &&& rs.len() == gs0.len()
    &&& gs0.len() > 0 ==> before[0] == m0 && after[gs0.len() - 1] == m1
    &&& forall|j: int| 0 < j < gs0.len() ==> #[trigger] before[j] == after[j - 1]
    &&& forall|j: int|
        0 <= j < gs0.len() ==> #[trigger] group_step(eval, pick, numeric, gs0[j], before[j], gs1[j], after[j], rs[j])
    &&& updates == rs.flatten()
}

/// One hub tick over the groups `gs0` from the global model `m0` to `gs1` and `m1`, with
/// results `updates` (see [`hub_step_with`]).
pub open spec fn hub_step<
    E: Fn(&Expr, &Model, Option<EntityId>, &ValueMap, &GameRng) -> Evaluated,
    P: Fn(&Vec<u64>, &GameRng) -> (Option<usize>, GameRng),
    F: Fn(ModifyOp, Option<Value>, u64) -> u64,
>(
    eval: E,
    pick: P,
    numeric: F,
    gs0: Seq<TickSyncGroup>,
    m0: Model,
    gs1: Seq<TickSyncGroup>,
    m1: Model,
    updates: Seq<UpdateResult>,
) -> bool {
    exists|before: Seq<Model>, after: Seq<Model>, rs: Seq<Seq<UpdateResult>>|
        #[trigger] hub_step_with(eval, pick, numeric, gs0, m0, gs1, m1, updates, before, after, rs)
}

/// The central coordinator: it owns the global model and its core groups.
#[derive(Debug)]
pub struct Hub {
    model: Model,
    groups: Vec<TickSyncGroup>,
    version: u64,
    config: HubConfig,
}

impl Default for Hub {
    /// A hub with an empty model, no groups, version 0 and the default configuration.
    fn default() -> (r: Self)
        ensures
            r.spec_model().entities@.len() == 0,
            r.spec_model().globals@.len() == 0,
            r.spec_model().time.tick == 0,
            r.spec_groups().len() == 0,
            r.spec_version() == 0,
            r.spec_config().spec_core_count() == 1,
            r.spec_config().spec_global_seed() == DEFAULT_GLOBAL_SEED,
    {
        Hub::new()
    }
}

impl Hub {
    /// The global model.
    pub closed spec fn spec_model(&self) -> Model {
        self.model
    }

    /// The core groups, in order.
    pub closed spec fn spec_groups(&self) -> Seq<TickSyncGroup> {
        self.groups@
    }

    /// The version counter.
    pub closed spec fn spec_version(&self) -> u64 {
        self.version
    }

    /// The configuration.
    pub closed spec fn spec_config(&self) -> HubConfig {
        self.config
    }

    /// A hub with an empty model, no groups, version 0 and the default configuration
    /// (single core).
    pub fn new() -> (r: Self)
        ensures
            r.spec_model().entities@.len() == 0,
            r.spec_model().globals@.len() == 0,
            r.spec_model().time.tick == 0,
            r.spec_groups().len() == 0,
            r.spec_version() == 0,
            r.spec_config().spec_core_count() == 1,
            r.spec_config().spec_global_seed() == DEFAULT_GLOBAL_SEED,
    {
        Hub { model: Model::new(), groups: Vec::new(), version: 0, config: HubConfig::default() }
    }

    /// A hub with a model, no groups, version 0 and the default configuration.
    pub fn with_model(model: Model) -> (r: Self)
        ensures
            r.spec_model() == model,
            r.spec_groups().len() == 0,
            r.spec_version() == 0,
            r.spec_config().spec_core_count() == 1,
            r.spec_config().spec_global_seed() == DEFAULT_GLOBAL_SEED,
    {
        Hub { model, groups: Vec::new(), version: 0, config: HubConfig::default() }
    }

    /// A hub with a model and a configuration, no groups, version 0.
    pub fn with_config(model: Model, config: HubConfig) -> (r: Self)
        ensures
            r.spec_model() == model,
            r.spec_groups().len() == 0,
            r.spec_version() == 0,
            r.spec_config() == config,
    {
        Hub { model, groups: Vec::new(), version: 0, config }
    }

    /// A hub with a model and one single-core group `GroupId(0)` seeded with `seed`.
    pub fn with_default_group(model: Model, seed: u64) -> (r: Self)
        ensures
            r.spec_model() == model,
            r.spec_groups().len() == 1,
            r.spec_groups()[0].spec_id() == GroupId(0),
            r.spec_groups()[0].spec_tick() == 0,
            r.spec_groups()[0].spec_base_seed() == seed,
            r.spec_groups()[0].spec_cores().len() == 1,
            crate::tick_sync::fresh_core(r.spec_groups()[0].spec_cores()[0], 0, seed),
            r.spec_version() == 0,
            r.spec_config().spec_core_count() == 1,
            r.spec_config().spec_global_seed() == DEFAULT_GLOBAL_SEED,
    {
        let mut hub = Self::with_model(model);
        hub.add_group(TickSyncGroup::single(GroupId(0), seed));
        hub
    }

    /// Add a core group at the end.
    pub fn add_group(&mut self, group: TickSyncGroup)
        ensures
            final(self).spec_groups() == old(self).spec_groups().push(group),
            final(self).spec_model() == old(self).spec_model(),
            final(self).spec_version() == old(self).spec_version(),
            final(self).spec_config() == old(self).spec_config(),
    {
        self.groups.push(group);
    }

    /// The number of groups.
    pub fn group_count(&self) -> (r: usize)
        ensures
            r == self.spec_groups().len(),
    {
        self.groups.len()
    }

    /// The global model.
    pub fn model(&self) -> (r: &Model)
        ensures
            *r == self.spec_model(),
    {
        &self.model
    }

    /// The global model, to change it.
    pub fn model_mut(&mut self) -> (r: &mut Model)
        ensures
            *r == old(self).spec_model(),
            final(self).spec_model() == *final(r),
            final(self).spec_groups() == old(self).spec_groups(),
            final(self).spec_version() == old(self).spec_version(),
            final(self).spec_config() == old(self).spec_config(),
    {
        &mut self.model
    }

    /// The version counter: the number of ticks run.
    pub fn version(&self) -> (r: u64)
        ensures
            r == self.spec_version(),
    {
        self.version
    }

    /// Set the number of worker cores, clamped to `[1, max_cores()]`.
    pub fn set_core_count(&mut self, n: usize)
        ensures
            exists|m: usize|
                m >= 1 && final(self).spec_config().spec_core_count() == clamp(n as int, 1, m as int),
            final(self).spec_config().spec_global_seed() == old(self).spec_config().spec_global_seed(),
            final(self).spec_model() == old(self).spec_model(),
            final(self).spec_groups() == old(self).spec_groups(),
            final(self).spec_version() == old(self).spec_version(),
    {
        self.config.set_core_count(n);
    }

    /// The configured number of worker cores.
    pub fn core_count(&self) -> (r: usize)
        ensures
            r == self.spec_config().spec_core_count(),
    {
        self.config.core_count()
    }

    /// The maximum number of cores available on this system; at least 1.
    pub fn max_cores(&self) -> (r: usize)
        ensures
            r >= 1,
    {
        max_cores()
    }

    /// The configuration.
    pub fn config(&self) -> (r: &HubConfig)
        ensures
            *r == self.spec_config(),
    {
        &self.config
    }

    /// The configuration, to change it.
    pub fn config_mut(&mut self) -> (r: &mut HubConfig)
        ensures
            *r == old(self).spec_config(),
            final(self).spec_config() == *final(r),
            final(self).spec_model() == old(self).spec_model(),
            final(self).spec_groups() == old(self).spec_groups(),
            final(self).spec_version() == old(self).spec_version(),
    {
        &mut self.config
    }

    /// The global seed.
    pub fn global_seed(&self) -> (r: u64)
        ensures
            r == self.spec_config().spec_global_seed(),
    {
        self.config.global_seed()
    }

    /// Set the global seed.
    pub fn set_global_seed(&mut self, seed: u64)
        ensures
            final(self).spec_config().spec_global_seed() == seed,
            final(self).spec_config().spec_core_count() == old(self).spec_config().spec_core_count(),
            final(self).spec_model() == old(self).spec_model(),
            final(self).spec_groups() == old(self).spec_groups(),
            final(self).spec_version() == old(self).spec_version(),
    {
        self.config.set_global_seed(seed);
    }

    /// A deterministic generator for a core at a tick, seeded by
    /// `hash_seed(global_seed, core_id, tick)`.
    pub fn create_core_rng(&self, core_id: usize, tick: u64) -> (r: GameRng)
        ensures
            r@ == seeded_state(mix(self.spec_config().spec_global_seed(), core_id as u64, tick)),
    {
        self.config.create_core_rng(core_id, tick)
    }

    /// A snapshot of the global model at the current version.
    pub fn snapshot(&self) -> (r: ModelSnapshot)
        ensures
            same_contents(r.spec_model(), self.spec_model()),
            r.spec_model().rng@ == self.spec_model().rng@,
            r.spec_version() == self.spec_version(),
    {
        ModelSnapshot::new(&self.model, self.version)
    }

    /// The tick of the global model.
    pub fn current_tick(&self) -> (r: u64)
        ensures
            r == self.spec_model().time.tick,
    {
        self.model.current_tick()
    }

    /// Run one tick over every group: fails with `NoGroups` when there is none; otherwise
    /// the groups run in order (see [`hub_step`]), the version goes up by one, and the
    /// result holds the global model's new tick and every core's result. The configured
    /// core count does not change what happens.
    pub fn tick<
        E: Fn(&Expr, &Model, Option<EntityId>, &ValueMap, &GameRng) -> Evaluated,
        P: Fn(&Vec<u64>, &GameRng) -> (Option<usize>, GameRng),
        F: Fn(ModifyOp, Option<Value>, u64) -> u64,
    >(&mut self, eval: &E, pick: &P, numeric: &F) -> (r: Result<TickResult, Error>)
        requires
            old(self).spec_groups().len() > 0 ==> old(self).spec_version() < u64::MAX,
            old(self).spec_groups().len() > 0 ==> old(self).spec_model().time.tick + old(
                self,
            ).spec_groups().len() < u64::MAX,
            forall|j: int|
                0 <= j < old(self).spec_groups().len() ==> (#[trigger] old(self).spec_groups()[j]).spec_tick()
                    < u64::MAX,
            evaluator_reads_scene(*eval),
            evaluator_is_total(*eval),
            picker_is_function(*pick),
            picker_is_total(*pick),
            numeric_is_total(*numeric),
            numeric_reads_models(*numeric),
        ensures
            old(self).spec_groups().len() == 0 ==> (r matches Err(Error::NoGroups) && *final(self)
                == *old(self)),
            old(self).spec_groups().len() > 0 ==> (r matches Ok(t) && hub_step(
                *eval,
                *pick,
                *numeric,
                old(self).spec_groups(),
                old(self).spec_model(),
                final(self).spec_groups(),
                final(self).spec_model(),
                t.updates@,
            ) && t.tick == final(self).spec_model().time.tick && final(self).spec_version() == old(
                self,
            ).spec_version() + 1 && final(self).spec_config() == old(self).spec_config()),
    {
        if self.groups.len() == 0 {
            return Err(Error::NoGroups);
        }
        if self.config.core_count() == 1 {
            self.tick_sequential(eval, pick, numeric)
        } else {
            self.tick_parallel(eval, pick, numeric)
        }
    }

    /// The multi-core path; it runs the groups exactly as the single-core path does.
    fn tick_parallel<
        E: Fn(&Expr, &Model, Option<EntityId>, &ValueMap, &GameRng) -> Evaluated,
        P: Fn(&Vec<u64>, &GameRng) -> (Option<usize>, GameRng),
        F: Fn(ModifyOp, Option<Value>, u64) -> u64,
    >(&mut self, eval: &E, pick: &P, numeric: &F) -> (r: Result<TickResult, Error>)
        requires
            old(self).spec_groups().len() > 0,
            old(self).spec_version() < u64::MAX,
            old(self).spec_model().time.tick + old(self).spec_groups().len() < u64::MAX,
            forall|j: int|
                0 <= j < old(self).spec_groups().len() ==> (#[trigger] old(self).spec_groups()[j]).spec_tick()
                    < u64::MAX,
            evaluator_reads_scene(*eval),
            evaluator_is_total(*eval),
            picker_is_function(*pick),
            picker_is_total(*pick),
            numeric_is_total(*numeric),
            numeric_reads_models(*numeric),
        ensures
            r matches Ok(t) && hub_step(
                *eval,
                *pick,
                *numeric,
                old(self).spec_groups(),
                old(self).spec_model(),
                final(self).spec_groups(),
                final(self).spec_model(),
                t.updates@,
            ) && t.tick == final(self).spec_model().time.tick && final(self).spec_version() == old(
                self,
            ).spec_version() + 1 && final(self).spec_config() == old(self).spec_config(),
    {
        self.tick_sequential(eval, pick, numeric)
    }

    /// The single-core path: for each group in order, load the global model into its
    /// cores, run the tick, take a copy of the first core's model as the global model,
    /// and advance the group's tick; then the version goes up by one.
    fn tick_sequential<
        E: Fn(&Expr, &Model, Option<EntityId>, &ValueMap, &GameRng) -> Evaluated,
        P: Fn(&Vec<u64>, &GameRng) -> (Option<usize>, GameRng),
        F: Fn(ModifyOp, Option<Value>, u64) -> u64,
    >(&mut self, eval: &E, pick: &P, numeric: &F) -> (r: Result<TickResult, Error>)
        requires
            old(self).spec_groups().len() > 0,
            old(self).spec_version() < u64::MAX,
            old(self).spec_model().time.tick + old(self).spec_groups().len() < u64::MAX,
            forall|j: int|
                0 <= j < old(self).spec_groups().len() ==> (#[trigger] old(self).spec_groups()[j]).spec_tick()
                    < u64::MAX,
            evaluator_reads_scene(*eval),
            evaluator_is_total(*eval),
            picker_is_function(*pick),
            picker_is_total(*pick),
            numeric_is_total(*numeric),
            numeric_reads_models(*numeric),
        ensures
            r matches Ok(t) && hub_step(
                *eval,
                *pick,
                *numeric,
                old(self).spec_groups(),
                old(self).spec_model(),
                final(self).spec_groups(),
                final(self).spec_model(),
                t.updates@,
            ) && t.tick == final(self).spec_model().time.tick && final(self).spec_version() == old(
                self,
            ).spec_version() + 1 && final(self).spec_config() == old(self).spec_config(),
    {
        let ghost gs0 = self.groups@;
        let ghost m0 = self.model;
        let ghost mut before: Seq<Model> = Seq::empty();
        let ghost mut after: Seq<Model> = Seq::empty();
        let ghost mut rs: Seq<Seq<UpdateResult>> = Seq::empty();
        let mut all_updates: Vec<UpdateResult> = Vec::new();
        let n = self.groups.len();
        let mut j: usize = 0;
        while j < n
            invariant
                n == gs0.len(),
                n > 0,
                j <= n,
                gs0 == old(self).groups@,
                m0 == old(self).model,
                self.groups@.len() == n,
                self.version == old(self).version,
                self.config == old(self).config,
                self.model.time.tick <= m0.time.tick + j,
                m0.time.tick + n < u64::MAX,
                forall|k: int| j <= k < n ==> #[trigger] self.groups@[k] == gs0[k],
                forall|k: int| 0 <= k < n ==> (#[trigger] gs0[k]).spec_tick() < u64::MAX,
                evaluator_reads_scene(*eval),
                evaluator_is_total(*eval),
                picker_is_function(*pick),
                picker_is_total(*pick),
                numeric_is_total(*numeric),
                numeric_reads_models(*numeric),
                before.len() == j,
                after.len() == j,
                rs.len() == j,
                j > 0 ==> before[0] == m0 && after[j - 1] == self.model,
                j == 0 ==> self.model == m0,
                forall|k: int| 0 < k < j ==> #[trigger] before[k] == after[k - 1],
                forall|k: int|
                    0 <= k < j ==> #[trigger] group_step(
                        *eval,
                        *pick,
                        *numeric,
                        gs0[k],
                        before[k],
                        self.groups@[k],
                        after[k],
                        rs[k],
                    ),
                all_updates@ == rs.flatten(),
            decreases n - j,
        {
            let ghost g0 = self.groups@[j as int];
            let ghost mb = self.model;
            self.groups[j].load_model(&self.model);
            let ghost gl = self.groups@[j as int];
            proof {
                gl.models_are_cores_models();
                g0.models_are_cores_models();
                assert forall|i: int| 0 <= i < gl.spec_models().len() implies (#[trigger] gl.spec_models()[i]).time.tick
                    < u64::MAX by {
                    assert(same_contents(gl.spec_models()[i], mb));
                }
            }
            let mut updates = self.groups[j].execute_tick(eval, pick, numeric);
            let ghost gt = self.groups@[j as int];
            let ghost ups = updates@;
            let ghost all0 = all_updates@;
            all_updates.append(&mut updates);
            let models = self.groups[j].extract_models();
            if models.len() > 0 {
                let copy = models[0].duplicate();
                self.model = copy;
            }
            self.groups[j].advance_tick();
            let ghost ga = self.groups@[j as int];
            proof {
                gt.models_are_cores_models();
                let c0 = g0.spec_cores();
                let loads = gl.spec_cores().map_values(|c: Core| c.model);
                let mid = gt.spec_cores();
                assert forall|i: int| 0 <= i < c0.len() implies #[trigger] core_step(
                    *eval,
                    *pick,
                    *numeric,
                    c0[i],
                    mb,
                    loads[i],
                    mid[i],
                    ups[i],
                ) && same_core(mid[i], ga.spec_cores()[i]) && reseeded(
                    mid[i].model,
                    ga.spec_cores()[i].model,
                    seeded_state(mix(g0.spec_base_seed(), i as u64, ga.spec_tick())),
                ) by {
                    assert(same_core(c0[i], gl.spec_cores()[i]));
                }
                assert(group_step_with(*eval, *pick, *numeric, g0, mb, ga, self.model, ups, loads, mid));
                assert(group_step(*eval, *pick, *numeric, g0, mb, ga, self.model, ups));
                let ghost ob = before;
                let ghost oa = after;
                let ghost ors = rs;
                before = before.push(mb);
                after = after.push(self.model);
                rs = rs.push(ups);
                ors.lemma_flatten_push(ups);
                assert(all_updates@ =~= all0 + ups);
                assert(rs.drop_last() =~= ors);
                assert forall|k: int| 0 < k < j + 1 implies #[trigger] before[k] == after[k - 1] by {
                    if k < j {
                        assert(before[k] == ob[k] && after[k - 1] == oa[k - 1]);
                    }
                }
                assert forall|k: int| 0 <= k < j + 1 implies #[trigger] group_step(
                    *eval,
                    *pick,
                    *numeric,
                    gs0[k],
                    before[k],
                    self.groups@[k],
                    after[k],
                    rs[k],
                ) by {
                    if k < j {
                        assert(before[k] == ob[k] && after[k] == oa[k] && rs[k] == ors[k]);
                    }
                }
                if models@.len() > 0 {
                    assert(self.model.time.tick == gt.spec_models()[0].time.tick);
                    assert(gt.spec_models()[0].time.tick == gl.spec_models()[0].time.tick + 1);
                    assert(same_contents(gl.spec_models()[0], mb));
                }
            }
            j = j + 1;
        }
        self.version = self.version + 1;
        proof {
            assert(hub_step_with(
                *eval,
                *pick,
                *numeric,
                gs0,
                m0,
                self.groups@,
                self.model,
                all_updates@,
                before,
                after,
                rs,
            ));
        }
        Ok(TickResult { tick: self.model.current_tick(), updates: all_updates })
    }
}

} // verus!
