//! The interface through which the hub drives a group of cores.
use vstd::prelude::*;
use crate::collect::{
    evaluator_is_total, evaluator_reads_scene, picker_is_function, picker_is_total, Evaluated,
};
use crate::cores::GroupId;
use crate::effect::ModifyOp;
use crate::execute::{numeric_is_total, numeric_reads_models};
use crate::expr::Expr;
use crate::identity::EntityId;
use crate::model::{same_contents, Model};
use crate::rng::GameRng;
use crate::runtime::UpdateResult;
use crate::value::{Value, ValueMap};

verus! {

/// A group of cores with its own execution strategy. The hub drives groups only through
/// this interface: load a model into every core, run a tick on every core, read the
/// cores' models back, advance the group's tick.
pub trait CoreGroup {
    /// The group's identifier.
    spec fn spec_id(&self) -> GroupId;

    /// The group's tick.
    spec fn spec_tick(&self) -> u64;

    /// The local models of the group's cores, in order.
    spec fn spec_models(&self) -> Seq<Model>;

    /// The group's identifier.
    fn id(&self) -> (r: GroupId)
        ensures
            r == self.spec_id(),
    ;

    /// The group's tick.
    fn tick(&self) -> (r: u64)
        ensures
            r == self.spec_tick(),
    ;

    /// The number of cores.
    fn core_count(&self) -> (r: usize)
        ensures
            r == self.spec_models().len(),
    ;

    /// Load a copy of `model` into every core.
    fn load_model(&mut self, model: &Model)
        ensures
            final(self).spec_id() == old(self).spec_id(),
            final(self).spec_tick() == old(self).spec_tick(),
            final(self).spec_models().len() == old(self).spec_models().len(),
            forall|i: int|
                0 <= i < final(self).spec_models().len() ==> same_contents(
                    #[trigger] final(self).spec_models()[i],
                    *model,
                ),
    ;

    /// Run one tick on every core; one result per core, in order.
    fn execute_tick<
        E: Fn(&Expr, &Model, Option<EntityId>, &ValueMap, &GameRng) -> Evaluated,
        P: Fn(&Vec<u64>, &GameRng) -> (Option<usize>, GameRng),
        F: Fn(ModifyOp, Option<Value>, u64) -> u64,
    >(&mut self, eval: &E, pick: &P, numeric: &F) -> (r: Vec<UpdateResult>)
        requires
            forall|i: int|
                0 <= i < old(self).spec_models().len() ==> (#[trigger] old(self).spec_models()[i]).time.tick
                    < u64::MAX,
            evaluator_reads_scene(*eval),
            evaluator_is_total(*eval),
            picker_is_function(*pick),
            picker_is_total(*pick),
            numeric_is_total(*numeric),
            numeric_reads_models(*numeric),
        ensures
            r@.len() == old(self).spec_models().len(),
            final(self).spec_id() == old(self).spec_id(),
            final(self).spec_tick() == old(self).spec_tick(),
            final(self).spec_models().len() == old(self).spec_models().len(),
            forall|i: int|
                0 <= i < final(self).spec_models().len() ==> (#[trigger] final(self).spec_models()[i]).time.tick
                    == old(self).spec_models()[i].time.tick + 1,
    ;

    /// The cores' local models, in order.
    fn extract_models(&self) -> (r: Vec<&Model>)
        ensures
            r@.len() == self.spec_models().len(),
            forall|i: int| 0 <= i < r@.len() ==> *(#[trigger] r@[i]) == self.spec_models()[i],
    ;

    /// Advance the group's tick by one.
    fn advance_tick(&mut self)
        requires
            old(self).spec_tick() < u64::MAX,
        ensures
            final(self).spec_id() == old(self).spec_id(),
            final(self).spec_tick() == old(self).spec_tick() + 1,
            final(self).spec_models().len() == old(self).spec_models().len(),
    ;
}

} // verus!
