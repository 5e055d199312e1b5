//! Applying the server's corrections to the client's state: adopting the server's state,
//! rolling back to a stored state, and replaying inputs after a rollback.
use vstd::prelude::*;
use crate::collect::{
    evaluator_is_total, evaluator_reads_scene, picker_is_function, picker_is_total, Evaluated,
};
use crate::effect::ModifyOp;
use crate::execute::{numeric_is_total, numeric_reads_models};
use crate::expr::Expr;
use crate::identity::EntityId;
use crate::input_buffer::NetcodeError;
use crate::model::{restored_from, same_contents, Model};
use crate::msg::{Msg, MsgModel};
use crate::prediction::{msg_models, queue_processed, replayed, replayed_with};
use crate::rng::GameRng;
use crate::rollback::StateHistory;
use crate::runtime::Runtime;
use crate::value::{Value, ValueMap};

verus! {

/// Restore `model` from the states a history handed back for `target`: the state of that
/// very tick when there is one (the result is `target`), else the nearest earlier state
/// (the result is its tick); with neither, fail with `StateNotFound(target)` and leave the
/// model unchanged.
pub fn restore(
    model: &mut Model,
    target: u64,
    exact: Option<&Model>,
    nearest: Option<(u64, &Model)>,
) -> (r: Result<u64, NetcodeError>)
    ensures
        exact matches Some(s) ==> r == Ok::<u64, NetcodeError>(target) && same_contents(*final(model), *s)
            && final(model).rng@ == s.rng@,
        exact is None ==> (nearest matches Some((t, s)) ==> r == Ok::<u64, NetcodeError>(t) && same_contents(
            *final(model),
            *s,
        ) && final(model).rng@ == s.rng@),
        exact is None && nearest is None ==> (r matches Err(NetcodeError::StateNotFound(t)) && t == target)
            && *final(model) == *old(model),
{
    match exact {
        Some(state) => {
            *model = state.duplicate();
            Ok(target)
        },
        None => match nearest {
            Some((tick, state)) => {
                *model = state.duplicate();
                Ok(tick)
            },
            None => Err(NetcodeError::StateNotFound(target)),
        },
    }
}

/// `start` is a copy of the latest state that `history` stores at or before `target`.
pub open spec fn restored_start<H: StateHistory>(history: H, target: u64, start: Model) -> bool {
    exists|t: u64|
        t <= target && (forall|u: u64| t < u <= target ==> (#[trigger] history.spec_state(u)) is None) && (
        #[trigger] history.spec_state(t) matches Some(s) && same_contents(start, s) && start.rng@
            == s.rng@)
}

/// Applies server corrections over a history of states.
pub struct Reconciler<H: StateHistory> {
    history: H,
    last_server_tick: u64,
}

impl<H: StateHistory> Reconciler<H> {
    /// The history of states.
    pub closed spec fn spec_history(&self) -> H {
        self.history
    }

    /// The last tick confirmed by the server.
    pub closed spec fn spec_last_server_tick(&self) -> u64 {
        self.last_server_tick
    }

    /// A reconciler over a history, at server tick 0.
    pub fn new(history: H) -> (r: Self)
        ensures
            r.spec_history() == history,
            r.spec_last_server_tick() == 0,
    {
        Reconciler { history, last_server_tick: 0 }
    }

    /// Adopt the server's state: the model becomes a copy of it, the history before the
    /// server's tick is cleared, and that tick is remembered.
    pub fn apply_correction(&mut self, model: &mut Model, server_state: &Model, server_tick: u64)
        ensures
            same_contents(*final(model), *server_state),
            final(model).rng@ == server_state.rng@,
            final(self).spec_last_server_tick() == server_tick,
            forall|t: u64|
                #[trigger] final(self).spec_history().spec_state(t) == if t < server_tick {
                    None
                } else {
                    old(self).spec_history().spec_state(t)
                },
    {
        *model = server_state.duplicate();
        self.history.clear_before(server_tick);
        self.last_server_tick = server_tick;
    }

    /// Restore the model to the stored state of a tick, or else to the nearest earlier
    /// stored state (see [`restore`]); returns the tick restored, or `StateNotFound`.
    pub fn rollback(&self, model: &mut Model, target_tick: u64) -> (r: Result<u64, NetcodeError>)
        ensures
            r is Err <==> forall|t: u64| t <= target_tick ==> (#[trigger] self.spec_history().spec_state(t)) is None,
            r is Err ==> (r matches Err(NetcodeError::StateNotFound(t)) && t == target_tick) && *final(model)
                == *old(model),
            r matches Ok(t) ==> t <= target_tick && (forall|u: u64|
                t < u <= target_tick ==> (#[trigger] self.spec_history().spec_state(u)) is None) && (
            self.spec_history().spec_state(t) matches Some(s) && same_contents(*final(model), s)
                && final(model).rng@ == s.rng@),
    {
        match self.history.get_state(target_tick) {
            Some(state) => restore(model, target_tick, Some(state), None),
            None => restore(model, target_tick, None, self.history.get_nearest_before(target_tick)),
        }
    }

    /// Roll back to a tick (see [`Reconciler::rollback`]), then send each input to the
    /// runtime and process the queue, in order. A failed rollback changes nothing.
    pub fn rollback_and_replay<
        E: Fn(&Expr, &Model, Option<EntityId>, &ValueMap, &GameRng) -> Evaluated,
        P: Fn(&Vec<u64>, &GameRng) -> (Option<usize>, GameRng),
        F: Fn(ModifyOp, Option<Value>, u64) -> u64,
    >(
        &mut self,
        model: &mut Model,
        runtime: &mut Runtime,
        target_tick: u64,
        inputs: &[Msg],
        eval: &E,
        pick: &P,
        numeric: &F,
    ) -> (r: Result<(), NetcodeError>)
        requires
            evaluator_reads_scene(*eval),
            evaluator_is_total(*eval),
            picker_is_function(*pick),
            picker_is_total(*pick),
            numeric_is_total(*numeric),
            numeric_reads_models(*numeric),
        ensures
            r is Err <==> forall|t: u64|
                t <= target_tick ==> (#[trigger] old(self).spec_history().spec_state(t)) is None,
            r is Err ==> (r matches Err(NetcodeError::StateNotFound(t)) && t == target_tick) && *final(model)
                == *old(model) && *final(runtime) == *old(runtime),
            r is Ok ==> exists|start: Model|
                #[trigger] replayed(
                    *eval,
                    *pick,
                    *numeric,
                    *old(runtime),
                    start,
                    msg_models(inputs@),
                    *final(runtime),
                    *final(model),
                ) && restored_start(old(self).spec_history(), target_tick, start),
            final(self).spec_last_server_tick() == old(self).spec_last_server_tick(),
    {
        let restored = self.rollback(model, target_tick);
        let ghost t0: u64 = 0;
        match restored {
            Err(e) => {
                return Err(e);
            },
            Ok(t) => {
                proof {
                    t0 = t;
                }
            },
        }
        let ghost start = *model;
        let ghost rt0 = *runtime;
        let ghost msgs = msg_models(inputs@);
        let ghost mut rts: Seq<Runtime> = seq![*runtime];
        let ghost mut ms: Seq<Model> = seq![*model];
        let ghost mut sent: Seq<Msg> = Seq::empty();
        let n = inputs.len();
        let mut i: usize = 0;
        while i < n
            invariant
                n == inputs@.len(),
                i <= n,
                msgs == msg_models(inputs@),
                evaluator_reads_scene(*eval),
                evaluator_is_total(*eval),
                picker_is_function(*pick),
                picker_is_total(*pick),
                numeric_is_total(*numeric),
                numeric_reads_models(*numeric),
                replayed_with(
                    *eval,
                    *pick,
                    *numeric,
                    rt0,
                    start,
                    msgs.take(i as int),
                    *runtime,
                    *model,
                    rts,
                    ms,
                    sent,
                ),
            decreases n - i,
        {
            let msg = inputs[i].duplicate();
            let ghost rtb = *runtime;
            let ghost mb = *model;
            runtime.send(msg);
            let result = runtime.process_queue(model, eval, pick, numeric);
            proof {
                assert(queue_processed(*eval, *pick, *numeric, rtb, mb, msg, *runtime, *model));
                let ors = rts;
                let oms = ms;
                let osent = sent;
                rts = rts.push(*runtime);
                ms = ms.push(*model);
                sent = sent.push(msg);
                let tk = msgs.take(i + 1);
                assert forall|q: int| 0 <= q < tk.len() implies (#[trigger] sent[q]).model() == tk[q]
                    && queue_processed(*eval, *pick, *numeric, rts[q], ms[q], sent[q], rts[q + 1], ms[q + 1]) by {
                    if q < i {
                        assert(sent[q] == osent[q] && rts[q] == ors[q] && ms[q] == oms[q]);
                        assert(rts[q + 1] == ors[q + 1] && ms[q + 1] == oms[q + 1]);
                        assert(tk[q] == msgs.take(i as int)[q]);
                    }
                }
            }
            i = i + 1;
        }
        proof {
            assert(msgs.take(n as int) =~= msgs);
            assert(replayed_with(*eval, *pick, *numeric, rt0, start, msgs, *runtime, *model, rts, ms, sent));
            assert(replayed(*eval, *pick, *numeric, rt0, start, msgs, *runtime, *model));
            assert(restored_start(self.history, target_tick, start)) by {
                assert(self.history.spec_state(t0) is Some);
            }
        }
        Ok(())
    }

    /// Save a state in the history: afterwards a copy of `model` is stored for `tick`.
    pub fn save_state(&mut self, tick: u64, model: &Model)
        ensures
            final(self).spec_history().spec_state(tick) matches Some(m) && restored_from(m, *model),
            final(self).spec_last_server_tick() == old(self).spec_last_server_tick(),
    {
        self.history.save_state(tick, model);
    }

    /// The last tick confirmed by the server.
    pub fn last_server_tick(&self) -> (r: u64)
        ensures
            r == self.spec_last_server_tick(),
    {
        self.last_server_tick
    }

    /// The history of states.
    pub fn history(&self) -> (r: &H)
        ensures
            *r == self.spec_history(),
    {
        &self.history
    }

    /// The history of states, to change it.
    pub fn history_mut(&mut self) -> (r: &mut H)
        ensures
            *r == old(self).spec_history(),
            final(self).spec_history() == *final(r),
            final(self).spec_last_server_tick() == old(self).spec_last_server_tick(),
    {
        &mut self.history
    }
}

} // verus!
