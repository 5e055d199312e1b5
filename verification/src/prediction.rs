//! Client-side prediction: inputs are applied locally at once and buffered; when the
//! server's authoritative state arrives, the client either adopts it or rolls back to it
//! and replays the inputs the server has not yet seen.
use vstd::prelude::*;
use crate::collect::{
    evaluator_is_total, evaluator_reads_scene, picker_is_function, picker_is_total, Evaluated,
};
use crate::dispatch::{fresh_run, queue_run, ticked};
use crate::effect::{EffectResult, ModifyOp};
use crate::execute::{numeric_is_total, numeric_reads_models, run_of};
use crate::expr::Expr;
use crate::identity::EntityId;
use crate::input_buffer::{lemma_later_entries_are_suffix, InputBuffer, InputEntry, NetcodeError};
use crate::model::{restored_from, same_contents, Model};
use crate::msg::{Msg, MsgModel};
use crate::rng::GameRng;
use crate::rollback::StateHistory;
use crate::runtime::{Runtime, UpdateResult};
use crate::value::{Value, ValueMap};

verus! {

/// Default capacity of the input buffer.
pub const DEFAULT_INPUT_CAPACITY: usize = 256;

/// From `rt0` and `m0`, `msg` was queued and the whole queue processed, giving `rt1` and
/// `m1`: the entities, globals and generator are those of running the queue (see
/// [`queue_run`]); the queue is left empty and the rest unchanged.
pub open spec fn queue_processed<
    E: Fn(&Expr, &Model, Option<EntityId>, &ValueMap, &GameRng) -> Evaluated,
    P: Fn(&Vec<u64>, &GameRng) -> (Option<usize>, GameRng),
    F: Fn(ModifyOp, Option<Value>, u64) -> u64,
>(eval: E, pick: P, numeric: F, rt0: Runtime, m0: Model, msg: Msg, rt1: Runtime, m1: Model) -> bool {
    &&& exists|er: EffectResult|
        #[trigger] run_of(&m1, &er) == queue_run(
            eval,
            pick,
            numeric,
            rt0.spec_tick_handlers(),
            rt0.spec_event_handlers(),
            rt0.spec_queue().push(msg),
            fresh_run(&m0),
        )
    &&& rt1.spec_queue().len() == 0
    &&& rt1.spec_scheduled() == rt0.spec_scheduled()
    &&& rt1.spec_tick_handlers() == rt0.spec_tick_handlers()
    &&& rt1.spec_event_handlers() == rt0.spec_event_handlers()
    &&& m1.time == m0.time
    &&& m1.actors == m0.actors
}

/// From `rt0` and `m0`, copies of the messages `msgs` were processed one after another
/// (see [`queue_processed`]) through the runtimes `rts` and models `ms`, giving `rt1` and
/// `m1`; `sent` are the copies.
pub open spec fn replayed_with<
    E: Fn(&Expr, &Model, Option<EntityId>, &ValueMap, &GameRng) -> Evaluated,
    P: Fn(&Vec<u64>, &GameRng) -> (Option<usize>, GameRng),
    F: Fn(ModifyOp, Option<Value>, u64) -> u64,
>(
    eval: E,
    pick: P,
    numeric: F,
    rt0: Runtime,
    m0: Model,
    msgs: Seq<MsgModel>,
    rt1: Runtime,
    m1: Model,
    rts: Seq<Runtime>,
    ms: Seq<Model>,
    sent: Seq<Msg>,
) -> bool {
    &&& rts.len() == msgs.len() + 1
    &&& ms.len() == msgs.len() + 1
    &&& sent.len() == msgs.len()
    &&& rts[0] == rt0
    &&& ms[0] == m0
    &&& rts.last() == rt1
    &&& ms.last() == m1
    &&& forall|i: int|
        0 <= i < msgs.len() ==> (#[trigger] sent[i]).model() == msgs[i] && queue_processed(
            eval,
            pick,
            numeric,
            rts[i],
            ms[i],
            sent[i],
            rts[i + 1],
            ms[i + 1],
        )
}

/// From `rt0` and `m0`, copies of the messages `msgs` were processed one after another,
/// giving `rt1` and `m1` (see [`replayed_with`]).
pub open spec fn replayed<
    E: Fn(&Expr, &Model, Option<EntityId>, &ValueMap, &GameRng) -> Evaluated,
    P: Fn(&Vec<u64>, &GameRng) -> (Option<usize>, GameRng),
    F: Fn(ModifyOp, Option<Value>, u64) -> u64,
>(
    eval: E,
    pick: P,
    numeric: F,
    rt0: Runtime,
    m0: Model,
    msgs: Seq<MsgModel>,
    rt1: Runtime,
    m1: Model,
) -> bool {
    exists|rts: Seq<Runtime>, ms: Seq<Model>, sent: Seq<Msg>|
        #[trigger] replayed_with(eval, pick, numeric, rt0, m0, msgs, rt1, m1, rts, ms, sent)
}

/// The models of a sequence of messages.
pub open spec fn msg_models(s: Seq<Msg>) -> Seq<MsgModel> {
    s.map_values(|m: Msg| m.model())
}

/// The messages of the buffered inputs after `tick`, in order.
pub open spec fn messages_after(inputs: Seq<InputEntry>, tick: u64) -> Seq<MsgModel> {
    inputs.filter(|e: InputEntry| e.tick > tick).map_values(|e: InputEntry| e.msg.model())
}

/// The simple comparison of a predicted state with the server's: the same tick and the
/// same number of globals.
pub open spec fn states_match_spec(a: Model, b: Model) -> bool {
    a.time.tick == b.time.tick && a.globals@.len() == b.globals@.len()
}

/// Whether the client must roll back, given its own state at the server's tick, if it
/// has one: when it has none, or when it does not match the server's state.
pub fn needs_correction(ours: Option<&Model>, server_state: &Model) -> (r: bool)
    ensures
        r == match ours {
            Some(m) => !states_match_spec(*m, *server_state),
            None => true,
        },
{
    match ours {
        Some(our) => !(our.current_tick() == server_state.current_tick() && our.globals().len()
            == server_state.globals().len()),
        None => true,
    }
}

/// Client-side prediction over a history of states.
pub struct PredictionEngine<H: StateHistory> {
    history: H,
    input_buffer: InputBuffer,
    last_server_tick: u64,
    predicted_tick: u64,
}

impl<H: StateHistory> PredictionEngine<H> {
    /// The buffered inputs are in increasing tick order, all older than the predicted tick.
    pub closed spec fn wf(&self) -> bool {
        let e = self.input_buffer.entries();
        &&& forall|i: int| 0 <= i < e.len() ==> #[trigger] e[i].tick < self.predicted_tick
        &&& forall|i: int, j: int| 0 <= i < j < e.len() ==> #[trigger] e[i].tick < #[trigger] e[j].tick
    }

    /// The buffered inputs not yet confirmed by the server, oldest first.
    pub closed spec fn spec_inputs(&self) -> Seq<InputEntry> {
        self.input_buffer.entries()
    }

    /// The capacity of the input buffer.
    pub closed spec fn spec_input_capacity(&self) -> usize {
        self.input_buffer.spec_capacity()
    }

    /// The last tick confirmed by the server.
    pub closed spec fn spec_last_server_tick(&self) -> u64 {
        self.last_server_tick
    }

    /// The current predicted tick.
    pub closed spec fn spec_predicted_tick(&self) -> u64 {
        self.predicted_tick
    }

    /// The history of states.
    pub closed spec fn spec_history(&self) -> H {
        self.history
    }

    /// The buffered inputs are in increasing tick order, all older than the predicted
    /// tick.
    pub fn inputs_are_ordered(&self)
        requires
            self.wf(),
        ensures
            forall|i: int|
                0 <= i < self.spec_inputs().len() ==> #[trigger] self.spec_inputs()[i].tick
                    < self.spec_predicted_tick(),
            forall|i: int, j: int|
                0 <= i < j < self.spec_inputs().len() ==> #[trigger] self.spec_inputs()[i].tick
                    < #[trigger] self.spec_inputs()[j].tick,
    {
    }

    /// An engine over a history, with an input buffer of the default capacity, at tick 0.
    pub fn new(history: H) -> (r: Self)
        ensures
            r.spec_history() == history,
            r.spec_inputs().len() == 0,
            r.spec_input_capacity() == DEFAULT_INPUT_CAPACITY,
            r.spec_last_server_tick() == 0,
            r.spec_predicted_tick() == 0,
            r.wf(),
    {
        Self::with_input_capacity(history, DEFAULT_INPUT_CAPACITY)
    }

    /// An engine over a history, with an input buffer of the given capacity, at tick 0.
    pub fn with_input_capacity(history: H, capacity: usize) -> (r: Self)
        ensures
            r.spec_history() == history,
            r.spec_inputs().len() == 0,
            r.spec_input_capacity() == capacity,
            r.spec_last_server_tick() == 0,
            r.spec_predicted_tick() == 0,
            r.wf(),
    {
        PredictionEngine { history, input_buffer: InputBuffer::new(capacity), last_server_tick: 0, predicted_tick: 0 }
    }

    /// Apply a local input: the state is saved in the history at the predicted tick, a copy
    /// of the input is buffered at that tick (failing with `InputBufferFull` when the
    /// buffer is full, and then changing nothing else), the input is sent to the runtime
    /// and the queue processed, and the predicted tick goes up by one.
    pub fn predict<
        E: Fn(&Expr, &Model, Option<EntityId>, &ValueMap, &GameRng) -> Evaluated,
        P: Fn(&Vec<u64>, &GameRng) -> (Option<usize>, GameRng),
        F: Fn(ModifyOp, Option<Value>, u64) -> u64,
    >(
        &mut self,
        model: &mut Model,
        runtime: &mut Runtime,
        input: Msg,
        eval: &E,
        pick: &P,
        numeric: &F,
    ) -> (r: Result<(), NetcodeError>)
        requires
            old(self).wf(),
            old(self).spec_predicted_tick() < u64::MAX,
            evaluator_reads_scene(*eval),
            evaluator_is_total(*eval),
            picker_is_function(*pick),
            picker_is_total(*pick),
            numeric_is_total(*numeric),
            numeric_reads_models(*numeric),
        ensures
            final(self).wf(),
            final(self).spec_history().spec_state(old(self).spec_predicted_tick()) matches Some(m)
                && restored_from(m, *old(model)),
            final(self).spec_input_capacity() == old(self).spec_input_capacity(),
            final(self).spec_last_server_tick() == old(self).spec_last_server_tick(),
            old(self).spec_inputs().len() >= old(self).spec_input_capacity() ==> (r matches Err(
                NetcodeError::InputBufferFull,
            )) && *final(model) == *old(model) && *final(runtime) == *old(runtime)
                && final(self).spec_inputs() == old(self).spec_inputs() && final(self).spec_predicted_tick()
                == old(self).spec_predicted_tick(),
            old(self).spec_inputs().len() < old(self).spec_input_capacity() ==> r is Ok
                && final(self).spec_inputs().len() == old(self).spec_inputs().len() + 1
                && final(self).spec_inputs().drop_last() == old(self).spec_inputs() && final(self).spec_inputs().last().tick == old(self).spec_predicted_tick() && final(self).spec_inputs().last().msg.model() == input.model() && !final(self).spec_inputs().last().acknowledged && queue_processed(
                *eval,
                *pick,
                *numeric,
                *old(runtime),
                *old(model),
                input,
                *final(runtime),
                *final(model),
            ) && final(self).spec_predicted_tick() == old(self).spec_predicted_tick() + 1,
    {
        self.history.save_state(self.predicted_tick, model);
        let copy = input.duplicate();
        let mut buffer = InputBuffer::new(0);
        std::mem::swap(&mut buffer, &mut self.input_buffer);
        let pushed = buffer.push(self.predicted_tick, copy);
        match pushed {
            Err(e) => {
                self.input_buffer = buffer;
                return Err(e);
            },
            Ok(()) => {},
        }
        let ghost inputs = buffer.entries();
        let ghost rt0 = *runtime;
        let ghost m0 = *model;
        runtime.send(input);
        let result = runtime.process_queue(model, eval, pick, numeric);
        proof {
            assert(run_of(model, &result.effect_result) == queue_run(
                *eval,
                *pick,
                *numeric,
                rt0.spec_tick_handlers(),
                rt0.spec_event_handlers(),
                rt0.spec_queue().push(input),
                fresh_run(&m0),
            ));
        }
        self.predicted_tick = self.predicted_tick + 1;
        self.input_buffer = buffer;
        proof {
            assert(inputs.drop_last() =~= old(self).spec_inputs());
            assert forall|i: int, j: int| 0 <= i < j < inputs.len() implies #[trigger] inputs[i].tick < #[trigger] inputs[j].tick by {
                if j < inputs.len() - 1 {
                    assert(inputs[i] == old(self).spec_inputs()[i] && inputs[j] == old(self).spec_inputs()[j]);
                } else {
                    assert(inputs[i] == old(self).spec_inputs()[i]);
                }
            }
            assert forall|i: int| 0 <= i < inputs.len() implies #[trigger] inputs[i].tick < self.predicted_tick by {
                if i < inputs.len() - 1 {
                    assert(inputs[i] == old(self).spec_inputs()[i]);
                }
            }
        }
        Ok(())
    }

    /// Advance one tick without input: the state is saved in the history at the predicted
    /// tick, the runtime runs one tick (see [`Runtime::tick`]) and the predicted tick goes
    /// up by one.
    pub fn advance<
        E: Fn(&Expr, &Model, Option<EntityId>, &ValueMap, &GameRng) -> Evaluated,
        P: Fn(&Vec<u64>, &GameRng) -> (Option<usize>, GameRng),
        F: Fn(ModifyOp, Option<Value>, u64) -> u64,
    >(&mut self, model: &mut Model, runtime: &mut Runtime, eval: &E, pick: &P, numeric: &F)
        requires
            old(self).wf(),
            old(self).spec_predicted_tick() < u64::MAX,
            old(model).time.tick < u64::MAX,
            evaluator_reads_scene(*eval),
            evaluator_is_total(*eval),
            picker_is_function(*pick),
            picker_is_total(*pick),
            numeric_is_total(*numeric),
            numeric_reads_models(*numeric),
        ensures
            final(self).wf(),
            final(self).spec_history().spec_state(old(self).spec_predicted_tick()) matches Some(m)
                && restored_from(m, *old(model)),
            exists|r: UpdateResult|
                #[trigger] ticked(*eval, *pick, *numeric, *old(runtime), *old(model), *final(runtime), *final(model), r),
            final(self).spec_predicted_tick() == old(self).spec_predicted_tick() + 1,
            final(self).spec_inputs() == old(self).spec_inputs(),
            final(self).spec_input_capacity() == old(self).spec_input_capacity(),
            final(self).spec_last_server_tick() == old(self).spec_last_server_tick(),
    {
        self.history.save_state(self.predicted_tick, model);
        let r = runtime.tick(model, eval, pick, numeric);
        self.predicted_tick = self.predicted_tick + 1;
    }

    /// Reconcile with the server's state at `server_tick`. The inputs up to that tick are
    /// acknowledged. When the server is at or past the predicted tick, the model becomes a
    /// copy of the server's state, the predicted tick becomes the server's and the result
    /// is `false`. Otherwise the client's own state at that tick is read from the history:
    /// when it is missing or does not match (see [`needs_correction`]), the model rolls
    /// back to a copy of the server's state, the history before that tick is cleared, the
    /// remaining inputs are replayed in order, the predicted tick becomes one past the
    /// newest input (or the server's tick when none remains), and the result is `true`;
    /// else nothing more changes and the result is `false`.
    pub fn reconcile<
        E: Fn(&Expr, &Model, Option<EntityId>, &ValueMap, &GameRng) -> Evaluated,
        P: Fn(&Vec<u64>, &GameRng) -> (Option<usize>, GameRng),
        F: Fn(ModifyOp, Option<Value>, u64) -> u64,
    >(
        &mut self,
        model: &mut Model,
        runtime: &mut Runtime,
        server_state: &Model,
        server_tick: u64,
        eval: &E,
        pick: &P,
        numeric: &F,
    ) -> (r: Result<bool, NetcodeError>)
        requires
            old(self).wf(),
            evaluator_reads_scene(*eval),
            evaluator_is_total(*eval),
            picker_is_function(*pick),
            picker_is_total(*pick),
            numeric_is_total(*numeric),
            numeric_reads_models(*numeric),
        ensures
            final(self).wf(),
            r is Ok,
            final(self).spec_last_server_tick() == server_tick,
            final(self).spec_input_capacity() == old(self).spec_input_capacity(),
            final(self).spec_inputs() == old(self).spec_inputs().filter(|e: InputEntry| e.tick > server_tick),
            server_tick >= old(self).spec_predicted_tick() ==> r == Ok::<bool, NetcodeError>(false)
                && same_contents(*final(model), *server_state) && final(model).rng@ == server_state.rng@
                && *final(runtime) == *old(runtime) && final(self).spec_predicted_tick() == server_tick,
            server_tick < old(self).spec_predicted_tick() ==> (r == Ok::<bool, NetcodeError>(true) <==> match old(
                self,
            ).spec_history().spec_state(server_tick) {
                Some(m) => !states_match_spec(m, *server_state),
                None => true,
            }),
            server_tick < old(self).spec_predicted_tick() && r == Ok::<bool, NetcodeError>(false) ==> *final(model) == *old(model) && *final(runtime) == *old(runtime) && final(self).spec_predicted_tick()
                == old(self).spec_predicted_tick(),
            server_tick < old(self).spec_predicted_tick() && r == Ok::<bool, NetcodeError>(true) ==> (exists|
                start: Model,
            |
                same_contents(start, *server_state) && start.rng@ == server_state.rng@ && #[trigger] replayed(
                    *eval,
                    *pick,
                    *numeric,
                    *old(runtime),
                    start,
                    messages_after(final(self).spec_inputs(), server_tick),
                    *final(runtime),
                    *final(model),
                )) && final(self).spec_predicted_tick() == (if final(self).spec_inputs().len() == 0 {
                server_tick
            } else {
                (final(self).spec_inputs().last().tick + 1) as u64
            }),
    {
        let mut buffer = InputBuffer::new(0);
        std::mem::swap(&mut buffer, &mut self.input_buffer);
        buffer.acknowledge(server_tick);
        let ghost k = lemma_later_entries_are_suffix(old(self).spec_inputs(), server_tick);
        proof {
            let o = old(self).spec_inputs();
            let e = buffer.entries();
            assert forall|i: int| 0 <= i < e.len() implies #[trigger] e[i].tick < self.predicted_tick by {
                assert(e[i] == o[i + k]);
            }
            assert forall|i: int, j: int| 0 <= i < j < e.len() implies #[trigger] e[i].tick < #[trigger] e[j].tick by {
                assert(e[i] == o[i + k] && e[j] == o[j + k]);
            }
        }
        self.input_buffer = buffer;
        self.last_server_tick = server_tick;
        if server_tick >= self.predicted_tick {
            proof {
                let o = old(self).spec_inputs();
                if k < o.len() {
                    assert(o[k].tick < old(self).predicted_tick);
                }
                assert(self.input_buffer.entries().len() == 0);
            }
            *model = server_state.duplicate();
            self.predicted_tick = server_tick;
            return Ok(false);
        }
        let needs = needs_correction(self.history.get_state(server_tick), server_state);
        if needs {
            *model = server_state.duplicate();
            let ghost start = *model;
            let ghost rt0 = *runtime;
            self.history.clear_before(server_tick);
            let replay = self.input_buffer.inputs_after(server_tick);
            let ghost msgs = messages_after(self.input_buffer.entries(), server_tick);
            let mut copies: Vec<(u64, Msg)> = Vec::new();
            let n = replay.len();
            let mut i: usize = 0;
            while i < n
                invariant
                    n == replay@.len(),
                    i <= n,
                    copies@.len() == i,
                    forall|j: int|
                        0 <= j < i ==> (#[trigger] copies@[j]).0 == replay@[j].tick && copies@[j].1.model()
                            == replay@[j].msg.model(),
                decreases n - i,
            {
                copies.push((replay[i].tick, replay[i].msg.duplicate()));
                i = i + 1;
            }
            proof {
                assert(replay@.map_values(|e: &InputEntry| *e) == self.input_buffer.entries().filter(
                    |e: InputEntry| e.tick > server_tick,
                ));
                assert(msgs.len() == n);
                assert forall|j: int| 0 <= j < n implies copies@[j].1.model() == #[trigger] msgs[j] by {
                    assert(replay@.map_values(|e: &InputEntry| *e)[j] == *replay@[j]);
                }
            }
            let ghost buf = self.input_buffer;
            let ghost pt = self.predicted_tick;
            let ghost lt = self.last_server_tick;
            let ghost mut rts: Seq<Runtime> = seq![*runtime];
            let ghost mut ms: Seq<Model> = seq![*model];
            let ghost mut sent: Seq<Msg> = Seq::empty();
            let mut j: usize = 0;
            let ghost cs = copies@;
            while copies.len() > 0
                invariant
                    cs.len() == n,
                    msgs.len() == n,
                    j <= n,
                    copies@ == cs.skip(j as int),
                    forall|q: int| 0 <= q < n ==> (#[trigger] cs[q]).1.model() == msgs[q],
                    self.input_buffer == buf,
                    self.predicted_tick == pt,
                    self.last_server_tick == lt,
                    evaluator_reads_scene(*eval),
                    evaluator_is_total(*eval),
                    picker_is_function(*pick),
                    picker_is_total(*pick),
                    numeric_is_total(*numeric),
                    numeric_reads_models(*numeric),
                    replayed_with(
                        *eval,
                        *pick,
                        *numeric,
                        rt0,
                        start,
                        msgs.take(j as int),
                        *runtime,
                        *model,
                        rts,
                        ms,
                        sent,
                    ),
                decreases copies@.len(),
            {
                let (tick, msg) = copies.remove(0);
                self.history.save_state(tick, model);
                let ghost rtb = *runtime;
                let ghost mb = *model;
                runtime.send(msg);
                let result = runtime.process_queue(model, eval, pick, numeric);
                proof {
                    assert(cs[j as int] == (tick, msg));
                    assert(queue_processed(*eval, *pick, *numeric, rtb, mb, msg, *runtime, *model));
                    let ors = rts;
                    let oms = ms;
                    let osent = sent;
                    rts = rts.push(*runtime);
                    ms = ms.push(*model);
                    sent = sent.push(msg);
                    let tk = msgs.take(j + 1);
                    assert forall|q: int| 0 <= q < tk.len() implies (#[trigger] sent[q]).model() == tk[q]
                        && queue_processed(*eval, *pick, *numeric, rts[q], ms[q], sent[q], rts[q + 1], ms[q + 1]) by {
                        if q < j {
                            assert(sent[q] == osent[q] && rts[q] == ors[q] && ms[q] == oms[q]);
                            assert(rts[q + 1] == ors[q + 1] && ms[q + 1] == oms[q + 1]);
                            assert(tk[q] == msgs.take(j as int)[q]);
                        }
                    }
                    assert(copies@ =~= cs.skip(j + 1));
                }
                j = j + 1;
            }
            proof {
                assert(msgs.take(n as int) =~= msgs);
            }
            self.predicted_tick = match self.input_buffer.newest_tick() {
                Some(t) => t + 1,
                None => server_tick,
            };
            proof {
                assert(replayed_with(*eval, *pick, *numeric, rt0, start, msgs, *runtime, *model, rts, ms, sent));
                assert(replayed(*eval, *pick, *numeric, rt0, start, msgs, *runtime, *model));
                assert(same_contents(start, *server_state) && start.rng@ == server_state.rng@);
                let e = self.input_buffer.entries();
                if e.len() > 0 {
                    assert forall|i: int| 0 <= i < e.len() implies #[trigger] e[i].tick < self.predicted_tick by {
                        if i < e.len() - 1 {
                            assert(e[i].tick < e[e.len() - 1].tick);
                        }
                    }
                }
            }
        }
        Ok(needs)
    }

    /// The predicted tick.
    pub fn predicted_tick(&self) -> (r: u64)
        ensures
            r == self.spec_predicted_tick(),
    {
        self.predicted_tick
    }

    /// The last tick confirmed by the server.
    pub fn last_server_tick(&self) -> (r: u64)
        ensures
            r == self.spec_last_server_tick(),
    {
        self.last_server_tick
    }

    /// How many ticks the prediction is ahead of the server (zero when behind).
    pub fn prediction_frames(&self) -> (r: u64)
        ensures
            r == (if self.spec_predicted_tick() > self.spec_last_server_tick() {
                self.spec_predicted_tick() - self.spec_last_server_tick()
            } else {
                0
            }),
    {
        self.predicted_tick.saturating_sub(self.last_server_tick)
    }

    /// The number of buffered inputs.
    pub fn pending_inputs(&self) -> (r: usize)
        ensures
            r == self.spec_inputs().len(),
    {
        self.input_buffer.len()
    }

    /// The history of states.
    pub fn history(&self) -> (r: &H)
        ensures
            *r == self.spec_history(),
    {
        &self.history
    }

    /// The history of states, to change it.
    pub fn history_mut(&mut self) -> (r: &mut H)
        requires
            old(self).wf(),
        ensures
            final(self).wf(),
            *r == old(self).spec_history(),
            final(self).spec_history() == *final(r),
            final(self).spec_inputs() == old(self).spec_inputs(),
            final(self).spec_input_capacity() == old(self).spec_input_capacity(),
            final(self).spec_last_server_tick() == old(self).spec_last_server_tick(),
            final(self).spec_predicted_tick() == old(self).spec_predicted_tick(),
    {
        &mut self.history
    }

    /// Clear the history and the input buffer and return to tick 0.
    pub fn reset(&mut self)
        ensures
            final(self).wf(),
            final(self).spec_inputs().len() == 0,
            final(self).spec_input_capacity() == old(self).spec_input_capacity(),
            final(self).spec_last_server_tick() == 0,
            final(self).spec_predicted_tick() == 0,
            forall|t: u64| (#[trigger] final(self).spec_history().spec_state(t)) is None,
    {
        self.history.clear();
        let mut buffer = InputBuffer::new(0);
        std::mem::swap(&mut buffer, &mut self.input_buffer);
        buffer.clear();
        self.last_server_tick = 0;
        self.predicted_tick = 0;
        self.input_buffer = buffer;
    }
}

} // verus!
