//! Dispatching messages to handlers: tick messages run the tick handlers, events and
//! commands run the event handlers registered for their ID, each in priority order.
use vstd::prelude::*;
use crate::cmd::{flatten, Cmd};
use crate::collect::{
    eval_at, evaluate, evaluator_is_total, evaluator_reads_scene, passes, picker_is_function,
    picker_is_total, resolve_id, target_id, Evaluated,
};
use crate::effect::{Effect, EffectResult, ModifyOp};
use crate::entity::{has_entity, EntityModel, EntityRef};
use crate::execute::{
    copy_rng, numeric_is_total, numeric_reads_models, run_list, run_of, run_scene, run_with_rng,
    Run,
};
use crate::expr::Expr;
use crate::identity::EntityId;
use crate::model::Model;
use crate::msg::{Msg, MsgKind};
use crate::rng::GameRng;
use crate::runtime::{descending, event_priorities, insert_point, EventHandler, Runtime, TickHandler, UpdateResult};
use crate::value::{Value, ValueMap};

verus! {

/// The run state of a model with an empty effect result.
pub open spec fn fresh_run(m: &Model) -> Run {
    Run {
        entities: m.entities@,
        next_id: m.entities.spec_next_id(),
        globals: m.globals@,
        rng: m.rng,
        emitted: Seq::empty(),
        scheduled: Seq::empty(),
        logs: Seq::empty(),
        notes: Seq::empty(),
        spawned: Seq::empty(),
        destroyed: Seq::empty(),
    }
}

/// Running a handler's effects for one entity: nothing when the entity no longer exists;
/// otherwise the condition, if any, is evaluated with the entity as target and the effects
/// run with the entity as target when it passes.
pub open spec fn handler_one<
    E: Fn(&Expr, &Model, Option<EntityId>, &ValueMap, &GameRng) -> Evaluated,
    P: Fn(&Vec<u64>, &GameRng) -> (Option<usize>, GameRng),
    F: Fn(ModifyOp, Option<Value>, u64) -> u64,
>(
    eval: E,
    pick: P,
    numeric: F,
    cond: Option<Expr>,
    effs: Seq<Effect>,
    p: &ValueMap,
    id: u64,
    st: Run,
) -> Run {
    let tgt = EntityRef::Entity(EntityId(id));
    if !has_entity(st.entities, id) {
        st
    } else {
        match cond {
            None => run_list(eval, pick, numeric, p, effs, tgt, st),
            Some(c) => {
                let ev = eval_at(eval, &c, run_scene(st), Some(EntityId(id)), p, st.rng);
                let s1 = run_with_rng(st, ev.rng);
                if passes(ev) {
                    run_list(eval, pick, numeric, p, effs, tgt, s1)
                } else {
                    s1
                }
            },
        }
    }
}

/// Running a handler's effects for each entity ID in order.
pub open spec fn handler_each<
    E: Fn(&Expr, &Model, Option<EntityId>, &ValueMap, &GameRng) -> Evaluated,
    P: Fn(&Vec<u64>, &GameRng) -> (Option<usize>, GameRng),
    F: Fn(ModifyOp, Option<Value>, u64) -> u64,
>(
    eval: E,
    pick: P,
    numeric: F,
    cond: Option<Expr>,
    effs: Seq<Effect>,
    p: &ValueMap,
    ids: Seq<u64>,
    st: Run,
) -> Run
    decreases ids.len(),
{
    if ids.len() == 0 {
        st
    } else {
        handler_one(
            eval,
            pick,
            numeric,
            cond,
            effs,
            p,
            ids.last(),
            handler_each(eval, pick, numeric, cond, effs, p, ids.drop_last(), st),
        )
    }
}

/// Running a tick handler for a message: for each entity of its target kind (listed when
/// it starts), or once with the global target when it has none.
pub open spec fn tick_handler_run<
    E: Fn(&Expr, &Model, Option<EntityId>, &ValueMap, &GameRng) -> Evaluated,
    P: Fn(&Vec<u64>, &GameRng) -> (Option<usize>, GameRng),
    F: Fn(ModifyOp, Option<Value>, u64) -> u64,
>(eval: E, pick: P, numeric: F, h: TickHandler, msg: Msg, st: Run) -> Run {
    match h.target_kind {
        Some(kind) => {
            let ids = st.entities.filter(|x: EntityModel| x.kind == kind@).map_values(|x: EntityModel| x.id);
            handler_each(eval, pick, numeric, h.condition, h.effects@, &msg.params, ids, st)
        },
        None => match h.condition {
            None => run_list(eval, pick, numeric, &msg.params, h.effects@, EntityRef::Global, st),
            Some(c) => {
                let ev = eval_at(eval, &c, run_scene(st), None, &msg.params, st.rng);
                let s1 = run_with_rng(st, ev.rng);
                if passes(ev) {
                    run_list(eval, pick, numeric, &msg.params, h.effects@, EntityRef::Global, s1)
                } else {
                    s1
                }
            },
        },
    }
}

/// Running an event handler for a message: the condition, if any, is evaluated with the
/// message's target, and the effects run with that target when it passes.
pub open spec fn event_handler_run<
    E: Fn(&Expr, &Model, Option<EntityId>, &ValueMap, &GameRng) -> Evaluated,
    P: Fn(&Vec<u64>, &GameRng) -> (Option<usize>, GameRng),
    F: Fn(ModifyOp, Option<Value>, u64) -> u64,
>(eval: E, pick: P, numeric: F, h: EventHandler, msg: Msg, st: Run) -> Run {
    match h.condition {
        None => run_list(eval, pick, numeric, &msg.params, h.effects@, msg.target, st),
        Some(c) => {
            let ev = eval_at(eval, &c, run_scene(st), target_id(st.entities, msg.target.model()), &msg.params, st.rng);
            let s1 = run_with_rng(st, ev.rng);
            if passes(ev) {
                run_list(eval, pick, numeric, &msg.params, h.effects@, msg.target, s1)
            } else {
                s1
            }
        },
    }
}

/// Running tick handlers in order.
pub open spec fn ticks_run<
    E: Fn(&Expr, &Model, Option<EntityId>, &ValueMap, &GameRng) -> Evaluated,
    P: Fn(&Vec<u64>, &GameRng) -> (Option<usize>, GameRng),
    F: Fn(ModifyOp, Option<Value>, u64) -> u64,
>(eval: E, pick: P, numeric: F, hs: Seq<TickHandler>, msg: Msg, st: Run) -> Run
    decreases hs.len(),
{
    if hs.len() == 0 {
        st
    } else {
        tick_handler_run(eval, pick, numeric, hs.last(), msg, ticks_run(eval, pick, numeric, hs.drop_last(), msg, st))
    }
}

/// Running event handlers in order.
pub open spec fn events_run<
    E: Fn(&Expr, &Model, Option<EntityId>, &ValueMap, &GameRng) -> Evaluated,
    P: Fn(&Vec<u64>, &GameRng) -> (Option<usize>, GameRng),
    F: Fn(ModifyOp, Option<Value>, u64) -> u64,
>(eval: E, pick: P, numeric: F, hs: Seq<EventHandler>, msg: Msg, st: Run) -> Run
    decreases hs.len(),
{
    if hs.len() == 0 {
        st
    } else {
        event_handler_run(eval, pick, numeric, hs.last(), msg, events_run(eval, pick, numeric, hs.drop_last(), msg, st))
    }
}

/// The event handlers registered for an ID, in order.
pub open spec fn handlers_of(hs: Seq<EventHandler>, id: Seq<char>) -> Seq<EventHandler> {
    hs.filter(for_event(id))
}

/// Whether a handler is registered for an ID.
pub open spec fn for_event(id: Seq<char>) -> spec_fn(EventHandler) -> bool {
    |h: EventHandler| h.event_id@ == id
}

/// Processing one message: a tick runs every tick handler; an event, a scheduled event or
/// a command with an ID runs the event handlers registered for that ID; any other message
/// changes nothing.
pub open spec fn update_run<
    E: Fn(&Expr, &Model, Option<EntityId>, &ValueMap, &GameRng) -> Evaluated,
    P: Fn(&Vec<u64>, &GameRng) -> (Option<usize>, GameRng),
    F: Fn(ModifyOp, Option<Value>, u64) -> u64,
>(
    eval: E,
    pick: P,
    numeric: F,
    ticks: Seq<TickHandler>,
    events: Seq<EventHandler>,
    msg: Msg,
    st: Run,
) -> Run {
    match msg.kind {
        MsgKind::Tick => ticks_run(eval, pick, numeric, ticks, msg, st),
        MsgKind::Event | MsgKind::ScheduledEvent | MsgKind::Command => match msg.event_id {
            Some(id) => events_run(eval, pick, numeric, handlers_of(events, id@), msg, st),
            None => st,
        },
        _ => st,
    }
}

/// Processing messages in order.
pub open spec fn queue_run<
    E: Fn(&Expr, &Model, Option<EntityId>, &ValueMap, &GameRng) -> Evaluated,
    P: Fn(&Vec<u64>, &GameRng) -> (Option<usize>, GameRng),
    F: Fn(ModifyOp, Option<Value>, u64) -> u64,
>(
    eval: E,
    pick: P,
    numeric: F,
    ticks: Seq<TickHandler>,
    events: Seq<EventHandler>,
    msgs: Seq<Msg>,
    st: Run,
) -> Run
    decreases msgs.len(),
{
    if msgs.len() == 0 {
        st
    } else {
        update_run(
            eval,
            pick,
            numeric,
            ticks,
            events,
            msgs.last(),
            queue_run(eval, pick, numeric, ticks, events, msgs.drop_last(), st),
        )
    }
}

/// One tick of a runtime from `rt0` and `m0` to `rt1` and `m1` with result `r`: the tick
/// goes up by one; the scheduled messages due by the new tick (a prefix of the schedule)
/// are queued after the waiting ones and a tick message follows; the whole queue runs
/// from the model's entities, globals and generator; the queue is left empty, the rest of
/// the schedule stays, and the handlers, the actors and the result's command and messages
/// are unchanged or empty.
pub open spec fn ticked<
    E: Fn(&Expr, &Model, Option<EntityId>, &ValueMap, &GameRng) -> Evaluated,
    P: Fn(&Vec<u64>, &GameRng) -> (Option<usize>, GameRng),
    F: Fn(ModifyOp, Option<Value>, u64) -> u64,
>(
    eval: E,
    pick: P,
    numeric: F,
    rt0: Runtime,
    m0: Model,
    rt1: Runtime,
    m1: Model,
    r: UpdateResult,
) -> bool {
    &&& m1.time.tick == m0.time.tick + 1
    &&& m1.actors == m0.actors
    &&& r.cmd is Nothing
    &&& r.emitted_messages@.len() == 0
    &&& exists|q: Seq<Msg>, mid: Model|
        #[trigger] queue_run(
            eval,
            pick,
            numeric,
            rt0.spec_tick_handlers(),
            rt0.spec_event_handlers(),
            q,
            fresh_run(&mid),
        ) == run_of(&m1, &r.effect_result) && q.len() > 0 && q.last().kind == MsgKind::Tick
            && q.last().tick == m1.time.tick && mid.entities == m0.entities && mid.globals
            == m0.globals && mid.rng == m0.rng && exists|k: int|
            0 <= k <= rt0.spec_scheduled().len() && (forall|i: int|
                0 <= i < k ==> (#[trigger] rt0.spec_scheduled()[i]).0 <= m1.time.tick) && (forall|i: int|
                k <= i < rt0.spec_scheduled().len() ==> (#[trigger] rt0.spec_scheduled()[i]).0
                    > m1.time.tick) && rt1.spec_scheduled() == #[trigger] rt0.spec_scheduled().subrange(
                k,
                rt0.spec_scheduled().len() as int,
            ) && q.drop_last() == rt0.spec_queue() + rt0.spec_scheduled().subrange(0, k).map_values(
                |e: (u64, Msg)| e.1,
            )
    &&& rt1.spec_queue().len() == 0
    &&& rt1.spec_tick_handlers() == rt0.spec_tick_handlers()
    &&& rt1.spec_event_handlers() == rt0.spec_event_handlers()
}

impl Runtime {
    /// Run a tick handler for a message: for each entity of its target kind that still
    /// exists when its turn comes, or once with the global target when it has no kind.
    fn run_tick_handler<
        E: Fn(&Expr, &Model, Option<EntityId>, &ValueMap, &GameRng) -> Evaluated,
        P: Fn(&Vec<u64>, &GameRng) -> (Option<usize>, GameRng),
        F: Fn(ModifyOp, Option<Value>, u64) -> u64,
    >(
        &self,
        model: &mut Model,
        h: &TickHandler,
        msg: &Msg,
        result: &mut EffectResult,
        eval: &E,
        pick: &P,
        numeric: &F,
    )
        requires
            evaluator_reads_scene(*eval),
            evaluator_is_total(*eval),
            picker_is_function(*pick),
            picker_is_total(*pick),
            numeric_is_total(*numeric),
            numeric_reads_models(*numeric),
        ensures
            run_of(final(model), final(result)) == tick_handler_run(
                *eval,
                *pick,
                *numeric,
                *h,
                *msg,
                run_of(old(model), old(result)),
            ),
            final(model).time == old(model).time,
            final(model).actors == old(model).actors,
    {
        match &h.target_kind {
            Some(kind) => {
                let ghost st0 = run_of(model, result);
                let ids = model.entities.by_kind(kind);
                let ghost idm = ids@.map_values(|x: EntityId| x.0);
                let n = ids.len();
                let mut i: usize = 0;
                while i < n
                    invariant
                        n == ids@.len(),
                        idm == ids@.map_values(|x: EntityId| x.0),
                        idm == st0.entities.filter(|x: EntityModel| x.kind == kind@).map_values(
                            |x: EntityModel| x.id,
                        ),
                        i <= n,
                        evaluator_reads_scene(*eval),
                        evaluator_is_total(*eval),
                        picker_is_function(*pick),
                        picker_is_total(*pick),
                        numeric_is_total(*numeric),
                        numeric_reads_models(*numeric),
                        st0 == run_of(old(model), old(result)),
                        run_of(model, result) == handler_each(
                            *eval,
                            *pick,
                            *numeric,
                            h.condition,
                            h.effects@,
                            &msg.params,
                            idm.subrange(0, i as int),
                            st0,
                        ),
                        model.time == old(model).time,
                        model.actors == old(model).actors,
                    decreases n - i,
                {
                    let ghost prev = run_of(model, result);
                    let id = ids[i];
                    let each_target = EntityRef::Entity(id);
                    if model.entities.get(id).is_some() {
                        match &h.condition {
                            None => {
                                self.execute_all(model, &h.effects, &each_target, &msg.params, result, eval, pick, numeric);
                            },
                            Some(c) => {
                                let mut g = copy_rng(model);
                                let (v, _, truthy, _) = evaluate(eval, c, &*model, Some(id), &msg.params, &mut g);
                                model.rng = g;
                                if v.is_some() && truthy {
                                    self.execute_all(model, &h.effects, &each_target, &msg.params, result, eval, pick, numeric);
                                }
                            },
                        }
                    }
                    proof {
                        let sub = idm.subrange(0, i + 1);
                        assert(sub.drop_last() =~= idm.subrange(0, i as int));
                        assert(sub.last() == id.0);
                        assert(run_of(model, result) == handler_one(*eval, *pick, *numeric, h.condition, h.effects@, &msg.params, id.0, prev));
                    }
                    i = i + 1;
                }
                proof {
                    assert(idm.subrange(0, n as int) =~= idm);
                }
            },
            None => {
                let global = EntityRef::Global;
                match &h.condition {
                    None => {
                        self.execute_all(model, &h.effects, &global, &msg.params, result, eval, pick, numeric);
                    },
                    Some(c) => {
                        let mut g = copy_rng(model);
                        let (v, _, truthy, _) = evaluate(eval, c, &*model, None, &msg.params, &mut g);
                        model.rng = g;
                        if v.is_some() && truthy {
                            self.execute_all(model, &h.effects, &global, &msg.params, result, eval, pick, numeric);
                        }
                    },
                }
            },
        }
    }

    /// Run an event handler for a message, with the message's target and parameters.
    fn run_event_handler<
        E: Fn(&Expr, &Model, Option<EntityId>, &ValueMap, &GameRng) -> Evaluated,
        P: Fn(&Vec<u64>, &GameRng) -> (Option<usize>, GameRng),
        F: Fn(ModifyOp, Option<Value>, u64) -> u64,
    >(
        &self,
        model: &mut Model,
        h: &EventHandler,
        msg: &Msg,
        result: &mut EffectResult,
        eval: &E,
        pick: &P,
        numeric: &F,
    )
        requires
            evaluator_reads_scene(*eval),
            evaluator_is_total(*eval),
            picker_is_function(*pick),
            picker_is_total(*pick),
            numeric_is_total(*numeric),
            numeric_reads_models(*numeric),
        ensures
            run_of(final(model), final(result)) == event_handler_run(
                *eval,
                *pick,
                *numeric,
                *h,
                *msg,
                run_of(old(model), old(result)),
            ),
            final(model).time == old(model).time,
            final(model).actors == old(model).actors,
    {
        match &h.condition {
            None => {
                self.execute_all(model, &h.effects, &msg.target, &msg.params, result, eval, pick, numeric);
            },
            Some(c) => {
                let tid = resolve_id(&model.entities, &msg.target);
                let mut g = copy_rng(model);
                let (v, _, truthy, _) = evaluate(eval, c, &*model, tid, &msg.params, &mut g);
                model.rng = g;
                if v.is_some() && truthy {
                    self.execute_all(model, &h.effects, &msg.target, &msg.params, result, eval, pick, numeric);
                }
            },
        }
    }

    /// Process one message into an effect result.
    pub(crate) fn update_into<
        E: Fn(&Expr, &Model, Option<EntityId>, &ValueMap, &GameRng) -> Evaluated,
        P: Fn(&Vec<u64>, &GameRng) -> (Option<usize>, GameRng),
        F: Fn(ModifyOp, Option<Value>, u64) -> u64,
    >(
        &self,
        model: &mut Model,
        msg: &Msg,
        result: &mut EffectResult,
        eval: &E,
        pick: &P,
        numeric: &F,
    )
        requires
            evaluator_reads_scene(*eval),
            evaluator_is_total(*eval),
            picker_is_function(*pick),
            picker_is_total(*pick),
            numeric_is_total(*numeric),
            numeric_reads_models(*numeric),
        ensures
            run_of(final(model), final(result)) == update_run(
                *eval,
                *pick,
                *numeric,
                self.spec_tick_handlers(),
                self.spec_event_handlers(),
                *msg,
                run_of(old(model), old(result)),
            ),
            final(model).time == old(model).time,
            final(model).actors == old(model).actors,
    {
        match &msg.kind {
            MsgKind::Tick => {
                let hs = self.tick_handlers();
                let n = hs.len();
                let mut i: usize = 0;
                while i < n
                    invariant
                        n == hs@.len(),
                        hs@ == self.spec_tick_handlers(),
                        i <= n,
                        evaluator_reads_scene(*eval),
                        evaluator_is_total(*eval),
                        picker_is_function(*pick),
                        picker_is_total(*pick),
                        numeric_is_total(*numeric),
                        numeric_reads_models(*numeric),
                        run_of(model, result) == ticks_run(
                            *eval,
                            *pick,
                            *numeric,
                            hs@.subrange(0, i as int),
                            *msg,
                            run_of(old(model), old(result)),
                        ),
                        model.time == old(model).time,
                        model.actors == old(model).actors,
                    decreases n - i,
                {
                    self.run_tick_handler(model, &hs[i], msg, result, eval, pick, numeric);
                    proof {
                        let sub = hs@.subrange(0, i + 1);
                        assert(sub.drop_last() =~= hs@.subrange(0, i as int));
                        assert(sub.last() == hs@[i as int]);
                    }
                    i = i + 1;
                }
                assert(hs@.subrange(0, n as int) =~= hs@);
            },
            MsgKind::Event | MsgKind::ScheduledEvent | MsgKind::Command => {
                match &msg.event_id {
                    Some(id) => {
                        let hs = self.handlers_for(id);
                        let ghost hv = hs@.map_values(|h: &EventHandler| *h);
                        let n = hs.len();
                        let mut i: usize = 0;
                        while i < n
                            invariant
                                n == hs@.len(),
                                hv == hs@.map_values(|h: &EventHandler| *h),
                                hv == handlers_of(self.spec_event_handlers(), id@),
                                i <= n,
                                evaluator_reads_scene(*eval),
                                evaluator_is_total(*eval),
                                picker_is_function(*pick),
                                picker_is_total(*pick),
                                numeric_is_total(*numeric),
                                numeric_reads_models(*numeric),
                                run_of(model, result) == events_run(
                                    *eval,
                                    *pick,
                                    *numeric,
                                    hv.subrange(0, i as int),
                                    *msg,
                                    run_of(old(model), old(result)),
                                ),
                                model.time == old(model).time,
                                model.actors == old(model).actors,
                            decreases n - i,
                        {
                            self.run_event_handler(model, hs[i], msg, result, eval, pick, numeric);
                            proof {
                                let sub = hv.subrange(0, i + 1);
                                assert(sub.drop_last() =~= hv.subrange(0, i as int));
                                assert(sub.last() == *hs@[i as int]);
                            }
                            i = i + 1;
                        }
                        assert(hv.subrange(0, n as int) =~= hv);
                    },
                    None => {},
                }
            },
            _ => {},
        }
    }

    /// Process one message: a tick runs every tick handler; an event, a scheduled event or
    /// a command with an ID runs the event handlers registered for that ID; other messages
    /// do nothing. Handlers run in order; see [`Runtime::execute_effect`] for `eval`,
    /// `pick` and `numeric`. The result holds no command and no message.
    pub fn update<
        E: Fn(&Expr, &Model, Option<EntityId>, &ValueMap, &GameRng) -> Evaluated,
        P: Fn(&Vec<u64>, &GameRng) -> (Option<usize>, GameRng),
        F: Fn(ModifyOp, Option<Value>, u64) -> u64,
    >(
        &mut self,
        model: &mut Model,
        msg: Msg,
        eval: &E,
        pick: &P,
        numeric: &F,
    ) -> (r: UpdateResult)
        requires
            evaluator_reads_scene(*eval),
            evaluator_is_total(*eval),
            picker_is_function(*pick),
            picker_is_total(*pick),
            numeric_is_total(*numeric),
            numeric_reads_models(*numeric),
        ensures
            r.cmd is Nothing,
            r.emitted_messages@.len() == 0,
            run_of(final(model), &r.effect_result) == update_run(
                *eval,
                *pick,
                *numeric,
                old(self).spec_tick_handlers(),
                old(self).spec_event_handlers(),
                msg,
                fresh_run(old(model)),
            ),
            final(model).time == old(model).time,
            final(model).actors == old(model).actors,
            *final(self) == *old(self),
    {
        let mut result = UpdateResult::new();
        proof {
            assert(run_of(model, &result.effect_result) == fresh_run(model)) by {
                assert(crate::execute::ids_of(result.effect_result.spawned@) =~= Seq::<u64>::empty());
                assert(crate::execute::ids_of(result.effect_result.destroyed@) =~= Seq::<u64>::empty());
                assert(crate::collect::emitted_model(result.effect_result.emitted_events@) =~= Seq::empty());
                assert(crate::collect::scheduled_model(result.effect_result.scheduled_events@) =~= Seq::empty());
                assert(crate::collect::logs_model(result.effect_result.logs@) =~= Seq::empty());
                assert(crate::collect::notes_model(result.effect_result.notifications@) =~= Seq::empty());
            }
        }
        self.update_into(model, &msg, &mut result.effect_result, eval, pick, numeric);
        result
    }

    /// Process every queued message in order, leaving the queue empty; the effect results
    /// are gathered in one result, which holds no command and no message.
    pub fn process_queue<
        E: Fn(&Expr, &Model, Option<EntityId>, &ValueMap, &GameRng) -> Evaluated,
        P: Fn(&Vec<u64>, &GameRng) -> (Option<usize>, GameRng),
        F: Fn(ModifyOp, Option<Value>, u64) -> u64,
    >(
        &mut self,
        model: &mut Model,
        eval: &E,
        pick: &P,
        numeric: &F,
    ) -> (r: UpdateResult)
        requires
            evaluator_reads_scene(*eval),
            evaluator_is_total(*eval),
            picker_is_function(*pick),
            picker_is_total(*pick),
            numeric_is_total(*numeric),
            numeric_reads_models(*numeric),
        ensures
            r.cmd is Nothing,
            r.emitted_messages@.len() == 0,
            run_of(final(model), &r.effect_result) == queue_run(
                *eval,
                *pick,
                *numeric,
                old(self).spec_tick_handlers(),
                old(self).spec_event_handlers(),
                old(self).spec_queue(),
                fresh_run(old(model)),
            ),
            final(self).spec_queue().len() == 0,
            final(self).spec_scheduled() == old(self).spec_scheduled(),
            final(self).spec_tick_handlers() == old(self).spec_tick_handlers(),
            final(self).spec_event_handlers() == old(self).spec_event_handlers(),
            final(model).time == old(model).time,
            final(model).actors == old(model).actors,
    {
        let mut result = UpdateResult::new();
        proof {
            assert(run_of(model, &result.effect_result) == fresh_run(model)) by {
                assert(crate::execute::ids_of(result.effect_result.spawned@) =~= Seq::<u64>::empty());
                assert(crate::execute::ids_of(result.effect_result.destroyed@) =~= Seq::<u64>::empty());
                assert(crate::collect::emitted_model(result.effect_result.emitted_events@) =~= Seq::empty());
                assert(crate::collect::scheduled_model(result.effect_result.scheduled_events@) =~= Seq::empty());
                assert(crate::collect::logs_model(result.effect_result.logs@) =~= Seq::empty());
                assert(crate::collect::notes_model(result.effect_result.notifications@) =~= Seq::empty());
            }
        }
        let ghost q0 = self.spec_queue();
        let mut cmds: Vec<Cmd> = Vec::new();
        let n = self.queued();
        let mut i: usize = 0;
        while i < n
            invariant
                n == q0.len(),
                i <= n,
                q0 == old(self).spec_queue(),
                self.spec_queue() == q0.subrange(i as int, n as int),
                self.spec_scheduled() == old(self).spec_scheduled(),
                self.spec_tick_handlers() == old(self).spec_tick_handlers(),
                self.spec_event_handlers() == old(self).spec_event_handlers(),
                evaluator_reads_scene(*eval),
                evaluator_is_total(*eval),
                picker_is_function(*pick),
                picker_is_total(*pick),
                numeric_is_total(*numeric),
                numeric_reads_models(*numeric),
                run_of(model, &result.effect_result) == queue_run(
                    *eval,
                    *pick,
                    *numeric,
                    old(self).spec_tick_handlers(),
                    old(self).spec_event_handlers(),
                    q0.subrange(0, i as int),
                    fresh_run(old(model)),
                ),
                result.cmd is Nothing,
                result.emitted_messages@.len() == 0,
                flatten(cmds@).len() == 0,
                model.time == old(model).time,
                model.actors == old(model).actors,
            decreases n - i,
        {
            let msg = match self.next_message() {
                Some(m) => m,
                None => {
                    proof {
                        assert(false);
                    }
                    Msg::tick(0)
                },
            };
            proof {
                assert(msg == q0[i as int]);
                assert(self.spec_queue() =~= q0.subrange(i + 1, n as int));
            }
            self.update_into(model, &msg, &mut result.effect_result, eval, pick, numeric);
            let ghost c0 = cmds@;
            cmds.push(Cmd::none());
            proof {
                assert(cmds@.drop_last() =~= c0);
                let sub = q0.subrange(0, i + 1);
                assert(sub.drop_last() =~= q0.subrange(0, i as int));
                assert(sub.last() == q0[i as int]);
            }
            i = i + 1;
        }
        proof {
            assert(q0.subrange(0, n as int) =~= q0);
            assert(self.spec_queue().len() == 0);
        }
        result.cmd = Cmd::batch(cmds);
        result
    }

    /// Advance one tick: the model's tick goes up by one, the scheduled messages due by
    /// then are queued after the waiting ones, a tick message follows, and the whole queue
    /// is processed (see [`Runtime::process_queue`] and [`ticked`]).
    pub fn tick<
        E: Fn(&Expr, &Model, Option<EntityId>, &ValueMap, &GameRng) -> Evaluated,
        P: Fn(&Vec<u64>, &GameRng) -> (Option<usize>, GameRng),
        F: Fn(ModifyOp, Option<Value>, u64) -> u64,
    >(
        &mut self,
        model: &mut Model,
        eval: &E,
        pick: &P,
        numeric: &F,
    ) -> (r: UpdateResult)
        requires
            old(model).time.tick < u64::MAX,
            evaluator_reads_scene(*eval),
            evaluator_is_total(*eval),
            picker_is_function(*pick),
            picker_is_total(*pick),
            numeric_is_total(*numeric),
            numeric_reads_models(*numeric),
        ensures
            ticked(*eval, *pick, *numeric, *old(self), *old(model), *final(self), *final(model), r),
    {
        let t = self.begin_tick(model);
        let ghost mid = *model;
        let ghost q = self.spec_queue();
        let r = self.process_queue(model, eval, pick, numeric);
        proof {
            assert(queue_run(
                *eval,
                *pick,
                *numeric,
                old(self).spec_tick_handlers(),
                old(self).spec_event_handlers(),
                q,
                fresh_run(&mid),
            ) == run_of(model, &r.effect_result));
        }
        r
    }
}


/// A scheduled message is handled in the tick that reaches its due tick and waits in the
/// others: when a tick reaches the due tick of the entry at `i` of the schedule, its message
/// runs in that tick's queue after the messages that were waiting and the entries before it,
/// and ahead of the tick message; otherwise the entry stays in the schedule.
pub proof fn lemma_tick_takes_due_messages<
    E: Fn(&Expr, &Model, Option<EntityId>, &ValueMap, &GameRng) -> Evaluated,
    P: Fn(&Vec<u64>, &GameRng) -> (Option<usize>, GameRng),
    F: Fn(ModifyOp, Option<Value>, u64) -> u64,
>(eval: E, pick: P, numeric: F, rt0: Runtime, m0: Model, rt1: Runtime, m1: Model, r: UpdateResult, i: int)
    requires
        ticked(eval, pick, numeric, rt0, m0, rt1, m1, r),
        0 <= i < rt0.spec_scheduled().len(),
    ensures
        rt0.spec_scheduled()[i].0 <= m1.time.tick ==> exists|q: Seq<Msg>, mid: Model|
            #[trigger] queue_run(
                eval,
                pick,
                numeric,
                rt0.spec_tick_handlers(),
                rt0.spec_event_handlers(),
                q,
                fresh_run(&mid),
            ) == run_of(&m1, &r.effect_result) && q.last().kind == MsgKind::Tick && rt0.spec_queue().len() + i
                < q.len() - 1 && q[rt0.spec_queue().len() + i] == rt0.spec_scheduled()[i].1,
        rt0.spec_scheduled()[i].0 > m1.time.tick ==> rt1.spec_scheduled().contains(rt0.spec_scheduled()[i]),
{
    let s = rt0.spec_scheduled();
    let (q, mid) = choose|q: Seq<Msg>, mid: Model|
        #[trigger] queue_run(
            eval,
            pick,
            numeric,
            rt0.spec_tick_handlers(),
            rt0.spec_event_handlers(),
            q,
            fresh_run(&mid),
        ) == run_of(&m1, &r.effect_result) && q.len() > 0 && q.last().kind == MsgKind::Tick
            && q.last().tick == m1.time.tick && mid.entities == m0.entities && mid.globals
            == m0.globals && mid.rng == m0.rng && exists|k: int|
            0 <= k <= s.len() && (forall|j: int| 0 <= j < k ==> (#[trigger] s[j]).0 <= m1.time.tick) && (
            forall|j: int| k <= j < s.len() ==> (#[trigger] s[j]).0 > m1.time.tick)
                && rt1.spec_scheduled() == #[trigger] s.subrange(k, s.len() as int) && q.drop_last()
                == rt0.spec_queue() + s.subrange(0, k).map_values(|e: (u64, Msg)| e.1);
    let k = choose|k: int|
        0 <= k <= s.len() && (forall|j: int| 0 <= j < k ==> (#[trigger] s[j]).0 <= m1.time.tick) && (
        forall|j: int| k <= j < s.len() ==> (#[trigger] s[j]).0 > m1.time.tick) && rt1.spec_scheduled()
            == #[trigger] s.subrange(k, s.len() as int) && q.drop_last() == rt0.spec_queue() + s.subrange(
            0,
            k,
        ).map_values(|e: (u64, Msg)| e.1);
    if s[i].0 <= m1.time.tick {
        assert(i < k);
        let n = rt0.spec_queue().len();
        assert(s.subrange(0, k).map_values(|e: (u64, Msg)| e.1).len() == k);
        assert(q.drop_last().len() == n + k);
        assert(q.len() == n + k + 1);
        assert(q.drop_last()[n + i] == s.subrange(0, k).map_values(|e: (u64, Msg)| e.1)[i]);
        assert(q[n + i] == q.drop_last()[n + i]);
    } else {
        assert(i >= k);
        assert(rt1.spec_scheduled()[i - k] == s[i]);
    }
}


/// The handlers for an event keep the non-increasing priority order of all handlers.
proof fn lemma_handlers_of_descending(hs: Seq<EventHandler>, id: Seq<char>)
    requires
        descending(event_priorities(hs)),
    ensures
        descending(event_priorities(handlers_of(hs, id))),
    decreases hs.len(),
{
    reveal_with_fuel(Seq::<EventHandler>::filter, 1);
    if hs.len() > 0 {
        let p = hs.drop_last();
        assert(descending(event_priorities(p))) by {
            assert forall|i: int, j: int| 0 <= i < j < event_priorities(p).len() implies #[trigger] event_priorities(
                p,
            )[i] >= #[trigger] event_priorities(p)[j] by {
                assert(event_priorities(hs)[i] >= event_priorities(hs)[j]);
            }
        }
        lemma_handlers_of_descending(p, id);
        let f = handlers_of(p, id);
        let last = hs.last();
        if last.event_id@ == id {
            let g = f.push(last);
            assert(handlers_of(hs, id) == g);
            assert forall|i: int, j: int| 0 <= i < j < event_priorities(g).len() implies #[trigger] event_priorities(
                g,
            )[i] >= #[trigger] event_priorities(g)[j] by {
                if j < f.len() {
                    assert(event_priorities(f)[i] >= event_priorities(f)[j]);
                } else {
                    assert(f.contains(f[i]));
                    p.lemma_filter_contains_rev(for_event(id), f[i]);
                    let k = choose|k: int| 0 <= k < p.len() && p[k] == f[i];
                    assert(event_priorities(hs)[k] >= event_priorities(hs)[hs.len() - 1]);
                }
            }
        }
    }
}

/// Registering an event handler (see [`Runtime::on_event`]) keeps the handlers that a
/// message for an event runs (see [`update_run`]) in non-increasing priority order: higher
/// priorities run first. For its own event the new handler runs after every handler
/// registered before it with a priority at least its own, and before the others; the
/// handlers of other events are unchanged.
pub proof fn lemma_event_handler_order(rt0: Runtime, h: EventHandler, rt1: Runtime, id: Seq<char>)
    requires
        descending(event_priorities(rt0.spec_event_handlers())),
        exists|pos: int|
            insert_point(rt0.spec_event_handlers(), |x: EventHandler| x.priority >= h.priority, pos)
                && rt1.spec_event_handlers() == #[trigger] rt0.spec_event_handlers().insert(pos, h),
    ensures
        descending(event_priorities(handlers_of(rt1.spec_event_handlers(), id))),
        h.event_id@ == id ==> exists|k: int|
            0 <= k <= handlers_of(rt0.spec_event_handlers(), id).len() && handlers_of(rt1.spec_event_handlers(), id)
                == handlers_of(rt0.spec_event_handlers(), id).insert(k, h) && (forall|j: int|
                0 <= j < k ==> (#[trigger] handlers_of(rt0.spec_event_handlers(), id)[j]).priority >= h.priority)
                && (forall|j: int|
                k <= j < handlers_of(rt0.spec_event_handlers(), id).len() ==> (#[trigger] handlers_of(
                    rt0.spec_event_handlers(),
                    id,
                )[j]).priority < h.priority),
        h.event_id@ != id ==> handlers_of(rt1.spec_event_handlers(), id) == handlers_of(rt0.spec_event_handlers(), id),
{
    let old_hs = rt0.spec_event_handlers();
    let new_hs = rt1.spec_event_handlers();
    let pos = choose|pos: int|
        insert_point(old_hs, |x: EventHandler| x.priority >= h.priority, pos) && new_hs == #[trigger] old_hs.insert(
            pos,
            h,
        );
    let pred = for_event(id);
    let a = old_hs.take(pos);
    let c = old_hs.skip(pos);
    assert(new_hs =~= a + seq![h] + c);
    assert(old_hs =~= a + c);
    Seq::filter_distributes_over_add(a, c, pred);
    Seq::filter_distributes_over_add(a + seq![h], c, pred);
    Seq::filter_distributes_over_add(a, seq![h], pred);
    reveal_with_fuel(Seq::<EventHandler>::filter, 2);
    assert(seq![h].drop_last() =~= Seq::<EventHandler>::empty());
    let fa = a.filter(pred);
    let fc = c.filter(pred);
    assert(handlers_of(old_hs, id) == fa + fc);
    assert forall|j: int| 0 <= j < fa.len() implies (#[trigger] fa[j]).priority >= h.priority by {
        assert(fa.contains(fa[j]));
        a.lemma_filter_contains_rev(pred, fa[j]);
        let k = choose|k: int| 0 <= k < a.len() && a[k] == fa[j];
        assert(old_hs[k] == a[k]);
    }
    assert forall|j: int| 0 <= j < fc.len() implies (#[trigger] fc[j]).priority < h.priority by {
        assert(fc.contains(fc[j]));
        c.lemma_filter_contains_rev(pred, fc[j]);
        let k = choose|k: int| 0 <= k < c.len() && c[k] == fc[j];
        assert(old_hs[pos + k] == c[k]);
    }
    assert(descending(event_priorities(new_hs))) by {
        assert forall|i: int, j: int| 0 <= i < j < event_priorities(new_hs).len() implies #[trigger] event_priorities(
            new_hs,
        )[i] >= #[trigger] event_priorities(new_hs)[j] by {
            if i < pos && j < pos {
                assert(event_priorities(old_hs)[i] >= event_priorities(old_hs)[j]);
            } else if i < pos && j > pos {
                assert(event_priorities(old_hs)[i] >= event_priorities(old_hs)[j - 1]);
            } else if i > pos {
                assert(event_priorities(old_hs)[i - 1] >= event_priorities(old_hs)[j - 1]);
            } else if i < pos && j == pos {
                assert(old_hs[i].priority >= h.priority);
            } else {
                assert(!(old_hs[j - 1].priority >= h.priority));
            }
        }
    }
    lemma_handlers_of_descending(new_hs, id);
    if h.event_id@ == id {
        assert(handlers_of(new_hs, id) =~= (fa + fc).insert(fa.len() as int, h));
        assert forall|j: int| 0 <= j < fa.len() implies (#[trigger] (fa + fc)[j]).priority >= h.priority by {
            assert((fa + fc)[j] == fa[j]);
        }
        assert forall|j: int| fa.len() <= j < (fa + fc).len() implies (#[trigger] (fa + fc)[j]).priority < h.priority by {
            assert((fa + fc)[j] == fc[j - fa.len()]);
        }
    } else {
        assert(handlers_of(new_hs, id) =~= fa + fc);
    }
}

/// A run of ticks: `rts[i]` and `ms[i]` become `rts[i + 1]` and `ms[i + 1]` by a tick with
/// result `rs[i]` (see [`ticked`]).
pub open spec fn ticks_ran<
    E: Fn(&Expr, &Model, Option<EntityId>, &ValueMap, &GameRng) -> Evaluated,
    P: Fn(&Vec<u64>, &GameRng) -> (Option<usize>, GameRng),
    F: Fn(ModifyOp, Option<Value>, u64) -> u64,
>(eval: E, pick: P, numeric: F, rts: Seq<Runtime>, ms: Seq<Model>, rs: Seq<UpdateResult>) -> bool {
    &&& rts.len() == rs.len() + 1
    &&& ms.len() == rs.len() + 1
    &&& forall|i: int| 0 <= i < rs.len() ==> #[trigger] ticked(eval, pick, numeric, rts[i], ms[i], rts[i + 1], ms[i + 1], rs[i])
}

/// Over a run of ticks, a scheduled message waits in the schedule through every tick that
/// stays below its due tick, and runs in the first tick that reaches it: in that tick's
/// queue after the messages that were waiting and the schedule entries before it, ahead of
/// the tick message.
pub proof fn lemma_scheduled_message_runs_when_due<
    E: Fn(&Expr, &Model, Option<EntityId>, &ValueMap, &GameRng) -> Evaluated,
    P: Fn(&Vec<u64>, &GameRng) -> (Option<usize>, GameRng),
    F: Fn(ModifyOp, Option<Value>, u64) -> u64,
>(
    eval: E,
    pick: P,
    numeric: F,
    rts: Seq<Runtime>,
    ms: Seq<Model>,
    rs: Seq<UpdateResult>,
    idx: int,
    j: int,
)
    requires
        ticks_ran(eval, pick, numeric, rts, ms, rs),
        0 <= idx < rts[0].spec_scheduled().len(),
        0 <= j < rs.len(),
        forall|i: int| 0 <= i < j ==> #[trigger] ms[i + 1].time.tick < rts[0].spec_scheduled()[idx].0,
    ensures
        rts[j].spec_scheduled().contains(rts[0].spec_scheduled()[idx]),
        ms[j + 1].time.tick < rts[0].spec_scheduled()[idx].0 ==> rts[j + 1].spec_scheduled().contains(
            rts[0].spec_scheduled()[idx],
        ),
        ms[j + 1].time.tick >= rts[0].spec_scheduled()[idx].0 ==> exists|p: int, q: Seq<Msg>, mid: Model|
            0 <= p < rts[j].spec_scheduled().len() && #[trigger] rts[j].spec_scheduled()[p] == rts[0].spec_scheduled()[idx]
                && #[trigger] queue_run(
                eval,
                pick,
                numeric,
                rts[j].spec_tick_handlers(),
                rts[j].spec_event_handlers(),
                q,
                fresh_run(&mid),
            ) == run_of(&ms[j + 1], &rs[j].effect_result) && q.last().kind == MsgKind::Tick
                && rts[j].spec_queue().len() + p < q.len() - 1 && q[rts[j].spec_queue().len() + p]
                == rts[0].spec_scheduled()[idx].1,
    decreases j,
{
    let e = rts[0].spec_scheduled()[idx];
    if j == 0 {
        assert(rts[0].spec_scheduled()[idx] == e);
    } else {
        lemma_scheduled_message_runs_when_due(eval, pick, numeric, rts, ms, rs, idx, j - 1);
        assert(ms[(j - 1) + 1].time.tick < e.0);
    }
    let s = rts[j].spec_scheduled();
    let p = choose|p: int| 0 <= p < s.len() && s[p] == e;
    assert(ticked(eval, pick, numeric, rts[j], ms[j], rts[j + 1], ms[j + 1], rs[j]));
    lemma_tick_takes_due_messages(eval, pick, numeric, rts[j], ms[j], rts[j + 1], ms[j + 1], rs[j], p);
    if ms[j + 1].time.tick >= e.0 {
        let (q, mid) = choose|q: Seq<Msg>, mid: Model|
            #[trigger] queue_run(
                eval,
                pick,
                numeric,
                rts[j].spec_tick_handlers(),
                rts[j].spec_event_handlers(),
                q,
                fresh_run(&mid),
            ) == run_of(&ms[j + 1], &rs[j].effect_result) && q.last().kind == MsgKind::Tick && rts[j].spec_queue().len()
                + p < q.len() - 1 && q[rts[j].spec_queue().len() + p] == s[p].1;
        assert(queue_run(
            eval,
            pick,
            numeric,
            rts[j].spec_tick_handlers(),
            rts[j].spec_event_handlers(),
            q,
            fresh_run(&mid),
        ) == run_of(&ms[j + 1], &rs[j].effect_result));
    }
}


/// When an event handler's condition does not evaluate to a true value (it fails, or its
/// value does not count as true), handling the event changes nothing but the generator,
/// which is left where the condition's evaluation left it.
pub proof fn lemma_false_condition_skips_handler<
    E: Fn(&Expr, &Model, Option<EntityId>, &ValueMap, &GameRng) -> Evaluated,
    P: Fn(&Vec<u64>, &GameRng) -> (Option<usize>, GameRng),
    F: Fn(ModifyOp, Option<Value>, u64) -> u64,
>(eval: E, pick: P, numeric: F, h: EventHandler, msg: Msg, st: Run)
    requires
        h.condition is Some,
        ({
            let ev = eval_at(
                eval,
                &h.condition.unwrap(),
                run_scene(st),
                target_id(st.entities, msg.target.model()),
                &msg.params,
                st.rng,
            );
            !(ev.value is Some && ev.truthy)
        }),
    ensures
        ({
            let r = event_handler_run(eval, pick, numeric, h, msg, st);
            let ev = eval_at(
                eval,
                &h.condition.unwrap(),
                run_scene(st),
                target_id(st.entities, msg.target.model()),
                &msg.params,
                st.rng,
            );
            &&& r.rng == ev.rng
            &&& r.entities == st.entities && r.next_id == st.next_id && r.globals == st.globals
            &&& r.emitted == st.emitted && r.scheduled == st.scheduled && r.logs == st.logs
            &&& r.notes == st.notes && r.spawned == st.spawned && r.destroyed == st.destroyed
        }),
{
}

} // verus!
