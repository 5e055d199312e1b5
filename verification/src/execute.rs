//! Executing effects on the model: control flow runs child effects one after another, so
//! that each sees what the previous ones changed; every other effect has its writes
//! collected and then applied at once.
use vstd::prelude::*;
use crate::collect::{
    collect, emitted_model, eval_at, evaluate, eval_weights, evaluator_reads_scene,
    evaluator_is_total, lemma_pick_of, logs_model, notes_model, passes, pick_of,
    picker_is_function, picker_is_total, resolve_id, scene_of, scheduled_model, target_id,
    weights_of, Collected, Evaluated, Scene,
};
use crate::commit::{apply, applies, apply_run, apply_step, initial_state, opt_model, spawn_count, state_of, ApplyState};
use crate::effect::{Effect, EffectResult, LogLevel, ModifyOp};
use crate::entity::{entity_index, has_entity, EntityModel, EntityRef, RefModel};
use crate::value::{lookup, ValueModel};
use crate::expr::Expr;
use crate::identity::EntityId;
use crate::model::Model;
use crate::rng::GameRng;
use crate::runtime::Runtime;
use crate::value::{Value, ValueMap};
use crate::write_set::{WriteModel, WriteSet};

verus! {

broadcast use vstd::std_specs::vec::group_vec_axioms;

/// The IDs of a list of entity IDs.
pub open spec fn ids_of(s: Seq<EntityId>) -> Seq<u64> {
    s.map_values(|x: EntityId| x.0)
}

/// The numeric step accepts every argument.
pub open spec fn numeric_is_total<F: Fn(ModifyOp, Option<Value>, u64) -> u64>(numeric: F) -> bool {
    forall|op: ModifyOp, cv: Option<Value>, x: u64| #[trigger] call_requires(numeric, (op, cv, x))
}

/// The numeric step gives the same number for the same operation, operand and current
/// value (compared by model).
pub open spec fn numeric_reads_models<F: Fn(ModifyOp, Option<Value>, u64) -> u64>(numeric: F) -> bool {
    forall|op: ModifyOp, c1: Option<Value>, c2: Option<Value>, x: u64, r1: u64, r2: u64|
        opt_model(c1) == opt_model(c2) && #[trigger] call_ensures(numeric, (op, c1, x), r1) && #[trigger] call_ensures(
            numeric,
            (op, c2, x),
            r2,
        ) ==> r1 == r2
}

/// With a numeric step that reads models, one write leads from a state to one state.
pub proof fn lemma_step_unique<F: Fn(ModifyOp, Option<Value>, u64) -> u64>(
    f: F,
    s: ApplyState,
    w: WriteModel,
    t1: ApplyState,
    t2: ApplyState,
)
    requires
        numeric_reads_models(f),
        apply_step(f, s, w, t1),
        apply_step(f, s, w, t2),
    ensures
        t1 == t2,
{
    match w {
        WriteModel::ModifyProperty { entity_id, key, op, amount } => {
            if has_entity(s.entities, entity_id) {
                let i = entity_index(s.entities, entity_id);
                let cur = lookup(s.entities[i].properties, key);
                let n1 = lookup(t1.entities[i].properties, key);
                let n2 = lookup(t2.entities[i].properties, key);
                let r1 = n1.unwrap()->Float_0;
                let r2 = n2.unwrap()->Float_0;
                let c1 = choose|cv: Option<Value>| opt_model(cv) == cur && call_ensures(f, (op, cv, amount), r1);
                let c2 = choose|cv: Option<Value>| opt_model(cv) == cur && call_ensures(f, (op, cv, amount), r2);
                assert(call_ensures(f, (op, c1, amount), r1));
                assert(call_ensures(f, (op, c2, amount), r2));
                assert(n1 == n2);
            }
        },
        WriteModel::ModifyGlobal { key, op, amount } => {
            let cur = lookup(s.globals, key);
            let n1 = lookup(t1.globals, key);
            let n2 = lookup(t2.globals, key);
            let r1 = n1.unwrap()->Float_0;
            let r2 = n2.unwrap()->Float_0;
            let c1 = choose|cv: Option<Value>| opt_model(cv) == cur && call_ensures(f, (op, cv, amount), r1);
            let c2 = choose|cv: Option<Value>| opt_model(cv) == cur && call_ensures(f, (op, cv, amount), r2);
            assert(call_ensures(f, (op, c1, amount), r1));
            assert(call_ensures(f, (op, c2, amount), r2));
            assert(n1 == n2);
        },
        _ => {},
    }
}

/// Two runs of the same writes from the same state agree at every step.
proof fn lemma_runs_agree<F: Fn(ModifyOp, Option<Value>, u64) -> u64>(
    f: F,
    ws: Seq<WriteModel>,
    t1: Seq<ApplyState>,
    t2: Seq<ApplyState>,
    k: int,
)
    requires
        numeric_reads_models(f),
        apply_run(f, ws, t1),
        apply_run(f, ws, t2),
        t1[0] == t2[0],
        0 <= k <= ws.len(),
    ensures
        t1[k] == t2[k],
    decreases k,
{
    if k > 0 {
        let j = k - 1;
        lemma_runs_agree(f, ws, t1, t2, j);
        assert(apply_step(f, t1[j], ws[j], t1[j + 1]));
        assert(apply_step(f, t2[j], ws[j], t2[j + 1]));
        lemma_step_unique(f, t1[j], ws[j], t1[j + 1], t2[j + 1]);
    }
}

/// With a numeric step that reads models, applying writes leads from a state to one state.
pub proof fn lemma_applies_unique<F: Fn(ModifyOp, Option<Value>, u64) -> u64>(
    f: F,
    ws: Seq<WriteModel>,
    s: ApplyState,
    a1: ApplyState,
    a2: ApplyState,
)
    requires
        numeric_reads_models(f),
        applies(f, ws, s, a1),
        applies(f, ws, s, a2),
    ensures
        a1 == a2,
{
    let t1 = choose|t: Seq<ApplyState>| apply_run(f, ws, t) && t[0] == s && t.last() == a1;
    let t2 = choose|t: Seq<ApplyState>| apply_run(f, ws, t) && t[0] == s && t.last() == a2;
    lemma_runs_agree(f, ws, t1, t2, ws.len() as int);
}

/// The state that applying writes leads to.
pub open spec fn applied<F: Fn(ModifyOp, Option<Value>, u64) -> u64>(
    f: F,
    ws: Seq<WriteModel>,
    s: ApplyState,
) -> ApplyState {
    choose|a: ApplyState| applies(f, ws, s, a)
}

/// What executing effects changes: the entities, the next entity ID, the globals, the
/// random generator, and the lists of an effect result.
pub struct Run {
    pub entities: Seq<EntityModel>,
    pub next_id: u64,
    pub globals: Seq<(Seq<char>, ValueModel)>,
    pub rng: GameRng,
    pub emitted: Seq<(Seq<char>, RefModel, Seq<(Seq<char>, ValueModel)>)>,
    pub scheduled: Seq<(Seq<char>, RefModel, u64, Seq<(Seq<char>, ValueModel)>)>,
    pub logs: Seq<(LogLevel, Seq<char>)>,
    pub notes: Seq<(Seq<char>, Seq<char>, Seq<char>, RefModel)>,
    pub spawned: Seq<u64>,
    pub destroyed: Seq<u64>,
}

/// The run state of a model and an effect result.
pub open spec fn run_of(m: &Model, r: &EffectResult) -> Run {
    Run {
        entities: m.entities@,
        next_id: m.entities.spec_next_id(),
        globals: m.globals@,
        rng: m.rng,
        emitted: emitted_model(r.emitted_events@),
        scheduled: scheduled_model(r.scheduled_events@),
        logs: logs_model(r.logs@),
        notes: notes_model(r.notifications@),
        spawned: ids_of(r.spawned@),
        destroyed: ids_of(r.destroyed@),
    }
}

/// The scene of a run state.
pub open spec fn run_scene(st: Run) -> Scene {
    Scene { entities: st.entities, globals: st.globals }
}

/// The run state with another generator.
pub open spec fn run_with_rng(st: Run, g: GameRng) -> Run {
    Run { rng: g, ..st }
}

/// Executing a plain effect: its writes are collected against the current state and then
/// applied, unless their spawns would run the entity IDs past the largest ID, in which
/// case the entities and globals stay as they were.
pub open spec fn run_leaf<
    E: Fn(&Expr, &Model, Option<EntityId>, &ValueMap, &GameRng) -> Evaluated,
    P: Fn(&Vec<u64>, &GameRng) -> (Option<usize>, GameRng),
    F: Fn(ModifyOp, Option<Value>, u64) -> u64,
>(eval: E, pick: P, numeric: F, p: &ValueMap, e: Effect, tgt: EntityRef, st: Run) -> Run {
    let c = collect(
        eval,
        pick,
        run_scene(st),
        p,
        e,
        tgt,
        Collected {
            writes: Seq::empty(),
            emitted: st.emitted,
            scheduled: st.scheduled,
            logs: st.logs,
            notes: st.notes,
            rng: st.rng,
        },
    );
    let s1 = Run {
        emitted: c.emitted,
        scheduled: c.scheduled,
        logs: c.logs,
        notes: c.notes,
        rng: c.rng,
        ..st
    };
    if st.next_id + spawn_count(c.writes) <= u64::MAX {
        let a = applied(
            numeric,
            c.writes,
            ApplyState {
                entities: st.entities,
                next_id: st.next_id,
                globals: st.globals,
                spawned: Seq::empty(),
                destroyed: Seq::empty(),
            },
        );
        Run {
            entities: a.entities,
            next_id: a.next_id,
            globals: a.globals,
            spawned: st.spawned + a.spawned,
            destroyed: st.destroyed + a.destroyed,
            ..s1
        }
    } else {
        s1
    }
}

/// Executing an effect with target `tgt` and parameters `p` from a run state.
pub open spec fn run_effect<
    E: Fn(&Expr, &Model, Option<EntityId>, &ValueMap, &GameRng) -> Evaluated,
    P: Fn(&Vec<u64>, &GameRng) -> (Option<usize>, GameRng),
    F: Fn(ModifyOp, Option<Value>, u64) -> u64,
>(eval: E, pick: P, numeric: F, p: &ValueMap, e: Effect, tgt: EntityRef, st: Run) -> Run
    decreases e, 0nat,
{
    match e {
        Effect::Sequence(es) => run_list(eval, pick, numeric, p, es@, tgt, st),
        Effect::If { condition, then_effects, else_effects } => {
            let ev = eval_at(eval, &condition, run_scene(st), target_id(st.entities, tgt.model()), p, st.rng);
            let s1 = run_with_rng(st, ev.rng);
            if passes(ev) {
                run_list(eval, pick, numeric, p, then_effects@, tgt, s1)
            } else {
                run_list(eval, pick, numeric, p, else_effects@, tgt, s1)
            }
        },
        Effect::ForEachEntity { kind, filter, effects } => {
            let ids = st.entities.filter(|x: EntityModel| x.kind == kind@).map_values(|x: EntityModel| x.id);
            run_each(eval, pick, numeric, p, filter, effects@, ids, st)
        },
        Effect::RandomChoice { choices } => {
            let (w, g) = weights_of(eval, run_scene(st), p, choices@, target_id(st.entities, tgt.model()), st.rng);
            let (idx, g2) = pick_of(pick, w, g);
            let s1 = run_with_rng(st, g2);
            match idx {
                Some(i) => if i < choices@.len() {
                    run_list(eval, pick, numeric, p, choices@[i as int].1@, tgt, s1)
                } else {
                    s1
                },
                None => s1,
            }
        },
        _ => run_leaf(eval, pick, numeric, p, e, tgt, st),
    }
}

/// Executing a list of effects in order.
pub open spec fn run_list<
    E: Fn(&Expr, &Model, Option<EntityId>, &ValueMap, &GameRng) -> Evaluated,
    P: Fn(&Vec<u64>, &GameRng) -> (Option<usize>, GameRng),
    F: Fn(ModifyOp, Option<Value>, u64) -> u64,
>(eval: E, pick: P, numeric: F, p: &ValueMap, es: Seq<Effect>, tgt: EntityRef, st: Run) -> Run
    decreases es, 0nat,
{
    if es.len() == 0 {
        st
    } else {
        run_effect(eval, pick, numeric, p, es.last(), tgt, run_list(eval, pick, numeric, p, es.drop_last(), tgt, st))
    }
}

/// Executing a list of effects for one entity: the filter, if any, is evaluated against
/// the current state with the entity as target (when it still exists), and the effects run
/// with the entity as target only when it passes.
pub open spec fn run_one<
    E: Fn(&Expr, &Model, Option<EntityId>, &ValueMap, &GameRng) -> Evaluated,
    P: Fn(&Vec<u64>, &GameRng) -> (Option<usize>, GameRng),
    F: Fn(ModifyOp, Option<Value>, u64) -> u64,
>(eval: E, pick: P, numeric: F, p: &ValueMap, filter: Option<Expr>, effs: Seq<Effect>, id: u64, st: Run) -> Run
    decreases effs, 1nat,
{
    let tgt = EntityRef::Entity(EntityId(id));
    match filter {
        None => run_list(eval, pick, numeric, p, effs, tgt, st),
        Some(f) => {
            let t = if has_entity(st.entities, id) {
                Some(EntityId(id))
            } else {
                None
            };
            let ev = eval_at(eval, &f, run_scene(st), t, p, st.rng);
            let s1 = run_with_rng(st, ev.rng);
            if passes(ev) {
                run_list(eval, pick, numeric, p, effs, tgt, s1)
            } else {
                s1
            }
        },
    }
}

/// Executing a list of effects for each entity ID in order.
pub open spec fn run_each<
    E: Fn(&Expr, &Model, Option<EntityId>, &ValueMap, &GameRng) -> Evaluated,
    P: Fn(&Vec<u64>, &GameRng) -> (Option<usize>, GameRng),
    F: Fn(ModifyOp, Option<Value>, u64) -> u64,
>(
    eval: E,
    pick: P,
    numeric: F,
    p: &ValueMap,
    filter: Option<Expr>,
    effs: Seq<Effect>,
    ids: Seq<u64>,
    st: Run,
) -> Run
    decreases effs, ids.len() + 2,
{
    if ids.len() == 0 {
        st
    } else {
        run_one(
            eval,
            pick,
            numeric,
            p,
            filter,
            effs,
            ids.last(),
            run_each(eval, pick, numeric, p, filter, effs, ids.drop_last(), st),
        )
    }
}

/// Number of spawn writes in a write set.
fn spawn_writes(ws: &WriteSet) -> (n: u64)
    ensures
        n == spawn_count(ws@),
{
    let writes = ws.writes();
    let n = writes.len();
    let mut count: u64 = 0;
    let mut i: usize = 0;
    while i < n
        invariant
            n == writes@.len(),
            crate::write_set::writes_model(writes@) == ws@,
            i <= n,
            count <= i,
            count == spawn_count(ws@.subrange(0, i as int)),
        decreases n - i,
    {
        proof {
            let sub = ws@.subrange(0, i + 1);
            assert(sub.drop_last() =~= ws@.subrange(0, i as int));
            assert(sub.last() == crate::write_set::write_model(&writes@[i as int]));
        }
        match &writes[i] {
            crate::write_set::PendingWrite::SpawnEntity { .. } => {
                count = count + 1;
            },
            _ => {},
        }
        i = i + 1;
    }
    assert(ws@.subrange(0, n as int) =~= ws@);
    count
}

/// A copy of a model's generator.
pub(crate) fn copy_rng(m: &Model) -> (g: GameRng)
    ensures
        g == m.rng,
{
    m.rng.state_is_nonzero();
    let g = GameRng::from_state(m.rng.state());
    proof {
        crate::rng::lemma_view_eq(g, m.rng);
    }
    g
}

impl Runtime {
    /// Execute an effect on the model with a target and parameters. Control flow effects
    /// run their children one after another, each seeing the changes of the ones before;
    /// conditions, filters and weights are evaluated against the current model with the
    /// target entity. Every other effect has its writes collected (see
    /// [`Runtime::collect_effect`]) and then applied at once, with `numeric` computing
    /// numeric modifications; its spawned and destroyed entities are appended to `result`.
    /// A write set whose spawns would run the entity IDs past the largest ID is not applied.
    pub fn execute_effect<
        E: Fn(&Expr, &Model, Option<EntityId>, &ValueMap, &GameRng) -> Evaluated,
        P: Fn(&Vec<u64>, &GameRng) -> (Option<usize>, GameRng),
        F: Fn(ModifyOp, Option<Value>, u64) -> u64,
    >(
        &self,
        model: &mut Model,
        effect: &Effect,
        target: &EntityRef,
        params: &ValueMap,
        result: &mut EffectResult,
        eval: &E,
        pick: &P,
        numeric: &F,
    )
        requires
            evaluator_reads_scene(*eval),
            evaluator_is_total(*eval),
            picker_is_function(*pick),
            picker_is_total(*pick),
            numeric_is_total(*numeric),
            numeric_reads_models(*numeric),
        ensures
            run_of(final(model), final(result)) == run_effect(
                *eval,
                *pick,
                *numeric,
                params,
                *effect,
                *target,
                run_of(old(model), old(result)),
            ),
            final(model).time == old(model).time,
            final(model).actors == old(model).actors,
        decreases effect,
    {
        match effect {
            Effect::Sequence(es) => {
                self.execute_all(model, es, target, params, result, eval, pick, numeric);
            },
            Effect::If { condition, then_effects, else_effects } => {
                let tid = resolve_id(&model.entities, target);
                let mut g = copy_rng(model);
                let (v, _, truthy, _) = evaluate(eval, condition, &*model, tid, params, &mut g);
                model.rng = g;
                if v.is_some() && truthy {
                    self.execute_all(model, then_effects, target, params, result, eval, pick, numeric);
                } else {
                    self.execute_all(model, else_effects, target, params, result, eval, pick, numeric);
                }
            },
            Effect::ForEachEntity { kind, filter, effects } => {
                let ghost st0 = run_of(model, result);
                let ids = model.entities.by_kind(kind);
                let ghost idm = ids@.map_values(|x: EntityId| x.0);
                let n = ids.len();
                let mut i: usize = 0;
                while i < n
                    invariant
                        n == ids@.len(),
                        idm == ids@.map_values(|x: EntityId| x.0),
                        idm == st0.entities.filter(|x: EntityModel| x.kind == kind@).map_values(
                            |x: EntityModel| x.id,
                        ),
                        i <= n,
                        evaluator_reads_scene(*eval),
                        evaluator_is_total(*eval),
                        picker_is_function(*pick),
                        picker_is_total(*pick),
                        numeric_is_total(*numeric),
                        numeric_reads_models(*numeric),
                        st0 == run_of(old(model), old(result)),
                        run_of(model, result) == run_each(
                            *eval,
                            *pick,
                            *numeric,
                            params,
                            *filter,
                            effects@,
                            idm.subrange(0, i as int),
                            st0,
                        ),
                        model.time == old(model).time,
                        model.actors == old(model).actors,
                        (*effect matches Effect::ForEachEntity { effects: es, .. } && es == *effects),
                    decreases n - i,
                {
                    let ghost prev = run_of(model, result);
                    let id = ids[i];
                    let each_target = EntityRef::Entity(id);
                    match filter {
                        None => {
                            self.execute_all(model, effects, &each_target, params, result, eval, pick, numeric);
                        },
                        Some(f) => {
                            let t = if model.entities.get(id).is_some() {
                                Some(id)
                            } else {
                                None
                            };
                            let mut g = copy_rng(model);
                            let (v, _, truthy, _) = evaluate(eval, f, &*model, t, params, &mut g);
                            model.rng = g;
                            if v.is_some() && truthy {
                                self.execute_all(model, effects, &each_target, params, result, eval, pick, numeric);
                            }
                        },
                    }
                    proof {
                        let sub = idm.subrange(0, i + 1);
                        assert(sub.drop_last() =~= idm.subrange(0, i as int));
                        assert(sub.last() == id.0);
                        assert(run_of(model, result) == run_one(*eval, *pick, *numeric, params, *filter, effects@, id.0, prev));
                    }
                    i = i + 1;
                }
                proof {
                    assert(idm.subrange(0, n as int) =~= idm);
                }
            },
            Effect::RandomChoice { choices } => {
                let tid = resolve_id(&model.entities, target);
                let mut g = copy_rng(model);
                let w = eval_weights(eval, &*model, params, choices, tid, &mut g);
                let (idx, g2) = pick(&w, &g);
                proof {
                    lemma_pick_of(*pick, &w, &g, (idx, g2));
                }
                model.rng = g2;
                match idx {
                    Some(i) => {
                        if i < choices.len() {
                            self.execute_all(model, &choices[i].1, target, params, result, eval, pick, numeric);
                        }
                    },
                    None => {},
                }
            },
            _ => {
                let ghost st = run_of(model, result);
                let ws = self.collect_effect(model, effect, target, params, result, eval, pick);
                let count = spawn_writes(&ws);
                if count <= u64::MAX - model.entities.next_id() {
                    let ghost mc = *model;
                    let mut wr = apply(&ws, model, numeric);
                    let ghost a = state_of(model, &wr);
                    let ghost sp = result.spawned@;
                    let ghost de = result.destroyed@;
                    let ghost wsp = wr.spawned@;
                    let ghost wde = wr.destroyed@;
                    result.spawned.append(&mut wr.spawned);
                    result.destroyed.append(&mut wr.destroyed);
                    proof {
                        let s0 = ApplyState {
                            entities: st.entities,
                            next_id: st.next_id,
                            globals: st.globals,
                            spawned: Seq::empty(),
                            destroyed: Seq::empty(),
                        };
                        assert(initial_state(&mc) == s0);
                        assert(applies(*numeric, ws@, s0, a));
                        lemma_applies_unique(*numeric, ws@, s0, a, applied(*numeric, ws@, s0));
                        assert(ids_of(result.spawned@) =~= ids_of(sp) + ids_of(wsp));
                        assert(ids_of(result.destroyed@) =~= ids_of(de) + ids_of(wde));
                    }
                }
            },
        }
    }

    /// Execute a list of effects in order.
    pub(crate) fn execute_all<
        E: Fn(&Expr, &Model, Option<EntityId>, &ValueMap, &GameRng) -> Evaluated,
        P: Fn(&Vec<u64>, &GameRng) -> (Option<usize>, GameRng),
        F: Fn(ModifyOp, Option<Value>, u64) -> u64,
    >(
        &self,
        model: &mut Model,
        es: &Vec<Effect>,
        target: &EntityRef,
        params: &ValueMap,
        result: &mut EffectResult,
        eval: &E,
        pick: &P,
        numeric: &F,
    )
        requires
            evaluator_reads_scene(*eval),
            evaluator_is_total(*eval),
            picker_is_function(*pick),
            picker_is_total(*pick),
            numeric_is_total(*numeric),
            numeric_reads_models(*numeric),
        ensures
            run_of(final(model), final(result)) == run_list(
                *eval,
                *pick,
                *numeric,
                params,
                es@,
                *target,
                run_of(old(model), old(result)),
            ),
            final(model).time == old(model).time,
            final(model).actors == old(model).actors,
        decreases es,
    {
        let n = es.len();
        let mut i: usize = 0;
        while i < n
            invariant
                n == es@.len(),
                i <= n,
                evaluator_reads_scene(*eval),
                evaluator_is_total(*eval),
                picker_is_function(*pick),
                picker_is_total(*pick),
                numeric_is_total(*numeric),
                numeric_reads_models(*numeric),
                run_of(model, result) == run_list(
                    *eval,
                    *pick,
                    *numeric,
                    params,
                    es@.subrange(0, i as int),
                    *target,
                    run_of(old(model), old(result)),
                ),
                model.time == old(model).time,
                model.actors == old(model).actors,
            decreases n - i,
        {
            self.execute_effect(model, &es[i], target, params, result, eval, pick, numeric);
            proof {
                let sub = es@.subrange(0, i + 1);
                assert(sub.drop_last() =~= es@.subrange(0, i as int));
                assert(sub.last() == es@[i as int]);
            }
            i = i + 1;
        }
        assert(es@.subrange(0, n as int) =~= es@);
    }
}


/// Collecting `RemoveFlag(f)` for an entity target appends exactly the write that removes
/// `f` from that entity, and changes nothing else that is collected.
pub proof fn lemma_collect_remove_flag<
    E: Fn(&Expr, &Model, Option<EntityId>, &ValueMap, &GameRng) -> Evaluated,
    P: Fn(&Vec<u64>, &GameRng) -> (Option<usize>, GameRng),
>(eval: E, pick: P, sc: Scene, p: &ValueMap, flag: crate::identity::DefId, e: EntityId, acc: Collected)
    ensures
        ({
            let c = collect(eval, pick, sc, p, Effect::RemoveFlag(flag), EntityRef::Entity(e), acc);
            &&& c.writes == acc.writes.push(WriteModel::RemoveFlag { entity_id: e.0, flag: flag@ })
            &&& c.emitted == acc.emitted && c.scheduled == acc.scheduled && c.logs == acc.logs
            &&& c.notes == acc.notes && c.rng == acc.rng
        }),
{
}

/// Executing `RemoveFlag(f)` on an existing entity (whose flags occur once each) leaves that
/// entity without `f`, with its ID, kind and properties, and leaves every other entity,
/// the next ID and the globals as they were.
pub proof fn lemma_run_remove_flag<
    E: Fn(&Expr, &Model, Option<EntityId>, &ValueMap, &GameRng) -> Evaluated,
    P: Fn(&Vec<u64>, &GameRng) -> (Option<usize>, GameRng),
    F: Fn(ModifyOp, Option<Value>, u64) -> u64,
>(eval: E, pick: P, numeric: F, p: &ValueMap, flag: crate::identity::DefId, e: EntityId, st: Run)
    requires
        has_entity(st.entities, e.0),
        st.entities[entity_index(st.entities, e.0)].flags.no_duplicates(),
    ensures
        ({
            let r = run_effect(eval, pick, numeric, p, Effect::RemoveFlag(flag), EntityRef::Entity(e), st);
            let i = entity_index(st.entities, e.0);
            &&& r.entities.len() == st.entities.len()
            &&& !r.entities[i].flags.contains(flag@)
            &&& r.entities[i].id == st.entities[i].id
            &&& r.entities[i].kind == st.entities[i].kind
            &&& r.entities[i].properties == st.entities[i].properties
            &&& forall|j: int| 0 <= j < st.entities.len() && j != i ==> r.entities[j] == st.entities[j]
            &&& r.next_id == st.next_id
            &&& r.globals == st.globals
        }),
{
    let acc = Collected {
        writes: Seq::empty(),
        emitted: st.emitted,
        scheduled: st.scheduled,
        logs: st.logs,
        notes: st.notes,
        rng: st.rng,
    };
    let w = WriteModel::RemoveFlag { entity_id: e.0, flag: flag@ };
    lemma_collect_remove_flag(eval, pick, run_scene(st), p, flag, e, acc);
    let c = collect(eval, pick, run_scene(st), p, Effect::RemoveFlag(flag), EntityRef::Entity(e), acc);
    assert(c.writes =~= seq![w]);
    assert(spawn_count(c.writes) == 0) by {
        assert(c.writes.drop_last() =~= Seq::<WriteModel>::empty());
        assert(c.writes.last() == w);
        assert(spawn_count(Seq::<WriteModel>::empty()) == 0);
    }
    let s0 = ApplyState {
        entities: st.entities,
        next_id: st.next_id,
        globals: st.globals,
        spawned: Seq::empty(),
        destroyed: Seq::empty(),
    };
    let i = entity_index(st.entities, e.0);
    let fl = st.entities[i].flags;
    let s1 = ApplyState {
        entities: st.entities.update(
            i,
            EntityModel {
                flags: if fl.contains(flag@) {
                    fl.remove(crate::entity::flag_index(fl, flag@))
                } else {
                    fl
                },
                ..st.entities[i]
            },
        ),
        ..s0
    };
    assert(apply_step(numeric, s0, w, s1));
    let trace = seq![s0, s1];
    assert(trace[1] == s1 && trace[0] == s0 && trace.last() == s1);
    assert(c.writes[0] == w);
    assert(apply_run(numeric, c.writes, trace));
    assert(applies(numeric, c.writes, s0, s1));
    let a = applied(numeric, c.writes, s0);
    assert(applies(numeric, c.writes, s0, a));
    let t = choose|t: Seq<ApplyState>| apply_run(numeric, c.writes, t) && t[0] == s0 && t.last() == a;
    assert(apply_step(numeric, t[0], c.writes[0], t[1]));
    assert(a == s1);
    if fl.contains(flag@) {
        let k = crate::entity::flag_index(fl, flag@);
        assert forall|m: int| 0 <= m < fl.remove(k).len() implies fl.remove(k)[m] != flag@ by {
            if m < k {
                assert(fl[m] != fl[k]);
            } else {
                assert(fl[m + 1] != fl[k]);
            }
        }
    }
}


/// Collecting `AddFlag(f)` for an entity target appends exactly the write that adds `f` to
/// that entity, and changes nothing else that is collected.
pub proof fn lemma_collect_add_flag<
    E: Fn(&Expr, &Model, Option<EntityId>, &ValueMap, &GameRng) -> Evaluated,
    P: Fn(&Vec<u64>, &GameRng) -> (Option<usize>, GameRng),
>(eval: E, pick: P, sc: Scene, p: &ValueMap, flag: crate::identity::DefId, e: EntityId, acc: Collected)
    ensures
        ({
            let c = collect(eval, pick, sc, p, Effect::AddFlag(flag), EntityRef::Entity(e), acc);
            &&& c.writes == acc.writes.push(WriteModel::AddFlag { entity_id: e.0, flag: flag@ })
            &&& c.emitted == acc.emitted && c.scheduled == acc.scheduled && c.logs == acc.logs
            &&& c.notes == acc.notes && c.rng == acc.rng
        }),
{
}

} // verus!
