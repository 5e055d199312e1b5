//! Collecting the writes that an effect makes, without applying them.
//!
//! Expressions are evaluated by a caller-supplied evaluator, which must be a function of
//! its arguments: the expression, the model, the resolved target entity, the parameters
//! and the random generator. The generator is threaded through the evaluations in the
//! order in which the effect makes them; the model is read but never changed.
use vstd::prelude::*;
use crate::effect::{Effect, EffectResult, LogLevel, Notification};
use crate::entity::{has_entity, EntityModel, EntityRef, EntityStore, RefModel};
use crate::expr::Expr;
use crate::identity::{DefId, EntityId};
use crate::model::Model;
use crate::rng::GameRng;
use crate::runtime::Runtime;
use crate::value::{insert_model, Value, ValueMap, ValueModel};
use crate::write_set::{PendingWrite, WriteModel, WriteSet};

verus! {

broadcast use vstd::std_specs::vec::group_vec_axioms;

/// What evaluating an expression gave, read in the ways that effects read values.
#[derive(Debug)]
pub struct Evaluated {
    /// The value; `None` when evaluation failed.
    pub value: Option<Value>,
    /// The value as a number (the bits of an `f64`), when it is one.
    pub number: Option<u64>,
    /// Whether the value counts as true.
    pub truthy: bool,
    /// The display text of the value.
    pub text: String,
    /// The random generator after the evaluation.
    pub rng: GameRng,
}

/// The part of a model that expressions read: its entities and its globals.
pub struct Scene {
    pub entities: Seq<EntityModel>,
    pub globals: Seq<(Seq<char>, ValueModel)>,
}

/// The scene of a model.
pub open spec fn scene_of(m: &Model) -> Scene {
    Scene { entities: m.entities@, globals: m.globals@ }
}

/// The evaluator gives the same outcome for the same expression, target, parameters and
/// generator on models with the same entities and globals.
pub open spec fn evaluator_reads_scene<E: Fn(&Expr, &Model, Option<EntityId>, &ValueMap, &GameRng) -> Evaluated>(
    eval: E,
) -> bool {
    forall|x: &Expr, m1: &Model, m2: &Model, t: Option<EntityId>, p: &ValueMap, g: &GameRng, r1: Evaluated, r2: Evaluated|
        scene_of(m1) == scene_of(m2) && #[trigger] call_ensures(eval, (x, m1, t, p, g), r1) && #[trigger] call_ensures(
            eval,
            (x, m2, t, p, g),
            r2,
        ) ==> r1 == r2
}

/// The evaluator accepts every argument.
pub open spec fn evaluator_is_total<E: Fn(&Expr, &Model, Option<EntityId>, &ValueMap, &GameRng) -> Evaluated>(
    eval: E,
) -> bool {
    forall|x: &Expr, m: &Model, t: Option<EntityId>, p: &ValueMap, g: &GameRng|
        #[trigger] call_requires(eval, (x, m, t, p, g))
}

/// The weighted picker gives the same outcome for the same weights and generator.
pub open spec fn picker_is_function<P: Fn(&Vec<u64>, &GameRng) -> (Option<usize>, GameRng)>(pick: P) -> bool {
    forall|w1: &Vec<u64>, w2: &Vec<u64>, g: &GameRng, r1: (Option<usize>, GameRng), r2: (Option<usize>, GameRng)|
        w1@ == w2@ && #[trigger] call_ensures(pick, (w1, g), r1) && #[trigger] call_ensures(pick, (w2, g), r2)
            ==> r1 == r2
}

/// The weighted picker accepts every argument.
pub open spec fn picker_is_total<P: Fn(&Vec<u64>, &GameRng) -> (Option<usize>, GameRng)>(pick: P) -> bool {
    forall|w: &Vec<u64>, g: &GameRng| #[trigger] call_requires(pick, (w, g))
}

/// What the evaluator gives for these arguments, on a model with this scene.
pub open spec fn eval_at<E: Fn(&Expr, &Model, Option<EntityId>, &ValueMap, &GameRng) -> Evaluated>(
    eval: E,
    x: &Expr,
    sc: Scene,
    t: Option<EntityId>,
    p: &ValueMap,
    g: GameRng,
) -> Evaluated {
    let (m, r) = choose|m: Model, r: Evaluated| scene_of(&m) == sc && #[trigger] call_ensures(eval, (x, &m, t, p, &g), r);
    r
}

/// What the picker gives for these weights and generator.
pub open spec fn pick_of<P: Fn(&Vec<u64>, &GameRng) -> (Option<usize>, GameRng)>(
    pick: P,
    w: Seq<u64>,
    g: GameRng,
) -> (Option<usize>, GameRng) {
    let (v, r) = choose|v: Vec<u64>, r: (Option<usize>, GameRng)|
        v@ == w && #[trigger] call_ensures(pick, (&v, &g), r);
    r
}

/// A call of an evaluator that reads only the scene gave what [`eval_at`] names.
pub proof fn lemma_eval_at<E: Fn(&Expr, &Model, Option<EntityId>, &ValueMap, &GameRng) -> Evaluated>(
    eval: E,
    x: &Expr,
    m: &Model,
    t: Option<EntityId>,
    p: &ValueMap,
    g: &GameRng,
    r: Evaluated,
)
    requires
        evaluator_reads_scene(eval),
        call_ensures(eval, (x, m, t, p, g), r),
    ensures
        eval_at(eval, x, scene_of(m), t, p, *g) == r,
{
    assert(call_ensures(eval, (x, &*m, t, p, g), r));
    let (m2, c) = choose|m2: Model, c: Evaluated|
        scene_of(&m2) == scene_of(m) && #[trigger] call_ensures(eval, (x, &m2, t, p, g), c);
    assert(call_ensures(eval, (x, &m2, t, p, g), c));
}

/// A call of a functional picker gave what [`pick_of`] names.
pub proof fn lemma_pick_of<P: Fn(&Vec<u64>, &GameRng) -> (Option<usize>, GameRng)>(
    pick: P,
    w: &Vec<u64>,
    g: &GameRng,
    r: (Option<usize>, GameRng),
)
    requires
        picker_is_function(pick),
        call_ensures(pick, (w, g), r),
    ensures
        pick_of(pick, w@, *g) == r,
{
    assert(call_ensures(pick, (&*w, g), r));
    let (v, c) = choose|v: Vec<u64>, c: (Option<usize>, GameRng)|
        v@ == w@ && #[trigger] call_ensures(pick, (&v, g), c);
    assert(call_ensures(pick, (&v, g), c));
}

/// The position of the first entity of a kind (meaningful when there is one).
pub open spec fn first_of_kind_index(s: Seq<EntityModel>, d: Seq<char>) -> int {
    choose|i: int| 0 <= i < s.len() && s[i].kind == d && forall|j: int| 0 <= j < i ==> #[trigger] s[j].kind != d
}

/// The ID of the entity that a reference resolves to in a store, if any.
pub open spec fn target_id(s: Seq<EntityModel>, r: RefModel) -> Option<EntityId> {
    match r {
        RefModel::Entity(id) => if has_entity(s, id) {
            Some(EntityId(id))
        } else {
            None
        },
        RefModel::ByDef(d) => if exists|i: int| 0 <= i < s.len() && #[trigger] s[i].kind == d {
            Some(EntityId(s[first_of_kind_index(s, d)].id))
        } else {
            None
        },
        _ => None,
    }
}

/// The ID of the entity that a reference resolves to.
pub(crate) fn resolve_id(store: &EntityStore, r: &EntityRef) -> (o: Option<EntityId>)
    ensures
        o == target_id(store@, r.model()),
{
    let ghost s = store@;
    match store.resolve(r) {
        Some(e) => {
            proof {
                match r {
                    EntityRef::ByDef(d) => {
                        let i = choose|i: int|
                            0 <= i < s.len() && s[i] == e.model() && e.model().kind == d@ && (forall|j: int|
                                0 <= j < i ==> #[trigger] s[j].kind != d@);
                        assert(s[i].kind == d@);
                        let k = first_of_kind_index(s, d@);
                        assert(0 <= k < s.len() && s[k].kind == d@ && forall|j: int|
                            0 <= j < k ==> #[trigger] s[j].kind != d@);
                        if k < i {
                            assert(s[k].kind != d@);
                        } else if i < k {
                            assert(s[i].kind != d@);
                        }
                    },
                    _ => {},
                }
            }
            Some(e.id)
        },
        None => None,
    }
}

/// What an effect has collected so far: writes, emitted and scheduled events, logs,
/// notifications, and the random generator.
pub struct Collected {
    pub writes: Seq<WriteModel>,
    pub emitted: Seq<(Seq<char>, RefModel, Seq<(Seq<char>, ValueModel)>)>,
    pub scheduled: Seq<(Seq<char>, RefModel, u64, Seq<(Seq<char>, ValueModel)>)>,
    pub logs: Seq<(LogLevel, Seq<char>)>,
    pub notes: Seq<(Seq<char>, Seq<char>, Seq<char>, RefModel)>,
    pub rng: GameRng,
}

/// Models of emitted events.
pub open spec fn emitted_model(s: Seq<(DefId, EntityRef, ValueMap)>) -> Seq<
    (Seq<char>, RefModel, Seq<(Seq<char>, ValueModel)>),
> {
    s.map_values(|x: (DefId, EntityRef, ValueMap)| (x.0@, x.1.model(), x.2@))
}

/// Models of scheduled events.
pub open spec fn scheduled_model(s: Seq<(DefId, EntityRef, u64, ValueMap)>) -> Seq<
    (Seq<char>, RefModel, u64, Seq<(Seq<char>, ValueModel)>),
> {
    s.map_values(|x: (DefId, EntityRef, u64, ValueMap)| (x.0@, x.1.model(), x.2, x.3@))
}

/// Models of log lines.
pub open spec fn logs_model(s: Seq<(LogLevel, String)>) -> Seq<(LogLevel, Seq<char>)> {
    s.map_values(|x: (LogLevel, String)| (x.0, x.1@))
}

/// Models of notifications.
pub open spec fn notes_model(s: Seq<Notification>) -> Seq<(Seq<char>, Seq<char>, Seq<char>, RefModel)> {
    s.map_values(|n: Notification| (n.kind@, n.title@, n.message@, n.target.model()))
}

/// The collected state held by a write set, an effect result and a generator.
pub open spec fn collected_of(w: WriteSet, r: EffectResult, g: GameRng) -> Collected {
    Collected {
        writes: w@,
        emitted: emitted_model(r.emitted_events@),
        scheduled: scheduled_model(r.scheduled_events@),
        logs: logs_model(r.logs@),
        notes: notes_model(r.notifications@),
        rng: g,
    }
}

/// The collected state of an effect result and a generator, with no writes yet.
pub open spec fn start_of(r: EffectResult, g: GameRng) -> Collected {
    Collected { writes: Seq::empty(), ..collected_of_result(r, g) }
}

/// The collected state of an effect result and a generator, with no writes.
pub open spec fn collected_of_result(r: EffectResult, g: GameRng) -> Collected {
    Collected {
        writes: Seq::empty(),
        emitted: emitted_model(r.emitted_events@),
        scheduled: scheduled_model(r.scheduled_events@),
        logs: logs_model(r.logs@),
        notes: notes_model(r.notifications@),
        rng: g,
    }
}

/// The state with a new generator.
pub open spec fn with_rng(acc: Collected, g: GameRng) -> Collected {
    Collected { rng: g, ..acc }
}

/// The state with one more write.
pub open spec fn with_write(acc: Collected, w: WriteModel) -> Collected {
    Collected { writes: acc.writes.push(w), ..acc }
}

/// Whether an evaluation succeeded with a true value.
pub open spec fn passes(ev: Evaluated) -> bool {
    ev.value is Some && ev.truthy
}

/// Evaluate named expressions in order with no target, keeping those that succeed in an
/// insertion-ordered map.
pub open spec fn params_of<E: Fn(&Expr, &Model, Option<EntityId>, &ValueMap, &GameRng) -> Evaluated>(
    eval: E,
    sc: Scene,
    p: &ValueMap,
    xs: Seq<(String, Expr)>,
    g: GameRng,
) -> (Seq<(Seq<char>, ValueModel)>, GameRng)
    decreases xs.len(),
{
    if xs.len() == 0 {
        (Seq::empty(), g)
    } else {
        let (map, g1) = params_of(eval, sc, p, xs.drop_last(), g);
        let ev = eval_at(eval, &xs.last().1, sc, None, p, g1);
        match ev.value {
            Some(v) => (insert_model(map, xs.last().0@, v.model()), ev.rng),
            None => (map, ev.rng),
        }
    }
}

/// Evaluate the weights of random choices in order with a target; a weight that fails or
/// is not a number counts as zero.
pub open spec fn weights_of<E: Fn(&Expr, &Model, Option<EntityId>, &ValueMap, &GameRng) -> Evaluated>(
    eval: E,
    sc: Scene,
    p: &ValueMap,
    cs: Seq<(Expr, Vec<Effect>)>,
    t: Option<EntityId>,
    g: GameRng,
) -> (Seq<u64>, GameRng)
    decreases cs.len(),
{
    if cs.len() == 0 {
        (Seq::empty(), g)
    } else {
        let (ws, g1) = weights_of(eval, sc, p, cs.drop_last(), t, g);
        let ev = eval_at(eval, &cs.last().0, sc, t, p, g1);
        let w: u64 = if ev.value is Some && ev.number is Some {
            ev.number.unwrap()
        } else {
            0
        };
        (ws.push(w), ev.rng)
    }
}

/// The integer a value model holds, if it is one.
pub open spec fn int_of(v: ValueModel) -> Option<i64> {
    match v {
        ValueModel::Int(i) => Some(i),
        _ => None,
    }
}

/// The text of an evaluation: its display text when it succeeded, empty otherwise.
pub open spec fn text_or_empty(ev: Evaluated) -> Seq<char> {
    if ev.value is Some {
        ev.text@
    } else {
        Seq::empty()
    }
}

/// What collecting an effect adds to `acc`, with `tgt` as the target and `p` as the
/// parameters, reading the model `m`.
pub open spec fn collect<
    E: Fn(&Expr, &Model, Option<EntityId>, &ValueMap, &GameRng) -> Evaluated,
    P: Fn(&Vec<u64>, &GameRng) -> (Option<usize>, GameRng),
>(eval: E, pick: P, sc: Scene, p: &ValueMap, e: Effect, tgt: EntityRef, acc: Collected) -> Collected
    decreases e, 0nat,
{
    let store = sc.entities;
    match e {
        Effect::SetProperty { property, value } => {
            let ev = eval_at(eval, &value, sc, target_id(store, tgt.model()), p, acc.rng);
            let a = with_rng(acc, ev.rng);
            match (ev.value, tgt) {
                (Some(v), EntityRef::Entity(id)) => with_write(
                    a,
                    WriteModel::SetProperty { entity_id: id.0, key: property@, value: v.model() },
                ),
                _ => a,
            }
        },
        Effect::ModifyProperty { property, op, value } => {
            let ev = eval_at(eval, &value, sc, target_id(store, tgt.model()), p, acc.rng);
            let a = with_rng(acc, ev.rng);
            match (ev.value, ev.number, tgt) {
                (Some(v), Some(x), EntityRef::Entity(id)) => with_write(
                    a,
                    WriteModel::ModifyProperty { entity_id: id.0, key: property@, op, amount: x },
                ),
                _ => a,
            }
        },
        Effect::SetGlobal { property, value } => {
            let ev = eval_at(eval, &value, sc, None, p, acc.rng);
            let a = with_rng(acc, ev.rng);
            match ev.value {
                Some(v) => with_write(a, WriteModel::SetGlobal { key: property@, value: v.model() }),
                None => a,
            }
        },
        Effect::ModifyGlobal { property, op, value } => {
            let ev = eval_at(eval, &value, sc, None, p, acc.rng);
            let a = with_rng(acc, ev.rng);
            match (ev.value, ev.number) {
                (Some(v), Some(x)) => with_write(a, WriteModel::ModifyGlobal { key: property@, op, amount: x }),
                _ => a,
            }
        },
        Effect::AddFlag(flag) => match tgt {
            EntityRef::Entity(id) => with_write(acc, WriteModel::AddFlag { entity_id: id.0, flag: flag@ }),
            _ => acc,
        },
        Effect::RemoveFlag(flag) => match tgt {
            EntityRef::Entity(id) => with_write(acc, WriteModel::RemoveFlag { entity_id: id.0, flag: flag@ }),
            _ => acc,
        },
        Effect::SpawnEntity { kind, properties } => {
            let (map, g) = params_of(eval, sc, p, properties@, acc.rng);
            with_write(with_rng(acc, g), WriteModel::SpawnEntity { kind: kind@, properties: map })
        },
        Effect::DestroyTarget => match tgt {
            EntityRef::Entity(id) => with_write(acc, WriteModel::DestroyEntity { id: id.0 }),
            _ => acc,
        },
        Effect::DestroyEntity(r) => match r {
            EntityRef::Entity(id) => with_write(acc, WriteModel::DestroyEntity { id: id.0 }),
            _ => acc,
        },
        Effect::EmitEvent { event, target, params } => {
            let (map, g) = params_of(eval, sc, p, params@, acc.rng);
            Collected { emitted: acc.emitted.push((event@, target.model(), map)), rng: g, ..acc }
        },
        Effect::ScheduleEvent { event, target, delay_ticks, params } => {
            let ev = eval_at(eval, &delay_ticks, sc, None, p, acc.rng);
            let a = with_rng(acc, ev.rng);
            match ev.value {
                Some(v) => match int_of(v.model()) {
                    Some(d) => {
                        let (map, g) = params_of(eval, sc, p, params@, ev.rng);
                        Collected {
                            scheduled: acc.scheduled.push((event@, target.model(), d as u64, map)),
                            rng: g,
                            ..acc
                        }
                    },
                    None => a,
                },
                None => a,
            }
        },
        Effect::If { condition, then_effects, else_effects } => {
            let ev = eval_at(eval, &condition, sc, None, p, acc.rng);
            let a = with_rng(acc, ev.rng);
            if passes(ev) {
                collect_list(eval, pick, sc, p, then_effects@, tgt, a)
            } else {
                collect_list(eval, pick, sc, p, else_effects@, tgt, a)
            }
        },
        Effect::Sequence(effects) => collect_list(eval, pick, sc, p, effects@, tgt, acc),
        Effect::ForEachEntity { kind, filter, effects } => {
            let ids = store.filter(|x: EntityModel| x.kind == kind@).map_values(|x: EntityModel| x.id);
            collect_each(eval, pick, sc, p, filter, effects@, ids, acc)
        },
        Effect::RandomChoice { choices } => {
            let (w, g) = weights_of(eval, sc, p, choices@, None, acc.rng);
            let (idx, g2) = pick_of(pick, w, g);
            let a = with_rng(acc, g2);
            match idx {
                Some(i) => if i < choices@.len() {
                    collect_list(eval, pick, sc, p, choices@[i as int].1@, tgt, a)
                } else {
                    a
                },
                None => a,
            }
        },
        Effect::Log { level, message } => {
            let ev = eval_at(eval, &message, sc, None, p, acc.rng);
            let a = with_rng(acc, ev.rng);
            if ev.value is Some {
                Collected { logs: a.logs.push((level, ev.text@)), ..a }
            } else {
                a
            }
        },
        Effect::Notify { kind, title, message, target } => {
            let ev1 = eval_at(eval, &title, sc, None, p, acc.rng);
            let ev2 = eval_at(eval, &message, sc, None, p, ev1.rng);
            Collected {
                notes: acc.notes.push((kind@, text_or_empty(ev1), text_or_empty(ev2), target.model())),
                rng: ev2.rng,
                ..acc
            }
        },
        _ => acc,
    }
}

/// Collecting a list of effects in order.
pub open spec fn collect_list<
    E: Fn(&Expr, &Model, Option<EntityId>, &ValueMap, &GameRng) -> Evaluated,
    P: Fn(&Vec<u64>, &GameRng) -> (Option<usize>, GameRng),
>(eval: E, pick: P, sc: Scene, p: &ValueMap, es: Seq<Effect>, tgt: EntityRef, acc: Collected) -> Collected
    decreases es, 0nat,
{
    if es.len() == 0 {
        acc
    } else {
        collect(eval, pick, sc, p, es.last(), tgt, collect_list(eval, pick, sc, p, es.drop_last(), tgt, acc))
    }
}

/// Collecting a list of effects for each entity ID in order, with the entity as target,
/// skipping the entities for which the filter does not pass.
pub open spec fn collect_each<
    E: Fn(&Expr, &Model, Option<EntityId>, &ValueMap, &GameRng) -> Evaluated,
    P: Fn(&Vec<u64>, &GameRng) -> (Option<usize>, GameRng),
>(
    eval: E,
    pick: P,
    sc: Scene,
    p: &ValueMap,
    filter: Option<Expr>,
    effs: Seq<Effect>,
    ids: Seq<u64>,
    acc: Collected,
) -> Collected
    decreases effs, ids.len() + 1,
{
    if ids.len() == 0 {
        acc
    } else {
        let prev = collect_each(eval, pick, sc, p, filter, effs, ids.drop_last(), acc);
        let id = ids.last();
        let tgt = EntityRef::Entity(EntityId(id));
        match filter {
            None => collect_list(eval, pick, sc, p, effs, tgt, prev),
            Some(f) => {
                let t = if has_entity(sc.entities, id) {
                    Some(EntityId(id))
                } else {
                    None
                };
                let ev = eval_at(eval, &f, sc, t, p, prev.rng);
                if passes(ev) {
                    collect_list(eval, pick, sc, p, effs, tgt, with_rng(prev, ev.rng))
                } else {
                    with_rng(prev, ev.rng)
                }
            },
        }
    }
}

/// Evaluate an expression, advancing the generator; returns the value, the number, the
/// truth and the text of the outcome.
pub(crate) fn evaluate<E: Fn(&Expr, &Model, Option<EntityId>, &ValueMap, &GameRng) -> Evaluated>(
    eval: &E,
    x: &Expr,
    m: &Model,
    t: Option<EntityId>,
    p: &ValueMap,
    rng: &mut GameRng,
) -> (r: (Option<Value>, Option<u64>, bool, String))
    requires
        evaluator_reads_scene(*eval),
        evaluator_is_total(*eval),
    ensures
        ({
            let ev = eval_at(*eval, x, scene_of(m), t, p, *old(rng));
            &&& r.0 == ev.value
            &&& r.1 == ev.number
            &&& r.2 == ev.truthy
            &&& r.3 == ev.text
            &&& *final(rng) == ev.rng
        }),
{
    let ev = eval(x, m, t, p, &*rng);
    proof {
        lemma_eval_at(*eval, x, m, t, p, &*rng, ev);
    }
    let Evaluated { value, number, truthy, text, rng: g } = ev;
    *rng = g;
    (value, number, truthy, text)
}

/// Evaluate named expressions in order with no target into a map of those that succeed.
fn eval_params<E: Fn(&Expr, &Model, Option<EntityId>, &ValueMap, &GameRng) -> Evaluated>(
    eval: &E,
    m: &Model,
    p: &ValueMap,
    xs: &Vec<(String, Expr)>,
    rng: &mut GameRng,
) -> (map: ValueMap)
    requires
        evaluator_reads_scene(*eval),
        evaluator_is_total(*eval),
    ensures
        (map@, *final(rng)) == params_of(*eval, scene_of(m), p, xs@, *old(rng)),
{
    let mut map = ValueMap::new();
    let n = xs.len();
    let mut i: usize = 0;
    while i < n
        invariant
            n == xs@.len(),
            i <= n,
            evaluator_reads_scene(*eval),
            evaluator_is_total(*eval),
            (map@, *rng) == params_of(*eval, scene_of(m), p, xs@.subrange(0, i as int), *old(rng)),
        decreases n - i,
    {
        let (v, _, _, _) = evaluate(eval, &xs[i].1, m, None, p, rng);
        match v {
            Some(v) => {
                let _ = map.insert(xs[i].0.clone(), v);
            },
            None => {},
        }
        proof {
            let sub = xs@.subrange(0, i + 1);
            assert(sub.drop_last() =~= xs@.subrange(0, i as int));
            assert(sub.last() == xs@[i as int]);
        }
        i = i + 1;
    }
    assert(xs@.subrange(0, n as int) =~= xs@);
    map
}

/// Evaluate the weights of random choices in order with a target.
pub(crate) fn eval_weights<E: Fn(&Expr, &Model, Option<EntityId>, &ValueMap, &GameRng) -> Evaluated>(
    eval: &E,
    m: &Model,
    p: &ValueMap,
    cs: &Vec<(Expr, Vec<Effect>)>,
    t: Option<EntityId>,
    rng: &mut GameRng,
) -> (w: Vec<u64>)
    requires
        evaluator_reads_scene(*eval),
        evaluator_is_total(*eval),
    ensures
        (w@, *final(rng)) == weights_of(*eval, scene_of(m), p, cs@, t, *old(rng)),
{
    let mut w: Vec<u64> = Vec::new();
    let n = cs.len();
    let mut i: usize = 0;
    while i < n
        invariant
            n == cs@.len(),
            i <= n,
            evaluator_reads_scene(*eval),
            evaluator_is_total(*eval),
            (w@, *rng) == weights_of(*eval, scene_of(m), p, cs@.subrange(0, i as int), t, *old(rng)),
        decreases n - i,
    {
        let (v, num, _, _) = evaluate(eval, &cs[i].0, m, t, p, rng);
        let x: u64 = match (v, num) {
            (Some(_), Some(x)) => x,
            _ => 0,
        };
        w.push(x);
        proof {
            let sub = cs@.subrange(0, i + 1);
            assert(sub.drop_last() =~= cs@.subrange(0, i as int));
            assert(sub.last() == cs@[i as int]);
        }
        i = i + 1;
    }
    assert(cs@.subrange(0, n as int) =~= cs@);
    w
}

/// Collect a list of effects in order.
fn collect_all<
    E: Fn(&Expr, &Model, Option<EntityId>, &ValueMap, &GameRng) -> Evaluated,
    P: Fn(&Vec<u64>, &GameRng) -> (Option<usize>, GameRng),
>(
    m: &Model,
    p: &ValueMap,
    es: &Vec<Effect>,
    tgt: &EntityRef,
    writes: &mut WriteSet,
    result: &mut EffectResult,
    rng: &mut GameRng,
    eval: &E,
    pick: &P,
)
    requires
        evaluator_reads_scene(*eval),
        evaluator_is_total(*eval),
        picker_is_function(*pick),
        picker_is_total(*pick),
    ensures
        collected_of(*final(writes), *final(result), *final(rng)) == collect_list(
            *eval,
            *pick,
            scene_of(m),
            p,
            es@,
            *tgt,
            collected_of(*old(writes), *old(result), *old(rng)),
        ),
        final(result).spawned@ == old(result).spawned@,
        final(result).destroyed@ == old(result).destroyed@,
    decreases es,
{
    let ghost start = collected_of(*writes, *result, *rng);
    let n = es.len();
    let mut i: usize = 0;
    while i < n
        invariant
            n == es@.len(),
            i <= n,
            evaluator_reads_scene(*eval),
            evaluator_is_total(*eval),
            picker_is_function(*pick),
            picker_is_total(*pick),
            start == collected_of(*old(writes), *old(result), *old(rng)),
            collected_of(*writes, *result, *rng) == collect_list(
                *eval,
                *pick,
                scene_of(m),
                p,
                es@.subrange(0, i as int),
                *tgt,
                start,
            ),
            result.spawned@ == old(result).spawned@,
            result.destroyed@ == old(result).destroyed@,
        decreases n - i,
    {
        collect_into(m, p, &es[i], tgt, writes, result, rng, eval, pick);
        proof {
            let sub = es@.subrange(0, i + 1);
            assert(sub.drop_last() =~= es@.subrange(0, i as int));
            assert(sub.last() == es@[i as int]);
        }
        i = i + 1;
    }
    assert(es@.subrange(0, n as int) =~= es@);
}

/// Collect one effect.
fn collect_into<
    E: Fn(&Expr, &Model, Option<EntityId>, &ValueMap, &GameRng) -> Evaluated,
    P: Fn(&Vec<u64>, &GameRng) -> (Option<usize>, GameRng),
>(
    m: &Model,
    p: &ValueMap,
    e: &Effect,
    tgt: &EntityRef,
    writes: &mut WriteSet,
    result: &mut EffectResult,
    rng: &mut GameRng,
    eval: &E,
    pick: &P,
)
    requires
        evaluator_reads_scene(*eval),
        evaluator_is_total(*eval),
        picker_is_function(*pick),
        picker_is_total(*pick),
    ensures
        collected_of(*final(writes), *final(result), *final(rng)) == collect(
            *eval,
            *pick,
            scene_of(m),
            p,
            *e,
            *tgt,
            collected_of(*old(writes), *old(result), *old(rng)),
        ),
        final(result).spawned@ == old(result).spawned@,
        final(result).destroyed@ == old(result).destroyed@,
    decreases e,
{
    let ghost acc = collected_of(*writes, *result, *rng);
    match e {
        Effect::SetProperty { property, value } => {
            let tid = resolve_id(&m.entities, tgt);
            let (v, _, _, _) = evaluate(eval, value, m, tid, p, rng);
            match (v, tgt) {
                (Some(v), EntityRef::Entity(id)) => {
                    writes.push(PendingWrite::SetProperty { entity_id: *id, key: property.clone(), value: v });
                },
                _ => {},
            }
        },
        Effect::ModifyProperty { property, op, value } => {
            let tid = resolve_id(&m.entities, tgt);
            let (v, num, _, _) = evaluate(eval, value, m, tid, p, rng);
            match (v, num, tgt) {
                (Some(_), Some(x), EntityRef::Entity(id)) => {
                    writes.push(PendingWrite::ModifyProperty { entity_id: *id, key: property.clone(), op: *op, value: x });
                },
                _ => {},
            }
        },
        Effect::SetGlobal { property, value } => {
            let (v, _, _, _) = evaluate(eval, value, m, None, p, rng);
            match v {
                Some(v) => {
                    writes.push(PendingWrite::SetGlobal { key: property.clone(), value: v });
                },
                None => {},
            }
        },
        Effect::ModifyGlobal { property, op, value } => {
            let (v, num, _, _) = evaluate(eval, value, m, None, p, rng);
            match (v, num) {
                (Some(_), Some(x)) => {
                    writes.push(PendingWrite::ModifyGlobal { key: property.clone(), op: *op, value: x });
                },
                _ => {},
            }
        },
        Effect::AddFlag(flag) => {
            match tgt {
                EntityRef::Entity(id) => {
                    writes.push(PendingWrite::AddFlag { entity_id: *id, flag: flag.duplicate() });
                },
                _ => {},
            }
        },
        Effect::RemoveFlag(flag) => {
            match tgt {
                EntityRef::Entity(id) => {
                    writes.push(PendingWrite::RemoveFlag { entity_id: *id, flag: flag.duplicate() });
                },
                _ => {},
            }
        },
        Effect::SpawnEntity { kind, properties } => {
            let map = eval_params(eval, m, p, properties, rng);
            writes.push(PendingWrite::SpawnEntity { kind: kind.duplicate(), properties: map });
        },
        Effect::DestroyTarget => {
            match tgt {
                EntityRef::Entity(id) => {
                    writes.push(PendingWrite::DestroyEntity { id: *id });
                },
                _ => {},
            }
        },
        Effect::DestroyEntity(r) => {
            match r {
                EntityRef::Entity(id) => {
                    writes.push(PendingWrite::DestroyEntity { id: *id });
                },
                _ => {},
            }
        },
        Effect::EmitEvent { event, target, params } => {
            let map = eval_params(eval, m, p, params, rng);
            let ghost e0 = result.emitted_events@;
            result.emitted_events.push((event.duplicate(), target.duplicate(), map));
            proof {
                assert(emitted_model(result.emitted_events@) =~= emitted_model(e0).push(
                    (event@, target.model(), map@),
                ));
            }
        },
        Effect::ScheduleEvent { event, target, delay_ticks, params } => {
            let (v, _, _, _) = evaluate(eval, delay_ticks, m, None, p, rng);
            match v {
                Some(v) => {
                    match v.as_int() {
                        Some(d) => {
                            let map = eval_params(eval, m, p, params, rng);
                            let ghost s0 = result.scheduled_events@;
                            let delay: u64 = #[verifier::truncate] (d as u64);
                            result.scheduled_events.push((event.duplicate(), target.duplicate(), delay, map));
                            proof {
                                assert(scheduled_model(result.scheduled_events@) =~= scheduled_model(s0).push(
                                    (event@, target.model(), delay, map@),
                                ));
                            }
                        },
                        None => {},
                    }
                },
                None => {},
            }
        },
        Effect::If { condition, then_effects, else_effects } => {
            let (v, _, truthy, _) = evaluate(eval, condition, m, None, p, rng);
            if v.is_some() && truthy {
                collect_all(m, p, then_effects, tgt, writes, result, rng, eval, pick);
            } else {
                collect_all(m, p, else_effects, tgt, writes, result, rng, eval, pick);
            }
        },
        Effect::Sequence(effects) => {
            collect_all(m, p, effects, tgt, writes, result, rng, eval, pick);
        },
        Effect::ForEachEntity { kind, filter, effects } => {
            let ids = m.entities.by_kind(kind);
            let ghost idm = ids@.map_values(|x: EntityId| x.0);
            let n = ids.len();
            let mut i: usize = 0;
            while i < n
                invariant
                    n == ids@.len(),
                    idm == ids@.map_values(|x: EntityId| x.0),
                    i <= n,
                    evaluator_reads_scene(*eval),
                    evaluator_is_total(*eval),
                    picker_is_function(*pick),
                    picker_is_total(*pick),
                    acc == collected_of(*old(writes), *old(result), *old(rng)),
                    collected_of(*writes, *result, *rng) == collect_each(
                        *eval,
                        *pick,
                        scene_of(m),
                        p,
                        *filter,
                        effects@,
                        idm.subrange(0, i as int),
                        acc,
                    ),
                    result.spawned@ == old(result).spawned@,
                    result.destroyed@ == old(result).destroyed@,
                    (*e matches Effect::ForEachEntity { effects: es, .. } && es == *effects),
                decreases n - i,
            {
                let id = ids[i];
                let each_target = EntityRef::Entity(id);
                match filter {
                    None => {
                        collect_all(m, p, effects, &each_target, writes, result, rng, eval, pick);
                    },
                    Some(f) => {
                        let t = if m.entities.get(id).is_some() {
                            Some(id)
                        } else {
                            None
                        };
                        let (v, _, truthy, _) = evaluate(eval, f, m, t, p, rng);
                        if v.is_some() && truthy {
                            collect_all(m, p, effects, &each_target, writes, result, rng, eval, pick);
                        }
                    },
                }
                proof {
                    let sub = idm.subrange(0, i + 1);
                    assert(sub.drop_last() =~= idm.subrange(0, i as int));
                    assert(sub.last() == id.0);
                }
                i = i + 1;
            }
            proof {
                assert(idm.subrange(0, n as int) =~= idm);
            }
        },
        Effect::RandomChoice { choices } => {
            let w = eval_weights(eval, m, p, choices, None, rng);
            let (idx, g) = pick(&w, &*rng);
            proof {
                lemma_pick_of(*pick, &w, &*rng, (idx, g));
            }
            *rng = g;
            match idx {
                Some(i) => {
                    if i < choices.len() {
                        collect_all(m, p, &choices[i].1, tgt, writes, result, rng, eval, pick);
                    }
                },
                None => {},
            }
        },
        Effect::Log { level, message } => {
            let (v, _, _, text) = evaluate(eval, message, m, None, p, rng);
            if v.is_some() {
                let ghost l0 = result.logs@;
                result.logs.push((*level, text));
                proof {
                    assert(logs_model(result.logs@) =~= logs_model(l0).push((*level, text@)));
                }
            }
        },
        Effect::Notify { kind, title, message, target } => {
            let (tv, _, _, tt) = evaluate(eval, title, m, None, p, rng);
            let (mv, _, _, mt) = evaluate(eval, message, m, None, p, rng);
            let title_text = if tv.is_some() {
                tt
            } else {
                String::new()
            };
            let message_text = if mv.is_some() {
                mt
            } else {
                String::new()
            };
            let note = Notification {
                kind: kind.duplicate(),
                title: title_text,
                message: message_text,
                target: target.duplicate(),
            };
            let ghost n0 = result.notifications@;
            let ghost nm = (kind@, title_text@, message_text@, target.model());
            result.notifications.push(note);
            proof {
                assert(notes_model(result.notifications@) =~= notes_model(n0).push(nm));
            }
        },
        _ => {},
    }
}

impl Runtime {
    /// Collect the writes of an effect without applying them: the returned write set holds
    /// them in order, and emitted and scheduled events, logs and notifications are appended
    /// to `result`. Expressions are evaluated by `eval` and random choices are made by
    /// `pick`; the model's generator is advanced through them and nothing else in the
    /// model changes.
    pub fn collect_effect<
        E: Fn(&Expr, &Model, Option<EntityId>, &ValueMap, &GameRng) -> Evaluated,
        P: Fn(&Vec<u64>, &GameRng) -> (Option<usize>, GameRng),
    >(
        &self,
        model: &mut Model,
        effect: &Effect,
        target: &EntityRef,
        params: &ValueMap,
        result: &mut EffectResult,
        eval: &E,
        pick: &P,
    ) -> (w: WriteSet)
        requires
            evaluator_reads_scene(*eval),
            evaluator_is_total(*eval),
            picker_is_function(*pick),
            picker_is_total(*pick),
        ensures
            collected_of(w, *final(result), final(model).rng) == collect(
                *eval,
                *pick,
                scene_of(&*old(model)),
                params,
                *effect,
                *target,
                start_of(*old(result), old(model).rng),
            ),
            final(model).entities == old(model).entities,
            final(model).globals == old(model).globals,
            final(model).time == old(model).time,
            final(model).actors == old(model).actors,
            final(result).spawned@ == old(result).spawned@,
            final(result).destroyed@ == old(result).destroyed@,
    {
        let mut writes = WriteSet::new();
        model.rng.state_is_nonzero();
        let mut rng = GameRng::from_state(model.rng.state());
        proof {
            crate::rng::lemma_view_eq(rng, model.rng);
        }
        collect_into(&*model, params, effect, target, &mut writes, result, &mut rng, eval, pick);
        model.rng = rng;
        writes
    }
}

} // verus!
