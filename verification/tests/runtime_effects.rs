use pulsive::evaluate::{evaluate_expr, NumOp, Number};
use pulsive::collect::Evaluated;
use pulsive::commit::apply;
use pulsive::effect::{Effect, EffectResult, LogLevel, ModifyOp};
use pulsive::entity::EntityRef;
use pulsive::expr::Expr;
use pulsive::identity::{DefId, EntityId};
use pulsive::model::Model;
use pulsive::msg::Msg;
use pulsive::rng::GameRng;
use pulsive::runtime::{EventHandler, Runtime, TickHandler};
use pulsive::value::{Value, ValueMap};

fn num(x: f64) -> Value {
    Value::Float(x.to_bits())
}

fn number_of(v: &Value) -> Option<f64> {
    match v {
        Value::Float(b) => Some(f64::from_bits(*b)),
        Value::Int(i) => Some(*i as f64),
        _ => None,
    }
}

fn as_f(n: Number) -> f64 {
    match n {
        Number::Int(i) => i as f64,
        Number::Float(b) => f64::from_bits(b),
    }
}

/// The numeric steps handed to the library's evaluator.
fn num_step(op: NumOp, a: Number, b: Number, c: Number) -> Value {
    let (x, y, z) = (as_f(a), as_f(b), as_f(c));
    match op {
        NumOp::Add => num(x + y),
        NumOp::Sub => num(x - y),
        NumOp::Mul => num(x * y),
        NumOp::Div => num(x / y),
        NumOp::Mod => num(x % y),
        NumOp::Min => num(x.min(y)),
        NumOp::Max => num(x.max(y)),
        NumOp::Neg => num(-x),
        NumOp::Abs => num(x.abs()),
        NumOp::Clamp => num(x.clamp(y, z)),
        NumOp::Floor => Value::Int(x.floor() as i64),
        NumOp::Ceil => Value::Int(x.ceil() as i64),
        NumOp::Round => Value::Int(x.round() as i64),
        NumOp::Lt => Value::Bool(x < y),
        NumOp::Le => Value::Bool(x <= y),
        NumOp::Gt => Value::Bool(x > y),
        NumOp::Ge => Value::Bool(x >= y),
        NumOp::IsZero => Value::Bool(x == 0.0),
        NumOp::NearlyEqual => Value::Bool((x - y).abs() < f64::EPSILON),
        NumOp::NonZero => Value::Bool(x != 0.0),
        NumOp::AsFloat => num(x),
    }
}

fn draw(lo: Number, hi: Number, s: u64) -> u64 {
    let u = (s as f64) / (u64::MAX as f64 + 1.0);
    (as_f(lo) + u * (as_f(hi) - as_f(lo))).to_bits()
}

fn text_of(v: &Value) -> String {
    match v {
        Value::String(s) => s.clone(),
        Value::Float(b) => format!("{}", f64::from_bits(*b)),
        Value::Int(i) => format!("{}", i),
        Value::Bool(b) => format!("{}", b),
        _ => format!("{:?}", v),
    }
}

/// The library's evaluator, with the float steps above.
fn evaluator(x: &Expr, m: &Model, t: Option<EntityId>, p: &ValueMap, g: &GameRng) -> Evaluated {
    evaluate_expr(x, m, t, p, g, &num_step, &draw, &pick, &text_of)
}

fn next_f64(rng: &mut GameRng) -> f64 {
    (rng.next_u64() as f64) / (u64::MAX as f64 + 1.0)
}

fn pick(weights: &Vec<u64>, g: &GameRng) -> (Option<usize>, GameRng) {
    let mut rng = GameRng::from_state(g.state());
    let ws: Vec<f64> = weights.iter().map(|b| f64::from_bits(*b)).collect();
    let total: f64 = ws.iter().sum();
    if total <= 0.0 || ws.is_empty() {
        return (None, rng);
    }
    let mut threshold = next_f64(&mut rng) * total;
    for (i, w) in ws.iter().enumerate() {
        threshold -= w;
        if threshold <= 0.0 {
            return (Some(i), rng);
        }
    }
    (Some(ws.len() - 1), rng)
}

fn numeric(op: ModifyOp, current: Option<Value>, operand: u64) -> u64 {
    let cur = current.as_ref().and_then(number_of).unwrap_or(0.0);
    let x = f64::from_bits(operand);
    let r = match op {
        ModifyOp::Assign => x,
        ModifyOp::Add => cur + x,
        ModifyOp::Sub => cur - x,
        ModifyOp::Mul => cur * x,
        ModifyOp::Div => {
            if x != 0.0 {
                cur / x
            } else {
                cur
            }
        }
        ModifyOp::Min => cur.min(x),
        ModifyOp::Max => cur.max(x),
    };
    r.to_bits()
}

fn property(model: &Model, id: EntityId, key: &str) -> Option<f64> {
    model.entities.get(id).and_then(|e| e.get(key)).and_then(number_of)
}

fn lit(x: f64) -> Expr {
    Expr::lit(num(x))
}

fn set(property: &str, value: Expr) -> Effect {
    Effect::SetProperty { property: property.to_string(), value }
}

fn modify(property: &str, op: ModifyOp, value: Expr) -> Effect {
    Effect::ModifyProperty { property: property.to_string(), op, value }
}

fn handler(event: &str, effects: Vec<Effect>) -> EventHandler {
    EventHandler { event_id: DefId::new(event), condition: None, effects, priority: 0 }
}

fn run_event(runtime: &mut Runtime, model: &mut Model, msg: Msg) {
    runtime.send(msg);
    runtime.process_queue(model, &evaluator, &pick, &numeric);
}

fn nation_with(model: &mut Model, props: &[(&str, Value)]) -> EntityId {
    let id = model.entities.create("nation");
    for (k, v) in props {
        model.entities.set_property(id, k, v.duplicate());
    }
    id
}

#[test]
fn test_sequence_read_after_write() {
    let mut model = Model::new();
    let mut runtime = Runtime::new();
    let entity_id = nation_with(&mut model, &[("gold", num(50.0))]);
    runtime.on_event(handler(
        "test_sequence",
        vec![Effect::Sequence(vec![set("gold", lit(100.0)), modify("gold", ModifyOp::Add, Expr::prop("gold"))])],
    ));
    run_event(&mut runtime, &mut model, Msg::event("test_sequence", EntityRef::Entity(entity_id), 0));
    assert_eq!(property(&model, entity_id, "gold"), Some(200.0));
}

#[test]
fn test_conditional_on_modified_state() {
    let mut model = Model::new();
    let mut runtime = Runtime::new();
    let entity_id = nation_with(&mut model, &[("gold", num(50.0)), ("bonus", num(0.0))]);
    runtime.on_event(handler(
        "test_conditional",
        vec![Effect::Sequence(vec![
            set("gold", lit(100.0)),
            Effect::If {
                condition: Expr::Gt(Box::new(Expr::prop("gold")), Box::new(lit(75.0))),
                then_effects: vec![set("bonus", lit(50.0))],
                else_effects: vec![],
            },
        ])],
    ));
    run_event(&mut runtime, &mut model, Msg::event("test_conditional", EntityRef::Entity(entity_id), 0));
    assert_eq!(property(&model, entity_id, "bonus"), Some(50.0));
}

#[test]
fn test_foreach_filter_on_modified_state() {
    let mut model = Model::new();
    let mut runtime = Runtime::new();
    let entity_id = model.entities.create("unit");
    model.entities.set_property(entity_id, "active", Value::Bool(false));
    model.entities.set_property(entity_id, "processed", Value::Bool(false));
    runtime.on_event(handler(
        "test_foreach",
        vec![Effect::Sequence(vec![
            set("active", Expr::lit(Value::Bool(true))),
            Effect::ForEachEntity {
                kind: DefId::new("unit"),
                filter: Some(Expr::Eq(Box::new(Expr::prop("active")), Box::new(Expr::lit(Value::Bool(true))))),
                effects: vec![set("processed", Expr::lit(Value::Bool(true)))],
            },
        ])],
    ));
    run_event(&mut runtime, &mut model, Msg::event("test_foreach", EntityRef::Entity(entity_id), 0));
    let processed = model.entities.get(entity_id).and_then(|e| e.get("processed"));
    assert!(matches!(processed, Some(Value::Bool(true))));
}

#[test]
fn test_multiple_modifications_intermediate_read() {
    let mut model = Model::new();
    let mut runtime = Runtime::new();
    let entity_id = nation_with(&mut model, &[("gold", num(100.0)), ("multiplier", num(1.0))]);
    runtime.on_event(handler(
        "test_multi_modify",
        vec![Effect::Sequence(vec![
            set("multiplier", lit(2.0)),
            modify("gold", ModifyOp::Mul, Expr::prop("multiplier")),
        ])],
    ));
    run_event(&mut runtime, &mut model, Msg::event("test_multi_modify", EntityRef::Entity(entity_id), 0));
    assert_eq!(property(&model, entity_id, "gold"), Some(200.0));
}

#[test]
fn test_nested_sequences() {
    let mut model = Model::new();
    let mut runtime = Runtime::new();
    let entity_id = nation_with(&mut model, &[("x", num(1.0))]);
    runtime.on_event(handler(
        "test_nested",
        vec![Effect::Sequence(vec![
            set("x", lit(10.0)),
            Effect::Sequence(vec![modify("x", ModifyOp::Add, Expr::prop("x"))]),
        ])],
    ));
    run_event(&mut runtime, &mut model, Msg::event("test_nested", EntityRef::Entity(entity_id), 0));
    assert_eq!(property(&model, entity_id, "x"), Some(20.0));
}

#[test]
fn test_random_choice_modified_weights() {
    let mut model = Model::with_seed(42);
    let mut runtime = Runtime::new();
    let entity_id = nation_with(&mut model, &[("luck", num(0.0)), ("outcome", num(0.0))]);
    runtime.on_event(handler(
        "test_random",
        vec![Effect::Sequence(vec![
            set("luck", lit(100.0)),
            Effect::RandomChoice {
                choices: vec![
                    (Expr::prop("luck"), vec![set("outcome", lit(1.0))]),
                    (Expr::Sub(Box::new(lit(100.0)), Box::new(Expr::prop("luck"))), vec![set("outcome", lit(-1.0))]),
                ],
            },
        ])],
    ));
    run_event(&mut runtime, &mut model, Msg::event("test_random", EntityRef::Entity(entity_id), 0));
    assert_eq!(property(&model, entity_id, "outcome"), Some(1.0));
}

#[test]
fn test_global_read_after_write() {
    let mut model = Model::new();
    let mut runtime = Runtime::new();
    model.set_global("counter", num(10.0));
    runtime.on_event(handler(
        "test_global",
        vec![Effect::Sequence(vec![
            Effect::SetGlobal { property: "counter".to_string(), value: lit(100.0) },
            Effect::ModifyGlobal { property: "counter".to_string(), op: ModifyOp::Add, value: Expr::global("counter") },
        ])],
    ));
    run_event(&mut runtime, &mut model, Msg::event("test_global", EntityRef::Global, 0));
    assert_eq!(model.get_global("counter").and_then(number_of), Some(200.0));
}

#[test]
fn test_runtime_tick() {
    let mut model = Model::new();
    let mut runtime = Runtime::new();
    runtime.on_tick(TickHandler {
        id: DefId::new("counter"),
        condition: None,
        target_kind: None,
        effects: vec![Effect::ModifyGlobal { property: "tick_count".to_string(), op: ModifyOp::Add, value: lit(1.0) }],
        priority: 0,
    });
    model.set_global("tick_count", num(0.0));
    for _ in 0..3 {
        runtime.tick(&mut model, &evaluator, &pick, &numeric);
    }
    assert_eq!(model.get_global("tick_count").and_then(number_of), Some(3.0));
    assert_eq!(model.current_tick(), 3);
}

#[test]
fn test_runtime_event() {
    let mut model = Model::new();
    let mut runtime = Runtime::new();
    let entity_id = nation_with(&mut model, &[("gold", num(100.0))]);
    runtime.on_event(handler("add_gold", vec![modify("gold", ModifyOp::Add, Expr::param("amount"))]));
    let msg = Msg::event("add_gold", EntityRef::Entity(entity_id), 0).with_param("amount", num(50.0));
    run_event(&mut runtime, &mut model, msg);
    assert_eq!(property(&model, entity_id, "gold"), Some(150.0));
}

fn collect(model: &mut Model, effect: &Effect, target: &EntityRef, result: &mut EffectResult) -> pulsive::write_set::WriteSet {
    let runtime = Runtime::new();
    let params = ValueMap::new();
    runtime.collect_effect(model, effect, target, &params, result, &evaluator, &pick)
}

#[test]
fn test_collect_then_apply_global() {
    let mut model = Model::new();
    model.set_global("gold", num(100.0));
    let mut effect_result = EffectResult::new();
    let effect = Effect::ModifyGlobal { property: "gold".to_string(), op: ModifyOp::Add, value: lit(50.0) };
    let write_set = collect(&mut model, &effect, &EntityRef::Global, &mut effect_result);
    assert_eq!(model.get_global("gold").and_then(number_of), Some(100.0), "Model should not be mutated during collect phase");
    assert_eq!(write_set.len(), 1);
    apply(&write_set, &mut model, &numeric);
    assert_eq!(model.get_global("gold").and_then(number_of), Some(150.0));
}

#[test]
fn test_collect_then_apply_entity() {
    let mut model = Model::new();
    let entity_id = nation_with(&mut model, &[("population", num(1000.0))]);
    let mut effect_result = EffectResult::new();
    let effect = modify("population", ModifyOp::Mul, lit(2.0));
    let write_set = collect(&mut model, &effect, &EntityRef::Entity(entity_id), &mut effect_result);
    assert_eq!(property(&model, entity_id, "population"), Some(1000.0));
    apply(&write_set, &mut model, &numeric);
    assert_eq!(property(&model, entity_id, "population"), Some(2000.0));
}

#[test]
fn test_collect_sequence_then_apply() {
    let mut model = Model::new();
    model.set_global("counter", num(0.0));
    let mut effect_result = EffectResult::new();
    let effect = Effect::Sequence(vec![
        Effect::ModifyGlobal { property: "counter".to_string(), op: ModifyOp::Add, value: lit(10.0) },
        Effect::ModifyGlobal { property: "counter".to_string(), op: ModifyOp::Mul, value: lit(2.0) },
    ]);
    let write_set = collect(&mut model, &effect, &EntityRef::Global, &mut effect_result);
    assert_eq!(write_set.len(), 2);
    assert_eq!(model.get_global("counter").and_then(number_of), Some(0.0));
    apply(&write_set, &mut model, &numeric);
    assert_eq!(model.get_global("counter").and_then(number_of), Some(20.0));
}

#[test]
fn test_collect_spawn_then_apply() {
    let mut model = Model::new();
    let mut effect_result = EffectResult::new();
    let effect = Effect::SpawnEntity {
        kind: DefId::new("city"),
        properties: vec![
            ("name".to_string(), Expr::lit(Value::String("Paris".to_string()))),
            ("population".to_string(), lit(2_000_000.0)),
        ],
    };
    let write_set = collect(&mut model, &effect, &EntityRef::Global, &mut effect_result);
    assert_eq!(model.entities.by_kind(&DefId::new("city")).len(), 0);
    let result = apply(&write_set, &mut model, &numeric);
    assert_eq!(result.spawned.len(), 1);
    let city = model.entities.get(result.spawned[0]).unwrap();
    assert_eq!(city.get("name").and_then(|v| v.as_str()), Some("Paris"));
    assert_eq!(city.get("population").and_then(number_of), Some(2_000_000.0));
}

#[test]
fn test_collect_emit_event() {
    let mut model = Model::new();
    let mut effect_result = EffectResult::new();
    let effect = Effect::EmitEvent {
        event: DefId::new("battle_won"),
        target: EntityRef::Global,
        params: vec![("damage".to_string(), lit(100.0))],
    };
    let write_set = collect(&mut model, &effect, &EntityRef::Global, &mut effect_result);
    assert!(write_set.is_empty());
    assert_eq!(effect_result.emitted_events.len(), 1);
    assert_eq!(effect_result.emitted_events[0].0, DefId::new("battle_won"));
}

// Laws and edge cases of the library.

#[test]
fn collect_leaves_everything_but_the_generator_unchanged() {
    let mut model = Model::new();
    let id = nation_with(&mut model, &[("gold", num(5.0))]);
    let mut effect_result = EffectResult::new();
    let effect = Effect::Sequence(vec![
        set("gold", lit(9.0)),
        Effect::AddFlag(DefId::new("rich")),
        Effect::DestroyTarget,
        Effect::Log { level: LogLevel::Info, message: Expr::lit(Value::String("hi".to_string())) },
    ]);
    let writes = collect(&mut model, &effect, &EntityRef::Entity(id), &mut effect_result);
    assert_eq!(writes.len(), 3);
    assert_eq!(property(&model, id, "gold"), Some(5.0));
    assert_eq!(effect_result.logs.len(), 1);
    assert_eq!(effect_result.logs[0].1, "hi");
}

#[test]
fn flags_and_destroys_need_an_entity_target() {
    let mut model = Model::new();
    let mut effect_result = EffectResult::new();
    let effect = Effect::Sequence(vec![Effect::AddFlag(DefId::new("x")), Effect::DestroyTarget]);
    let writes = collect(&mut model, &effect, &EntityRef::Global, &mut effect_result);
    assert!(writes.is_empty());
}

#[test]
fn tick_handler_with_kind_runs_for_each_entity() {
    let mut model = Model::new();
    let a = nation_with(&mut model, &[("gold", num(1.0))]);
    let b = nation_with(&mut model, &[("gold", num(2.0))]);
    let mut runtime = Runtime::new();
    runtime.on_tick(TickHandler {
        id: DefId::new("income"),
        condition: Some(Expr::Gt(Box::new(Expr::prop("gold")), Box::new(lit(1.5)))),
        target_kind: Some(DefId::new("nation")),
        effects: vec![modify("gold", ModifyOp::Add, lit(10.0))],
        priority: 0,
    });
    let result = runtime.tick(&mut model, &evaluator, &pick, &numeric);
    assert_eq!(property(&model, a, "gold"), Some(1.0));
    assert_eq!(property(&model, b, "gold"), Some(12.0));
    assert!(matches!(result.cmd, pulsive::cmd::Cmd::Nothing));
    assert_eq!(runtime.queued(), 0);
}

#[test]
fn handlers_run_in_priority_order() {
    let mut model = Model::new();
    model.set_global("x", num(1.0));
    let mut runtime = Runtime::new();
    let mut low = handler("go", vec![Effect::ModifyGlobal { property: "x".to_string(), op: ModifyOp::Add, value: lit(1.0) }]);
    low.priority = 1;
    let mut high = handler("go", vec![Effect::ModifyGlobal { property: "x".to_string(), op: ModifyOp::Mul, value: lit(10.0) }]);
    high.priority = 5;
    runtime.on_event(low);
    runtime.on_event(high);
    run_event(&mut runtime, &mut model, Msg::event("go", EntityRef::Global, 0));
    assert_eq!(model.get_global("x").and_then(number_of), Some(11.0));
}

#[test]
fn spawn_in_execution_is_reported() {
    let mut model = Model::new();
    let mut runtime = Runtime::new();
    runtime.on_event(handler("found", vec![Effect::spawn("city"), Effect::spawn("city")]));
    runtime.send(Msg::event("found", EntityRef::Global, 0));
    let result = runtime.process_queue(&mut model, &evaluator, &pick, &numeric);
    assert_eq!(result.effect_result.spawned, vec![EntityId(0), EntityId(1)]);
    assert_eq!(model.entities.len(), 2);
}

use pulsive::journal::{Journal, JournalConfig};

#[test]
fn test_tick_with_journal() {
    let mut model = Model::new();
    let mut runtime = Runtime::new();
    let mut journal = Journal::new();
    journal.start_recording();
    for _ in 0..5 {
        runtime.tick_with_journal(&mut model, &mut journal, &evaluator, &pick, &numeric);
    }
    let stats = journal.stats();
    assert_eq!(stats.tick_count, 5);
    assert!(stats.message_count >= 5);
}

#[test]
fn test_replay_to() {
    let mut model = Model::new();
    let mut runtime = Runtime::new();
    let mut journal = Journal::with_config(JournalConfig { recording_enabled: true, snapshot_interval: 2, ..Default::default() });
    for _ in 0..10 {
        runtime.tick_with_journal(&mut model, &mut journal, &evaluator, &pick, &numeric);
    }
    assert_eq!(model.current_tick(), 10);
    runtime.replay_to(&mut model, &journal, 5, &evaluator, &pick, &numeric);
    assert!(model.current_tick() <= 5);
}

#[test]
fn test_step_back() {
    let mut model = Model::new();
    let mut runtime = Runtime::new();
    let mut journal = Journal::with_config(JournalConfig { recording_enabled: true, snapshot_interval: 1, ..Default::default() });
    for _ in 0..5 {
        runtime.tick_with_journal(&mut model, &mut journal, &evaluator, &pick, &numeric);
    }
    let initial_tick = model.current_tick();
    let result = runtime.step_back(&mut model, &journal, &evaluator, &pick, &numeric);
    assert!(result.is_some());
    assert!(model.current_tick() < initial_tick);
}

#[test]
fn replay_re_runs_recorded_effects_from_the_snapshot() {
    let mut model = Model::new();
    model.set_global("count", num(0.0));
    let mut runtime = Runtime::new();
    runtime.on_tick(TickHandler {
        id: DefId::new("count"),
        condition: None,
        target_kind: None,
        effects: vec![Effect::ModifyGlobal { property: "count".to_string(), op: ModifyOp::Add, value: lit(1.0) }],
        priority: 0,
    });
    let mut journal = Journal::with_config(JournalConfig { recording_enabled: true, snapshot_interval: 4, ..Default::default() });
    for _ in 0..6 {
        runtime.tick_with_journal(&mut model, &mut journal, &evaluator, &pick, &numeric);
    }
    assert_eq!(model.get_global("count").and_then(number_of), Some(6.0));
    // the snapshot at tick 4 holds count 4; replaying to 5 re-runs the messages of ticks 4 and 5
    runtime.replay_to(&mut model, &journal, 5, &evaluator, &pick, &numeric);
    assert_eq!(model.current_tick(), 4);
    assert_eq!(model.get_global("count").and_then(number_of), Some(6.0));
}
