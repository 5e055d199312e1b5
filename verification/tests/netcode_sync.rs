use pulsive::evaluate::{evaluate_expr, NumOp, Number};
use pulsive::collect::Evaluated;
use pulsive::effect::ModifyOp;
use pulsive::expr::Expr;
use pulsive::identity::{DefId, EntityId};
use pulsive::interpolation::Interpolator;
use pulsive::model::Model;
use pulsive::msg::Msg;
use pulsive::prediction::{needs_correction, PredictionEngine};
use pulsive::reconciliation::{restore, Reconciler};
use pulsive::rng::GameRng;
use pulsive::rollback::StateHistory;
use pulsive::runtime::{EventHandler, Runtime};
use pulsive::input_buffer::NetcodeError;
use pulsive::effect::Effect;
use pulsive::value::{Value, ValueMap};

fn num(x: f64) -> Value {
    Value::Float(x.to_bits())
}

fn number_of(v: &Value) -> Option<f64> {
    match v {
        Value::Float(b) => Some(f64::from_bits(*b)),
        Value::Int(i) => Some(*i as f64),
        _ => None,
    }
}

fn as_f(n: Number) -> f64 {
    match n {
        Number::Int(i) => i as f64,
        Number::Float(b) => f64::from_bits(b),
    }
}

/// The numeric steps handed to the library's evaluator.
fn num_step(op: NumOp, a: Number, b: Number, c: Number) -> Value {
    let (x, y, z) = (as_f(a), as_f(b), as_f(c));
    match op {
        NumOp::Add => num(x + y),
        NumOp::Sub => num(x - y),
        NumOp::Mul => num(x * y),
        NumOp::Div => num(x / y),
        NumOp::Mod => num(x % y),
        NumOp::Min => num(x.min(y)),
        NumOp::Max => num(x.max(y)),
        NumOp::Neg => num(-x),
        NumOp::Abs => num(x.abs()),
        NumOp::Clamp => num(x.clamp(y, z)),
        NumOp::Floor => Value::Int(x.floor() as i64),
        NumOp::Ceil => Value::Int(x.ceil() as i64),
        NumOp::Round => Value::Int(x.round() as i64),
        NumOp::Lt => Value::Bool(x < y),
        NumOp::Le => Value::Bool(x <= y),
        NumOp::Gt => Value::Bool(x > y),
        NumOp::Ge => Value::Bool(x >= y),
        NumOp::IsZero => Value::Bool(x == 0.0),
        NumOp::NearlyEqual => Value::Bool((x - y).abs() < f64::EPSILON),
        NumOp::NonZero => Value::Bool(x != 0.0),
        NumOp::AsFloat => num(x),
    }
}

fn draw(lo: Number, hi: Number, s: u64) -> u64 {
    let u = (s as f64) / (u64::MAX as f64 + 1.0);
    (as_f(lo) + u * (as_f(hi) - as_f(lo))).to_bits()
}

fn text_of(v: &Value) -> String {
    match v {
        Value::String(s) => s.clone(),
        Value::Float(b) => format!("{}", f64::from_bits(*b)),
        Value::Int(i) => format!("{}", i),
        Value::Bool(b) => format!("{}", b),
        _ => format!("{:?}", v),
    }
}

/// The library's evaluator, with the float steps above.
fn evaluator(x: &Expr, m: &Model, t: Option<EntityId>, p: &ValueMap, g: &GameRng) -> Evaluated {
    evaluate_expr(x, m, t, p, g, &num_step, &draw, &pick, &text_of)
}

fn next_f64(rng: &mut GameRng) -> f64 {
    (rng.next_u64() as f64) / (u64::MAX as f64 + 1.0)
}

fn pick(weights: &Vec<u64>, g: &GameRng) -> (Option<usize>, GameRng) {
    let mut rng = GameRng::from_state(g.state());
    let ws: Vec<f64> = weights.iter().map(|b| f64::from_bits(*b)).collect();
    let total: f64 = ws.iter().sum();
    if total <= 0.0 || ws.is_empty() {
        return (None, rng);
    }
    let mut threshold = next_f64(&mut rng) * total;
    for (i, w) in ws.iter().enumerate() {
        threshold -= w;
        if threshold <= 0.0 {
            return (Some(i), rng);
        }
    }
    (Some(ws.len() - 1), rng)
}

fn numeric(op: ModifyOp, current: Option<Value>, operand: u64) -> u64 {
    let cur = current.as_ref().and_then(number_of).unwrap_or(0.0);
    let x = f64::from_bits(operand);
    let r = match op {
        ModifyOp::Assign => x,
        ModifyOp::Add => cur + x,
        ModifyOp::Sub => cur - x,
        ModifyOp::Mul => cur * x,
        ModifyOp::Div => {
            if x != 0.0 {
                cur / x
            } else {
                cur
            }
        }
        ModifyOp::Min => cur.min(x),
        ModifyOp::Max => cur.max(x),
    };
    r.to_bits()
}


struct TestHistory {
    states: Vec<(u64, Model)>,
}

impl TestHistory {
    fn new() -> Self {
        Self { states: Vec::new() }
    }
}

impl StateHistory for TestHistory {
    fn save_state(&mut self, tick: u64, model: &Model) {
        self.states.retain(|(t, _)| *t != tick);
        self.states.push((tick, model.duplicate()));
        self.states.sort_by_key(|(t, _)| *t);
    }

    fn get_state(&self, tick: u64) -> Option<&Model> {
        self.states.iter().find(|(t, _)| *t == tick).map(|(_, m)| m)
    }

    fn get_nearest_before(&self, tick: u64) -> Option<(u64, &Model)> {
        self.states.iter().filter(|(t, _)| *t <= tick).max_by_key(|(t, _)| *t).map(|(t, m)| (*t, m))
    }

    fn get_nearest_after(&self, tick: u64) -> Option<(u64, &Model)> {
        self.states.iter().filter(|(t, _)| *t >= tick).min_by_key(|(t, _)| *t).map(|(t, m)| (*t, m))
    }

    fn clear_before(&mut self, tick: u64) {
        self.states.retain(|(t, _)| *t >= tick);
    }

    fn clear(&mut self) {
        self.states.clear();
    }

    fn capacity(&self) -> Option<usize> {
        None
    }

    fn len(&self) -> usize {
        self.states.len()
    }

    fn tick_range(&self) -> Option<(u64, u64)> {
        if self.states.is_empty() {
            None
        } else {
            Some((self.states.first().unwrap().0, self.states.last().unwrap().0))
        }
    }
}

fn int_global(model: &Model, key: &str) -> Option<i64> {
    model.get_global(key).and_then(|v| v.as_int())
}

fn counter_runtime() -> Runtime {
    let mut runtime = Runtime::new();
    runtime.on_event(EventHandler {
        event_id: DefId::new("bump"),
        condition: None,
        effects: vec![Effect::ModifyGlobal {
            property: "count".to_string(),
            op: ModifyOp::Add,
            value: Expr::lit(num(1.0)),
        }],
        priority: 0,
    });
    runtime
}

fn bump(tick: u64) -> Msg {
    Msg::event("bump", pulsive::entity::EntityRef::Global, tick)
}

#[test]
fn test_predict() {
    let history = TestHistory::new();
    let mut engine = PredictionEngine::new(history);
    let mut model = Model::new();
    let mut runtime = Runtime::new();

    let input = Msg::tick(0);
    engine.predict(&mut model, &mut runtime, input, &evaluator, &pick, &numeric).unwrap();

    assert_eq!(engine.predicted_tick(), 1);
    assert_eq!(engine.pending_inputs(), 1);
}

#[test]
fn test_reconcile_server_ahead() {
    let history = TestHistory::new();
    let mut engine = PredictionEngine::new(history);
    let mut model = Model::new();
    let mut runtime = Runtime::new();

    for _ in 0..3 {
        engine.advance(&mut model, &mut runtime, &evaluator, &pick, &numeric);
    }

    let server_state = Model::new();
    let reconciled = engine.reconcile(&mut model, &mut runtime, &server_state, 5, &evaluator, &pick, &numeric).unwrap();

    assert!(!reconciled);
    assert_eq!(engine.predicted_tick(), 5);
}

#[test]
fn predict_fails_when_the_input_buffer_is_full() {
    let mut engine = PredictionEngine::with_input_capacity(TestHistory::new(), 1);
    let mut model = Model::new();
    let mut runtime = counter_runtime();
    model.set_global("count", num(0.0));
    engine.predict(&mut model, &mut runtime, bump(0), &evaluator, &pick, &numeric).unwrap();
    let r = engine.predict(&mut model, &mut runtime, bump(1), &evaluator, &pick, &numeric);
    assert!(matches!(r, Err(NetcodeError::InputBufferFull)));
    assert_eq!(engine.predicted_tick(), 1);
    assert_eq!(model.get_global("count").and_then(number_of), Some(1.0));
}

#[test]
fn reconcile_replays_unconfirmed_inputs_on_the_server_state() {
    let mut engine = PredictionEngine::new(TestHistory::new());
    let mut model = Model::new();
    let mut runtime = counter_runtime();
    model.set_global("count", num(0.0));
    for t in 0..4 {
        engine.predict(&mut model, &mut runtime, bump(t), &evaluator, &pick, &numeric).unwrap();
    }
    assert_eq!(model.get_global("count").and_then(number_of), Some(4.0));
    assert_eq!(engine.prediction_frames(), 4);

    // The server saw the first two inputs but holds one more global, so the states differ.
    let mut server = Model::new();
    server.set_global("count", num(10.0));
    server.set_global("extra", Value::Int(1));
    let reconciled = engine.reconcile(&mut model, &mut runtime, &server, 1, &evaluator, &pick, &numeric).unwrap();
    assert!(reconciled);
    assert_eq!(engine.pending_inputs(), 2);
    assert_eq!(engine.predicted_tick(), 4);
    assert_eq!(engine.last_server_tick(), 1);
    assert_eq!(model.get_global("count").and_then(number_of), Some(12.0));
    assert_eq!(int_global(&model, "extra"), Some(1));
}

#[test]
fn needs_correction_compares_tick_and_global_count() {
    let mut a = Model::new();
    a.set_global("x", Value::Int(1));
    let mut b = Model::new();
    b.set_global("x", Value::Int(2));
    assert!(!needs_correction(Some(&a), &b));
    b.set_global("y", Value::Int(3));
    assert!(needs_correction(Some(&a), &b));
    assert!(needs_correction(None, &b));
    a.advance_tick();
    let mut c = Model::new();
    c.set_global("x", Value::Int(1));
    assert!(needs_correction(Some(&a), &c));
}

#[test]
fn test_apply_correction() {
    let history = TestHistory::new();
    let mut reconciler = Reconciler::new(history);
    let mut model = Model::new();
    model.set_global("value", Value::Int(100));

    let mut server_state = Model::new();
    server_state.set_global("value", Value::Int(200));

    reconciler.apply_correction(&mut model, &server_state, 10);

    assert_eq!(int_global(&model, "value"), Some(200));
    assert_eq!(reconciler.last_server_tick(), 10);
}

#[test]
fn test_rollback() {
    let mut history = TestHistory::new();
    let mut model = Model::new();
    model.set_global("tick", Value::Int(5));
    history.save_state(5, &model);

    model.set_global("tick", Value::Int(10));
    history.save_state(10, &model);

    let reconciler = Reconciler::new(history);
    let mut target = Model::new();

    let actual = reconciler.rollback(&mut target, 5).unwrap();
    assert_eq!(actual, 5);
    assert_eq!(int_global(&target, "tick"), Some(5));
}

#[test]
fn rollback_falls_back_to_the_nearest_earlier_state_or_fails() {
    let mut history = TestHistory::new();
    let mut model = Model::new();
    model.set_global("tick", Value::Int(5));
    history.save_state(5, &model);
    let reconciler = Reconciler::new(history);

    let mut target = Model::new();
    assert_eq!(reconciler.rollback(&mut target, 8).unwrap(), 5);
    assert_eq!(int_global(&target, "tick"), Some(5));

    let mut untouched = Model::new();
    untouched.set_global("keep", Value::Int(1));
    let r = reconciler.rollback(&mut untouched, 3);
    assert!(matches!(r, Err(NetcodeError::StateNotFound(3))));
    assert_eq!(int_global(&untouched, "keep"), Some(1));

    let mut m = Model::new();
    assert!(matches!(restore(&mut m, 7, None, None), Err(NetcodeError::StateNotFound(7))));
}

#[test]
fn rollback_and_replay_runs_inputs_after_restoring() {
    let mut history = TestHistory::new();
    let mut model = Model::new();
    model.set_global("count", num(3.0));
    history.save_state(2, &model);
    let mut reconciler = Reconciler::new(history);

    let mut current = Model::new();
    current.set_global("count", num(100.0));
    let mut runtime = counter_runtime();
    reconciler
        .rollback_and_replay(&mut current, &mut runtime, 2, &[bump(3), bump(4)], &evaluator, &pick, &numeric)
        .unwrap();
    assert_eq!(current.get_global("count").and_then(number_of), Some(5.0));
}

fn halfway(prev: &Value, curr: &Value) -> Value {
    match (prev, curr) {
        (Value::Float(p), Value::Float(c)) => {
            let (p, c) = (f64::from_bits(*p), f64::from_bits(*c));
            num(p + (c - p) * 0.5)
        }
        (Value::Int(p), Value::Int(c)) => Value::Int((*p as f64 + (*c - *p) as f64 * 0.5).round() as i64),
        _ => curr.duplicate(),
    }
}

#[test]
fn test_push_and_interpolate() {
    let mut interpolator = Interpolator::new();

    let mut model1 = Model::new();
    model1.set_global("value", num(0.0));

    let mut model2 = Model::new();
    model2.set_global("value", num(10.0));

    interpolator.push_state(0, model1);
    assert!(!interpolator.can_interpolate());

    interpolator.push_state(1, model2);
    assert!(interpolator.can_interpolate());

    let result = interpolator.interpolate_with(&halfway).unwrap();
    assert_eq!(result.get_global("value").and_then(number_of), Some(5.0));
}

#[test]
fn interpolation_blends_matching_entity_properties_only() {
    let mut prev = Model::new();
    let a = prev.entities.create("unit");
    prev.entities.set_property(a, "x", Value::Int(0));
    let mut curr = prev.duplicate();
    curr.entities.set_property(a, "x", Value::Int(10));
    curr.entities.set_property(a, "name", Value::String("new".to_string()));
    let b = curr.entities.create("unit");
    curr.entities.set_property(b, "x", Value::Int(7));

    let mut interpolator = Interpolator::default();
    assert_eq!(interpolator.interpolate_with(&halfway).is_none(), true);
    interpolator.push_state(4, prev);
    assert_eq!(interpolator.current_tick(), Some(4));
    interpolator.push_state(5, curr);
    assert_eq!(interpolator.previous_tick(), Some(4));
    let result = interpolator.interpolate_with(&halfway).unwrap();
    assert_eq!(result.entities.get(a).unwrap().get("x").and_then(|v| v.as_int()), Some(5));
    assert_eq!(result.entities.get(a).unwrap().get("name").and_then(|v| v.as_str()), Some("new"));
    assert_eq!(result.entities.get(b).unwrap().get("x").and_then(|v| v.as_int()), Some(7));
    interpolator.reset();
    assert!(!interpolator.can_interpolate());
}

fn values_equal(a: &Value, b: &Value) -> bool {
    match (a, b) {
        (Value::Float(x), Value::Float(y)) => (f64::from_bits(*x) - f64::from_bits(*y)).abs() < 1e-6,
        (Value::Null, Value::Null) => true,
        (Value::Bool(x), Value::Bool(y)) => x == y,
        (Value::Int(x), Value::Int(y)) => x == y,
        (Value::String(x), Value::String(y)) => x == y,
        (Value::EntityRef(x), Value::EntityRef(y)) => x == y,
        _ => false,
    }
}

#[test]
fn test_state_comparison() {
    let mut a = Model::new();
    a.set_global("value", Value::Int(100));
    let mut b = Model::new();
    b.set_global("value", Value::Int(100));
    assert!(pulsive::compare::states_equal(&a, &b, &values_equal));
    b.set_global("value", Value::Int(200));
    assert!(!pulsive::compare::states_equal(&a, &b, &values_equal));
}
