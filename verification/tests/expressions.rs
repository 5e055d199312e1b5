use pulsive::entity::EntityRef;
use pulsive::evaluate::{eval, EvalError, NumOp, Number};
use pulsive::expr::Expr;
use pulsive::identity::{DefId, EntityId};
use pulsive::model::Model;
use pulsive::rng::GameRng;
use pulsive::value::{Value, ValueMap};

fn as_f(n: Number) -> f64 {
    match n {
        Number::Int(i) => i as f64,
        Number::Float(b) => f64::from_bits(b),
    }
}

fn float(x: f64) -> Value {
    Value::Float(x.to_bits())
}

fn num(op: NumOp, a: Number, b: Number, c: Number) -> Value {
    let (x, y, z) = (as_f(a), as_f(b), as_f(c));
    match op {
        NumOp::Add => float(x + y),
        NumOp::Sub => float(x - y),
        NumOp::Mul => float(x * y),
        NumOp::Div => float(x / y),
        NumOp::Mod => float(x % y),
        NumOp::Min => float(x.min(y)),
        NumOp::Max => float(x.max(y)),
        NumOp::Neg => float(-x),
        NumOp::Abs => float(x.abs()),
        NumOp::Clamp => float(x.clamp(y, z)),
        NumOp::Floor => Value::Int(x.floor() as i64),
        NumOp::Ceil => Value::Int(x.ceil() as i64),
        NumOp::Round => Value::Int(x.round() as i64),
        NumOp::Lt => Value::Bool(x < y),
        NumOp::Le => Value::Bool(x <= y),
        NumOp::Gt => Value::Bool(x > y),
        NumOp::Ge => Value::Bool(x >= y),
        NumOp::IsZero => Value::Bool(x == 0.0),
        NumOp::NearlyEqual => Value::Bool((x - y).abs() < f64::EPSILON),
        NumOp::NonZero => Value::Bool(x != 0.0),
        NumOp::AsFloat => float(x),
    }
}

fn draw(lo: Number, hi: Number, s: u64) -> u64 {
    let u = (s as f64) / (u64::MAX as f64 + 1.0);
    (as_f(lo) + u * (as_f(hi) - as_f(lo))).to_bits()
}

fn pick(weights: &Vec<u64>, rng: &GameRng) -> (Option<usize>, GameRng) {
    let mut g = GameRng::from_state(rng.state());
    let ws: Vec<f64> = weights.iter().map(|b| f64::from_bits(*b)).collect();
    let total: f64 = ws.iter().sum();
    if total <= 0.0 || ws.is_empty() {
        return (None, g);
    }
    let mut threshold = (g.next_u64() as f64) / (u64::MAX as f64 + 1.0) * total;
    for (i, w) in ws.iter().enumerate() {
        threshold -= w;
        if threshold <= 0.0 {
            return (Some(i), g);
        }
    }
    (Some(ws.len() - 1), g)
}

fn text(v: &Value) -> String {
    match v {
        Value::Null => "null".to_string(),
        Value::Bool(b) => b.to_string(),
        Value::Int(i) => i.to_string(),
        Value::Float(b) => f64::from_bits(*b).to_string(),
        Value::String(s) => s.clone(),
        Value::EntityRef(id) => format!("entity:{}", id.0),
        _ => String::new(),
    }
}

fn run(expr: &Expr, model: &Model, target: Option<EntityId>, params: &ValueMap) -> Result<Value, EvalError> {
    let rng = GameRng::new(42);
    eval(expr, model, target, params, &rng, &num, &draw, &pick, &text).0
}

fn number(v: &Value) -> Option<f64> {
    match v {
        Value::Float(b) => Some(f64::from_bits(*b)),
        Value::Int(i) => Some(*i as f64),
        _ => None,
    }
}

fn lit(v: Value) -> Box<Expr> {
    Box::new(Expr::lit(v))
}

#[test]
fn test_literal() {
    let model = Model::new();
    let params = ValueMap::new();
    let r = run(&Expr::lit(Value::Int(42)), &model, None, &params).unwrap();
    assert!(matches!(r, Value::Int(42)));
    let r = run(&Expr::lit(float(3.14)), &model, None, &params).unwrap();
    assert!(matches!(r, Value::Float(b) if b == 3.14f64.to_bits()));
}

#[test]
fn test_arithmetic() {
    let model = Model::new();
    let params = ValueMap::new();
    let e = Expr::Add(lit(float(10.0)), lit(float(5.0)));
    assert_eq!(number(&run(&e, &model, None, &params).unwrap()), Some(15.0));
    let e = Expr::Mul(lit(float(3.0)), lit(float(4.0)));
    assert_eq!(number(&run(&e, &model, None, &params).unwrap()), Some(12.0));
}

#[test]
fn test_comparison() {
    let model = Model::new();
    let params = ValueMap::new();
    let e = Expr::Gt(lit(float(10.0)), lit(float(5.0)));
    assert!(matches!(run(&e, &model, None, &params).unwrap(), Value::Bool(true)));
    let e = Expr::Lt(lit(float(10.0)), lit(float(5.0)));
    assert!(matches!(run(&e, &model, None, &params).unwrap(), Value::Bool(false)));
}

#[test]
fn test_logical() {
    let model = Model::new();
    let params = ValueMap::new();
    let e = Expr::And(vec![Expr::lit(Value::Bool(true)), Expr::lit(Value::Bool(true))]);
    assert!(matches!(run(&e, &model, None, &params).unwrap(), Value::Bool(true)));
    let e = Expr::And(vec![Expr::lit(Value::Bool(true)), Expr::lit(Value::Bool(false))]);
    assert!(matches!(run(&e, &model, None, &params).unwrap(), Value::Bool(false)));
    let e = Expr::Or(vec![Expr::lit(Value::Bool(false)), Expr::lit(Value::Bool(true))]);
    assert!(matches!(run(&e, &model, None, &params).unwrap(), Value::Bool(true)));
}

#[test]
fn test_property_access() {
    let mut model = Model::new();
    let id = model.entities.create("nation");
    model.entities.set_property(id, "gold", float(100.0));
    let params = ValueMap::new();
    let r = run(&Expr::prop("gold"), &model, Some(id), &params).unwrap();
    assert_eq!(number(&r), Some(100.0));
}

#[test]
fn property_without_target_is_an_error() {
    let model = Model::new();
    let params = ValueMap::new();
    let r = run(&Expr::prop("gold"), &model, None, &params);
    assert!(matches!(r, Err(EvalError::Evaluation(m)) if m == "No target entity for Property access"));
}

#[test]
fn and_stops_at_the_first_false_value() {
    let model = Model::new();
    let params = ValueMap::new();
    // The second operand would fail; it is never evaluated.
    let e = Expr::And(vec![Expr::lit(Value::Bool(false)), Expr::prop("missing")]);
    assert!(matches!(run(&e, &model, None, &params).unwrap(), Value::Bool(false)));
}

#[test]
fn division_by_zero_and_type_errors() {
    let model = Model::new();
    let params = ValueMap::new();
    let e = Expr::Div(lit(float(1.0)), lit(Value::Int(0)));
    assert!(matches!(run(&e, &model, None, &params), Err(EvalError::DivisionByZero)));
    let e = Expr::Add(lit(Value::Bool(true)), lit(Value::Int(1)));
    assert!(matches!(
        run(&e, &model, None, &params),
        Err(EvalError::TypeError { expected, got }) if expected == "number" && got == "bool"
    ));
}

#[test]
fn random_int_stays_in_range_and_advances_the_generator() {
    let model = Model::new();
    let params = ValueMap::new();
    let e = Expr::RandomInt(lit(Value::Int(1)), lit(Value::Int(6)));
    let rng = GameRng::new(42);
    let (r, after) = eval(&e, &model, None, &params, &rng, &num, &draw, &pick, &text);
    let mut expected = GameRng::new(42);
    let s = expected.next_u64();
    assert!(matches!(r.unwrap(), Value::Int(i) if i == 1 + (s % 6) as i64));
    assert_eq!(after.state(), expected.state());
}

#[test]
fn flags_counts_and_format() {
    let mut model = Model::new();
    let a = model.entities.create("nation");
    model.entities.create("nation");
    model.entities.create("city");
    model.entities.add_flag(a, DefId::new("at_war"));
    let mut params = ValueMap::new();
    params.insert("name".to_string(), Value::String("Rome".to_string()));
    let params = params;
    let e = Expr::HasFlag(DefId::new("at_war"));
    assert!(matches!(run(&e, &model, Some(a), &params).unwrap(), Value::Bool(true)));
    let e = Expr::CountEntities(DefId::new("nation"));
    assert!(matches!(run(&e, &model, None, &params).unwrap(), Value::Int(2)));
    let e = Expr::EntityExists(EntityRef::Entity(a));
    assert!(matches!(run(&e, &model, None, &params).unwrap(), Value::Bool(true)));
    let e = Expr::Format("{0} has {1} cities".to_string(), vec![Expr::param("name"), Expr::lit(Value::Int(3))]);
    assert!(matches!(run(&e, &model, None, &params).unwrap(), Value::String(s) if s == "Rome has 3 cities"));
    let e = Expr::Concat(vec![Expr::lit(Value::String("a".to_string())), Expr::lit(Value::Int(1))]);
    assert!(matches!(run(&e, &model, None, &params).unwrap(), Value::String(s) if s == "a1"));
}
