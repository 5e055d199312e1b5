//! The expression evaluator: walks an expression over a model, its target entity and its
//! parameters, and draws from a generator.
//!
//! Numbers are held as the bits of an `f64`; the few steps that compute on them (sums,
//! comparisons, rounding, float random ranges, the display of a value) are handed to the
//! caller as closures. Everything else (lookups, short-circuit logic, conditionals, entity
//! queries, integer random ranges, type errors, text building) is decided here.
use vstd::prelude::*;
use crate::collect::{first_of_kind_index, pick_of, picker_is_function, picker_is_total, Evaluated};
use crate::entity::{has_entity, entity_index, EntityModel, RefModel};
use crate::expr::Expr;
use crate::identity::EntityId;
use crate::model::Model;
use crate::rng::{xorshift, GameRng};
use crate::text::{decimal, push_decimal};
use crate::value::{lookup, Value, ValueMap, ValueModel};

verus! {

broadcast use vstd::std_specs::vec::group_vec_axioms;

/// Why an expression could not be evaluated.
#[derive(Debug)]
pub enum EvalError {
    /// The expression cannot be evaluated here (such as a property read without a target).
    Evaluation(String),
    /// A value of the wrong type.
    TypeError { expected: String, got: String },
    /// Division by zero.
    DivisionByZero,
}

/// The model of an [`EvalError`].
pub enum ErrorModel {
    Evaluation(Seq<char>),
    TypeError(Seq<char>, Seq<char>),
    DivisionByZero,
}

impl EvalError {
    /// The model of this error.
    pub open spec fn model(&self) -> ErrorModel {
        match self {
            EvalError::Evaluation(m) => ErrorModel::Evaluation(m@),
            EvalError::TypeError { expected, got } => ErrorModel::TypeError(expected@, got@),
            EvalError::DivisionByZero => ErrorModel::DivisionByZero,
        }
    }
}

/// A number read from a value: an integer, or the bits of a float.
#[derive(Debug, Clone, Copy)]
pub enum Number {
    Int(i64),
    Float(u64),
}

/// The numeric steps that the caller computes.
#[derive(Debug, Clone, Copy)]
pub enum NumOp {
    /// Sum of the first two operands, as a float.
    Add,
    /// Difference, as a float.
    Sub,
    /// Product, as a float.
    Mul,
    /// Quotient, as a float.
    Div,
    /// Remainder, as a float.
    Mod,
    /// Minimum, as a float.
    Min,
    /// Maximum, as a float.
    Max,
    /// Negation of the first operand, as a float.
    Neg,
    /// Absolute value of the first operand, as a float.
    Abs,
    /// The first operand clamped between the second and the third, as a float.
    Clamp,
    /// The first operand rounded down, as an integer.
    Floor,
    /// The first operand rounded up, as an integer.
    Ceil,
    /// The first operand rounded to nearest, as an integer.
    Round,
    /// First below second, as a boolean.
    Lt,
    /// First at most second, as a boolean.
    Le,
    /// First above second, as a boolean.
    Gt,
    /// First at least second, as a boolean.
    Ge,
    /// Whether the first operand is zero, as a boolean.
    IsZero,
    /// Whether the first two operands differ by less than the float epsilon, as a boolean.
    NearlyEqual,
    /// Whether the first operand is not zero, as a boolean.
    NonZero,
    /// The first operand as a float.
    AsFloat,
}

/// What an expression reads, and the caller's steps.
pub struct EvalEnv<N, D, P, T> {
    /// The entities of the model.
    pub entities: Seq<EntityModel>,
    /// The globals of the model.
    pub globals: Seq<(Seq<char>, ValueModel)>,
    /// The ID of the target entity, if any.
    pub target: Option<u64>,
    /// The parameters.
    pub params: Seq<(Seq<char>, ValueModel)>,
    /// The numeric steps.
    pub num: N,
    /// A float in `[low, high)` from a drawn generator state.
    pub draw: D,
    /// A weighted choice of an index.
    pub pick: P,
    /// The display text of a value.
    pub text: T,
}

/// What the numeric step gives for these operands.
pub open spec fn num_of<N: Fn(NumOp, Number, Number, Number) -> Value>(
    num: N,
    op: NumOp,
    a: Number,
    b: Number,
    c: Number,
) -> ValueModel {
    (choose|r: Value| #[trigger] call_ensures(num, (op, a, b, c), r)).model()
}

/// What the float draw gives for these bounds and drawn state.
pub open spec fn draw_of<D: Fn(Number, Number, u64) -> u64>(draw: D, lo: Number, hi: Number, s: u64) -> u64 {
    choose|r: u64| #[trigger] call_ensures(draw, (lo, hi, s), r)
}

/// The display text the caller gives for a value of this model.
pub open spec fn text_of<T: Fn(&Value) -> String>(text: T, v: ValueModel) -> Seq<char> {
    let (x, s) = choose|x: Value, s: String| x.model() == v && #[trigger] call_ensures(text, (&x,), s);
    s@
}

/// A generator in state `s`.
pub open spec fn rng_at(s: u64) -> GameRng {
    choose|g: GameRng| g@ == s
}

/// The numeric step accepts every argument and gives values of one model for the same
/// arguments.
pub open spec fn num_is_function<N: Fn(NumOp, Number, Number, Number) -> Value>(num: N) -> bool {
    &&& forall|op: NumOp, a: Number, b: Number, c: Number| #[trigger] call_requires(num, (op, a, b, c))
    &&& forall|op: NumOp, a: Number, b: Number, c: Number, r1: Value, r2: Value|
        #[trigger] call_ensures(num, (op, a, b, c), r1) && #[trigger] call_ensures(num, (op, a, b, c), r2)
            ==> r1.model() == r2.model()
}

/// The float draw accepts every argument and gives one outcome for the same arguments.
pub open spec fn draw_is_function<D: Fn(Number, Number, u64) -> u64>(draw: D) -> bool {
    &&& forall|lo: Number, hi: Number, s: u64| #[trigger] call_requires(draw, (lo, hi, s))
    &&& forall|lo: Number, hi: Number, s: u64, r1: u64, r2: u64|
        #[trigger] call_ensures(draw, (lo, hi, s), r1) && #[trigger] call_ensures(draw, (lo, hi, s), r2)
            ==> r1 == r2
}

/// The display text accepts every value and gives one text for values of one model.
pub open spec fn text_is_function<T: Fn(&Value) -> String>(text: T) -> bool {
    &&& forall|x: &Value| #[trigger] call_requires(text, (x,))
    &&& forall|x1: &Value, x2: &Value, s1: String, s2: String|
        x1.model() == x2.model() && #[trigger] call_ensures(text, (x1,), s1) && #[trigger] call_ensures(
            text,
            (x2,),
            s2,
        ) ==> s1@ == s2@
}

/// All the caller's steps behave as functions of their arguments.
pub open spec fn hosts_are_functions<
    N: Fn(NumOp, Number, Number, Number) -> Value,
    D: Fn(Number, Number, u64) -> u64,
    P: Fn(&Vec<u64>, &GameRng) -> (Option<usize>, GameRng),
    T: Fn(&Value) -> String,
>(num: N, draw: D, pick: P, text: T) -> bool {
    &&& num_is_function(num)
    &&& draw_is_function(draw)
    &&& picker_is_function(pick)
    &&& picker_is_total(pick)
    &&& text_is_function(text)
}

/// The number a value holds, if it is one.
pub open spec fn number_of(v: ValueModel) -> Option<Number> {
    match v {
        ValueModel::Int(i) => Some(Number::Int(i)),
        ValueModel::Float(b) => Some(Number::Float(b)),
        _ => None,
    }
}

/// The name of a value's type.
pub open spec fn kind_name_of(v: ValueModel) -> Seq<char> {
    match v {
        ValueModel::Null => "null"@,
        ValueModel::Bool(_) => "bool"@,
        ValueModel::Int(_) => "int"@,
        ValueModel::Float(_) => "float"@,
        ValueModel::Str(_) => "string"@,
        ValueModel::Ref(_) => "entity_ref"@,
        ValueModel::List(_) => "list"@,
        ValueModel::Dict(_) => "map"@,
    }
}

/// The error for a value that should have been a number.
pub open spec fn not_a_number(v: ValueModel) -> ErrorModel {
    ErrorModel::TypeError("number"@, kind_name_of(v))
}

/// Whether a value counts as true: null, false, zero, the empty text and empty
/// collections do not.
pub open spec fn truthy<N: Fn(NumOp, Number, Number, Number) -> Value>(num: N, v: ValueModel) -> bool {
    match v {
        ValueModel::Null => false,
        ValueModel::Bool(b) => b,
        ValueModel::Int(i) => i != 0,
        ValueModel::Float(b) => num_of(
            num,
            NumOp::NonZero,
            Number::Float(b),
            Number::Float(b),
            Number::Float(b),
        ) == ValueModel::Bool(true),
        ValueModel::Str(s) => s.len() > 0,
        ValueModel::Ref(_) => true,
        ValueModel::List(l) => l.len() > 0,
        ValueModel::Dict(d) => d.len() > 0,
    }
}

/// Whether two values are equal: numbers within the float epsilon (an integer against a
/// float as well), other values of the same type when equal; lists and maps never.
pub open spec fn values_equal<N: Fn(NumOp, Number, Number, Number) -> Value>(
    num: N,
    a: ValueModel,
    b: ValueModel,
) -> bool {
    match (a, b) {
        (ValueModel::Null, ValueModel::Null) => true,
        (ValueModel::Bool(x), ValueModel::Bool(y)) => x == y,
        (ValueModel::Int(x), ValueModel::Int(y)) => x == y,
        (ValueModel::Float(_), ValueModel::Float(_)) | (ValueModel::Int(_), ValueModel::Float(_)) | (
            ValueModel::Float(_),
            ValueModel::Int(_),
        ) => num_of(num, NumOp::NearlyEqual, number_of(a).unwrap(), number_of(b).unwrap(), number_of(b).unwrap())
            == ValueModel::Bool(true),
        (ValueModel::Str(x), ValueModel::Str(y)) => x == y,
        (ValueModel::Ref(x), ValueModel::Ref(y)) => x == y,
        _ => false,
    }
}

/// The value at a key of a property list, or null.
pub open spec fn or_null(s: Seq<(Seq<char>, ValueModel)>, k: Seq<char>) -> ValueModel {
    match lookup(s, k) {
        Some(v) => v,
        None => ValueModel::Null,
    }
}

/// The entity a reference resolves to: by ID, or the first of a kind.
pub open spec fn resolved(s: Seq<EntityModel>, r: RefModel) -> Option<EntityModel> {
    match r {
        RefModel::Entity(id) => if has_entity(s, id) {
            Some(s[entity_index(s, id)])
        } else {
            None
        },
        RefModel::ByDef(d) => if exists|i: int| 0 <= i < s.len() && #[trigger] s[i].kind == d {
            Some(s[first_of_kind_index(s, d)])
        } else {
            None
        },
        _ => None,
    }
}

/// The placeholder `{k}` of a template.
pub open spec fn placeholder(k: nat) -> Seq<char> {
    seq!['{'] + decimal(k) + seq!['}']
}

/// Every non-overlapping occurrence of `pat` in `s`, from the left, replaced by `rep`.
pub open spec fn replace_all(s: Seq<char>, pat: Seq<char>, rep: Seq<char>) -> Seq<char>
    decreases s.len(),
{
    if pat.len() == 0 || s.len() < pat.len() {
        s
    } else if s.subrange(0, pat.len() as int) == pat {
        rep + replace_all(s.subrange(pat.len() as int, s.len() as int), pat, rep)
    } else {
        seq![s[0]] + replace_all(s.subrange(1, s.len() as int), pat, rep)
    }
}

/// An integer in the range from `lo` to `hi` from a drawn state: `lo` plus the state modulo
/// the width of the range, with the arithmetic of 64-bit integers; none when that width
/// wraps to zero.
pub open spec fn random_int(lo: i64, hi: i64, s: u64) -> Option<i64> {
    let width = (hi - lo + 1) as u64;
    if width == 0 {
        None
    } else {
        Some((lo + (s % width)) as i64)
    }
}

/// Outcome of an evaluation: a value or an error, and the generator state after it.
pub type Outcome = (Result<ValueModel, ErrorModel>, u64);

/// A binary numeric step on the results of two operands.
pub open spec fn binary_step<N: Fn(NumOp, Number, Number, Number) -> Value>(
    num: N,
    op: NumOp,
    a: ValueModel,
    b: ValueModel,
) -> Result<ValueModel, ErrorModel> {
    if number_of(a) is None {
        Err(not_a_number(a))
    } else if number_of(b) is None {
        Err(not_a_number(b))
    } else {
        Ok(num_of(num, op, number_of(a).unwrap(), number_of(b).unwrap(), number_of(b).unwrap()))
    }
}

/// A unary numeric step on the result of an operand.
pub open spec fn unary_step<N: Fn(NumOp, Number, Number, Number) -> Value>(
    num: N,
    op: NumOp,
    a: ValueModel,
) -> Result<ValueModel, ErrorModel> {
    if number_of(a) is None {
        Err(not_a_number(a))
    } else {
        Ok(num_of(num, op, number_of(a).unwrap(), number_of(a).unwrap(), number_of(a).unwrap()))
    }
}

/// The evaluation of an expression, from generator state `g`.
pub open spec fn eval_spec<
    N: Fn(NumOp, Number, Number, Number) -> Value,
    D: Fn(Number, Number, u64) -> u64,
    P: Fn(&Vec<u64>, &GameRng) -> (Option<usize>, GameRng),
    T: Fn(&Value) -> String,
>(env: EvalEnv<N, D, P, T>, e: Expr, g: u64) -> Outcome
    decreases e,
{
    match e {
        Expr::Literal(v) => (Ok(v.model()), g),
        Expr::Property(n) => match env.target {
            None => (Err(ErrorModel::Evaluation("No target entity for Property access"@)), g),
            Some(id) => (
                Ok(
                    if has_entity(env.entities, id) {
                        or_null(env.entities[entity_index(env.entities, id)].properties, n@)
                    } else {
                        ValueModel::Null
                    },
                ),
                g,
            ),
        },
        Expr::EntityProperty(r, n) => (
            Ok(
                match resolved(env.entities, r.model()) {
                    Some(ent) => or_null(ent.properties, n@),
                    None => ValueModel::Null,
                },
            ),
            g,
        ),
        Expr::Global(n) => (Ok(or_null(env.globals, n@)), g),
        Expr::Param(n) => (Ok(or_null(env.params, n@)), g),
        Expr::Add(a, b) => {
            let (ra, g1) = eval_spec(env, *a, g);
            let (rb, g2) = eval_spec(env, *b, g1);
            binary_outcome(env.num, NumOp::Add, ra, g1, rb, g2)
        },
        Expr::Sub(a, b) => {
            let (ra, g1) = eval_spec(env, *a, g);
            let (rb, g2) = eval_spec(env, *b, g1);
            binary_outcome(env.num, NumOp::Sub, ra, g1, rb, g2)
        },
        Expr::Mul(a, b) => {
            let (ra, g1) = eval_spec(env, *a, g);
            let (rb, g2) = eval_spec(env, *b, g1);
            binary_outcome(env.num, NumOp::Mul, ra, g1, rb, g2)
        },
        Expr::Mod(a, b) => {
            let (ra, g1) = eval_spec(env, *a, g);
            let (rb, g2) = eval_spec(env, *b, g1);
            binary_outcome(env.num, NumOp::Mod, ra, g1, rb, g2)
        },
        Expr::Min(a, b) => {
            let (ra, g1) = eval_spec(env, *a, g);
            let (rb, g2) = eval_spec(env, *b, g1);
            binary_outcome(env.num, NumOp::Min, ra, g1, rb, g2)
        },
        Expr::Max(a, b) => {
            let (ra, g1) = eval_spec(env, *a, g);
            let (rb, g2) = eval_spec(env, *b, g1);
            binary_outcome(env.num, NumOp::Max, ra, g1, rb, g2)
        },
        Expr::Lt(a, b) => {
            let (ra, g1) = eval_spec(env, *a, g);
            let (rb, g2) = eval_spec(env, *b, g1);
            binary_outcome(env.num, NumOp::Lt, ra, g1, rb, g2)
        },
        Expr::Le(a, b) => {
            let (ra, g1) = eval_spec(env, *a, g);
            let (rb, g2) = eval_spec(env, *b, g1);
            binary_outcome(env.num, NumOp::Le, ra, g1, rb, g2)
        },
        Expr::Gt(a, b) => {
            let (ra, g1) = eval_spec(env, *a, g);
            let (rb, g2) = eval_spec(env, *b, g1);
            binary_outcome(env.num, NumOp::Gt, ra, g1, rb, g2)
        },
        Expr::Ge(a, b) => {
            let (ra, g1) = eval_spec(env, *a, g);
            let (rb, g2) = eval_spec(env, *b, g1);
            binary_outcome(env.num, NumOp::Ge, ra, g1, rb, g2)
        },
        Expr::Div(a, b) => {
            let (ra, g1) = eval_spec(env, *a, g);
            match ra {
                Err(x) => (Err(x), g1),
                Ok(va) => {
                    let (rb, g2) = eval_spec(env, *b, g1);
                    match rb {
                        Err(x) => (Err(x), g2),
                        Ok(vb) => if number_of(vb) is None {
                            (Err(not_a_number(vb)), g2)
                        } else if unary_step(env.num, NumOp::IsZero, vb) == Ok::<ValueModel, ErrorModel>(
                            ValueModel::Bool(true),
                        ) {
                            (Err(ErrorModel::DivisionByZero), g2)
                        } else {
                            (binary_step(env.num, NumOp::Div, va, vb), g2)
                        },
                    }
                },
            }
        },
        Expr::Neg(a) => {
            let (ra, g1) = eval_spec(env, *a, g);
            unary_outcome(env.num, NumOp::Neg, ra, g1)
        },
        Expr::Abs(a) => {
            let (ra, g1) = eval_spec(env, *a, g);
            unary_outcome(env.num, NumOp::Abs, ra, g1)
        },
        Expr::Floor(a) => {
            let (ra, g1) = eval_spec(env, *a, g);
            unary_outcome(env.num, NumOp::Floor, ra, g1)
        },
        Expr::Ceil(a) => {
            let (ra, g1) = eval_spec(env, *a, g);
            unary_outcome(env.num, NumOp::Ceil, ra, g1)
        },
        Expr::Round(a) => {
            let (ra, g1) = eval_spec(env, *a, g);
            unary_outcome(env.num, NumOp::Round, ra, g1)
        },
        Expr::Clamp(a, lo, hi) => {
            let (ra, g1) = eval_spec(env, *a, g);
            match ra {
                Err(x) => (Err(x), g1),
                Ok(va) => {
                    let (rl, g2) = eval_spec(env, *lo, g1);
                    match rl {
                        Err(x) => (Err(x), g2),
                        Ok(vl) => {
                            let (rh, g3) = eval_spec(env, *hi, g2);
                            match rh {
                                Err(x) => (Err(x), g3),
                                Ok(vh) => if number_of(va) is None {
                                    (Err(not_a_number(va)), g3)
                                } else if number_of(vl) is None {
                                    (Err(not_a_number(vl)), g3)
                                } else if number_of(vh) is None {
                                    (Err(not_a_number(vh)), g3)
                                } else {
                                    (
                                        Ok(
                                            num_of(
                                                env.num,
                                                NumOp::Clamp,
                                                number_of(va).unwrap(),
                                                number_of(vl).unwrap(),
                                                number_of(vh).unwrap(),
                                            ),
                                        ),
                                        g3,
                                    )
                                },
                            }
                        },
                    }
                },
            }
        },
        Expr::Eq(a, b) => {
            let (ra, g1) = eval_spec(env, *a, g);
            match ra {
                Err(x) => (Err(x), g1),
                Ok(va) => {
                    let (rb, g2) = eval_spec(env, *b, g1);
                    match rb {
                        Err(x) => (Err(x), g2),
                        Ok(vb) => (Ok(ValueModel::Bool(values_equal(env.num, va, vb))), g2),
                    }
                },
            }
        },
        Expr::Ne(a, b) => {
            let (ra, g1) = eval_spec(env, *a, g);
            match ra {
                Err(x) => (Err(x), g1),
                Ok(va) => {
                    let (rb, g2) = eval_spec(env, *b, g1);
                    match rb {
                        Err(x) => (Err(x), g2),
                        Ok(vb) => (Ok(ValueModel::Bool(!values_equal(env.num, va, vb))), g2),
                    }
                },
            }
        },
        Expr::And(v) => logic_spec(env, v@, false, g),
        Expr::Or(v) => logic_spec(env, v@, true, g),
        Expr::Not(a) => {
            let (ra, g1) = eval_spec(env, *a, g);
            match ra {
                Err(x) => (Err(x), g1),
                Ok(va) => (Ok(ValueModel::Bool(!truthy(env.num, va))), g1),
            }
        },
        Expr::If(c, t, f) => {
            let (rc, g1) = eval_spec(env, *c, g);
            match rc {
                Err(x) => (Err(x), g1),
                Ok(vc) => if truthy(env.num, vc) {
                    eval_spec(env, *t, g1)
                } else {
                    eval_spec(env, *f, g1)
                },
            }
        },
        Expr::HasFlag(flag) => match env.target {
            None => (Err(ErrorModel::Evaluation("No target entity for HasFlag"@)), g),
            Some(id) => (
                Ok(
                    ValueModel::Bool(
                        has_entity(env.entities, id) && env.entities[entity_index(
                            env.entities,
                            id,
                        )].flags.contains(flag@),
                    ),
                ),
                g,
            ),
        },
        Expr::EntityExists(r) => (Ok(ValueModel::Bool(resolved(env.entities, r.model()) is Some)), g),
        Expr::CountEntities(kind) => (
            Ok(ValueModel::Int(env.entities.filter(|x: EntityModel| x.kind == kind@).len() as i64)),
            g,
        ),
        Expr::Random => {
            let s = xorshift(g);
            (Ok(ValueModel::Float(draw_of(env.draw, Number::Int(0), Number::Int(1), s))), s)
        },
        Expr::RandomRange(lo, hi) => {
            let (rl, g1) = eval_spec(env, *lo, g);
            match rl {
                Err(x) => (Err(x), g1),
                Ok(vl) => {
                    let (rh, g2) = eval_spec(env, *hi, g1);
                    match rh {
                        Err(x) => (Err(x), g2),
                        Ok(vh) => if number_of(vl) is None {
                            (Err(not_a_number(vl)), g2)
                        } else if number_of(vh) is None {
                            (Err(not_a_number(vh)), g2)
                        } else {
                            let s = xorshift(g2);
                            (
                                Ok(
                                    ValueModel::Float(
                                        draw_of(env.draw, number_of(vl).unwrap(), number_of(vh).unwrap(), s),
                                    ),
                                ),
                                s,
                            )
                        },
                    }
                },
            }
        },
        Expr::RandomInt(lo, hi) => {
            let (rl, g1) = eval_spec(env, *lo, g);
            match rl {
                Err(x) => (Err(x), g1),
                Ok(vl) => {
                    let (rh, g2) = eval_spec(env, *hi, g1);
                    match rh {
                        Err(x) => (Err(x), g2),
                        Ok(vh) => match (vl, vh) {
                            (ValueModel::Int(l), ValueModel::Int(h)) => {
                                let s = xorshift(g2);
                                match random_int(l, h, s) {
                                    Some(i) => (Ok(ValueModel::Int(i)), s),
                                    None => (Err(ErrorModel::Evaluation("Empty random range"@)), s),
                                }
                            },
                            (ValueModel::Int(_), _) => (Err(ErrorModel::TypeError("int"@, kind_name_of(vh))), g2),
                            _ => (Err(ErrorModel::TypeError("int"@, kind_name_of(vl))), g2),
                        },
                    }
                },
            }
        },
        Expr::WeightedRandom(v) => {
            let (rw, g1) = weights_spec(env, v@, g);
            match rw {
                Err(x) => (Err(x), g1),
                Ok(w) => {
                    let (i, g2) = pick_of(env.pick, w, rng_at(g1));
                    (
                        Ok(
                            match i {
                                Some(k) => ValueModel::Int(k as i64),
                                None => ValueModel::Null,
                            },
                        ),
                        g2@,
                    )
                },
            }
        },
        Expr::Concat(v) => {
            let (rs, g1) = concat_spec(env, v@, g);
            match rs {
                Err(x) => (Err(x), g1),
                Ok(s) => (Ok(ValueModel::Str(s)), g1),
            }
        },
        Expr::Format(t, v) => {
            let (rs, g1) = format_spec(env, t@, v@, 0, g);
            match rs {
                Err(x) => (Err(x), g1),
                Ok(s) => (Ok(ValueModel::Str(s)), g1),
            }
        },
    }
}

/// The outcome of a binary numeric step after its operands: the first operand's error,
/// else the second's, else the step.
pub open spec fn binary_outcome<N: Fn(NumOp, Number, Number, Number) -> Value>(
    num: N,
    op: NumOp,
    ra: Result<ValueModel, ErrorModel>,
    g1: u64,
    rb: Result<ValueModel, ErrorModel>,
    g2: u64,
) -> Outcome {
    match ra {
        Err(x) => (Err(x), g1),
        Ok(va) => match rb {
            Err(x) => (Err(x), g2),
            Ok(vb) => (binary_step(num, op, va, vb), g2),
        },
    }
}

/// The outcome of a unary numeric step after its operand.
pub open spec fn unary_outcome<N: Fn(NumOp, Number, Number, Number) -> Value>(
    num: N,
    op: NumOp,
    ra: Result<ValueModel, ErrorModel>,
    g1: u64,
) -> Outcome {
    match ra {
        Err(x) => (Err(x), g1),
        Ok(va) => (unary_step(num, op, va), g1),
    }
}

/// Short-circuit logic over expressions in order: with `stop_on` false (and), the first
/// value that is not true gives `false`, else `true`; with `stop_on` true (or), the first
/// true value gives `true`, else `false`.
pub open spec fn logic_spec<
    N: Fn(NumOp, Number, Number, Number) -> Value,
    D: Fn(Number, Number, u64) -> u64,
    P: Fn(&Vec<u64>, &GameRng) -> (Option<usize>, GameRng),
    T: Fn(&Value) -> String,
>(env: EvalEnv<N, D, P, T>, s: Seq<Expr>, stop_on: bool, g: u64) -> Outcome
    decreases s,
{
    if s.len() == 0 {
        (Ok(ValueModel::Bool(!stop_on)), g)
    } else {
        let (r, g1) = eval_spec(env, s[0], g);
        match r {
            Err(x) => (Err(x), g1),
            Ok(v) => if truthy(env.num, v) == stop_on {
                (Ok(ValueModel::Bool(stop_on)), g1)
            } else {
                logic_spec(env, s.subrange(1, s.len() as int), stop_on, g1)
            },
        }
    }
}

/// The display texts of the values of expressions, concatenated in order.
pub open spec fn concat_spec<
    N: Fn(NumOp, Number, Number, Number) -> Value,
    D: Fn(Number, Number, u64) -> u64,
    P: Fn(&Vec<u64>, &GameRng) -> (Option<usize>, GameRng),
    T: Fn(&Value) -> String,
>(env: EvalEnv<N, D, P, T>, s: Seq<Expr>, g: u64) -> (Result<Seq<char>, ErrorModel>, u64)
    decreases s,
{
    if s.len() == 0 {
        (Ok(Seq::empty()), g)
    } else {
        let (r, g1) = eval_spec(env, s[0], g);
        match r {
            Err(x) => (Err(x), g1),
            Ok(v) => {
                let (rest, g2) = concat_spec(env, s.subrange(1, s.len() as int), g1);
                match rest {
                    Err(x) => (Err(x), g2),
                    Ok(t) => (Ok(text_of(env.text, v) + t), g2),
                }
            },
        }
    }
}

/// A template with the placeholders `{k}`, `{k+1}`, ... replaced in turn by the display
/// texts of the values of the expressions.
pub open spec fn format_spec<
    N: Fn(NumOp, Number, Number, Number) -> Value,
    D: Fn(Number, Number, u64) -> u64,
    P: Fn(&Vec<u64>, &GameRng) -> (Option<usize>, GameRng),
    T: Fn(&Value) -> String,
>(env: EvalEnv<N, D, P, T>, t: Seq<char>, s: Seq<Expr>, k: nat, g: u64) -> (Result<Seq<char>, ErrorModel>, u64)
    decreases s,
{
    if s.len() == 0 {
        (Ok(t), g)
    } else {
        let (r, g1) = eval_spec(env, s[0], g);
        match r {
            Err(x) => (Err(x), g1),
            Ok(v) => format_spec(
                env,
                replace_all(t, placeholder(k), text_of(env.text, v)),
                s.subrange(1, s.len() as int),
                k + 1,
                g1,
            ),
        }
    }
}

/// The weights of expressions in order, as float bits; each must be a number.
pub open spec fn weights_spec<
    N: Fn(NumOp, Number, Number, Number) -> Value,
    D: Fn(Number, Number, u64) -> u64,
    P: Fn(&Vec<u64>, &GameRng) -> (Option<usize>, GameRng),
    T: Fn(&Value) -> String,
>(env: EvalEnv<N, D, P, T>, s: Seq<Expr>, g: u64) -> (Result<Seq<u64>, ErrorModel>, u64)
    decreases s,
{
    if s.len() == 0 {
        (Ok(Seq::empty()), g)
    } else {
        let (r, g1) = eval_spec(env, s[0], g);
        match r {
            Err(x) => (Err(x), g1),
            Ok(v) => if number_of(v) is None {
                (Err(not_a_number(v)), g1)
            } else {
                let (rest, g2) = weights_spec(env, s.subrange(1, s.len() as int), g1);
                match rest {
                    Err(x) => (Err(x), g2),
                    Ok(w) => (Ok(seq![float_bits_of(env.num, number_of(v).unwrap())] + w), g2),
                }
            },
        }
    }
}

/// The float bits the numeric step gives for a number (zero when it gives no float).
pub open spec fn float_bits_of<N: Fn(NumOp, Number, Number, Number) -> Value>(num: N, n: Number) -> u64 {
    match num_of(num, NumOp::AsFloat, n, n, n) {
        ValueModel::Float(b) => b,
        _ => 0,
    }
}


/// What an evaluation over these arguments reads.
pub open spec fn env_of<N, D, P, T>(
    model: &Model,
    target: Option<EntityId>,
    params: &ValueMap,
    num: N,
    draw: D,
    pick: P,
    text: T,
) -> EvalEnv<N, D, P, T> {
    EvalEnv {
        entities: model.entities@,
        globals: model.globals@,
        target: match target {
            Some(id) => Some(id.0),
            None => None,
        },
        params: params@,
        num,
        draw,
        pick,
        text,
    }
}

/// The model of an evaluation's result.
pub open spec fn result_model(r: Result<Value, EvalError>) -> Result<ValueModel, ErrorModel> {
    match r {
        Ok(v) => Ok(v.model()),
        Err(e) => Err(e.model()),
    }
}

/// Run the numeric step.
fn run_num<N: Fn(NumOp, Number, Number, Number) -> Value>(
    num: &N,
    op: NumOp,
    a: Number,
    b: Number,
    c: Number,
) -> (r: Value)
    requires
        num_is_function(*num),
    ensures
        r.model() == num_of(*num, op, a, b, c),
{
    let r = num(op, a, b, c);
    proof {
        let w = choose|w: Value| #[trigger] call_ensures(*num, (op, a, b, c), w);
        assert(call_ensures(*num, (op, a, b, c), w));
    }
    r
}

/// Run the float draw.
fn run_draw<D: Fn(Number, Number, u64) -> u64>(draw: &D, lo: Number, hi: Number, s: u64) -> (r: u64)
    requires
        draw_is_function(*draw),
    ensures
        r == draw_of(*draw, lo, hi, s),
{
    let r = draw(lo, hi, s);
    proof {
        let w = choose|w: u64| #[trigger] call_ensures(*draw, (lo, hi, s), w);
        assert(call_ensures(*draw, (lo, hi, s), w));
    }
    r
}

/// Run the display text.
fn run_text<T: Fn(&Value) -> String>(text: &T, v: &Value) -> (r: String)
    requires
        text_is_function(*text),
    ensures
        r@ == text_of(*text, v.model()),
{
    let r = text(v);
    proof {
        assert(call_ensures(*text, (v,), r));
        let (x, w) = choose|x: Value, w: String| x.model() == v.model() && #[trigger] call_ensures(*text, (&x,), w);
        assert(call_ensures(*text, (&x,), w));
    }
    r
}

/// The number a value holds, if it is one.
pub fn number_in(v: &Value) -> (r: Option<Number>)
    ensures
        r == number_of(v.model()),
{
    match v {
        Value::Int(i) => Some(Number::Int(*i)),
        Value::Float(b) => Some(Number::Float(*b)),
        _ => None,
    }
}

/// The name of a value's type.
pub fn kind_name(v: &Value) -> (r: String)
    ensures
        r@ == kind_name_of(v.model()),
{
    match v {
        Value::Null => String::from_str("null"),
        Value::Bool(_) => String::from_str("bool"),
        Value::Int(_) => String::from_str("int"),
        Value::Float(_) => String::from_str("float"),
        Value::String(_) => String::from_str("string"),
        Value::EntityRef(_) => String::from_str("entity_ref"),
        Value::List(_) => String::from_str("list"),
        Value::Dict(_) => String::from_str("map"),
    }
}

/// The error for a value that should have been of a type.
fn type_error(expected: &str, v: &Value) -> (r: EvalError)
    ensures
        r.model() == ErrorModel::TypeError(expected@, kind_name_of(v.model())),
{
    EvalError::TypeError { expected: String::from_str(expected), got: kind_name(v) }
}

/// Whether a value counts as true (see [`truthy`]).
pub fn is_truthy<N: Fn(NumOp, Number, Number, Number) -> Value>(v: &Value, num: &N) -> (r: bool)
    requires
        num_is_function(*num),
    ensures
        r == truthy(*num, v.model()),
{
    match v {
        Value::Null => false,
        Value::Bool(b) => *b,
        Value::Int(i) => *i != 0,
        Value::Float(b) => {
            let n = run_num(num, NumOp::NonZero, Number::Float(*b), Number::Float(*b), Number::Float(*b));
            match n {
                Value::Bool(t) => t,
                _ => false,
            }
        },
        Value::String(s) => {
            proof {
                vstd::string::axiom_str_literal_len("");
            }
            s.as_str().unicode_len() > 0
        },
        Value::EntityRef(_) => true,
        Value::List(l) => {
            proof {
                crate::value::lemma_models_of(l@);
            }
            l.len() > 0
        },
        Value::Dict(m) => m.len() > 0,
    }
}

/// Whether two values are equal (see [`values_equal`]).
pub fn equal_values<N: Fn(NumOp, Number, Number, Number) -> Value>(a: &Value, b: &Value, num: &N) -> (r: bool)
    requires
        num_is_function(*num),
    ensures
        r == values_equal(*num, a.model(), b.model()),
{
    match (a, b) {
        (Value::Null, Value::Null) => true,
        (Value::Bool(x), Value::Bool(y)) => *x == *y,
        (Value::Int(x), Value::Int(y)) => *x == *y,
        (Value::Float(_), Value::Float(_)) | (Value::Int(_), Value::Float(_)) | (Value::Float(_), Value::Int(_)) => {
            let x = number_in(a).unwrap();
            let y = number_in(b).unwrap();
            match run_num(num, NumOp::NearlyEqual, x, y, y) {
                Value::Bool(t) => t,
                _ => false,
            }
        },
        (Value::String(x), Value::String(y)) => crate::text::str_eq(x.as_str(), y.as_str()),
        (Value::EntityRef(x), Value::EntityRef(y)) => x.0 == y.0,
        _ => false,
    }
}

/// A binary numeric step on two values (see [`binary_step`]).
fn binary_apply<N: Fn(NumOp, Number, Number, Number) -> Value>(op: NumOp, a: &Value, b: &Value, num: &N) -> (r: Result<Value, EvalError>)
    requires
        num_is_function(*num),
    ensures
        result_model(r) == binary_step(*num, op, a.model(), b.model()),
{
    match number_in(a) {
        None => Err(type_error("number", a)),
        Some(x) => match number_in(b) {
            None => Err(type_error("number", b)),
            Some(y) => Ok(run_num(num, op, x, y, y)),
        },
    }
}

/// A unary numeric step on a value (see [`unary_step`]).
fn unary_apply<N: Fn(NumOp, Number, Number, Number) -> Value>(op: NumOp, a: &Value, num: &N) -> (r: Result<Value, EvalError>)
    requires
        num_is_function(*num),
    ensures
        result_model(r) == unary_step(*num, op, a.model()),
{
    match number_in(a) {
        None => Err(type_error("number", a)),
        Some(x) => Ok(run_num(num, op, x, x, x)),
    }
}

/// The entity a reference resolves to (see [`resolved`]).
fn resolve_entity<'a>(model: &'a Model, r: &crate::entity::EntityRef) -> (e: Option<&'a crate::entity::Entity>)
    ensures
        match e {
            Some(x) => resolved(model.entities@, r.model()) == Some(x.model()),
            None => resolved(model.entities@, r.model()) is None,
        },
{
    let e = model.entities.resolve(r);
    proof {
        let s = model.entities@;
        match r.model() {
            RefModel::ByDef(d) => {
                if e is Some {
                    let i = choose|i: int| 0 <= i < s.len() && s[i] == e.unwrap().model() && e.unwrap().model().kind == d && (forall|j: int| 0 <= j < i ==> #[trigger] s[j].kind != d);
                    assert(s[i].kind == d);
                    let k = first_of_kind_index(s, d);
                    assert(0 <= k < s.len() && s[k].kind == d);
                    if k < i {
                        assert(s[k].kind != d);
                    }
                    if i < k {
                        assert(s[i].kind != d);
                    }
                } else {
                    assert(!exists|i: int| 0 <= i < s.len() && #[trigger] s[i].kind == d);
                }
            },
            _ => {},
        }
    }
    e
}


/// `str::replace` of std: a new string with every non-overlapping match of `from`, taken
/// from the left, replaced by `to`.
#[verifier::external_body]
pub(crate) fn replace_text(s: &str, from: &str, to: &str) -> (r: String)
    requires
        from@.len() > 0,
    ensures
        r@ == replace_all(s@, from@, to@),
{
    s.replace(from, to)
}

/// The placeholder `{k}`.
fn placeholder_text(k: u64) -> (r: String)
    ensures
        r@ == placeholder(k as nat),
{
    let mut s = String::from_str("{");
    push_decimal(&mut s, k);
    s.append("}");
    proof {
        reveal_strlit("{");
        reveal_strlit("}");
        assert(s@ =~= placeholder(k as nat));
    }
    s
}

/// Evaluate an expression (see [`eval_spec`]), drawing from `rng`.
fn eval_in<
    N: Fn(NumOp, Number, Number, Number) -> Value,
    D: Fn(Number, Number, u64) -> u64,
    P: Fn(&Vec<u64>, &GameRng) -> (Option<usize>, GameRng),
    T: Fn(&Value) -> String,
>(
    expr: &Expr,
    model: &Model,
    target: Option<EntityId>,
    params: &ValueMap,
    rng: &mut GameRng,
    num: &N,
    draw: &D,
    pick: &P,
    text: &T,
) -> (r: Result<Value, EvalError>)
    requires
        hosts_are_functions(*num, *draw, *pick, *text),
    ensures
        (result_model(r), final(rng)@) == eval_spec(env_of(model, target, params, *num, *draw, *pick, *text), *expr, old(rng)@),
    decreases expr, 1nat,
{
    match expr {
        Expr::Literal(v) => Ok(v.duplicate()),
        Expr::Property(name) => match target {
            None => Err(EvalError::Evaluation(String::from_str("No target entity for Property access"))),
            Some(id) => Ok(
                match model.entities.get(id) {
                    Some(ent) => match ent.get(name.as_str()) {
                        Some(v) => v.duplicate(),
                        None => Value::Null,
                    },
                    None => Value::Null,
                },
            ),
        },
        Expr::EntityProperty(r, name) => Ok(
            match resolve_entity(model, r) {
                Some(ent) => match ent.get(name.as_str()) {
                    Some(v) => v.duplicate(),
                    None => Value::Null,
                },
                None => Value::Null,
            },
        ),
        Expr::Global(name) => Ok(
            match model.get_global(name.as_str()) {
                Some(v) => v.duplicate(),
                None => Value::Null,
            },
        ),
        Expr::Param(name) => Ok(
            match params.get(name.as_str()) {
                Some(v) => v.duplicate(),
                None => Value::Null,
            },
        ),
        Expr::HasFlag(flag) => match target {
            None => Err(EvalError::Evaluation(String::from_str("No target entity for HasFlag"))),
            Some(id) => Ok(
                Value::Bool(
                    match model.entities.get(id) {
                        Some(ent) => ent.has_flag(flag),
                        None => false,
                    },
                ),
            ),
        },
        Expr::EntityExists(r) => Ok(Value::Bool(resolve_entity(model, r).is_some())),
        Expr::CountEntities(kind) => {
            let ids = model.entities.by_kind(kind);
            proof {
                assert(ids@.map_values(|id: EntityId| id.0).len() == ids@.len());
            }
            Ok(Value::Int(ids.len() as i64))
        },
        Expr::Add(..) | Expr::Sub(..) | Expr::Mul(..) | Expr::Mod(..) | Expr::Min(..) | Expr::Max(..) | Expr::Lt(..) | Expr::Le(..) | Expr::Gt(..) | Expr::Ge(..) | Expr::Neg(..) | Expr::Abs(..) | Expr::Floor(..) | Expr::Ceil(..) | Expr::Round(..) | Expr::Div(..) | Expr::Clamp(..) => eval_numeric(expr, model, target, params, rng, num, draw, pick, text),
        Expr::Eq(..) | Expr::Ne(..) | Expr::And(..) | Expr::Or(..) | Expr::Not(..) | Expr::If(..) => eval_logic(expr, model, target, params, rng, num, draw, pick, text),
        Expr::Random | Expr::RandomRange(..) | Expr::RandomInt(..) | Expr::WeightedRandom(..) | Expr::Concat(..) | Expr::Format(..) => eval_chance(expr, model, target, params, rng, num, draw, pick, text),
    }
}

/// Evaluate an expression of the numeric steps (see [`eval_spec`]).
#[verifier::spinoff_prover]
fn eval_numeric<
    N: Fn(NumOp, Number, Number, Number) -> Value,
    D: Fn(Number, Number, u64) -> u64,
    P: Fn(&Vec<u64>, &GameRng) -> (Option<usize>, GameRng),
    T: Fn(&Value) -> String,
>(
    expr: &Expr,
    model: &Model,
    target: Option<EntityId>,
    params: &ValueMap,
    rng: &mut GameRng,
    num: &N,
    draw: &D,
    pick: &P,
    text: &T,
) -> (r: Result<Value, EvalError>)
    requires
        *expr is Add || *expr is Sub || *expr is Mul || *expr is Mod || *expr is Min || *expr is Max || *expr is Lt || *expr is Le || *expr is Gt || *expr is Ge || *expr is Neg || *expr is Abs || *expr is Floor || *expr is Ceil || *expr is Round || *expr is Div || *expr is Clamp,
        hosts_are_functions(*num, *draw, *pick, *text),
    ensures
        (result_model(r), final(rng)@) == eval_spec(env_of(model, target, params, *num, *draw, *pick, *text), *expr, old(rng)@),
    decreases expr, 0nat,
{
    match expr {
        Expr::Add(a, b) => {
            let ra = eval_in(a, model, target, params, rng, num, draw, pick, text);
            match ra {
                Err(e) => Err(e),
                Ok(va) => {
                    let rb = eval_in(b, model, target, params, rng, num, draw, pick, text);
                    match rb {
                        Err(e) => Err(e),
                        Ok(vb) => binary_apply(NumOp::Add, &va, &vb, num),
                    }
                },
            }
        },
        Expr::Sub(a, b) => {
            let ra = eval_in(a, model, target, params, rng, num, draw, pick, text);
            match ra {
                Err(e) => Err(e),
                Ok(va) => {
                    let rb = eval_in(b, model, target, params, rng, num, draw, pick, text);
                    match rb {
                        Err(e) => Err(e),
                        Ok(vb) => binary_apply(NumOp::Sub, &va, &vb, num),
                    }
                },
            }
        },
        Expr::Mul(a, b) => {
            let ra = eval_in(a, model, target, params, rng, num, draw, pick, text);
            match ra {
                Err(e) => Err(e),
                Ok(va) => {
                    let rb = eval_in(b, model, target, params, rng, num, draw, pick, text);
                    match rb {
                        Err(e) => Err(e),
                        Ok(vb) => binary_apply(NumOp::Mul, &va, &vb, num),
                    }
                },
            }
        },
        Expr::Mod(a, b) => {
            let ra = eval_in(a, model, target, params, rng, num, draw, pick, text);
            match ra {
                Err(e) => Err(e),
                Ok(va) => {
                    let rb = eval_in(b, model, target, params, rng, num, draw, pick, text);
                    match rb {
                        Err(e) => Err(e),
                        Ok(vb) => binary_apply(NumOp::Mod, &va, &vb, num),
                    }
                },
            }
        },
        Expr::Min(a, b) => {
            let ra = eval_in(a, model, target, params, rng, num, draw, pick, text);
            match ra {
                Err(e) => Err(e),
                Ok(va) => {
                    let rb = eval_in(b, model, target, params, rng, num, draw, pick, text);
                    match rb {
                        Err(e) => Err(e),
                        Ok(vb) => binary_apply(NumOp::Min, &va, &vb, num),
                    }
                },
            }
        },
        Expr::Max(a, b) => {
            let ra = eval_in(a, model, target, params, rng, num, draw, pick, text);
            match ra {
                Err(e) => Err(e),
                Ok(va) => {
                    let rb = eval_in(b, model, target, params, rng, num, draw, pick, text);
                    match rb {
                        Err(e) => Err(e),
                        Ok(vb) => binary_apply(NumOp::Max, &va, &vb, num),
                    }
                },
            }
        },
        Expr::Lt(a, b) => {
            let ra = eval_in(a, model, target, params, rng, num, draw, pick, text);
            match ra {
                Err(e) => Err(e),
                Ok(va) => {
                    let rb = eval_in(b, model, target, params, rng, num, draw, pick, text);
                    match rb {
                        Err(e) => Err(e),
                        Ok(vb) => binary_apply(NumOp::Lt, &va, &vb, num),
                    }
                },
            }
        },
        Expr::Le(a, b) => {
            let ra = eval_in(a, model, target, params, rng, num, draw, pick, text);
            match ra {
                Err(e) => Err(e),
                Ok(va) => {
                    let rb = eval_in(b, model, target, params, rng, num, draw, pick, text);
                    match rb {
                        Err(e) => Err(e),
                        Ok(vb) => binary_apply(NumOp::Le, &va, &vb, num),
                    }
                },
            }
        },
        Expr::Gt(a, b) => {
            let ra = eval_in(a, model, target, params, rng, num, draw, pick, text);
            match ra {
                Err(e) => Err(e),
                Ok(va) => {
                    let rb = eval_in(b, model, target, params, rng, num, draw, pick, text);
                    match rb {
                        Err(e) => Err(e),
                        Ok(vb) => binary_apply(NumOp::Gt, &va, &vb, num),
                    }
                },
            }
        },
        Expr::Ge(a, b) => {
            let ra = eval_in(a, model, target, params, rng, num, draw, pick, text);
            match ra {
                Err(e) => Err(e),
                Ok(va) => {
                    let rb = eval_in(b, model, target, params, rng, num, draw, pick, text);
                    match rb {
                        Err(e) => Err(e),
                        Ok(vb) => binary_apply(NumOp::Ge, &va, &vb, num),
                    }
                },
            }
        },
        Expr::Neg(a) => {
            let ra = eval_in(a, model, target, params, rng, num, draw, pick, text);
            match ra {
                Err(e) => Err(e),
                Ok(va) => unary_apply(NumOp::Neg, &va, num),
            }
        },
        Expr::Abs(a) => {
            let ra = eval_in(a, model, target, params, rng, num, draw, pick, text);
            match ra {
                Err(e) => Err(e),
                Ok(va) => unary_apply(NumOp::Abs, &va, num),
            }
        },
        Expr::Floor(a) => {
            let ra = eval_in(a, model, target, params, rng, num, draw, pick, text);
            match ra {
                Err(e) => Err(e),
                Ok(va) => unary_apply(NumOp::Floor, &va, num),
            }
        },
        Expr::Ceil(a) => {
            let ra = eval_in(a, model, target, params, rng, num, draw, pick, text);
            match ra {
                Err(e) => Err(e),
                Ok(va) => unary_apply(NumOp::Ceil, &va, num),
            }
        },
        Expr::Round(a) => {
            let ra = eval_in(a, model, target, params, rng, num, draw, pick, text);
            match ra {
                Err(e) => Err(e),
                Ok(va) => unary_apply(NumOp::Round, &va, num),
            }
        },
        Expr::Div(a, b) => {
            let ra = eval_in(a, model, target, params, rng, num, draw, pick, text);
            match ra {
                Err(e) => Err(e),
                Ok(va) => {
                    let rb = eval_in(b, model, target, params, rng, num, draw, pick, text);
                    match rb {
                        Err(e) => Err(e),
                        Ok(vb) => match number_in(&vb) {
                            None => Err(type_error("number", &vb)),
                            Some(y) => {
                                let z = run_num(num, NumOp::IsZero, y, y, y);
                                let zero = match z {
                                    Value::Bool(t) => t,
                                    _ => false,
                                };
                                if zero {
                                    Err(EvalError::DivisionByZero)
                                } else {
                                    binary_apply(NumOp::Div, &va, &vb, num)
                                }
                            },
                        },
                    }
                },
            }
        },
        Expr::Clamp(a, lo, hi) => {
            let ra = eval_in(a, model, target, params, rng, num, draw, pick, text);
            match ra {
                Err(e) => Err(e),
                Ok(va) => {
                    let rl = eval_in(lo, model, target, params, rng, num, draw, pick, text);
                    match rl {
                        Err(e) => Err(e),
                        Ok(vl) => {
                            let rh = eval_in(hi, model, target, params, rng, num, draw, pick, text);
                            match rh {
                                Err(e) => Err(e),
                                Ok(vh) => match (number_in(&va), number_in(&vl), number_in(&vh)) {
                                    (None, _, _) => Err(type_error("number", &va)),
                                    (_, None, _) => Err(type_error("number", &vl)),
                                    (_, _, None) => Err(type_error("number", &vh)),
                                    (Some(x), Some(l), Some(h)) => Ok(run_num(num, NumOp::Clamp, x, l, h)),
                                },
                            }
                        },
                    }
                },
            }
        },
        // Not reached: `requires` names the variants handled here.
        _ => Err(EvalError::DivisionByZero),
    }
}

/// Evaluate an expression of the comparisons, logic and conditionals (see [`eval_spec`]).
#[verifier::spinoff_prover]
fn eval_logic<
    N: Fn(NumOp, Number, Number, Number) -> Value,
    D: Fn(Number, Number, u64) -> u64,
    P: Fn(&Vec<u64>, &GameRng) -> (Option<usize>, GameRng),
    T: Fn(&Value) -> String,
>(
    expr: &Expr,
    model: &Model,
    target: Option<EntityId>,
    params: &ValueMap,
    rng: &mut GameRng,
    num: &N,
    draw: &D,
    pick: &P,
    text: &T,
) -> (r: Result<Value, EvalError>)
    requires
        *expr is Eq || *expr is Ne || *expr is And || *expr is Or || *expr is Not || *expr is If,
        hosts_are_functions(*num, *draw, *pick, *text),
    ensures
        (result_model(r), final(rng)@) == eval_spec(env_of(model, target, params, *num, *draw, *pick, *text), *expr, old(rng)@),
    decreases expr, 0nat,
{
    match expr {
        Expr::Eq(a, b) => {
            let ra = eval_in(a, model, target, params, rng, num, draw, pick, text);
            match ra {
                Err(e) => Err(e),
                Ok(va) => {
                    let rb = eval_in(b, model, target, params, rng, num, draw, pick, text);
                    match rb {
                        Err(e) => Err(e),
                        Ok(vb) => Ok(Value::Bool(equal_values(&va, &vb, num))),
                    }
                },
            }
        },
        Expr::Ne(a, b) => {
            let ra = eval_in(a, model, target, params, rng, num, draw, pick, text);
            match ra {
                Err(e) => Err(e),
                Ok(va) => {
                    let rb = eval_in(b, model, target, params, rng, num, draw, pick, text);
                    match rb {
                        Err(e) => Err(e),
                        Ok(vb) => Ok(Value::Bool(!equal_values(&va, &vb, num))),
                    }
                },
            }
        },
        Expr::And(v) => logic_in(v, false, model, target, params, rng, num, draw, pick, text),
        Expr::Or(v) => logic_in(v, true, model, target, params, rng, num, draw, pick, text),
        Expr::Not(a) => {
            let ra = eval_in(a, model, target, params, rng, num, draw, pick, text);
            match ra {
                Err(e) => Err(e),
                Ok(va) => Ok(Value::Bool(!is_truthy(&va, num))),
            }
        },
        Expr::If(c, t, f) => {
            let rc = eval_in(c, model, target, params, rng, num, draw, pick, text);
            match rc {
                Err(e) => Err(e),
                Ok(vc) => if is_truthy(&vc, num) {
                    eval_in(t, model, target, params, rng, num, draw, pick, text)
                } else {
                    eval_in(f, model, target, params, rng, num, draw, pick, text)
                },
            }
        },
        // Not reached: `requires` names the variants handled here.
        _ => Err(EvalError::DivisionByZero),
    }
}

/// Evaluate an expression of the random draws and text building (see [`eval_spec`]).
#[verifier::spinoff_prover]
fn eval_chance<
    N: Fn(NumOp, Number, Number, Number) -> Value,
    D: Fn(Number, Number, u64) -> u64,
    P: Fn(&Vec<u64>, &GameRng) -> (Option<usize>, GameRng),
    T: Fn(&Value) -> String,
>(
    expr: &Expr,
    model: &Model,
    target: Option<EntityId>,
    params: &ValueMap,
    rng: &mut GameRng,
    num: &N,
    draw: &D,
    pick: &P,
    text: &T,
) -> (r: Result<Value, EvalError>)
    requires
        *expr is Random || *expr is RandomRange || *expr is RandomInt || *expr is WeightedRandom || *expr is Concat || *expr is Format,
        hosts_are_functions(*num, *draw, *pick, *text),
    ensures
        (result_model(r), final(rng)@) == eval_spec(env_of(model, target, params, *num, *draw, *pick, *text), *expr, old(rng)@),
    decreases expr, 0nat,
{
    match expr {
        Expr::Random => {
            let s = rng.next_u64();
            Ok(Value::Float(run_draw(draw, Number::Int(0), Number::Int(1), s)))
        },
        Expr::RandomRange(lo, hi) => {
            let rl = eval_in(lo, model, target, params, rng, num, draw, pick, text);
            match rl {
                Err(e) => Err(e),
                Ok(vl) => {
                    let rh = eval_in(hi, model, target, params, rng, num, draw, pick, text);
                    match rh {
                        Err(e) => Err(e),
                        Ok(vh) => match (number_in(&vl), number_in(&vh)) {
                            (None, _) => Err(type_error("number", &vl)),
                            (_, None) => Err(type_error("number", &vh)),
                            (Some(l), Some(h)) => {
                                let s = rng.next_u64();
                                Ok(Value::Float(run_draw(draw, l, h, s)))
                            },
                        },
                    }
                },
            }
        },
        Expr::RandomInt(lo, hi) => {
            let rl = eval_in(lo, model, target, params, rng, num, draw, pick, text);
            match rl {
                Err(e) => Err(e),
                Ok(vl) => {
                    let rh = eval_in(hi, model, target, params, rng, num, draw, pick, text);
                    match rh {
                        Err(e) => Err(e),
                        Ok(vh) => match (&vl, &vh) {
                            (Value::Int(l), Value::Int(h)) => {
                                let s = rng.next_u64();
                                let width = ((*h as i128) - (*l as i128) + 1) as u64;
                                if width == 0 {
                                    Err(EvalError::Evaluation(String::from_str("Empty random range")))
                                } else {
                                    Ok(Value::Int(((*l as i128) + ((s % width) as i128)) as i64))
                                }
                            },
                            (Value::Int(_), _) => Err(type_error("int", &vh)),
                            _ => Err(type_error("int", &vl)),
                        },
                    }
                },
            }
        },
        Expr::WeightedRandom(v) => {
            let rw = weights_in(v, model, target, params, rng, num, draw, pick, text);
            match rw {
                Err(e) => Err(e),
                Ok(w) => {
                    let (i, g) = pick(&w, &*rng);
                    proof {
                        crate::collect::lemma_pick_of(*pick, &w, &*rng, (i, g));
                        crate::rng::lemma_view_eq(rng_at(rng@), *rng);
                    }
                    *rng = g;
                    Ok(
                        match i {
                            Some(k) => Value::Int(k as i64),
                            None => Value::Null,
                        },
                    )
                },
            }
        },
        Expr::Concat(v) => {
            let rs = concat_in(v, model, target, params, rng, num, draw, pick, text);
            match rs {
                Err(e) => Err(e),
                Ok(t) => Ok(Value::String(t)),
            }
        },
        Expr::Format(t, v) => {
            let rs = format_in(t, v, model, target, params, rng, num, draw, pick, text);
            match rs {
                Err(e) => Err(e),
                Ok(out) => Ok(Value::String(out)),
            }
        },
        // Not reached: `requires` names the variants handled here.
        _ => Err(EvalError::DivisionByZero),
    }
}

/// Short-circuit logic over expressions (see [`logic_spec`]).
fn logic_in<
    N: Fn(NumOp, Number, Number, Number) -> Value,
    D: Fn(Number, Number, u64) -> u64,
    P: Fn(&Vec<u64>, &GameRng) -> (Option<usize>, GameRng),
    T: Fn(&Value) -> String,
>(
    v: &Vec<Expr>,
    stop_on: bool,
    model: &Model,
    target: Option<EntityId>,
    params: &ValueMap,
    rng: &mut GameRng,
    num: &N,
    draw: &D,
    pick: &P,
    text: &T,
) -> (r: Result<Value, EvalError>)
    requires
        hosts_are_functions(*num, *draw, *pick, *text),
    ensures
        (result_model(r), final(rng)@) == logic_spec(env_of(model, target, params, *num, *draw, *pick, *text), v@, stop_on, old(rng)@),
    decreases v, 0nat,
{
    let ghost env = env_of(model, target, params, *num, *draw, *pick, *text);
    let ghost g0 = rng@;
    let n = v.len();
    let mut i: usize = 0;
    proof {
        assert(v@.subrange(0, n as int) =~= v@);
    }
    while i < n
        invariant
            n == v@.len(),
            i <= n,
            hosts_are_functions(*num, *draw, *pick, *text),
            env == env_of(model, target, params, *num, *draw, *pick, *text),
            g0 == old(rng)@,
            logic_spec(env, v@, stop_on, g0) == logic_spec(env, v@.subrange(i as int, n as int), stop_on, rng@),
        decreases n - i,
    {
        proof {
            let sub = v@.subrange(i as int, n as int);
            assert(sub[0] == v@[i as int]);
            assert(sub.subrange(1, sub.len() as int) =~= v@.subrange(i + 1, n as int));
        }
        assert(decreases_to!(v => v@[i as int]));
        let ghost before_rng = rng@;
        let r = eval_in(&v[i], model, target, params, rng, num, draw, pick, text);
        proof {
            let sub = v@.subrange(i as int, n as int);
            assert(eval_spec(env, sub[0], before_rng) == (result_model(r), rng@));
        }
        match r {
            Err(e) => {
                return Err(e);
            },
            Ok(x) => {
                if is_truthy(&x, num) == stop_on {
                    return Ok(Value::Bool(stop_on));
                }
            },
        }
        i = i + 1;
    }
    Ok(Value::Bool(!stop_on))
}

/// The display texts of the values of expressions, concatenated (see [`concat_spec`]).
fn concat_in<
    N: Fn(NumOp, Number, Number, Number) -> Value,
    D: Fn(Number, Number, u64) -> u64,
    P: Fn(&Vec<u64>, &GameRng) -> (Option<usize>, GameRng),
    T: Fn(&Value) -> String,
>(
    v: &Vec<Expr>,
    model: &Model,
    target: Option<EntityId>,
    params: &ValueMap,
    rng: &mut GameRng,
    num: &N,
    draw: &D,
    pick: &P,
    text: &T,
) -> (r: Result<String, EvalError>)
    requires
        hosts_are_functions(*num, *draw, *pick, *text),
    ensures
        (match r {
            Ok(t) => Ok(t@),
            Err(e) => Err(e.model()),
        }, final(rng)@) == concat_spec(env_of(model, target, params, *num, *draw, *pick, *text), v@, old(rng)@),
    decreases v, 0nat,
{
    let ghost env = env_of(model, target, params, *num, *draw, *pick, *text);
    let ghost g0 = rng@;
    let n = v.len();
    let mut out = String::new();
    let mut i: usize = 0;
    proof {
        assert(v@.subrange(0, n as int) =~= v@);
        assert(out@ + Seq::<char>::empty() =~= Seq::<char>::empty());
    }
    while i < n
        invariant
            n == v@.len(),
            i <= n,
            hosts_are_functions(*num, *draw, *pick, *text),
            env == env_of(model, target, params, *num, *draw, *pick, *text),
            g0 == old(rng)@,
            concat_spec(env, v@, g0) == (match concat_spec(env, v@.subrange(i as int, n as int), rng@) {
                (Ok(t), g) => (Ok(out@ + t), g),
                (Err(x), g) => (Err(x), g),
            }),
        decreases n - i,
    {
        proof {
            let sub = v@.subrange(i as int, n as int);
            assert(sub[0] == v@[i as int]);
            assert(sub.subrange(1, sub.len() as int) =~= v@.subrange(i + 1, n as int));
        }
        assert(decreases_to!(v => v@[i as int]));
        let ghost before_rng = rng@;
        let r = eval_in(&v[i], model, target, params, rng, num, draw, pick, text);
        proof {
            let sub = v@.subrange(i as int, n as int);
            assert(eval_spec(env, sub[0], before_rng) == (result_model(r), rng@));
        }
        match r {
            Err(e) => {
                return Err(e);
            },
            Ok(x) => {
                let t = run_text(text, &x);
                let ghost before = out@;
                out.append(t.as_str());
                proof {
                    match concat_spec(env, v@.subrange(i + 1, n as int), rng@) {
                        (Ok(rest), g) => {
                            assert(before + (t@ + rest) =~= out@ + rest);
                        },
                        _ => {},
                    }
                }
            },
        }
        i = i + 1;
    }
    proof {
        assert(out@ + Seq::<char>::empty() =~= out@);
    }
    Ok(out)
}

/// A template with its placeholders filled in turn (see [`format_spec`]).
fn format_in<
    N: Fn(NumOp, Number, Number, Number) -> Value,
    D: Fn(Number, Number, u64) -> u64,
    P: Fn(&Vec<u64>, &GameRng) -> (Option<usize>, GameRng),
    T: Fn(&Value) -> String,
>(
    template: &String,
    v: &Vec<Expr>,
    model: &Model,
    target: Option<EntityId>,
    params: &ValueMap,
    rng: &mut GameRng,
    num: &N,
    draw: &D,
    pick: &P,
    text: &T,
) -> (r: Result<String, EvalError>)
    requires
        hosts_are_functions(*num, *draw, *pick, *text),
    ensures
        (match r {
            Ok(t) => Ok(t@),
            Err(e) => Err(e.model()),
        }, final(rng)@) == format_spec(env_of(model, target, params, *num, *draw, *pick, *text), template@, v@, 0, old(rng)@),
    decreases v, 0nat,
{
    let ghost env = env_of(model, target, params, *num, *draw, *pick, *text);
    let ghost g0 = rng@;
    let n = v.len();
    let mut out = template.clone();
    let mut i: usize = 0;
    proof {
        assert(v@.subrange(0, n as int) =~= v@);
    }
    while i < n
        invariant
            n == v@.len(),
            i <= n,
            hosts_are_functions(*num, *draw, *pick, *text),
            env == env_of(model, target, params, *num, *draw, *pick, *text),
            g0 == old(rng)@,
            format_spec(env, template@, v@, 0, g0) == format_spec(env, out@, v@.subrange(i as int, n as int), i as nat, rng@),
        decreases n - i,
    {
        proof {
            let sub = v@.subrange(i as int, n as int);
            assert(sub[0] == v@[i as int]);
            assert(sub.subrange(1, sub.len() as int) =~= v@.subrange(i + 1, n as int));
        }
        assert(decreases_to!(v => v@[i as int]));
        let ghost before_rng = rng@;
        let r = eval_in(&v[i], model, target, params, rng, num, draw, pick, text);
        proof {
            let sub = v@.subrange(i as int, n as int);
            assert(eval_spec(env, sub[0], before_rng) == (result_model(r), rng@));
        }
        match r {
            Err(e) => {
                return Err(e);
            },
            Ok(x) => {
                let t = run_text(text, &x);
                let p = placeholder_text(i as u64);
                proof {
                    assert(p@.len() > 0);
                }
                out = replace_text(out.as_str(), p.as_str(), t.as_str());
            },
        }
        i = i + 1;
    }
    Ok(out)
}

/// The weights of expressions as float bits (see [`weights_spec`]).
fn weights_in<
    N: Fn(NumOp, Number, Number, Number) -> Value,
    D: Fn(Number, Number, u64) -> u64,
    P: Fn(&Vec<u64>, &GameRng) -> (Option<usize>, GameRng),
    T: Fn(&Value) -> String,
>(
    v: &Vec<Expr>,
    model: &Model,
    target: Option<EntityId>,
    params: &ValueMap,
    rng: &mut GameRng,
    num: &N,
    draw: &D,
    pick: &P,
    text: &T,
) -> (r: Result<Vec<u64>, EvalError>)
    requires
        hosts_are_functions(*num, *draw, *pick, *text),
    ensures
        (match r {
            Ok(w) => Ok(w@),
            Err(e) => Err(e.model()),
        }, final(rng)@) == weights_spec(env_of(model, target, params, *num, *draw, *pick, *text), v@, old(rng)@),
    decreases v, 0nat,
{
    let ghost env = env_of(model, target, params, *num, *draw, *pick, *text);
    let ghost g0 = rng@;
    let n = v.len();
    let mut out: Vec<u64> = Vec::new();
    let mut i: usize = 0;
    proof {
        assert(v@.subrange(0, n as int) =~= v@);
        assert(out@ + Seq::<u64>::empty() =~= Seq::<u64>::empty());
    }
    while i < n
        invariant
            n == v@.len(),
            i <= n,
            hosts_are_functions(*num, *draw, *pick, *text),
            env == env_of(model, target, params, *num, *draw, *pick, *text),
            g0 == old(rng)@,
            weights_spec(env, v@, g0) == (match weights_spec(env, v@.subrange(i as int, n as int), rng@) {
                (Ok(w), g) => (Ok(out@ + w), g),
                (Err(x), g) => (Err(x), g),
            }),
        decreases n - i,
    {
        proof {
            let sub = v@.subrange(i as int, n as int);
            assert(sub[0] == v@[i as int]);
            assert(sub.subrange(1, sub.len() as int) =~= v@.subrange(i + 1, n as int));
        }
        assert(decreases_to!(v => v@[i as int]));
        let ghost before_rng = rng@;
        let r = eval_in(&v[i], model, target, params, rng, num, draw, pick, text);
        proof {
            let sub = v@.subrange(i as int, n as int);
            assert(eval_spec(env, sub[0], before_rng) == (result_model(r), rng@));
        }
        match r {
            Err(e) => {
                return Err(e);
            },
            Ok(x) => match number_in(&x) {
                None => {
                    return Err(type_error("number", &x));
                },
                Some(y) => {
                    let b = match run_num(num, NumOp::AsFloat, y, y, y) {
                        Value::Float(b) => b,
                        _ => 0,
                    };
                    let ghost before = out@;
                    out.push(b);
                    proof {
                        match weights_spec(env, v@.subrange(i + 1, n as int), rng@) {
                            (Ok(rest), g) => {
                                assert(before + (seq![b] + rest) =~= out@ + rest);
                            },
                            _ => {},
                        }
                    }
                },
            },
        }
        i = i + 1;
    }
    proof {
        assert(out@ + Seq::<u64>::empty() =~= out@);
    }
    Ok(out)
}

/// Evaluate an expression over a model, a target entity and parameters, drawing from a
/// copy of `rng`: the result (see [`eval_spec`]) and the generator after it. The caller
/// computes the numeric steps (`num`), the float draws (`draw`, from a drawn state), the
/// weighted choice (`pick`) and display texts (`text`).
pub fn eval<
    N: Fn(NumOp, Number, Number, Number) -> Value,
    D: Fn(Number, Number, u64) -> u64,
    P: Fn(&Vec<u64>, &GameRng) -> (Option<usize>, GameRng),
    T: Fn(&Value) -> String,
>(
    expr: &Expr,
    model: &Model,
    target: Option<EntityId>,
    params: &ValueMap,
    rng: &GameRng,
    num: &N,
    draw: &D,
    pick: &P,
    text: &T,
) -> (r: (Result<Value, EvalError>, GameRng))
    requires
        hosts_are_functions(*num, *draw, *pick, *text),
    ensures
        (result_model(r.0), r.1@) == eval_spec(env_of(model, target, params, *num, *draw, *pick, *text), *expr, rng@),
{
    rng.state_is_nonzero();
    let mut g = GameRng::from_state(rng.state());
    let r = eval_in(expr, model, target, params, &mut g, num, draw, pick, text);
    (r, g)
}


/// Evaluate an expression for the runtime (see [`eval`]): the value when evaluation
/// succeeds, its number as float bits when it is a number, whether it counts as true, its
/// display text (empty on failure), and the generator after drawing.
pub fn evaluate_expr<
    N: Fn(NumOp, Number, Number, Number) -> Value,
    D: Fn(Number, Number, u64) -> u64,
    P: Fn(&Vec<u64>, &GameRng) -> (Option<usize>, GameRng),
    T: Fn(&Value) -> String,
>(
    expr: &Expr,
    model: &Model,
    target: Option<EntityId>,
    params: &ValueMap,
    rng: &GameRng,
    num: &N,
    draw: &D,
    pick: &P,
    text: &T,
) -> (r: Evaluated)
    requires
        hosts_are_functions(*num, *draw, *pick, *text),
    ensures
        ({
            let (res, g) = eval_spec(env_of(model, target, params, *num, *draw, *pick, *text), *expr, rng@);
            &&& r.rng@ == g
            &&& (r.value is Some) == (res is Ok)
            &&& res matches Ok(v) ==> r.value.unwrap().model() == v && r.number == (match number_of(v) {
                Some(n) => Some(float_bits_of(*num, n)),
                None => None::<u64>,
            }) && r.truthy == truthy(*num, v) && r.text@ == text_of(*text, v)
            &&& res is Err ==> r.number is None && !r.truthy && r.text@ == Seq::<char>::empty()
        }),
{
    let (res, after) = eval(expr, model, target, params, rng, num, draw, pick, text);
    match res {
        Ok(v) => {
            let number = match number_in(&v) {
                Some(n) => Some(
                    match run_num(num, NumOp::AsFloat, n, n, n) {
                        Value::Float(b) => b,
                        _ => 0,
                    },
                ),
                None => None,
            };
            let truthy = is_truthy(&v, num);
            let shown = run_text(text, &v);
            Evaluated { value: Some(v), number, truthy, text: shown, rng: after }
        },
        Err(_) => Evaluated { value: None, number: None, truthy: false, text: String::new(), rng: after },
    }
}

/// The number a modification starts from: the current value when it is a number, else
/// zero.
pub open spec fn start_number(current: Option<ValueModel>) -> Number {
    match current {
        Some(v) => match number_of(v) {
            Some(n) => n,
            None => Number::Float(0),
        },
        None => Number::Float(0),
    }
}

/// Modify a number by an operand (float bits): the caller's step is applied to the
/// current value (a missing value or one that is not a number counts as zero).
pub fn modify_number<G: Fn(crate::effect::ModifyOp, Number, u64) -> u64>(
    op: crate::effect::ModifyOp,
    current: Option<Value>,
    operand: u64,
    apply: &G,
) -> (r: u64)
    requires
        forall|o: crate::effect::ModifyOp, n: Number, x: u64| #[trigger] call_requires(*apply, (o, n, x)),
    ensures
        call_ensures(
            *apply,
            (
                op,
                start_number(
                    match current {
                        Some(v) => Some(v.model()),
                        None => None,
                    },
                ),
                operand,
            ),
            r,
        ),
{
    let start = match &current {
        Some(v) => match number_in(v) {
            Some(n) => n,
            None => Number::Float(0),
        },
        None => Number::Float(0),
    };
    apply(op, start, operand)
}


/// `Ne` is the negation of `Eq`: on the same operands, from the same generator state, both
/// leave the generator alike, fail alike, and otherwise give opposite booleans.
pub proof fn lemma_ne_negates_eq<
    N: Fn(NumOp, Number, Number, Number) -> Value,
    D: Fn(Number, Number, u64) -> u64,
    P: Fn(&Vec<u64>, &GameRng) -> (Option<usize>, GameRng),
    T: Fn(&Value) -> String,
>(env: EvalEnv<N, D, P, T>, a: Box<Expr>, b: Box<Expr>, g: u64)
    ensures
        eval_spec(env, Expr::Ne(a, b), g).1 == eval_spec(env, Expr::Eq(a, b), g).1,
        eval_spec(env, Expr::Eq(a, b), g).0 matches Err(x) ==> eval_spec(env, Expr::Ne(a, b), g).0 == Err::<
            ValueModel,
            ErrorModel,
        >(x),
        eval_spec(env, Expr::Eq(a, b), g).0 is Ok ==> (eval_spec(env, Expr::Eq(a, b), g).0 matches Ok(
            ValueModel::Bool(t),
        ) && eval_spec(env, Expr::Ne(a, b), g).0 == Ok::<ValueModel, ErrorModel>(ValueModel::Bool(!t))),
{
}

/// On two integer literals, `Eq` answers whether the integers are equal and `Ne` whether
/// they differ; neither draws from the generator.
pub proof fn lemma_integer_equality<
    N: Fn(NumOp, Number, Number, Number) -> Value,
    D: Fn(Number, Number, u64) -> u64,
    P: Fn(&Vec<u64>, &GameRng) -> (Option<usize>, GameRng),
    T: Fn(&Value) -> String,
>(env: EvalEnv<N, D, P, T>, x: i64, y: i64, g: u64)
    ensures
        eval_spec(
            env,
            Expr::Eq(Box::new(Expr::Literal(Value::Int(x))), Box::new(Expr::Literal(Value::Int(y)))),
            g,
        ) == (Ok::<ValueModel, ErrorModel>(ValueModel::Bool(x == y)), g),
        eval_spec(
            env,
            Expr::Ne(Box::new(Expr::Literal(Value::Int(x))), Box::new(Expr::Literal(Value::Int(y)))),
            g,
        ) == (Ok::<ValueModel, ErrorModel>(ValueModel::Bool(x != y)), g),
{
    let lx = Expr::Literal(Value::Int(x));
    let ly = Expr::Literal(Value::Int(y));
    assert(eval_spec(env, lx, g) == (Ok::<ValueModel, ErrorModel>(ValueModel::Int(x)), g));
    assert(eval_spec(env, ly, g) == (Ok::<ValueModel, ErrorModel>(ValueModel::Int(y)), g));
    assert(values_equal(env.num, ValueModel::Int(x), ValueModel::Int(y)) == (x == y));
}

} // verus!
