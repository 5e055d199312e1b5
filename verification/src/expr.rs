//! Expressions: conditions and computed values loaded from scripts.
use vstd::prelude::*;
use crate::entity::EntityRef;
use crate::identity::DefId;
use crate::value::Value;

verus! {

broadcast use vstd::std_specs::vec::group_vec_axioms;

/// An expression that evaluates to a [`Value`].
#[derive(Debug)]
pub enum Expr {
    /// A literal value.
    Literal(Value),
    /// Read a property of the target entity.
    Property(String),
    /// Read a property of a specific entity.
    EntityProperty(EntityRef, String),
    /// Read a global property.
    Global(String),
    /// Read a parameter of the current context.
    Param(String),
    /// Sum.
    Add(Box<Expr>, Box<Expr>),
    /// Difference.
    Sub(Box<Expr>, Box<Expr>),
    /// Product.
    Mul(Box<Expr>, Box<Expr>),
    /// Quotient.
    Div(Box<Expr>, Box<Expr>),
    /// Remainder.
    Mod(Box<Expr>, Box<Expr>),
    /// Negation.
    Neg(Box<Expr>),
    /// Absolute value.
    Abs(Box<Expr>),
    /// Minimum.
    Min(Box<Expr>, Box<Expr>),
    /// Maximum.
    Max(Box<Expr>, Box<Expr>),
    /// Clamp a value between a minimum and a maximum.
    Clamp(Box<Expr>, Box<Expr>, Box<Expr>),
    /// Round down.
    Floor(Box<Expr>),
    /// Round up.
    Ceil(Box<Expr>),
    /// Round to nearest.
    Round(Box<Expr>),
    /// Equal.
    Eq(Box<Expr>, Box<Expr>),
    /// Not equal.
    Ne(Box<Expr>, Box<Expr>),
    /// Less than.
    Lt(Box<Expr>, Box<Expr>),
    /// Less than or equal.
    Le(Box<Expr>, Box<Expr>),
    /// Greater than.
    Gt(Box<Expr>, Box<Expr>),
    /// Greater than or equal.
    Ge(Box<Expr>, Box<Expr>),
    /// All must be true.
    And(Vec<Expr>),
    /// At least one must be true.
    Or(Vec<Expr>),
    /// Negation of a condition.
    Not(Box<Expr>),
    /// If-then-else.
    If(Box<Expr>, Box<Expr>, Box<Expr>),
    /// Whether the target entity has a flag.
    HasFlag(DefId),
    /// Whether an entity exists.
    EntityExists(EntityRef),
    /// Number of entities of a kind.
    CountEntities(DefId),
    /// Random number in `[0, 1)`.
    Random,
    /// Random number in `[min, max)`.
    RandomRange(Box<Expr>, Box<Expr>),
    /// Random integer in `[min, max]`.
    RandomInt(Box<Expr>, Box<Expr>),
    /// Weighted random choice of an index.
    WeightedRandom(Vec<Expr>),
    /// Concatenation of texts.
    Concat(Vec<Expr>),
    /// A template with `{i}` placeholders filled by the arguments.
    Format(String, Vec<Expr>),
}

impl Expr {
    /// A literal expression.
    pub fn lit(value: Value) -> (r: Self)
        ensures
            r == Expr::Literal(value),
    {
        Expr::Literal(value)
    }

    /// Read a property of the target entity.
    pub fn prop(name: &str) -> (r: Self)
        ensures
            r matches Expr::Property(n) && n@ == name@,
    {
        Expr::Property(String::from_str(name))
    }

    /// Read a global property.
    pub fn global(name: &str) -> (r: Self)
        ensures
            r matches Expr::Global(n) && n@ == name@,
    {
        Expr::Global(String::from_str(name))
    }

    /// Read a parameter.
    pub fn param(name: &str) -> (r: Self)
        ensures
            r matches Expr::Param(n) && n@ == name@,
    {
        Expr::Param(String::from_str(name))
    }
}

/// `b` is a copy of `a`: the same variant, with texts, values and references of the same
/// models, and copies of the same subexpressions in the same order.
pub open spec fn expr_copy(a: Expr, b: Expr) -> bool
    decreases a,
{
    match a {
        Expr::Literal(v) => b matches Expr::Literal(w) && w.model() == v.model(),
        Expr::Property(s) => b matches Expr::Property(t) && t@ == s@,
        Expr::Global(s) => b matches Expr::Global(t) && t@ == s@,
        Expr::Param(s) => b matches Expr::Param(t) && t@ == s@,
        Expr::EntityProperty(r, s) => b matches Expr::EntityProperty(q, t) && q.model() == r.model() && t@ == s@,
        Expr::Add(x, y) => b matches Expr::Add(x2, y2) && expr_copy(*x, *x2) && expr_copy(*y, *y2),
        Expr::Sub(x, y) => b matches Expr::Sub(x2, y2) && expr_copy(*x, *x2) && expr_copy(*y, *y2),
        Expr::Mul(x, y) => b matches Expr::Mul(x2, y2) && expr_copy(*x, *x2) && expr_copy(*y, *y2),
        Expr::Div(x, y) => b matches Expr::Div(x2, y2) && expr_copy(*x, *x2) && expr_copy(*y, *y2),
        Expr::Mod(x, y) => b matches Expr::Mod(x2, y2) && expr_copy(*x, *x2) && expr_copy(*y, *y2),
        Expr::Min(x, y) => b matches Expr::Min(x2, y2) && expr_copy(*x, *x2) && expr_copy(*y, *y2),
        Expr::Max(x, y) => b matches Expr::Max(x2, y2) && expr_copy(*x, *x2) && expr_copy(*y, *y2),
        Expr::Eq(x, y) => b matches Expr::Eq(x2, y2) && expr_copy(*x, *x2) && expr_copy(*y, *y2),
        Expr::Ne(x, y) => b matches Expr::Ne(x2, y2) && expr_copy(*x, *x2) && expr_copy(*y, *y2),
        Expr::Lt(x, y) => b matches Expr::Lt(x2, y2) && expr_copy(*x, *x2) && expr_copy(*y, *y2),
        Expr::Le(x, y) => b matches Expr::Le(x2, y2) && expr_copy(*x, *x2) && expr_copy(*y, *y2),
        Expr::Gt(x, y) => b matches Expr::Gt(x2, y2) && expr_copy(*x, *x2) && expr_copy(*y, *y2),
        Expr::Ge(x, y) => b matches Expr::Ge(x2, y2) && expr_copy(*x, *x2) && expr_copy(*y, *y2),
        Expr::RandomRange(x, y) => b matches Expr::RandomRange(x2, y2) && expr_copy(*x, *x2) && expr_copy(*y, *y2),
        Expr::RandomInt(x, y) => b matches Expr::RandomInt(x2, y2) && expr_copy(*x, *x2) && expr_copy(*y, *y2),
        Expr::Neg(x) => b matches Expr::Neg(x2) && expr_copy(*x, *x2),
        Expr::Abs(x) => b matches Expr::Abs(x2) && expr_copy(*x, *x2),
        Expr::Floor(x) => b matches Expr::Floor(x2) && expr_copy(*x, *x2),
        Expr::Ceil(x) => b matches Expr::Ceil(x2) && expr_copy(*x, *x2),
        Expr::Round(x) => b matches Expr::Round(x2) && expr_copy(*x, *x2),
        Expr::Not(x) => b matches Expr::Not(x2) && expr_copy(*x, *x2),
        Expr::Clamp(x, y, z) => b matches Expr::Clamp(x2, y2, z2) && expr_copy(*x, *x2) && expr_copy(*y, *y2)
            && expr_copy(*z, *z2),
        Expr::If(x, y, z) => b matches Expr::If(x2, y2, z2) && expr_copy(*x, *x2) && expr_copy(*y, *y2)
            && expr_copy(*z, *z2),
        Expr::And(v) => b matches Expr::And(w) && exprs_copy(v@, w@),
        Expr::Or(v) => b matches Expr::Or(w) && exprs_copy(v@, w@),
        Expr::WeightedRandom(v) => b matches Expr::WeightedRandom(w) && exprs_copy(v@, w@),
        Expr::Concat(v) => b matches Expr::Concat(w) && exprs_copy(v@, w@),
        Expr::Format(s, v) => b matches Expr::Format(t, w) && t@ == s@ && exprs_copy(v@, w@),
        Expr::HasFlag(d) => b matches Expr::HasFlag(e) && e@ == d@,
        Expr::CountEntities(d) => b matches Expr::CountEntities(e) && e@ == d@,
        Expr::EntityExists(r) => b matches Expr::EntityExists(q) && q.model() == r.model(),
        Expr::Random => b is Random,
    }
}

/// `t` holds copies of the expressions of `s`, in order.
pub open spec fn exprs_copy(s: Seq<Expr>, t: Seq<Expr>) -> bool
    decreases s,
{
    if s.len() == 0 {
        t.len() == 0
    } else {
        t.len() > 0 && exprs_copy(s.drop_last(), t.drop_last()) && expr_copy(s.last(), t.last())
    }
}

/// Copies of sequences of expressions, position by position.
pub proof fn lemma_exprs_copy(s: Seq<Expr>, t: Seq<Expr>)
    ensures
        exprs_copy(s, t) <==> (t.len() == s.len() && forall|i: int|
            0 <= i < s.len() ==> #[trigger] expr_copy(s[i], t[i])),
    decreases s.len(),
{
    if s.len() > 0 && t.len() > 0 {
        lemma_exprs_copy(s.drop_last(), t.drop_last());
        if t.len() == s.len() && forall|i: int| 0 <= i < s.len() ==> #[trigger] expr_copy(s[i], t[i]) {
            assert forall|i: int| 0 <= i < s.drop_last().len() implies #[trigger] expr_copy(
                s.drop_last()[i],
                t.drop_last()[i],
            ) by {
                assert(expr_copy(s[i], t[i]));
            }
            assert(expr_copy(s[s.len() - 1], t[t.len() - 1]));
        }
        if exprs_copy(s, t) {
            assert forall|i: int| 0 <= i < s.len() implies #[trigger] expr_copy(s[i], t[i]) by {
                if i < s.len() - 1 {
                    assert(expr_copy(s.drop_last()[i], t.drop_last()[i]));
                }
            }
        }
    }
}

/// Copies of the expressions of `v`, in order.
pub fn duplicate_exprs(v: &Vec<Expr>) -> (r: Vec<Expr>)
    ensures
        exprs_copy(v@, r@),
    decreases v,
{
    let mut out: Vec<Expr> = Vec::new();
    let n = v.len();
    let mut i: usize = 0;
    while i < n
        invariant
            n == v@.len(),
            i <= n,
            out@.len() == i,
            forall|j: int| 0 <= j < i ==> #[trigger] expr_copy(v@[j], out@[j]),
        decreases n - i,
    {
        assert(decreases_to!(v => v@[i as int]));
        out.push(v[i].duplicate());
        i = i + 1;
    }
    proof {
        lemma_exprs_copy(v@, out@);
    }
    out
}

impl Expr {
    /// A copy of this expression.
    pub fn duplicate(&self) -> (r: Expr)
        ensures
            expr_copy(*self, r),
        decreases self,
    {
        match self {
            Expr::Literal(v) => Expr::Literal(v.duplicate()),
            Expr::Property(s) => Expr::Property(s.clone()),
            Expr::Global(s) => Expr::Global(s.clone()),
            Expr::Param(s) => Expr::Param(s.clone()),
            Expr::EntityProperty(r, s) => Expr::EntityProperty(r.duplicate(), s.clone()),
            Expr::Add(x, y) => Expr::Add(Box::new(x.duplicate()), Box::new(y.duplicate())),
            Expr::Sub(x, y) => Expr::Sub(Box::new(x.duplicate()), Box::new(y.duplicate())),
            Expr::Mul(x, y) => Expr::Mul(Box::new(x.duplicate()), Box::new(y.duplicate())),
            Expr::Div(x, y) => Expr::Div(Box::new(x.duplicate()), Box::new(y.duplicate())),
            Expr::Mod(x, y) => Expr::Mod(Box::new(x.duplicate()), Box::new(y.duplicate())),
            Expr::Min(x, y) => Expr::Min(Box::new(x.duplicate()), Box::new(y.duplicate())),
            Expr::Max(x, y) => Expr::Max(Box::new(x.duplicate()), Box::new(y.duplicate())),
            Expr::Eq(x, y) => Expr::Eq(Box::new(x.duplicate()), Box::new(y.duplicate())),
            Expr::Ne(x, y) => Expr::Ne(Box::new(x.duplicate()), Box::new(y.duplicate())),
            Expr::Lt(x, y) => Expr::Lt(Box::new(x.duplicate()), Box::new(y.duplicate())),
            Expr::Le(x, y) => Expr::Le(Box::new(x.duplicate()), Box::new(y.duplicate())),
            Expr::Gt(x, y) => Expr::Gt(Box::new(x.duplicate()), Box::new(y.duplicate())),
            Expr::Ge(x, y) => Expr::Ge(Box::new(x.duplicate()), Box::new(y.duplicate())),
            Expr::RandomRange(x, y) => Expr::RandomRange(Box::new(x.duplicate()), Box::new(y.duplicate())),
            Expr::RandomInt(x, y) => Expr::RandomInt(Box::new(x.duplicate()), Box::new(y.duplicate())),
            Expr::Neg(x) => Expr::Neg(Box::new(x.duplicate())),
            Expr::Abs(x) => Expr::Abs(Box::new(x.duplicate())),
            Expr::Floor(x) => Expr::Floor(Box::new(x.duplicate())),
            Expr::Ceil(x) => Expr::Ceil(Box::new(x.duplicate())),
            Expr::Round(x) => Expr::Round(Box::new(x.duplicate())),
            Expr::Not(x) => Expr::Not(Box::new(x.duplicate())),
            Expr::Clamp(x, y, z) => Expr::Clamp(
                Box::new(x.duplicate()),
                Box::new(y.duplicate()),
                Box::new(z.duplicate()),
            ),
            Expr::If(x, y, z) => Expr::If(
                Box::new(x.duplicate()),
                Box::new(y.duplicate()),
                Box::new(z.duplicate()),
            ),
            Expr::And(v) => Expr::And(duplicate_exprs(v)),
            Expr::Or(v) => Expr::Or(duplicate_exprs(v)),
            Expr::WeightedRandom(v) => Expr::WeightedRandom(duplicate_exprs(v)),
            Expr::Concat(v) => Expr::Concat(duplicate_exprs(v)),
            Expr::Format(s, v) => Expr::Format(s.clone(), duplicate_exprs(v)),
            Expr::HasFlag(d) => Expr::HasFlag(d.duplicate()),
            Expr::CountEntities(d) => Expr::CountEntities(d.duplicate()),
            Expr::EntityExists(r) => Expr::EntityExists(r.duplicate()),
            Expr::Random => Expr::Random,
        }
    }
}


} // verus!
