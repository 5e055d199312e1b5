//! Effects: descriptions of changes to entities and global state.
use vstd::prelude::*;
use crate::entity::EntityRef;
use crate::expr::{expr_copy, Expr};
use crate::identity::{DefId, EntityId};
use crate::value::ValueMap;

verus! {

broadcast use vstd::std_specs::vec::group_vec_axioms;

/// An operation that modifies a numeric value.
#[derive(Debug, Clone, Copy, PartialEq, Eq, Structural)]
pub enum ModifyOp {
    /// Set to the operand.
    Assign,
    /// Add the operand.
    Add,
    /// Subtract the operand.
    Sub,
    /// Multiply by the operand.
    Mul,
    /// Divide by the operand (a zero operand leaves the value unchanged).
    Div,
    /// The smaller of the value and the operand.
    Min,
    /// The larger of the value and the operand.
    Max,
}

/// Log level for debug output.
#[derive(Debug, Clone, Copy, PartialEq, Eq, Structural)]
pub enum LogLevel {
    Debug,
    Info,
    Warn,
    Error,
}

/// An effect that modifies state.
#[derive(Debug)]
pub enum Effect {
    /// Set a property on the target entity.
    SetProperty { property: String, value: Expr },
    /// Modify a numeric property on the target entity.
    ModifyProperty { property: String, op: ModifyOp, value: Expr },
    /// Set a property on a specific entity.
    SetEntityProperty { target: EntityRef, property: String, value: Expr },
    /// Modify a numeric property on a specific entity.
    ModifyEntityProperty { target: EntityRef, property: String, op: ModifyOp, value: Expr },
    /// Set a global property.
    SetGlobal { property: String, value: Expr },
    /// Modify a global numeric property.
    ModifyGlobal { property: String, op: ModifyOp, value: Expr },
    /// Add a flag to the target entity.
    AddFlag(DefId),
    /// Remove a flag from the target entity.
    RemoveFlag(DefId),
    /// Add a flag to a specific entity.
    AddEntityFlag { target: EntityRef, flag: DefId },
    /// Remove a flag from a specific entity.
    RemoveEntityFlag { target: EntityRef, flag: DefId },
    /// Spawn a new entity.
    SpawnEntity { kind: DefId, properties: Vec<(String, Expr)> },
    /// Destroy the target entity.
    DestroyTarget,
    /// Destroy a specific entity.
    DestroyEntity(EntityRef),
    /// Emit an event.
    EmitEvent { event: DefId, target: EntityRef, params: Vec<(String, Expr)> },
    /// Schedule an event for a future tick.
    ScheduleEvent { event: DefId, target: EntityRef, delay_ticks: Expr, params: Vec<(String, Expr)> },
    /// Execute effects conditionally.
    If { condition: Expr, then_effects: Vec<Effect>, else_effects: Vec<Effect> },
    /// Execute effects in order.
    Sequence(Vec<Effect>),
    /// Execute effects for each entity of a kind.
    ForEachEntity { kind: DefId, filter: Option<Expr>, effects: Vec<Effect> },
    /// Choose one branch at random by weight.
    RandomChoice { choices: Vec<(Expr, Vec<Effect>)> },
    /// Log a message.
    Log { level: LogLevel, message: Expr },
    /// Send a notification to the user interface.
    Notify { kind: DefId, title: Expr, message: Expr, target: EntityRef },
}

impl Effect {
    /// Set a property on the target entity.
    pub fn set(property: &str, value: Expr) -> (r: Self)
        ensures
            r matches Effect::SetProperty { property: p, value: v } && p@ == property@ && v == value,
    {
        Effect::SetProperty { property: String::from_str(property), value }
    }

    /// Add to a numeric property of the target entity.
    pub fn add(property: &str, value: Expr) -> (r: Self)
        ensures
            r matches Effect::ModifyProperty { property: p, op, value: v } && p@ == property@ && op
                == ModifyOp::Add && v == value,
    {
        Effect::ModifyProperty { property: String::from_str(property), op: ModifyOp::Add, value }
    }

    /// Multiply a numeric property of the target entity.
    pub fn multiply(property: &str, value: Expr) -> (r: Self)
        ensures
            r matches Effect::ModifyProperty { property: p, op, value: v } && p@ == property@ && op
                == ModifyOp::Mul && v == value,
    {
        Effect::ModifyProperty { property: String::from_str(property), op: ModifyOp::Mul, value }
    }

    /// Add a flag to the target entity.
    pub fn flag(flag: &str) -> (r: Self)
        ensures
            r matches Effect::AddFlag(f) && f@ == flag@,
    {
        Effect::AddFlag(DefId::new(flag))
    }

    /// Spawn an entity of a kind with no properties.
    pub fn spawn(kind: &str) -> (r: Self)
        ensures
            r matches Effect::SpawnEntity { kind: k, properties } && k@ == kind@ && properties@.len()
                == 0,
    {
        Effect::SpawnEntity { kind: DefId::new(kind), properties: Vec::new() }
    }

    /// Emit an event with no parameters.
    pub fn emit(event: &str, target: EntityRef) -> (r: Self)
        ensures
            r matches Effect::EmitEvent { event: e, target: t, params } && e@ == event@ && t == target
                && params@.len() == 0,
    {
        Effect::EmitEvent { event: DefId::new(event), target, params: Vec::new() }
    }

    /// A sequence of effects.
    pub fn seq(effects: Vec<Effect>) -> (r: Self)
        ensures
            r == Effect::Sequence(effects),
    {
        Effect::Sequence(effects)
    }

    /// A conditional effect with no else branch.
    pub fn when(condition: Expr, then_effects: Vec<Effect>) -> (r: Self)
        ensures
            r matches Effect::If { condition: c, then_effects: t, else_effects: e } && c == condition
                && t == then_effects && e@.len() == 0,
    {
        Effect::If { condition, then_effects, else_effects: Vec::new() }
    }
}

/// A notification for the user interface.
#[derive(Debug)]
pub struct Notification {
    pub kind: DefId,
    pub title: String,
    pub message: String,
    pub target: EntityRef,
}

/// Result of executing effects.
#[derive(Debug)]
pub struct EffectResult {
    /// Entities that were spawned.
    pub spawned: Vec<EntityId>,
    /// Entities that were destroyed.
    pub destroyed: Vec<EntityId>,
    /// Events that were emitted.
    pub emitted_events: Vec<(DefId, EntityRef, ValueMap)>,
    /// Scheduled events: event, target, delay, parameters.
    pub scheduled_events: Vec<(DefId, EntityRef, u64, ValueMap)>,
    /// Log messages.
    pub logs: Vec<(LogLevel, String)>,
    /// Notifications.
    pub notifications: Vec<Notification>,
}

impl EffectResult {
    /// An empty result.
    pub fn new() -> (r: Self)
        ensures
            r.spawned@.len() == 0,
            r.destroyed@.len() == 0,
            r.emitted_events@.len() == 0,
            r.scheduled_events@.len() == 0,
            r.logs@.len() == 0,
            r.notifications@.len() == 0,
    {
        EffectResult {
            spawned: Vec::new(),
            destroyed: Vec::new(),
            emitted_events: Vec::new(),
            scheduled_events: Vec::new(),
            logs: Vec::new(),
            notifications: Vec::new(),
        }
    }

    /// Append every list of `other` to the matching list of this result.
    pub fn merge(&mut self, other: EffectResult)
        ensures
            final(self).spawned@ == old(self).spawned@ + other.spawned@,
            final(self).destroyed@ == old(self).destroyed@ + other.destroyed@,
            final(self).emitted_events@ == old(self).emitted_events@ + other.emitted_events@,
            final(self).scheduled_events@ == old(self).scheduled_events@ + other.scheduled_events@,
            final(self).logs@ == old(self).logs@ + other.logs@,
            final(self).notifications@ == old(self).notifications@ + other.notifications@,
    {
        let mut o = other;
        self.spawned.append(&mut o.spawned);
        self.destroyed.append(&mut o.destroyed);
        self.emitted_events.append(&mut o.emitted_events);
        self.scheduled_events.append(&mut o.scheduled_events);
        self.logs.append(&mut o.logs);
        self.notifications.append(&mut o.notifications);
    }
}

/// `t` holds copies of the named expressions of `s`, in order: the same names, copied
/// expressions.
pub open spec fn pairs_copy(s: Seq<(String, Expr)>, t: Seq<(String, Expr)>) -> bool {
    &&& t.len() == s.len()
    &&& forall|i: int| 0 <= i < s.len() ==> #[trigger] t[i].0@ == s[i].0@ && expr_copy(s[i].1, t[i].1)
}

/// `b` is a copy of `a`: both absent, or both present and copies.
pub open spec fn option_copy(a: Option<Expr>, b: Option<Expr>) -> bool {
    match a {
        None => b is None,
        Some(x) => b matches Some(y) && expr_copy(x, y),
    }
}

/// `b` is a copy of `a`: the same variant, with texts, identifiers, references and
/// operations of the same models and copies of the same expressions and effects, in the
/// same order.
pub open spec fn effect_copy(a: Effect, b: Effect) -> bool
    decreases a,
{
    match a {
        Effect::SetProperty { property, value } => b matches Effect::SetProperty { property: p, value: v }
            && p@ == property@ && expr_copy(value, v),
        Effect::ModifyProperty { property, op, value } => b matches Effect::ModifyProperty {
            property: p,
            op: o,
            value: v,
        } && p@ == property@ && o == op && expr_copy(value, v),
        Effect::SetEntityProperty { target, property, value } => b matches Effect::SetEntityProperty {
            target: t,
            property: p,
            value: v,
        } && t.model() == target.model() && p@ == property@ && expr_copy(value, v),
        Effect::ModifyEntityProperty { target, property, op, value } => b matches Effect::ModifyEntityProperty {
            target: t,
            property: p,
            op: o,
            value: v,
        } && t.model() == target.model() && p@ == property@ && o == op && expr_copy(value, v),
        Effect::SetGlobal { property, value } => b matches Effect::SetGlobal { property: p, value: v }
            && p@ == property@ && expr_copy(value, v),
        Effect::ModifyGlobal { property, op, value } => b matches Effect::ModifyGlobal {
            property: p,
            op: o,
            value: v,
        } && p@ == property@ && o == op && expr_copy(value, v),
        Effect::AddFlag(f) => b matches Effect::AddFlag(g) && g@ == f@,
        Effect::RemoveFlag(f) => b matches Effect::RemoveFlag(g) && g@ == f@,
        Effect::AddEntityFlag { target, flag } => b matches Effect::AddEntityFlag { target: t, flag: f }
            && t.model() == target.model() && f@ == flag@,
        Effect::RemoveEntityFlag { target, flag } => b matches Effect::RemoveEntityFlag { target: t, flag: f }
            && t.model() == target.model() && f@ == flag@,
        Effect::SpawnEntity { kind, properties } => b matches Effect::SpawnEntity { kind: k, properties: ps }
            && k@ == kind@ && pairs_copy(properties@, ps@),
        Effect::DestroyTarget => b is DestroyTarget,
        Effect::DestroyEntity(target) => b matches Effect::DestroyEntity(t) && t.model() == target.model(),
        Effect::EmitEvent { event, target, params } => b matches Effect::EmitEvent {
            event: e,
            target: t,
            params: ps,
        } && e@ == event@ && t.model() == target.model() && pairs_copy(params@, ps@),
        Effect::ScheduleEvent { event, target, delay_ticks, params } => b matches Effect::ScheduleEvent {
            event: e,
            target: t,
            delay_ticks: d,
            params: ps,
        } && e@ == event@ && t.model() == target.model() && expr_copy(delay_ticks, d) && pairs_copy(
            params@,
            ps@,
        ),
        Effect::If { condition, then_effects, else_effects } => b matches Effect::If {
            condition: c,
            then_effects: te,
            else_effects: ee,
        } && expr_copy(condition, c) && effects_copy(then_effects@, te@) && effects_copy(else_effects@, ee@),
        Effect::Sequence(effects) => b matches Effect::Sequence(es) && effects_copy(effects@, es@),
        Effect::ForEachEntity { kind, filter, effects } => b matches Effect::ForEachEntity {
            kind: k,
            filter: f,
            effects: es,
        } && k@ == kind@ && option_copy(filter, f) && effects_copy(effects@, es@),
        Effect::RandomChoice { choices } => b matches Effect::RandomChoice { choices: cs } && choices_copy(
            choices@,
            cs@,
        ),
        Effect::Log { level, message } => b matches Effect::Log { level: l, message: m } && l == level
            && expr_copy(message, m),
        Effect::Notify { kind, title, message, target } => b matches Effect::Notify {
            kind: k,
            title: ti,
            message: m,
            target: t,
        } && k@ == kind@ && expr_copy(title, ti) && expr_copy(message, m) && t.model() == target.model(),
    }
}

/// `t` holds copies of the effects of `s`, in order.
pub open spec fn effects_copy(s: Seq<Effect>, t: Seq<Effect>) -> bool
    decreases s,
{
    if s.len() == 0 {
        t.len() == 0
    } else {
        t.len() > 0 && effects_copy(s.drop_last(), t.drop_last()) && effect_copy(s.last(), t.last())
    }
}

/// `t` holds copies of the weighted branches of `s`, in order: copied weights and copied
/// effects.
pub open spec fn choices_copy(s: Seq<(Expr, Vec<Effect>)>, t: Seq<(Expr, Vec<Effect>)>) -> bool
    decreases s,
{
    if s.len() == 0 {
        t.len() == 0
    } else {
        t.len() > 0 && choices_copy(s.drop_last(), t.drop_last()) && expr_copy(s.last().0, t.last().0)
            && effects_copy(s.last().1@, t.last().1@)
    }
}

/// Copies of the named expressions of `v`, in order.
pub fn duplicate_pairs(v: &Vec<(String, Expr)>) -> (r: Vec<(String, Expr)>)
    ensures
        pairs_copy(v@, r@),
{
    let mut out: Vec<(String, Expr)> = Vec::new();
    let n = v.len();
    let mut i: usize = 0;
    while i < n
        invariant
            n == v@.len(),
            i <= n,
            out@.len() == i,
            forall|j: int| 0 <= j < i ==> #[trigger] out@[j].0@ == v@[j].0@ && expr_copy(v@[j].1, out@[j].1),
        decreases n - i,
    {
        let name = v[i].0.clone();
        let e = v[i].1.duplicate();
        out.push((name, e));
        i = i + 1;
    }
    out
}

/// Copies of the effects of `v`, in order.
pub fn duplicate_effects(v: &Vec<Effect>) -> (r: Vec<Effect>)
    ensures
        effects_copy(v@, r@),
    decreases v,
{
    let mut out: Vec<Effect> = Vec::new();
    let n = v.len();
    let mut i: usize = 0;
    while i < n
        invariant
            n == v@.len(),
            i <= n,
            effects_copy(v@.subrange(0, i as int), out@),
        decreases n - i,
    {
        assert(decreases_to!(v => v@[i as int]));
        let e = v[i].duplicate();
        let ghost before = out@;
        out.push(e);
        proof {
            let pre = v@.subrange(0, i + 1);
            assert(pre.drop_last() =~= v@.subrange(0, i as int));
            assert(out@.drop_last() =~= before);
        }
        i = i + 1;
    }
    assert(v@.subrange(0, n as int) =~= v@);
    out
}

/// Copies of the weighted branches of `v`, in order.
pub fn duplicate_choices(v: &Vec<(Expr, Vec<Effect>)>) -> (r: Vec<(Expr, Vec<Effect>)>)
    ensures
        choices_copy(v@, r@),
    decreases v,
{
    let mut out: Vec<(Expr, Vec<Effect>)> = Vec::new();
    let n = v.len();
    let mut i: usize = 0;
    while i < n
        invariant
            n == v@.len(),
            i <= n,
            choices_copy(v@.subrange(0, i as int), out@),
        decreases n - i,
    {
        assert(decreases_to!(v => v@[i as int]));
        assert(decreases_to!(v => v@[i as int].1));
        let w = v[i].0.duplicate();
        let es = duplicate_effects(&v[i].1);
        let ghost before = out@;
        out.push((w, es));
        proof {
            let pre = v@.subrange(0, i + 1);
            assert(pre.drop_last() =~= v@.subrange(0, i as int));
            assert(out@.drop_last() =~= before);
        }
        i = i + 1;
    }
    assert(v@.subrange(0, n as int) =~= v@);
    out
}

/// A copy of an optional expression.
fn duplicate_option(e: &Option<Expr>) -> (r: Option<Expr>)
    ensures
        option_copy(*e, r),
{
    match e {
        Some(x) => Some(x.duplicate()),
        None => None,
    }
}

impl Effect {
    /// A copy of this effect.
    pub fn duplicate(&self) -> (r: Effect)
        ensures
            effect_copy(*self, r),
        decreases self,
    {
        match self {
            Effect::SetProperty { property, value } => Effect::SetProperty {
                property: property.clone(),
                value: value.duplicate(),
            },
            Effect::ModifyProperty { property, op, value } => Effect::ModifyProperty {
                property: property.clone(),
                op: *op,
                value: value.duplicate(),
            },
            Effect::SetEntityProperty { target, property, value } => Effect::SetEntityProperty {
                target: target.duplicate(),
                property: property.clone(),
                value: value.duplicate(),
            },
            Effect::ModifyEntityProperty { target, property, op, value } => Effect::ModifyEntityProperty {
                target: target.duplicate(),
                property: property.clone(),
                op: *op,
                value: value.duplicate(),
            },
            Effect::SetGlobal { property, value } => Effect::SetGlobal {
                property: property.clone(),
                value: value.duplicate(),
            },
            Effect::ModifyGlobal { property, op, value } => Effect::ModifyGlobal {
                property: property.clone(),
                op: *op,
                value: value.duplicate(),
            },
            Effect::AddFlag(f) => Effect::AddFlag(f.duplicate()),
            Effect::RemoveFlag(f) => Effect::RemoveFlag(f.duplicate()),
            Effect::AddEntityFlag { target, flag } => Effect::AddEntityFlag {
                target: target.duplicate(),
                flag: flag.duplicate(),
            },
            Effect::RemoveEntityFlag { target, flag } => Effect::RemoveEntityFlag {
                target: target.duplicate(),
                flag: flag.duplicate(),
            },
            Effect::SpawnEntity { kind, properties } => Effect::SpawnEntity {
                kind: kind.duplicate(),
                properties: duplicate_pairs(properties),
            },
            Effect::DestroyTarget => Effect::DestroyTarget,
            Effect::DestroyEntity(target) => Effect::DestroyEntity(target.duplicate()),
            Effect::EmitEvent { event, target, params } => Effect::EmitEvent {
                event: event.duplicate(),
                target: target.duplicate(),
                params: duplicate_pairs(params),
            },
            Effect::ScheduleEvent { event, target, delay_ticks, params } => Effect::ScheduleEvent {
                event: event.duplicate(),
                target: target.duplicate(),
                delay_ticks: delay_ticks.duplicate(),
                params: duplicate_pairs(params),
            },
            Effect::If { condition, then_effects, else_effects } => Effect::If {
                condition: condition.duplicate(),
                then_effects: duplicate_effects(then_effects),
                else_effects: duplicate_effects(else_effects),
            },
            Effect::Sequence(effects) => Effect::Sequence(duplicate_effects(effects)),
            Effect::ForEachEntity { kind, filter, effects } => Effect::ForEachEntity {
                kind: kind.duplicate(),
                filter: duplicate_option(filter),
                effects: duplicate_effects(effects),
            },
            Effect::RandomChoice { choices } => Effect::RandomChoice { choices: duplicate_choices(choices) },
            Effect::Log { level, message } => Effect::Log { level: *level, message: message.duplicate() },
            Effect::Notify { kind, title, message, target } => Effect::Notify {
                kind: kind.duplicate(),
                title: title.duplicate(),
                message: message.duplicate(),
                target: target.duplicate(),
            },
        }
    }
}

} // verus!
