//! Messages processed by the reactive runtime.
use vstd::prelude::*;
use crate::actor::ActorId;
use crate::entity::{EntityRef, RefModel};
use crate::identity::DefId;
use crate::value::{insert_model, Value, ValueMap, ValueModel};

verus! {

/// The kind of a message.
#[derive(Debug, Clone, PartialEq, Eq)]
pub enum MsgKind {
    /// System tick (advance time).
    Tick,
    /// Actor command (validated).
    Command,
    /// Event triggered by conditions.
    Event,
    /// Scheduled event firing.
    ScheduledEvent,
    /// Entity spawned.
    EntitySpawned,
    /// Entity destroyed.
    EntityDestroyed,
    /// Property changed.
    PropertyChanged,
    /// Flag added.
    FlagAdded,
    /// Flag removed.
    FlagRemoved,
    /// Custom message type (defined in scripts).
    Custom(DefId),
}

/// The model of a message kind: custom kinds by their text.
pub open spec fn kind_model(k: &MsgKind) -> (u8, Seq<char>) {
    match k {
        MsgKind::Tick => (0, Seq::empty()),
        MsgKind::Command => (1, Seq::empty()),
        MsgKind::Event => (2, Seq::empty()),
        MsgKind::ScheduledEvent => (3, Seq::empty()),
        MsgKind::EntitySpawned => (4, Seq::empty()),
        MsgKind::EntityDestroyed => (5, Seq::empty()),
        MsgKind::PropertyChanged => (6, Seq::empty()),
        MsgKind::FlagAdded => (7, Seq::empty()),
        MsgKind::FlagRemoved => (8, Seq::empty()),
        MsgKind::Custom(d) => (9, d@),
    }
}

impl MsgKind {
    /// Whether two kinds are the same (custom kinds compared by text).
    pub fn same_as(&self, other: &MsgKind) -> (r: bool)
        ensures
            r == (kind_model(self) == kind_model(other)),
    {
        match (self, other) {
            (MsgKind::Tick, MsgKind::Tick) => true,
            (MsgKind::Command, MsgKind::Command) => true,
            (MsgKind::Event, MsgKind::Event) => true,
            (MsgKind::ScheduledEvent, MsgKind::ScheduledEvent) => true,
            (MsgKind::EntitySpawned, MsgKind::EntitySpawned) => true,
            (MsgKind::EntityDestroyed, MsgKind::EntityDestroyed) => true,
            (MsgKind::PropertyChanged, MsgKind::PropertyChanged) => true,
            (MsgKind::FlagAdded, MsgKind::FlagAdded) => true,
            (MsgKind::FlagRemoved, MsgKind::FlagRemoved) => true,
            (MsgKind::Custom(a), MsgKind::Custom(b)) => a.same_as(b),
            _ => false,
        }
    }

    /// A copy of this kind.
    pub fn duplicate(&self) -> (r: MsgKind)
        ensures
            kind_model(&r) == kind_model(self),
    {
        match self {
            MsgKind::Tick => MsgKind::Tick,
            MsgKind::Command => MsgKind::Command,
            MsgKind::Event => MsgKind::Event,
            MsgKind::ScheduledEvent => MsgKind::ScheduledEvent,
            MsgKind::EntitySpawned => MsgKind::EntitySpawned,
            MsgKind::EntityDestroyed => MsgKind::EntityDestroyed,
            MsgKind::PropertyChanged => MsgKind::PropertyChanged,
            MsgKind::FlagAdded => MsgKind::FlagAdded,
            MsgKind::FlagRemoved => MsgKind::FlagRemoved,
            MsgKind::Custom(d) => MsgKind::Custom(d.duplicate()),
        }
    }
}

/// A message in the reactive system.
#[derive(Debug)]
pub struct Msg {
    /// The kind of message.
    pub kind: MsgKind,
    /// Event or action ID, if any.
    pub event_id: Option<DefId>,
    /// Target entity.
    pub target: EntityRef,
    /// Message parameters.
    pub params: ValueMap,
    /// Which actor triggered this, if any.
    pub actor: Option<ActorId>,
    /// The tick when this message was created.
    pub tick: u64,
}

/// The model of a message.
pub struct MsgModel {
    pub kind: (u8, Seq<char>),
    pub event_id: Option<Seq<char>>,
    pub target: RefModel,
    pub params: Seq<(Seq<char>, ValueModel)>,
    pub actor: Option<ActorId>,
    pub tick: u64,
}

impl Msg {
    /// The model of this message.
    pub open spec fn model(&self) -> MsgModel {
        MsgModel {
            kind: kind_model(&self.kind),
            event_id: match self.event_id {
                Some(e) => Some(e@),
                None => None,
            },
            target: self.target.model(),
            params: self.params@,
            actor: self.actor,
            tick: self.tick,
        }
    }

    /// Create a message of the given kind, with no event, target, parameters or actor, at tick 0.
    pub fn new(kind: MsgKind) -> (r: Self)
        ensures
            r.kind == kind,
            r.event_id is None,
            r.target == EntityRef::NoTarget,
            r.params@.len() == 0,
            r.actor is None,
            r.tick == 0,
    {
        Msg {
            kind,
            event_id: None,
            target: EntityRef::NoTarget,
            params: ValueMap::new(),
            actor: None,
            tick: 0,
        }
    }

    /// Create a tick message.
    pub fn tick(tick: u64) -> (r: Self)
        ensures
            r.kind == MsgKind::Tick,
            r.event_id is None,
            r.target == EntityRef::NoTarget,
            r.params@.len() == 0,
            r.actor is None,
            r.tick == tick,
    {
        Msg {
            kind: MsgKind::Tick,
            event_id: None,
            target: EntityRef::NoTarget,
            params: ValueMap::new(),
            actor: None,
            tick,
        }
    }

    /// Create an event message.
    pub fn event(event_id: &str, target: EntityRef, tick: u64) -> (r: Self)
        ensures
            r.kind == MsgKind::Event,
            r.event_id matches Some(e) && e@ == event_id@,
            r.target == target,
            r.params@.len() == 0,
            r.actor is None,
            r.tick == tick,
    {
        Msg {
            kind: MsgKind::Event,
            event_id: Some(DefId::new(event_id)),
            target,
            params: ValueMap::new(),
            actor: None,
            tick,
        }
    }

    /// Create a command message.
    pub fn command(action_id: &str, target: EntityRef, actor: ActorId, tick: u64) -> (r: Self)
        ensures
            r.kind == MsgKind::Command,
            r.event_id matches Some(e) && e@ == action_id@,
            r.target == target,
            r.params@.len() == 0,
            r.actor == Some(actor),
            r.tick == tick,
    {
        Msg {
            kind: MsgKind::Command,
            event_id: Some(DefId::new(action_id)),
            target,
            params: ValueMap::new(),
            actor: Some(actor),
            tick,
        }
    }

    /// Set the event ID.
    pub fn with_event(self, event_id: &str) -> (r: Self)
        ensures
            r.event_id matches Some(e) && e@ == event_id@,
            r.kind == self.kind,
            r.target == self.target,
            r.params == self.params,
            r.actor == self.actor,
            r.tick == self.tick,
    {
        let mut m = self;
        m.event_id = Some(DefId::new(event_id));
        m
    }

    /// Set the target.
    pub fn with_target(self, target: EntityRef) -> (r: Self)
        ensures
            r.target == target,
            r.kind == self.kind,
            r.event_id == self.event_id,
            r.params == self.params,
            r.actor == self.actor,
            r.tick == self.tick,
    {
        let mut m = self;
        m.target = target;
        m
    }

    /// Add a parameter.
    pub fn with_param(self, key: &str, value: Value) -> (r: Self)
        ensures
            r.params@ == insert_model(self.params@, key@, value.model()),
            r.kind == self.kind,
            r.event_id == self.event_id,
            r.target == self.target,
            r.actor == self.actor,
            r.tick == self.tick,
    {
        let mut m = self;
        let _ = m.params.insert(String::from_str(key), value);
        m
    }

    /// Set the actor.
    pub fn with_actor(self, actor: ActorId) -> (r: Self)
        ensures
            r.actor == Some(actor),
            r.kind == self.kind,
            r.event_id == self.event_id,
            r.target == self.target,
            r.params == self.params,
            r.tick == self.tick,
    {
        let mut m = self;
        m.actor = Some(actor);
        m
    }

    /// Set the tick.
    pub fn at_tick(self, tick: u64) -> (r: Self)
        ensures
            r.tick == tick,
            r.kind == self.kind,
            r.event_id == self.event_id,
            r.target == self.target,
            r.params == self.params,
            r.actor == self.actor,
    {
        let mut m = self;
        m.tick = tick;
        m
    }

    /// A copy of this message.
    pub fn duplicate(&self) -> (r: Msg)
        ensures
            kind_model(&r.kind) == kind_model(&self.kind),
            r.event_id.is_some() == self.event_id.is_some(),
            r.event_id matches Some(e) ==> e@ == self.event_id.unwrap()@,
            r.target.model() == self.target.model(),
            r.params@ == self.params@,
            r.actor == self.actor,
            r.tick == self.tick,
            r.model() == self.model(),
    {
        Msg {
            kind: self.kind.duplicate(),
            event_id: match &self.event_id {
                Some(e) => Some(e.duplicate()),
                None => None,
            },
            target: self.target.duplicate(),
            params: self.params.duplicate(),
            actor: self.actor,
            tick: self.tick,
        }
    }
}

} // verus!
