//! Actors: principals that submit commands, their commands and sessions.
use vstd::prelude::*;
use crate::entity::EntityRef;
use crate::identity::{DefId, EntityId};
use crate::value::{insert_model, Value, ValueMap};

verus! {

/// Unique identifier for an actor.
#[derive(Debug, Clone, Copy, PartialEq, Eq, Structural, Hash)]
pub struct ActorId(pub u64);

impl ActorId {
    /// The system actor (for automated or background actions).
    pub fn system() -> (r: ActorId)
        ensures
            r.0 == 0,
    {
        ActorId(0)
    }

    /// Create a new actor ID.
    pub fn new(id: u64) -> (r: Self)
        ensures
            r.0 == id,
    {
        ActorId(id)
    }

    /// Get the raw ID value.
    pub fn raw(&self) -> (r: u64)
        ensures
            r == self.0,
    {
        self.0
    }

    /// Check if this is the system actor.
    pub fn is_system(&self) -> (r: bool)
        ensures
            r == (self.0 == 0),
    {
        self.0 == 0
    }

    /// The display text: `actor:system` for the system actor, else `actor:` and the number.
    pub fn to_text(&self) -> (r: String)
        ensures
            r@ == (if self.0 == 0 {
                "actor:system"@
            } else {
                "actor:"@ + crate::text::decimal(self.0 as nat)
            }),
    {
        if self.is_system() {
            String::from_str("actor:system")
        } else {
            let mut s = String::from_str("actor:");
            crate::text::push_decimal(&mut s, self.0);
            s
        }
    }
}

/// A command submitted by an actor for processing.
#[derive(Debug)]
pub struct Command {
    /// Which actor submitted this command.
    pub actor_id: ActorId,
    /// The type of command.
    pub action: DefId,
    /// Target entity of the command.
    pub target: EntityRef,
    /// Command parameters.
    pub params: ValueMap,
    /// Which tick this command targets.
    pub tick: u64,
}

impl Command {
    /// Create a new command with no parameters, targeting tick 0.
    pub fn new(actor_id: ActorId, action: &str, target: EntityRef) -> (r: Self)
        ensures
            r.actor_id == actor_id,
            r.action@ == action@,
            r.target == target,
            r.params@.len() == 0,
            r.tick == 0,
    {
        Command { actor_id, action: DefId::new(action), target, params: ValueMap::new(), tick: 0 }
    }

    /// Add a parameter to the command.
    pub fn with_param(self, key: &str, value: Value) -> (r: Self)
        ensures
            r.params@ == insert_model(self.params@, key@, value.model()),
            r.actor_id == self.actor_id,
            r.action == self.action,
            r.target == self.target,
            r.tick == self.tick,
    {
        let mut c = self;
        let _ = c.params.insert(String::from_str(key), value);
        c
    }

    /// Set the target tick.
    pub fn at_tick(self, tick: u64) -> (r: Self)
        ensures
            r.tick == tick,
            r.actor_id == self.actor_id,
            r.action == self.action,
            r.target == self.target,
            r.params == self.params,
    {
        let mut c = self;
        c.tick = tick;
        c
    }
}

/// Context about an actor's session.
#[derive(Debug, Clone)]
pub struct Context {
    /// The actor's ID.
    pub id: ActorId,
    /// Entities this actor controls, each at most once.
    pub controlled_entities: Vec<EntityId>,
    /// Whether this actor is connected.
    pub connected: bool,
    /// Whether this actor is ready to advance.
    pub ready: bool,
}

impl Context {
    /// Create a new actor context: connected, not ready, controlling nothing.
    pub fn new(id: ActorId) -> (r: Self)
        ensures
            r.id == id,
            r.controlled_entities@.len() == 0,
            r.connected,
            !r.ready,
    {
        Context { id, controlled_entities: Vec::new(), connected: true, ready: false }
    }

    /// Add an entity to this actor's control, unless it is already controlled.
    pub fn add_controlled_entity(&mut self, entity: EntityId)
        ensures
            final(self).controlled_entities@ == (if old(self).controlled_entities@.contains(entity) {
                old(self).controlled_entities@
            } else {
                old(self).controlled_entities@.push(entity)
            }),
            final(self).id == old(self).id,
            final(self).connected == old(self).connected,
            final(self).ready == old(self).ready,
    {
        if !self.controls(entity) {
            self.controlled_entities.push(entity);
        }
    }

    /// A copy of this context.
    pub fn duplicate(&self) -> (r: Self)
        ensures
            r.id == self.id,
            r.controlled_entities@ == self.controlled_entities@,
            r.connected == self.connected,
            r.ready == self.ready,
    {
        let mut v: Vec<EntityId> = Vec::new();
        let n = self.controlled_entities.len();
        let mut i: usize = 0;
        while i < n
            invariant
                n == self.controlled_entities@.len(),
                i <= n,
                v@ == self.controlled_entities@.subrange(0, i as int),
            decreases n - i,
        {
            v.push(self.controlled_entities[i]);
            assert(v@ =~= self.controlled_entities@.subrange(0, i + 1));
            i = i + 1;
        }
        assert(self.controlled_entities@.subrange(0, n as int) =~= self.controlled_entities@);
        Context { id: self.id, controlled_entities: v, connected: self.connected, ready: self.ready }
    }

    /// Check if this actor controls an entity.
    pub fn controls(&self, entity: EntityId) -> (r: bool)
        ensures
            r == self.controlled_entities@.contains(entity),
    {
        let n = self.controlled_entities.len();
        let mut i: usize = 0;
        while i < n
            invariant
                n == self.controlled_entities@.len(),
                i <= n,
                forall|j: int| 0 <= j < i ==> self.controlled_entities@[j] != entity,
            decreases n - i,
        {
            if self.controlled_entities[i] == entity {
                assert(self.controlled_entities@[i as int] == entity);
                return true;
            }
            i = i + 1;
        }
        false
    }
}

} // verus!
