//! Immutable snapshots of the model: a copy of its entities, globals, clock, generator and
//! actors, with a version number, that later changes to the model do not reach.
use vstd::prelude::*;
use crate::actor::Context;
use crate::entity::{entity_index, has_entity, Entity, EntityModel, EntityStore};
use crate::identity::{DefId, EntityId};
use crate::model::{same_contents, Model};
use crate::rng::GameRng;
use crate::time::Clock;
use crate::value::{lookup, has_key, Value, ValueMap, ValueModel};

verus! {

/// An immutable snapshot of the model at a point in time.
#[derive(Debug)]
pub struct ModelSnapshot {
    state: Model,
    version: u64,
}

impl ModelSnapshot {
    /// The captured model.
    pub closed spec fn spec_model(&self) -> Model {
        self.state
    }

    /// The version number.
    pub closed spec fn spec_version(&self) -> u64 {
        self.version
    }

    /// Capture the whole state of `model` with a version number.
    pub fn new(model: &Model, version: u64) -> (r: Self)
        ensures
            same_contents(r.spec_model(), *model),
            r.spec_model().rng@ == model.rng@,
            r.spec_version() == version,
    {
        ModelSnapshot { state: model.duplicate(), version }
    }

    /// The tick this snapshot was taken at.
    pub fn tick(&self) -> (r: u64)
        ensures
            r == self.spec_model().time.tick,
    {
        self.state.time.tick
    }

    /// The clock.
    pub fn clock(&self) -> (r: &Clock)
        ensures
            *r == self.spec_model().time,
    {
        &self.state.time
    }

    /// The generator.
    pub fn rng(&self) -> (r: &GameRng)
        ensures
            *r == self.spec_model().rng,
    {
        &self.state.rng
    }

    /// The actor contexts, in the order added.
    pub fn actors(&self) -> (r: &Vec<Context>)
        ensures
            *r == self.spec_model().actors,
    {
        &self.state.actors
    }

    /// The version number.
    pub fn version(&self) -> (r: u64)
        ensures
            r == self.spec_version(),
    {
        self.version
    }

    /// The entity with an ID, if any.
    pub fn get_entity(&self, id: EntityId) -> (r: Option<&Entity>)
        ensures
            r.is_some() == has_entity(self.spec_model().entities@, id.0),
            r matches Some(e) ==> e.model() == self.spec_model().entities@[entity_index(
                self.spec_model().entities@,
                id.0,
            )],
    {
        self.state.entities.get(id)
    }

    /// The entities of a kind, in order.
    pub fn entities_by_kind(&self, kind: &DefId) -> (r: Vec<&Entity>)
        ensures
            r@.map_values(|e: &Entity| e.model()) == self.spec_model().entities@.filter(
                |e: EntityModel| e.kind == kind@,
            ),
    {
        let store = &self.state.entities;
        let ghost s = store@;
        let mut out: Vec<&Entity> = Vec::new();
        let n = store.len();
        let mut i: usize = 0;
        while i < n
            invariant
                n == s.len(),
                s == store@,
                i <= n,
                out@.map_values(|e: &Entity| e.model()) == s.subrange(0, i as int).filter(
                    |e: EntityModel| e.kind == kind@,
                ),
            decreases n - i,
        {
            proof {
                let pre = s.subrange(0, i as int);
                assert(s.subrange(0, i + 1) =~= pre.push(s[i as int]));
                assert(pre.push(s[i as int]).drop_last() =~= pre);
                reveal_with_fuel(Seq::<EntityModel>::filter, 1);
            }
            let e = store.at(i);
            if e.kind.same_as(kind) {
                let ghost before = out@;
                out.push(e);
                proof {
                    assert(out@.map_values(|e: &Entity| e.model()) =~= before.map_values(
                        |e: &Entity| e.model(),
                    ).push(s[i as int]));
                }
            }
            i = i + 1;
        }
        assert(s.subrange(0, n as int) =~= s);
        out
    }

    /// All entities, in order.
    pub fn entities(&self) -> (r: Vec<&Entity>)
        ensures
            r@.map_values(|e: &Entity| e.model()) == self.spec_model().entities@,
    {
        let store = &self.state.entities;
        let ghost s = store@;
        let mut out: Vec<&Entity> = Vec::new();
        let n = store.len();
        let mut i: usize = 0;
        while i < n
            invariant
                n == s.len(),
                s == store@,
                i <= n,
                out@.map_values(|e: &Entity| e.model()) == s.subrange(0, i as int),
            decreases n - i,
        {
            let e = store.at(i);
            let ghost before = out@;
            out.push(e);
            proof {
                assert(out@.map_values(|e: &Entity| e.model()) =~= before.map_values(
                    |e: &Entity| e.model(),
                ).push(s[i as int]));
                assert(s.subrange(0, i + 1) =~= s.subrange(0, i as int).push(s[i as int]));
            }
            i = i + 1;
        }
        out
    }

    /// The number of entities.
    pub fn entity_count(&self) -> (r: usize)
        ensures
            r == self.spec_model().entities@.len(),
    {
        self.state.entities.len()
    }

    /// Whether an entity with an ID exists.
    pub fn has_entity(&self, id: EntityId) -> (r: bool)
        ensures
            r == has_entity(self.spec_model().entities@, id.0),
    {
        self.state.entities.get(id).is_some()
    }

    /// The value of a global property, if set.
    pub fn get_global(&self, key: &str) -> (r: Option<&Value>)
        ensures
            r.is_some() == has_key(self.spec_model().globals@, key@),
            r matches Some(v) ==> lookup(self.spec_model().globals@, key@) == Some(v.model()),
    {
        self.state.globals.get(key)
    }

    /// The text of a global property, if set to text.
    pub fn get_global_str(&self, key: &str) -> (r: Option<&str>)
        ensures
            r.is_some() == (lookup(self.spec_model().globals@, key@) matches Some(ValueModel::Str(_))),
            r matches Some(s) ==> lookup(self.spec_model().globals@, key@) == Some(ValueModel::Str(s@)),
    {
        match self.state.globals.get(key) {
            Some(v) => v.as_str(),
            None => None,
        }
    }

    /// Whether a global property is set.
    pub fn has_global(&self, key: &str) -> (r: bool)
        ensures
            r == has_key(self.spec_model().globals@, key@),
    {
        self.state.globals.contains_key(key)
    }

    /// All global properties, in insertion order.
    pub fn globals_iter(&self) -> (r: Vec<&(String, Value)>)
        ensures
            r@.len() == self.spec_model().globals@.len(),
            forall|i: int|
                0 <= i < r@.len() ==> (#[trigger] r@[i]).0@ == self.spec_model().globals@[i].0
                    && r@[i].1.model() == self.spec_model().globals@[i].1,
    {
        let g = &self.state.globals;
        let mut out: Vec<&(String, Value)> = Vec::new();
        let n = g.len();
        let mut i: usize = 0;
        while i < n
            invariant
                n == g@.len(),
                i <= n,
                out@.len() == i,
                forall|j: int|
                    0 <= j < i ==> (#[trigger] out@[j]).0@ == g@[j].0 && out@[j].1.model() == g@[j].1,
            decreases n - i,
        {
            out.push(g.entry(i));
            i = i + 1;
        }
        out
    }

    /// An owned copy of the captured model.
    pub fn to_model(&self) -> (r: Model)
        ensures
            same_contents(r, self.spec_model()),
            r.rng@ == self.spec_model().rng@,
    {
        self.state.duplicate()
    }

    /// The captured entity store.
    pub fn entity_store(&self) -> (r: &EntityStore)
        ensures
            *r == self.spec_model().entities,
    {
        &self.state.entities
    }

    /// The captured global properties.
    pub fn globals_map(&self) -> (r: &ValueMap)
        ensures
            *r == self.spec_model().globals,
    {
        &self.state.globals
    }
}

} // verus!
