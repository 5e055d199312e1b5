//! Interpolation between two model states for smooth rendering: the newer state, with
//! each value that the older state also holds blended from the two.
use vstd::prelude::*;
use crate::entity::{entity_index, has_entity, Entity, EntityModel};
use crate::model::Model;
use crate::value::{has_key, keys_unique, lookup, Value, ValueMap, ValueModel};

verus! {

/// The blending step can be called on any two values.
pub open spec fn blend_is_total<B: Fn(&Value, &Value) -> Value>(blend: B) -> bool {
    forall|x: &Value, y: &Value| #[trigger] call_requires(blend, (x, y))
}

/// Blending values with models `a` and `b` can give a value with model `r`.
pub open spec fn blends<B: Fn(&Value, &Value) -> Value>(
    blend: B,
    a: ValueModel,
    b: ValueModel,
    r: ValueModel,
) -> bool {
    exists|x: &Value, y: &Value, z: Value|
        x.model() == a && y.model() == b && z.model() == r && #[trigger] call_ensures(blend, (x, y), z)
}

/// `out` has the keys of `curr`, in order; a key that `prev` also holds has a blend of the
/// two values, any other key the value of `curr`.
pub open spec fn blended_map<B: Fn(&Value, &Value) -> Value>(
    blend: B,
    prev: Seq<(Seq<char>, ValueModel)>,
    curr: Seq<(Seq<char>, ValueModel)>,
    out: Seq<(Seq<char>, ValueModel)>,
) -> bool {
    &&& out.len() == curr.len()
    &&& forall|i: int|
        0 <= i < curr.len() ==> #[trigger] out[i].0 == curr[i].0 && (if has_key(prev, curr[i].0) {
            blends(blend, lookup(prev, curr[i].0).unwrap(), curr[i].1, out[i].1)
        } else {
            out[i].1 == curr[i].1
        })
}

/// Entity `out` is entity `curr` with its properties blended with those of the entity of
/// the same ID in `prev`, when there is one.
pub open spec fn blended_entity<B: Fn(&Value, &Value) -> Value>(
    blend: B,
    prev: Seq<EntityModel>,
    curr: EntityModel,
    out: EntityModel,
) -> bool {
    &&& out.id == curr.id
    &&& out.kind == curr.kind
    &&& out.flags == curr.flags
    &&& if has_entity(prev, curr.id) {
        blended_map(blend, prev[entity_index(prev, curr.id)].properties, curr.properties, out.properties)
    } else {
        out.properties == curr.properties
    }
}

/// A map with the keys of `curr`, in order, each value blended with the value of the same
/// key in `prev` when there is one.
pub fn blend_values<B: Fn(&Value, &Value) -> Value>(prev: &ValueMap, curr: &ValueMap, blend: &B) -> (r: ValueMap)
    requires
        blend_is_total(*blend),
    ensures
        blended_map(*blend, prev@, curr@, r@),
{
    curr.keys_are_unique();
    let mut out = ValueMap::new();
    let n = curr.len();
    let mut j: usize = 0;
    while j < n
        invariant
            n == curr@.len(),
            j <= n,
            keys_unique(curr@),
            blend_is_total(*blend),
            out@.len() == j,
            forall|i: int| 0 <= i < j ==> #[trigger] out@[i].0 == curr@[i].0,
            forall|i: int|
                0 <= i < j ==> (if has_key(prev@, curr@[i].0) {
                    blends(*blend, lookup(prev@, curr@[i].0).unwrap(), curr@[i].1, #[trigger] out@[i].1)
                } else {
                    out@[i].1 == curr@[i].1
                }),
        decreases n - j,
    {
        let entry = curr.entry(j);
        let v = match prev.get(entry.0.as_str()) {
            Some(pv) => {
                let z = blend(pv, &entry.1);
                proof {
                    assert(call_ensures(*blend, (pv, &entry.1), z));
                }
                z
            },
            None => entry.1.duplicate(),
        };
        proof {
            assert forall|i: int| 0 <= i < out@.len() implies #[trigger] out@[i].0 != entry.0@ by {
                assert(curr@[i].0 != curr@[j as int].0);
            }
            assert(!has_key(out@, entry.0@));
        }
        let ghost before = out@;
        out.insert(entry.0.clone(), v);
        proof {
            assert(out@ == before.push((entry.0@, v.model())));
        }
        j = j + 1;
    }
    out
}

/// The newer state `curr` with each entity property and global that `prev` also holds
/// blended from the two values; everything else is copied from `curr`.
pub fn interpolate_models_with<B: Fn(&Value, &Value) -> Value>(prev: &Model, curr: &Model, blend: &B) -> (r: Model)
    requires
        blend_is_total(*blend),
    ensures
        r.entities@.len() == curr.entities@.len(),
        forall|i: int|
            0 <= i < r.entities@.len() ==> blended_entity(
                *blend,
                prev.entities@,
                curr.entities@[i],
                #[trigger] r.entities@[i],
            ),
        r.entities.spec_next_id() == curr.entities.spec_next_id(),
        blended_map(*blend, prev.globals@, curr.globals@, r.globals@),
        r.time == curr.time,
        r.rng@ == curr.rng@,
        r.actors@.len() == curr.actors@.len(),
        forall|i: int|
            0 <= i < r.actors@.len() ==> (#[trigger] r.actors@[i]).id == curr.actors@[i].id
                && r.actors@[i].controlled_entities@ == curr.actors@[i].controlled_entities@
                && r.actors@[i].connected == curr.actors@[i].connected && r.actors@[i].ready
                == curr.actors@[i].ready,
{
    let mut result = curr.duplicate();
    let n = result.entities.len();
    let mut i: usize = 0;
    while i < n
        invariant
            n == curr.entities@.len(),
            i <= n,
            blend_is_total(*blend),
            result.entities@.len() == n,
            result.entities.spec_next_id() == curr.entities.spec_next_id(),
            result.globals@ == curr.globals@,
            result.time == curr.time,
            result.rng@ == curr.rng@,
            result.actors@.len() == curr.actors@.len(),
            forall|k: int|
                0 <= k < result.actors@.len() ==> (#[trigger] result.actors@[k]).id == curr.actors@[k].id
                    && result.actors@[k].controlled_entities@ == curr.actors@[k].controlled_entities@
                    && result.actors@[k].connected == curr.actors@[k].connected && result.actors@[k].ready
                    == curr.actors@[k].ready,
            forall|k: int|
                0 <= k < i ==> blended_entity(*blend, prev.entities@, curr.entities@[k], #[trigger] result.entities@[k]),
            forall|k: int| i <= k < n ==> #[trigger] result.entities@[k] == curr.entities@[k],
        decreases n - i,
    {
        let e: &Entity = result.entities.at(i);
        match prev.entities.get(e.id) {
            Some(pe) => {
                let props = blend_values(&pe.properties, &e.properties, blend);
                result.entities.set_properties_at(i, props);
            },
            None => {},
        }
        i = i + 1;
    }
    let globals = blend_values(&prev.globals, &result.globals, blend);
    result.globals = globals;
    result
}

/// Holds the previous and the current state and interpolates between them.
#[derive(Debug)]
pub struct Interpolator {
    prev_state: Option<(u64, Model)>,
    curr_state: Option<(u64, Model)>,
}

impl Default for Interpolator {
    /// An interpolator with no states.
    fn default() -> (r: Self)
        ensures
            r.spec_prev() is None,
            r.spec_curr() is None,
    {
        Interpolator::new()
    }
}

impl Interpolator {
    /// The previous state and its tick, if any.
    pub closed spec fn spec_prev(&self) -> Option<(u64, Model)> {
        self.prev_state
    }

    /// The current state and its tick, if any.
    pub closed spec fn spec_curr(&self) -> Option<(u64, Model)> {
        self.curr_state
    }

    /// An interpolator with no states.
    pub fn new() -> (r: Self)
        ensures
            r.spec_prev() is None,
            r.spec_curr() is None,
    {
        Interpolator { prev_state: None, curr_state: None }
    }

    /// Record a new authoritative state: the current one becomes the previous one.
    pub fn push_state(&mut self, tick: u64, model: Model)
        ensures
            final(self).spec_prev() == old(self).spec_curr(),
            final(self).spec_curr() == Some((tick, model)),
    {
        self.prev_state = self.curr_state.take();
        self.curr_state = Some((tick, model));
    }

    /// The state between the previous and the current one, with values blended by `blend`
    /// (see [`interpolate_models_with`]); a copy of the only state when there is one; none
    /// without states.
    pub fn interpolate_with<B: Fn(&Value, &Value) -> Value>(&self, blend: &B) -> (r: Option<Model>)
        requires
            blend_is_total(*blend),
        ensures
            self.spec_prev() is None && self.spec_curr() is None ==> r is None,
            self.spec_prev() is Some && self.spec_curr() is Some ==> ({
                let p = self.spec_prev().unwrap().1;
                let c = self.spec_curr().unwrap().1;
                r matches Some(m) && blended_map(*blend, p.globals@, c.globals@, m.globals@)
                    && m.entities@.len() == c.entities@.len() && (forall|i: int|
                    0 <= i < m.entities@.len() ==> blended_entity(
                        *blend,
                        p.entities@,
                        c.entities@[i],
                        #[trigger] m.entities@[i],
                    )) && m.time == c.time && m.rng@ == c.rng@
            }),
            self.spec_prev() is None && self.spec_curr() is Some ==> ({
                let c = self.spec_curr().unwrap().1;
                r matches Some(m) && crate::model::same_contents(m, c) && m.rng@ == c.rng@
            }),
            self.spec_prev() is Some && self.spec_curr() is None ==> ({
                let p = self.spec_prev().unwrap().1;
                r matches Some(m) && crate::model::same_contents(m, p) && m.rng@ == p.rng@
            }),
    {
        match (&self.prev_state, &self.curr_state) {
            (Some((_, prev)), Some((_, curr))) => Some(interpolate_models_with(prev, curr, blend)),
            (None, Some((_, curr))) => Some(curr.duplicate()),
            (Some((_, prev)), None) => Some(prev.duplicate()),
            (None, None) => None,
        }
    }

    /// The tick of the current state.
    pub fn current_tick(&self) -> (r: Option<u64>)
        ensures
            r == (match self.spec_curr() {
                Some((t, _)) => Some(t),
                None => None,
            }),
    {
        match &self.curr_state {
            Some((t, _)) => Some(*t),
            None => None,
        }
    }

    /// The tick of the previous state.
    pub fn previous_tick(&self) -> (r: Option<u64>)
        ensures
            r == (match self.spec_prev() {
                Some((t, _)) => Some(t),
                None => None,
            }),
    {
        match &self.prev_state {
            Some((t, _)) => Some(*t),
            None => None,
        }
    }

    /// Whether both states are present.
    pub fn can_interpolate(&self) -> (r: bool)
        ensures
            r == (self.spec_prev() is Some && self.spec_curr() is Some),
    {
        self.prev_state.is_some() && self.curr_state.is_some()
    }

    /// Drop both states.
    pub fn reset(&mut self)
        ensures
            final(self).spec_prev() is None,
            final(self).spec_curr() is None,
    {
        self.prev_state = None;
        self.curr_state = None;
    }
}

} // verus!
