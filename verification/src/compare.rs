//! Comparing a client's state with the server's: the same tick, globals, and entities with
//! the same kinds and properties. How two values compare (numbers within a tolerance) is
//! the caller's.
use vstd::prelude::*;
use crate::entity::{entity_index, has_entity};
use crate::model::Model;
use crate::value::{has_key, lookup, Value, ValueMap, ValueModel};

verus! {

/// What the caller's value comparison answers for values of these models.
pub open spec fn values_match<V: Fn(&Value, &Value) -> bool>(eq: V, a: ValueModel, b: ValueModel) -> bool {
    let (x, y, r) = choose|x: Value, y: Value, r: bool|
        x.model() == a && y.model() == b && #[trigger] call_ensures(eq, (&x, &y), r);
    r
}

/// The value comparison accepts all values and answers alike for values of the same models.
pub open spec fn value_eq_is_function<V: Fn(&Value, &Value) -> bool>(eq: V) -> bool {
    &&& forall|x: &Value, y: &Value| #[trigger] call_requires(eq, (x, y))
    &&& forall|x1: &Value, y1: &Value, x2: &Value, y2: &Value, r1: bool, r2: bool|
        x1.model() == x2.model() && y1.model() == y2.model() && #[trigger] call_ensures(eq, (x1, y1), r1)
            && #[trigger] call_ensures(eq, (x2, y2), r2) ==> r1 == r2
}

/// Two maps match: as many entries, and each key of the first is in the second with a
/// value that compares equal.
pub open spec fn maps_match<V: Fn(&Value, &Value) -> bool>(
    eq: V,
    a: Seq<(Seq<char>, ValueModel)>,
    b: Seq<(Seq<char>, ValueModel)>,
) -> bool {
    &&& a.len() == b.len()
    &&& forall|i: int|
        0 <= i < a.len() ==> has_key(b, (#[trigger] a[i]).0) && values_match(eq, a[i].1, lookup(b, a[i].0).unwrap())
}

/// Two states match: the same tick, matching globals, as many entities, and for each
/// entity of the first an entity with its ID in the second, of the same kind and with
/// matching properties.
pub open spec fn states_match<V: Fn(&Value, &Value) -> bool>(eq: V, a: Model, b: Model) -> bool {
    &&& a.time.tick == b.time.tick
    &&& maps_match(eq, a.globals@, b.globals@)
    &&& a.entities@.len() == b.entities@.len()
    &&& forall|i: int|
        0 <= i < a.entities@.len() ==> has_entity(b.entities@, (#[trigger] a.entities@[i]).id) && ({
            let other = b.entities@[entity_index(b.entities@, a.entities@[i].id)];
            other.kind == a.entities@[i].kind && maps_match(eq, a.entities@[i].properties, other.properties)
        })
}

/// Whether two maps match (see [`maps_match`]).
fn maps_equal<V: Fn(&Value, &Value) -> bool>(a: &ValueMap, b: &ValueMap, eq: &V) -> (r: bool)
    requires
        value_eq_is_function(*eq),
    ensures
        r == maps_match(*eq, a@, b@),
{
    if a.len() != b.len() {
        return false;
    }
    let n = a.len();
    let mut i: usize = 0;
    while i < n
        invariant
            n == a@.len(),
            a@.len() == b@.len(),
            i <= n,
            value_eq_is_function(*eq),
            forall|j: int|
                0 <= j < i ==> has_key(b@, (#[trigger] a@[j]).0) && values_match(*eq, a@[j].1, lookup(b@, a@[j].0).unwrap()),
        decreases n - i,
    {
        let entry = a.entry(i);
        match b.get(entry.0.as_str()) {
            Some(vb) => {
                let same = eq(&entry.1, vb);
                proof {
                    assert(call_ensures(*eq, (&entry.1, vb), same));
                    let (x, y, w) = choose|x: Value, y: Value, w: bool|
                        x.model() == a@[i as int].1 && y.model() == lookup(b@, a@[i as int].0).unwrap()
                            && #[trigger] call_ensures(*eq, (&x, &y), w);
                    assert(call_ensures(*eq, (&x, &y), w));
                }
                if !same {
                    return false;
                }
            },
            None => {
                return false;
            },
        }
        i = i + 1;
    }
    true
}

/// Whether two states match (see [`states_match`]); `eq` compares two values.
pub fn states_equal<V: Fn(&Value, &Value) -> bool>(a: &Model, b: &Model, eq: &V) -> (r: bool)
    requires
        value_eq_is_function(*eq),
    ensures
        r == states_match(*eq, *a, *b),
{
    if a.current_tick() != b.current_tick() {
        return false;
    }
    if !maps_equal(&a.globals, &b.globals, eq) {
        return false;
    }
    if a.entities.len() != b.entities.len() {
        return false;
    }
    let n = a.entities.len();
    let mut i: usize = 0;
    while i < n
        invariant
            n == a.entities@.len(),
            a.entities@.len() == b.entities@.len(),
            i <= n,
            value_eq_is_function(*eq),
            forall|j: int|
                0 <= j < i ==> has_entity(b.entities@, (#[trigger] a.entities@[j]).id) && ({
                    let other = b.entities@[entity_index(b.entities@, a.entities@[j].id)];
                    other.kind == a.entities@[j].kind && maps_match(*eq, a.entities@[j].properties, other.properties)
                }),
        decreases n - i,
    {
        let ea = a.entities.at(i);
        match b.entities.get(ea.id) {
            Some(eb) => {
                if !ea.kind.same_as(&eb.kind) || !maps_equal(&ea.properties, &eb.properties, eq) {
                    return false;
                }
            },
            None => {
                return false;
            },
        }
        i = i + 1;
    }
    true
}

} // verus!
