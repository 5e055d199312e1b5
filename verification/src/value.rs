//! Dynamic values and insertion-ordered property maps.
//!
//! A number is held by the 64 bits of its IEEE-754 encoding, so that the
//! library can store, compare, copy and hash it exactly.
use vstd::prelude::*;
use crate::identity::EntityId;

verus! {

broadcast use vstd::std_specs::vec::group_vec_axioms;

/// The mathematical model of a [`Value`].
pub enum ValueModel {
    Null,
    Bool(bool),
    Int(i64),
    Float(u64),
    Str(Seq<char>),
    Ref(u64),
    List(Seq<ValueModel>),
    Dict(Seq<(Seq<char>, ValueModel)>),
}

/// A dynamic value.
#[derive(Debug)]
pub enum Value {
    /// No value.
    Null,
    /// A boolean.
    Bool(bool),
    /// A signed integer.
    Int(i64),
    /// A number, held as the bits of its IEEE-754 double encoding.
    Float(u64),
    /// Text.
    String(String),
    /// A reference to an entity.
    EntityRef(EntityId),
    /// An ordered list of values.
    List(Vec<Value>),
    /// A map from text keys to values, in insertion order.
    Dict(ValueMap),
}

/// Insertion-ordered map from text keys to values; no key occurs twice.
#[derive(Debug)]
pub struct ValueMap {
    entries: Vec<(String, Value)>,
}

/// No key occurs twice in `s`.
pub open spec fn keys_unique(s: Seq<(Seq<char>, ValueModel)>) -> bool {
    forall|i: int, j: int| 0 <= i < j < s.len() ==> #[trigger] s[i].0 != #[trigger] s[j].0
}

/// Models of a sequence of values, position by position.
pub open spec fn models_of(s: Seq<Value>) -> Seq<ValueModel>
    decreases s,
{
    if s.len() == 0 {
        Seq::empty()
    } else {
        models_of(s.drop_last()).push(s.last().model())
    }
}

/// Models of a sequence of map entries, position by position.
pub closed spec fn entries_model(s: Seq<(String, Value)>) -> Seq<(Seq<char>, ValueModel)>
    decreases s,
{
    if s.len() == 0 {
        Seq::empty()
    } else {
        entries_model(s.drop_last()).push((s.last().0@, s.last().1.model()))
    }
}

impl Value {
    /// The mathematical model of this value.
    pub open spec fn model(&self) -> ValueModel
        decreases self,
    {
        match self {
            Value::Null => ValueModel::Null,
            Value::Bool(b) => ValueModel::Bool(*b),
            Value::Int(i) => ValueModel::Int(*i),
            Value::Float(f) => ValueModel::Float(*f),
            Value::String(s) => ValueModel::Str(s@),
            Value::EntityRef(id) => ValueModel::Ref(id.0),
            Value::List(l) => ValueModel::List(models_of(l@)),
            Value::Dict(m) => ValueModel::Dict(m.model()),
        }
    }
}

impl ValueMap {
    /// The entries of this map, as key text and value model, in order.
    pub closed spec fn model(&self) -> Seq<(Seq<char>, ValueModel)>
        decreases self,
    {
        entries_model(self.entries@)
    }

    #[verifier::type_invariant]
    spec fn inv(self) -> bool {
        keys_unique(entries_model(self.entries@))
    }
}

/// The key `k` occurs in `s`.
pub open spec fn has_key(s: Seq<(Seq<char>, ValueModel)>, k: Seq<char>) -> bool {
    exists|i: int| 0 <= i < s.len() && #[trigger] s[i].0 == k
}

/// The position of key `k` in `s` (meaningful when it occurs).
pub open spec fn key_index(s: Seq<(Seq<char>, ValueModel)>, k: Seq<char>) -> int {
    choose|i: int| 0 <= i < s.len() && #[trigger] s[i].0 == k
}

/// The value stored under `k`, if any.
pub open spec fn lookup(s: Seq<(Seq<char>, ValueModel)>, k: Seq<char>) -> Option<ValueModel> {
    if has_key(s, k) {
        Some(s[key_index(s, k)].1)
    } else {
        None
    }
}

/// The entries after storing `v` under `k`: an existing key keeps its place,
/// a new key goes last.
pub open spec fn insert_model(
    s: Seq<(Seq<char>, ValueModel)>,
    k: Seq<char>,
    v: ValueModel,
) -> Seq<(Seq<char>, ValueModel)> {
    if has_key(s, k) {
        s.update(key_index(s, k), (k, v))
    } else {
        s.push((k, v))
    }
}

/// The entries after removing `k`, the others keeping their order.
pub open spec fn remove_model(s: Seq<(Seq<char>, ValueModel)>, k: Seq<char>) -> Seq<
    (Seq<char>, ValueModel),
> {
    if has_key(s, k) {
        s.remove(key_index(s, k))
    } else {
        s
    }
}

/// In a map whose keys are unique, a position holding `k` is the position of `k`.
pub proof fn lemma_key_index_unique(s: Seq<(Seq<char>, ValueModel)>, k: Seq<char>, i: int)
    requires
        keys_unique(s),
        0 <= i < s.len(),
        s[i].0 == k,
    ensures
        has_key(s, k),
        key_index(s, k) == i,
{
    let j = key_index(s, k);
    assert(0 <= j < s.len() && s[j].0 == k);
    if j < i {
        assert(s[j].0 != s[i].0);
    } else if i < j {
        assert(s[i].0 != s[j].0);
    }
}

/// Storing a value keeps keys unique.
pub proof fn lemma_insert_keeps_unique(s: Seq<(Seq<char>, ValueModel)>, k: Seq<char>, v: ValueModel)
    requires
        keys_unique(s),
    ensures
        keys_unique(insert_model(s, k, v)),
{
    let t = insert_model(s, k, v);
    if has_key(s, k) {
        let i = key_index(s, k);
        assert forall|a: int, b: int| 0 <= a < b < t.len() implies #[trigger] t[a].0 != #[trigger] t[b].0 by {
            assert(s[a].0 != s[b].0);
        }
    } else {
        assert forall|a: int, b: int| 0 <= a < b < t.len() implies #[trigger] t[a].0 != #[trigger] t[b].0 by {
            if b < s.len() {
                assert(s[a].0 != s[b].0);
            } else {
                assert(s[a].0 != k);
            }
        }
    }
}

/// After storing `v` under `k`, looking up `k` gives `v`.
pub proof fn lemma_lookup_insert(s: Seq<(Seq<char>, ValueModel)>, k: Seq<char>, v: ValueModel)
    requires
        keys_unique(insert_model(s, k, v)),
    ensures
        lookup(insert_model(s, k, v), k) == Some(v),
{
    let t = insert_model(s, k, v);
    let i = if has_key(s, k) {
        key_index(s, k)
    } else {
        s.len() as int
    };
    assert(t[i].0 == k);
    lemma_key_index_unique(t, k, i);
}

proof fn lemma_entries_model(s: Seq<(String, Value)>)
    ensures
        entries_model(s).len() == s.len(),
        forall|i: int|
            0 <= i < s.len() ==> #[trigger] entries_model(s)[i] == (s[i].0@, s[i].1.model()),
    decreases s.len(),
{
    if s.len() > 0 {
        lemma_entries_model(s.drop_last());
    }
}

/// Models of a sequence of values have its length, position by position.
pub proof fn lemma_models_of(s: Seq<Value>)
    ensures
        models_of(s).len() == s.len(),
        forall|i: int| 0 <= i < s.len() ==> #[trigger] models_of(s)[i] == s[i].model(),
    decreases s.len(),
{
    if s.len() > 0 {
        lemma_models_of(s.drop_last());
    }
}

impl ValueMap {
    /// Create an empty map.
    pub fn new() -> (m: Self)
        ensures
            m@ == Seq::<(Seq<char>, ValueModel)>::empty(),
    {
        let m = ValueMap { entries: Vec::new() };
        proof {
            lemma_entries_model(m.entries@);
            assert(m@ =~= Seq::<(Seq<char>, ValueModel)>::empty());
        }
        m
    }

    /// Number of entries.
    pub fn len(&self) -> (r: usize)
        ensures
            r == self@.len(),
    {
        proof {
            lemma_entries_model(self.entries@);
        }
        self.entries.len()
    }

    /// Whether the map holds no entry.
    pub fn is_empty(&self) -> (r: bool)
        ensures
            r == (self@.len() == 0),
    {
        proof {
            lemma_entries_model(self.entries@);
        }
        self.entries.len() == 0
    }

    /// No key occurs twice in a map.
    pub fn keys_are_unique(&self)
        ensures
            keys_unique(self@),
    {
        proof {
            use_type_invariant(self);
        }
    }

    /// The entry at position `i`.
    pub fn entry(&self, i: usize) -> (r: &(String, Value))
        requires
            i < self@.len(),
        ensures
            r.0@ == self@[i as int].0,
            r.1.model() == self@[i as int].1,
    {
        proof {
            lemma_entries_model(self.entries@);
        }
        &self.entries[i]
    }

    /// The position of `key`, if present.
    pub fn find(&self, key: &str) -> (r: Option<usize>)
        ensures
            r.is_some() == has_key(self@, key@),
            r matches Some(i) ==> i < self@.len() && self@[i as int].0 == key@ && key_index(
                self@,
                key@,
            ) == i,
    {
        proof {
            use_type_invariant(self);
            lemma_entries_model(self.entries@);
        }
        let n = self.entries.len();
        let mut i: usize = 0;
        while i < n
            invariant
                n == self.entries@.len(),
                n == self@.len(),
                i <= n,
                keys_unique(self@),
                forall|j: int| 0 <= j < n ==> #[trigger] self@[j].0 == self.entries@[j].0@,
                forall|j: int| 0 <= j < i ==> self@[j].0 != key@,
            decreases n - i,
        {
            if crate::text::str_eq(self.entries[i].0.as_str(), key) {
                proof {
                    lemma_key_index_unique(self@, key@, i as int);
                }
                return Some(i);
            }
            i = i + 1;
        }
        None
    }

    /// Whether `key` is present.
    pub fn contains_key(&self, key: &str) -> (r: bool)
        ensures
            r == has_key(self@, key@),
    {
        self.find(key).is_some()
    }

    /// The value stored under `key`.
    pub fn get(&self, key: &str) -> (r: Option<&Value>)
        ensures
            r.is_some() == has_key(self@, key@),
            r matches Some(v) ==> lookup(self@, key@) == Some(v.model()),
    {
        proof {
            lemma_entries_model(self.entries@);
        }
        match self.find(key) {
            Some(i) => Some(&self.entries[i].1),
            None => None,
        }
    }

    /// Store `value` under `key`; an existing key keeps its position and its old
    /// value is returned, a new key goes last.
    pub fn insert(&mut self, key: String, value: Value) -> (r: Option<Value>)
        ensures
            final(self)@ == insert_model(old(self)@, key@, value.model()),
            r.is_some() == has_key(old(self)@, key@),
            r matches Some(v) ==> lookup(old(self)@, key@) == Some(v.model()),
            keys_unique(final(self)@),
    {
        proof {
            use_type_invariant(&*self);
            lemma_entries_model(self.entries@);
        }
        let ghost s0 = self@;
        let found = self.find(key.as_str());
        let mut entries: Vec<(String, Value)> = Vec::new();
        std::mem::swap(&mut entries, &mut self.entries);
        proof {
            assert(entries@ == old(self).entries@);
        }
        match found {
            Some(i) => {
                let (_k, v) = entries.remove(i);
                entries.insert(i, (key, value));
                proof {
                    lemma_entries_model(entries@);
                    assert(entries_model(entries@) =~= s0.update(i as int, (key@, value.model())));
                    assert forall|a: int, b: int|
                        0 <= a < b < entries_model(entries@).len() implies #[trigger] entries_model(
                        entries@,
                    )[a].0 != #[trigger] entries_model(entries@)[b].0 by {
                        assert(s0[a].0 != s0[b].0);
                    }
                }
                self.entries = entries;
                Some(v)
            },
            None => {
                entries.push((key, value));
                proof {
                    lemma_entries_model(entries@);
                    assert(entries_model(entries@) =~= s0.push((key@, value.model())));
                    assert forall|a: int, b: int|
                        0 <= a < b < entries_model(entries@).len() implies #[trigger] entries_model(
                        entries@,
                    )[a].0 != #[trigger] entries_model(entries@)[b].0 by {
                        if b < s0.len() {
                            assert(s0[a].0 != s0[b].0);
                        } else {
                            assert(s0[a].0 != key@);
                        }
                    }
                }
                self.entries = entries;
                None
            },
        }
    }

    /// Remove `key`, keeping the order of the other entries, and return its value.
    pub fn shift_remove(&mut self, key: &str) -> (r: Option<Value>)
        ensures
            final(self)@ == remove_model(old(self)@, key@),
            r.is_some() == has_key(old(self)@, key@),
            r matches Some(v) ==> lookup(old(self)@, key@) == Some(v.model()),
            keys_unique(final(self)@),
    {
        proof {
            use_type_invariant(&*self);
            lemma_entries_model(self.entries@);
        }
        let ghost s0 = self@;
        let found = self.find(key);
        match found {
            Some(i) => {
                let mut entries: Vec<(String, Value)> = Vec::new();
                std::mem::swap(&mut entries, &mut self.entries);
                let (_k, v) = entries.remove(i);
                proof {
                    lemma_entries_model(entries@);
                    assert(entries_model(entries@) =~= s0.remove(i as int));
                    assert forall|a: int, b: int|
                        0 <= a < b < entries_model(entries@).len() implies #[trigger] entries_model(
                        entries@,
                    )[a].0 != #[trigger] entries_model(entries@)[b].0 by {
                        if a < i {
                            if b < i {
                                assert(s0[a].0 != s0[b].0);
                            } else {
                                assert(s0[a].0 != s0[b + 1].0);
                            }
                        } else {
                            assert(s0[a + 1].0 != s0[b + 1].0);
                        }
                    }
                }
                self.entries = entries;
                Some(v)
            },
            None => None,
        }
    }
}

impl Value {
    /// A copy of this value with the same model.
    pub fn duplicate(&self) -> (r: Value)
        ensures
            r.model() == self.model(),
        decreases self,
    {
        match self {
            Value::Null => Value::Null,
            Value::Bool(b) => Value::Bool(*b),
            Value::Int(i) => Value::Int(*i),
            Value::Float(f) => Value::Float(*f),
            Value::String(s) => Value::String(s.clone()),
            Value::EntityRef(id) => Value::EntityRef(*id),
            Value::List(l) => {
                let mut out: Vec<Value> = Vec::new();
                let n = l.len();
                let mut i: usize = 0;
                while i < n
                    invariant
                        n == l@.len(),
                        *self == Value::List(*l),
                        i <= n,
                        out@.len() == i,
                        forall|j: int| 0 <= j < i ==> #[trigger] out@[j].model() == l@[j].model(),
                    decreases n - i,
                {
                    assert(decreases_to!(*self => (*self)->List_0));
                    assert(decreases_to!(*l => l@));
                    assert(decreases_to!(l@ => l@[i as int]));
                    assert(decreases_to!(self => l@[i as int]));
                    let e = l[i].duplicate();
                    out.push(e);
                    i = i + 1;
                }
                proof {
                    lemma_models_of(l@);
                    lemma_models_of(out@);
                    assert(models_of(out@) =~= models_of(l@));
                }
                Value::List(out)
            },
            Value::Dict(m) => Value::Dict(m.duplicate()),
        }
    }

    /// The integer held by this value, if it is an integer.
    pub fn as_int(&self) -> (r: Option<i64>)
        ensures
            r == (match self.model() {
                ValueModel::Int(i) => Some(i),
                _ => None,
            }),
    {
        match self {
            Value::Int(i) => Some(*i),
            _ => None,
        }
    }

    /// The text held by this value, if it is text.
    pub fn as_str(&self) -> (r: Option<&str>)
        ensures
            r.is_some() == (self.model() is Str),
            r matches Some(t) ==> self.model() == ValueModel::Str(t@),
    {
        match self {
            Value::String(s) => Some(s.as_str()),
            _ => None,
        }
    }

    /// The bits of the number held by this value, if it is a number.
    pub fn float_bits(&self) -> (r: Option<u64>)
        ensures
            r == (match self.model() {
                ValueModel::Float(f) => Some(f),
                _ => None,
            }),
    {
        match self {
            Value::Float(f) => Some(*f),
            _ => None,
        }
    }
}

impl ValueMap {
    /// A copy of this map with the same entries.
    pub fn duplicate(&self) -> (r: ValueMap)
        ensures
            r@ == self@,
        decreases self,
    {
        proof {
            use_type_invariant(self);
            lemma_entries_model(self.entries@);
        }
        let mut out: Vec<(String, Value)> = Vec::new();
        let n = self.entries.len();
        let mut i: usize = 0;
        while i < n
            invariant
                n == self.entries@.len(),
                i <= n,
                out@.len() == i,
                forall|j: int|
                    0 <= j < i ==> #[trigger] out@[j].0@ == self.entries@[j].0@ && out@[j].1.model()
                        == self.entries@[j].1.model(),
            decreases n - i,
        {
            assert(decreases_to!(self => self.entries@[i as int].1));
            let e = self.entries[i].1.duplicate();
            let k = self.entries[i].0.clone();
            out.push((k, e));
            i = i + 1;
        }
        proof {
            lemma_entries_model(out@);
            assert(entries_model(out@) =~= entries_model(self.entries@));
        }
        ValueMap { entries: out }
    }
}

impl View for ValueMap {
    type V = Seq<(Seq<char>, ValueModel)>;

    open spec fn view(&self) -> Seq<(Seq<char>, ValueModel)> {
        self.model()
    }
}

} // verus!
