//! Entities: dynamic objects with properties and flags, and their store.
use vstd::prelude::*;
use crate::identity::{DefId, EntityId};
use crate::value::{has_key, insert_model, lookup, remove_model, Value, ValueMap};

verus! {

/// Reference to an entity or a special target.
#[derive(Debug, Clone, PartialEq, Eq, Hash)]
pub enum EntityRef {
    /// No target.
    NoTarget,
    /// A specific entity.
    Entity(EntityId),
    /// The global target.
    Global,
    /// The first entity of a definition kind.
    ByDef(DefId),
}

/// The mathematical model of an [`EntityRef`].
pub enum RefModel {
    NoTarget,
    Entity(u64),
    Global,
    ByDef(Seq<char>),
}

impl EntityRef {
    /// The model of this reference.
    pub open spec fn model(&self) -> RefModel {
        match self {
            EntityRef::NoTarget => RefModel::NoTarget,
            EntityRef::Entity(id) => RefModel::Entity(id.0),
            EntityRef::Global => RefModel::Global,
            EntityRef::ByDef(d) => RefModel::ByDef(d@),
        }
    }

    /// Check if this is a none reference.
    pub fn is_none(&self) -> (r: bool)
        ensures
            r == (self.model() is NoTarget),
    {
        match self {
            EntityRef::NoTarget => true,
            _ => false,
        }
    }

    /// The entity ID if this is a direct reference.
    pub fn as_entity_id(&self) -> (r: Option<EntityId>)
        ensures
            r == (match self {
                EntityRef::Entity(id) => Some(*id),
                _ => None,
            }),
    {
        match self {
            EntityRef::Entity(id) => Some(*id),
            _ => None,
        }
    }

    /// A copy of this reference.
    pub fn duplicate(&self) -> (r: EntityRef)
        ensures
            r.model() == self.model(),
    {
        match self {
            EntityRef::NoTarget => EntityRef::NoTarget,
            EntityRef::Entity(id) => EntityRef::Entity(*id),
            EntityRef::Global => EntityRef::Global,
            EntityRef::ByDef(d) => EntityRef::ByDef(d.duplicate()),
        }
    }

    /// Reference an entity directly.
    pub fn from_id(id: EntityId) -> (r: EntityRef)
        ensures
            r == EntityRef::Entity(id),
    {
        EntityRef::Entity(id)
    }
}

/// A set of flags; each flag text occurs at most once, in the order added.
#[derive(Debug)]
pub struct FlagSet {
    items: Vec<DefId>,
}

impl View for FlagSet {
    type V = Seq<Seq<char>>;

    closed spec fn view(&self) -> Seq<Seq<char>> {
        self.items@.map_values(|d: DefId| d@)
    }
}

impl FlagSet {
    #[verifier::type_invariant]
    spec fn inv(self) -> bool {
        self@.no_duplicates()
    }

    /// An empty set.
    pub fn new() -> (r: FlagSet)
        ensures
            r@ == Seq::<Seq<char>>::empty(),
    {
        let r = FlagSet { items: Vec::new() };
        assert(r@ =~= Seq::<Seq<char>>::empty());
        r
    }

    /// Number of flags.
    pub fn len(&self) -> (r: usize)
        ensures
            r == self@.len(),
    {
        self.items.len()
    }

    /// The flag at position `i`.
    pub fn get(&self, i: usize) -> (r: &DefId)
        requires
            i < self@.len(),
        ensures
            r@ == self@[i as int],
    {
        &self.items[i]
    }

    /// The position of `flag`, if present.
    pub fn position(&self, flag: &DefId) -> (r: Option<usize>)
        ensures
            r.is_some() == self@.contains(flag@),
            r matches Some(i) ==> i < self@.len() && self@[i as int] == flag@,
    {
        let n = self.items.len();
        let mut i: usize = 0;
        while i < n
            invariant
                n == self@.len(),
                i <= n,
                forall|j: int| 0 <= j < i ==> self@[j] != flag@,
            decreases n - i,
        {
            if self.items[i].same_as(flag) {
                assert(self@[i as int] == flag@);
                return Some(i);
            }
            i = i + 1;
        }
        None
    }

    /// Whether `flag` is in the set.
    pub fn contains(&self, flag: &DefId) -> (r: bool)
        ensures
            r == self@.contains(flag@),
    {
        self.position(flag).is_some()
    }

    /// A copy of this set, in the same order.
    pub fn duplicate(&self) -> (r: FlagSet)
        ensures
            r@ == self@,
    {
        let mut flags = FlagSet::new();
        let n = self.len();
        let mut i: usize = 0;
        proof {
            use_type_invariant(self);
        }
        while i < n
            invariant
                n == self@.len(),
                self@.no_duplicates(),
                i <= n,
                flags@ == self@.subrange(0, i as int),
            decreases n - i,
        {
            let f = self.get(i).duplicate();
            assert(!flags@.contains(f@)) by {
                if flags@.contains(f@) {
                    let k = choose|k: int| 0 <= k < flags@.len() && flags@[k] == f@;
                    assert(self@[k] == self@[i as int]);
                }
            }
            let _ = flags.insert(f);
            assert(self@.subrange(0, i + 1) =~= self@.subrange(0, i as int).push(
                self@[i as int],
            ));
            i = i + 1;
        }
        assert(self@.subrange(0, n as int) =~= self@);
        flags
    }

    /// Add `flag`; returns whether it was absent.
    pub fn insert(&mut self, flag: DefId) -> (r: bool)
        ensures
            r == !old(self)@.contains(flag@),
            final(self)@ == (if r { old(self)@.push(flag@) } else { old(self)@ }),
    {
        proof {
            use_type_invariant(&*self);
        }
        if self.contains(&flag) {
            false
        } else {
            let ghost s0 = self@;
            let ghost f = flag@;
            let mut items: Vec<DefId> = Vec::new();
            std::mem::swap(&mut items, &mut self.items);
            items.push(flag);
            proof {
                assert(items@.map_values(|d: DefId| d@) =~= s0.push(f));
                assert(s0.push(f).no_duplicates()) by {
                    assert forall|a: int, b: int|
                        0 <= a < s0.push(f).len() && 0 <= b < s0.push(f).len() && a != b implies s0.push(
                        f,
                    )[a] != s0.push(f)[b] by {
                        if a < s0.len() && b < s0.len() {
                        } else if a < s0.len() {
                            assert(s0.contains(s0[a]));
                        } else {
                            assert(s0.contains(s0[b]));
                        }
                    }
                }
            }
            self.items = items;
            true
        }
    }

    /// Remove `flag`, keeping the order of the others; returns whether it was present.
    pub fn remove(&mut self, flag: &DefId) -> (r: bool)
        ensures
            r == old(self)@.contains(flag@),
            r ==> final(self)@ == old(self)@.remove(flag_index(old(self)@, flag@)),
            !r ==> final(self)@ == old(self)@,
            !final(self)@.contains(flag@),
            final(self)@.no_duplicates(),
    {
        proof {
            use_type_invariant(&*self);
        }
        match self.position(flag) {
            Some(i) => {
                let ghost s0 = self@;
                proof {
                    lemma_flag_index_unique(s0, flag@, i as int);
                }
                let mut items: Vec<DefId> = Vec::new();
                std::mem::swap(&mut items, &mut self.items);
                let _d = items.remove(i);
                proof {
                    let s1 = items@.map_values(|d: DefId| d@);
                    assert(s1 =~= s0.remove(i as int));
                    assert forall|a: int, b: int|
                        0 <= a < s1.len() && 0 <= b < s1.len() && a != b implies s1[a] != s1[b] by {
                        let a0 = if a < i { a } else { a + 1 };
                        let b0 = if b < i { b } else { b + 1 };
                        assert(s1[a] == s0[a0] && s1[b] == s0[b0]);
                    }
                    assert forall|x: Seq<char>| s1.contains(x) implies x != flag@ by {
                        let k = choose|k: int| 0 <= k < s1.len() && s1[k] == x;
                        let k0 = if k < i { k } else { k + 1 };
                        assert(s1[k] == s0[k0]);
                    }
                }
                self.items = items;
                true
            },
            None => false,
        }
    }
}

/// The position of `f` in `s` (meaningful when present).
pub open spec fn flag_index(s: Seq<Seq<char>>, f: Seq<char>) -> int {
    choose|i: int| 0 <= i < s.len() && #[trigger] s[i] == f
}

/// In a sequence without duplicates, a position holding `f` is the position of `f`.
pub proof fn lemma_flag_index_unique(s: Seq<Seq<char>>, f: Seq<char>, i: int)
    requires
        s.no_duplicates(),
        0 <= i < s.len(),
        s[i] == f,
    ensures
        flag_index(s, f) == i,
{
    let j = flag_index(s, f);
    assert(0 <= j < s.len() && s[j] == f);
}

/// A dynamic entity instance.
#[derive(Debug)]
pub struct Entity {
    /// Unique identifier of this entity.
    pub id: EntityId,
    /// The type of this entity.
    pub kind: DefId,
    /// Dynamic properties, in insertion order.
    pub properties: ValueMap,
    /// Active flags.
    pub flags: FlagSet,
}

impl Entity {
    /// Create a new entity with no properties and no flags.
    pub fn new(id: EntityId, kind: &str) -> (r: Self)
        ensures
            r.id == id,
            r.kind@ == kind@,
            r.properties@.len() == 0,
            r.flags@.len() == 0,
    {
        Entity { id, kind: DefId::new(kind), properties: ValueMap::new(), flags: FlagSet::new() }
    }

    /// Get a property value.
    pub fn get(&self, key: &str) -> (r: Option<&Value>)
        ensures
            r.is_some() == has_key(self.properties@, key@),
            r matches Some(v) ==> lookup(self.properties@, key@) == Some(v.model()),
    {
        self.properties.get(key)
    }

    /// Get a property value, or `default` when absent.
    pub fn get_or(&self, key: &str, default: Value) -> (r: Value)
        ensures
            r.model() == (match lookup(self.properties@, key@) {
                Some(v) => v,
                None => default.model(),
            }),
    {
        match self.properties.get(key) {
            Some(v) => v.duplicate(),
            None => default,
        }
    }

    /// Set a property value.
    pub fn set(&mut self, key: &str, value: Value)
        ensures
            final(self).properties@ == insert_model(old(self).properties@, key@, value.model()),
            final(self).id == old(self).id,
            final(self).kind == old(self).kind,
            final(self).flags == old(self).flags,
    {
        let _ = self.properties.insert(String::from_str(key), value);
    }

    /// Remove a property, returning its value.
    pub fn remove(&mut self, key: &str) -> (r: Option<Value>)
        ensures
            final(self).properties@ == remove_model(old(self).properties@, key@),
            r.is_some() == has_key(old(self).properties@, key@),
            r matches Some(v) ==> lookup(old(self).properties@, key@) == Some(v.model()),
            final(self).id == old(self).id,
            final(self).kind == old(self).kind,
            final(self).flags == old(self).flags,
    {
        self.properties.shift_remove(key)
    }

    /// Check if the entity has a flag.
    pub fn has_flag(&self, flag: &DefId) -> (r: bool)
        ensures
            r == self.flags@.contains(flag@),
    {
        self.flags.contains(flag)
    }

    /// Add a flag.
    pub fn add_flag(&mut self, flag: DefId)
        ensures
            final(self).flags@ == (if old(self).flags@.contains(flag@) {
                old(self).flags@
            } else {
                old(self).flags@.push(flag@)
            }),
            final(self).id == old(self).id,
            final(self).kind == old(self).kind,
            final(self).properties == old(self).properties,
    {
        let _ = self.flags.insert(flag);
    }

    /// Remove a flag; returns whether it was present.
    pub fn remove_flag(&mut self, flag: &DefId) -> (r: bool)
        ensures
            r == old(self).flags@.contains(flag@),
            r ==> final(self).flags@ == old(self).flags@.remove(flag_index(old(self).flags@, flag@)),
            !r ==> final(self).flags@ == old(self).flags@,
            !final(self).flags@.contains(flag@),
            final(self).flags@.no_duplicates(),
            final(self).id == old(self).id,
            final(self).kind == old(self).kind,
            final(self).properties == old(self).properties,
    {
        self.flags.remove(flag)
    }
}

/// The mathematical model of an entity.
pub struct EntityModel {
    pub id: u64,
    pub kind: Seq<char>,
    pub properties: Seq<(Seq<char>, crate::value::ValueModel)>,
    pub flags: Seq<Seq<char>>,
}

impl Entity {
    /// The model of this entity.
    pub open spec fn model(&self) -> EntityModel {
        EntityModel {
            id: self.id.0,
            kind: self.kind@,
            properties: self.properties@,
            flags: self.flags@,
        }
    }

    /// A copy of this entity.
    pub fn duplicate(&self) -> (r: Entity)
        ensures
            r.model() == self.model(),
    {
        Entity {
            id: self.id,
            kind: self.kind.duplicate(),
            properties: self.properties.duplicate(),
            flags: self.flags.duplicate(),
        }
    }
}

/// Models of a sequence of entities.
pub open spec fn entities_model(s: Seq<Entity>) -> Seq<EntityModel> {
    s.map_values(|e: Entity| e.model())
}

/// The entity with ID `id` occurs in `s`.
pub open spec fn has_entity(s: Seq<EntityModel>, id: u64) -> bool {
    exists|i: int| 0 <= i < s.len() && #[trigger] s[i].id == id
}

/// The position of the entity with ID `id` in `s` (meaningful when present).
pub open spec fn entity_index(s: Seq<EntityModel>, id: u64) -> int {
    choose|i: int| 0 <= i < s.len() && #[trigger] s[i].id == id
}

/// No ID occurs twice in `s`.
pub open spec fn ids_unique(s: Seq<EntityModel>) -> bool {
    forall|i: int, j: int| 0 <= i < j < s.len() ==> #[trigger] s[i].id != #[trigger] s[j].id
}

/// In a store whose IDs are unique, a position holding `id` is the position of `id`.
pub proof fn lemma_entity_index_unique(s: Seq<EntityModel>, id: u64, i: int)
    requires
        ids_unique(s),
        0 <= i < s.len(),
        s[i].id == id,
    ensures
        has_entity(s, id),
        entity_index(s, id) == i,
{
    let j = entity_index(s, id);
    assert(0 <= j < s.len() && s[j].id == id);
    if j < i {
        assert(s[j].id != s[i].id);
    } else if i < j {
        assert(s[i].id != s[j].id);
    }
}

/// Storage for all entities, in creation order.
#[derive(Debug)]
pub struct EntityStore {
    entities: Vec<Entity>,
    next_id: u64,
}

impl View for EntityStore {
    type V = Seq<EntityModel>;

    closed spec fn view(&self) -> Seq<EntityModel> {
        entities_model(self.entities@)
    }
}

impl EntityStore {
    #[verifier::type_invariant]
    spec fn inv(self) -> bool {
        &&& ids_unique(entities_model(self.entities@))
        &&& forall|i: int| 0 <= i < self.entities@.len() ==> #[trigger] self.entities@[i].id.0 < self.next_id
    }

    /// The ID the next created entity gets.
    pub closed spec fn spec_next_id(&self) -> u64 {
        self.next_id
    }

    /// The ID the next created entity gets.
    pub fn next_id(&self) -> (r: u64)
        ensures
            r == self.spec_next_id(),
    {
        self.next_id
    }

    /// IDs are unique and below the next ID.
    pub fn ids_are_unique(&self)
        ensures
            ids_unique(self@),
            forall|i: int| 0 <= i < self@.len() ==> #[trigger] self@[i].id < self.spec_next_id(),
    {
        proof {
            use_type_invariant(self);
        }
    }

    /// A copy of this store.
    pub fn duplicate(&self) -> (r: Self)
        ensures
            r@ == self@,
            r.spec_next_id() == self.spec_next_id(),
    {
        proof {
            use_type_invariant(self);
        }
        let mut out: Vec<Entity> = Vec::new();
        let n = self.entities.len();
        let mut i: usize = 0;
        while i < n
            invariant
                n == self.entities@.len(),
                i <= n,
                entities_model(out@) == entities_model(self.entities@).subrange(0, i as int),
            decreases n - i,
        {
            let e = self.entities[i].duplicate();
            let ghost before = out@;
            out.push(e);
            assert(entities_model(out@) =~= entities_model(before).push(e.model()));
            assert(entities_model(out@) =~= entities_model(self.entities@).subrange(0, i + 1));
            i = i + 1;
        }
        assert(entities_model(self.entities@).subrange(0, n as int) =~= entities_model(self.entities@));
        assert forall|i: int| 0 <= i < out@.len() implies #[trigger] out@[i].id.0 < self.next_id by {
            assert(entities_model(out@)[i].id == out@[i].id.0);
            assert(entities_model(self.entities@)[i].id == self.entities@[i].id.0);
        }
        EntityStore { entities: out, next_id: self.next_id }
    }

    /// An empty store.
    pub fn new() -> (r: Self)
        ensures
            r@ == Seq::<EntityModel>::empty(),
            r.spec_next_id() == 0,
    {
        let r = EntityStore { entities: Vec::new(), next_id: 0 };
        assert(r@ =~= Seq::<EntityModel>::empty());
        r
    }

    /// Create an entity of a kind with the next ID, appended last; returns its ID.
    pub fn create(&mut self, kind: &str) -> (r: EntityId)
        requires
            old(self).spec_next_id() < u64::MAX,
        ensures
            r.0 == old(self).spec_next_id(),
            final(self).spec_next_id() == old(self).spec_next_id() + 1,
            final(self)@ == old(self)@.push(
                EntityModel { id: r.0, kind: kind@, properties: Seq::empty(), flags: Seq::empty() },
            ),
    {
        proof {
            use_type_invariant(&*self);
        }
        let id = EntityId::new(self.next_id);
        let e = Entity::new(id, kind);
        let ghost em = e.model();
        let ghost s0 = self@;
        let mut entities: Vec<Entity> = Vec::new();
        std::mem::swap(&mut entities, &mut self.entities);
        entities.push(e);
        proof {
            assert(em.properties =~= Seq::empty());
            assert(em.flags =~= Seq::empty());
            assert(entities_model(entities@) =~= s0.push(em));
        }
        self.next_id = self.next_id + 1;
        self.entities = entities;
        id
    }

    /// The position of the entity with ID `id`.
    pub fn position(&self, id: EntityId) -> (r: Option<usize>)
        ensures
            r.is_some() == has_entity(self@, id.0),
            r matches Some(i) ==> i < self@.len() && self@[i as int].id == id.0 && entity_index(
                self@,
                id.0,
            ) == i,
    {
        proof {
            use_type_invariant(self);
        }
        let n = self.entities.len();
        let mut i: usize = 0;
        while i < n
            invariant
                n == self@.len(),
                i <= n,
                ids_unique(self@),
                forall|j: int| 0 <= j < i ==> self@[j].id != id.0,
            decreases n - i,
        {
            if self.entities[i].id.0 == id.0 {
                proof {
                    lemma_entity_index_unique(self@, id.0, i as int);
                }
                return Some(i);
            }
            i = i + 1;
        }
        None
    }

    /// The entity with ID `id`.
    pub fn get(&self, id: EntityId) -> (r: Option<&Entity>)
        ensures
            r.is_some() == has_entity(self@, id.0),
            r matches Some(e) ==> e.model() == self@[entity_index(self@, id.0)],
    {
        match self.position(id) {
            Some(i) => Some(&self.entities[i]),
            None => None,
        }
    }

    /// The entity at position `i`.
    pub fn at(&self, i: usize) -> (r: &Entity)
        requires
            i < self@.len(),
        ensures
            r.model() == self@[i as int],
    {
        &self.entities[i]
    }

    /// Number of entities.
    pub fn len(&self) -> (r: usize)
        ensures
            r == self@.len(),
    {
        self.entities.len()
    }

    /// Whether the store is empty.
    pub fn is_empty(&self) -> (r: bool)
        ensures
            r == (self@.len() == 0),
    {
        self.entities.len() == 0
    }

    /// The IDs of all entities, in order.
    pub fn ids(&self) -> (r: Vec<EntityId>)
        ensures
            r@.len() == self@.len(),
            forall|i: int| 0 <= i < r@.len() ==> #[trigger] r@[i].0 == self@[i].id,
    {
        let mut out: Vec<EntityId> = Vec::new();
        let n = self.entities.len();
        let mut i: usize = 0;
        while i < n
            invariant
                n == self@.len(),
                i <= n,
                out@.len() == i,
                forall|k: int| 0 <= k < i ==> #[trigger] out@[k].0 == self@[k].id,
            decreases n - i,
        {
            out.push(self.entities[i].id);
            i = i + 1;
        }
        out
    }

    /// The IDs of the entities of a kind, in order.
    pub fn by_kind(&self, kind: &DefId) -> (r: Vec<EntityId>)
        ensures
            r@.map_values(|id: EntityId| id.0) == self@.filter(|e: EntityModel| e.kind == kind@).map_values(
                |e: EntityModel| e.id,
            ),
    {
        let mut out: Vec<EntityId> = Vec::new();
        let n = self.entities.len();
        let mut i: usize = 0;
        while i < n
            invariant
                n == self@.len(),
                i <= n,
                out@.map_values(|id: EntityId| id.0) == self@.subrange(0, i as int).filter(
                    |e: EntityModel| e.kind == kind@,
                ).map_values(|e: EntityModel| e.id),
            decreases n - i,
        {
            proof {
                let pre = self@.subrange(0, i as int);
                assert(self@.subrange(0, i + 1) =~= pre.push(self@[i as int]));
                assert(pre.push(self@[i as int]).drop_last() =~= pre);
                reveal_with_fuel(Seq::<EntityModel>::filter, 1);
            }
            if self.entities[i].kind.same_as(kind) {
                let ghost before = out@;
                out.push(self.entities[i].id);
                proof {
                    assert(out@.map_values(|id: EntityId| id.0) =~= before.map_values(|id: EntityId| id.0).push(self@[i as int].id));
                }
            }
            i = i + 1;
        }
        assert(self@.subrange(0, n as int) =~= self@);
        out
    }

    /// The first entity of a kind, if any.
    pub fn first_of_kind(&self, kind: &DefId) -> (r: Option<&Entity>)
        ensures
            r.is_none() == (forall|i: int| 0 <= i < self@.len() ==> self@[i].kind != kind@),
            r matches Some(e) ==> exists|i: int|
                0 <= i < self@.len() && self@[i] == e.model() && e.model().kind == kind@ && (forall|j: int|
                    0 <= j < i ==> #[trigger] self@[j].kind != kind@),
    {
        let n = self.entities.len();
        let mut i: usize = 0;
        while i < n
            invariant
                n == self@.len(),
                i <= n,
                forall|j: int| 0 <= j < i ==> #[trigger] self@[j].kind != kind@,
            decreases n - i,
        {
            if self.entities[i].kind.same_as(kind) {
                assert(self@[i as int] == self.entities@[i as int].model());
                assert(self@[i as int].kind == kind@);
                return Some(&self.entities[i]);
            }
            i = i + 1;
        }
        None
    }

    /// Resolve a reference: a direct reference to its entity, a definition reference to the
    /// first entity of that kind; no entity for `NoTarget` and `Global`.
    pub fn resolve(&self, entity_ref: &EntityRef) -> (r: Option<&Entity>)
        ensures
            match entity_ref {
                EntityRef::NoTarget => r is None,
                EntityRef::Global => r is None,
                EntityRef::Entity(id) => r.is_some() == has_entity(self@, id.0) && (r matches Some(e)
                    ==> e.model() == self@[entity_index(self@, id.0)]),
                EntityRef::ByDef(def) => r.is_none() == (forall|i: int|
                    0 <= i < self@.len() ==> self@[i].kind != def@) && (r matches Some(e) ==> exists|i: int|
                    0 <= i < self@.len() && self@[i] == e.model() && e.model().kind == def@ && (forall|j: int|
                        0 <= j < i ==> #[trigger] self@[j].kind != def@)),
            },
    {
        match entity_ref {
            EntityRef::NoTarget => None,
            EntityRef::Entity(id) => self.get(*id),
            EntityRef::Global => None,
            EntityRef::ByDef(def) => self.first_of_kind(def),
        }
    }

    /// Remove the entity with ID `id`, keeping the order of the others; returns it.
    pub fn remove(&mut self, id: EntityId) -> (r: Option<Entity>)
        ensures
            r.is_some() == has_entity(old(self)@, id.0),
            r matches Some(e) ==> e.model() == old(self)@[entity_index(old(self)@, id.0)]
                && final(self)@ == old(self)@.remove(entity_index(old(self)@, id.0)),
            r is None ==> final(self)@ == old(self)@,
            final(self).spec_next_id() == old(self).spec_next_id(),
    {
        proof {
            use_type_invariant(&*self);
        }
        match self.position(id) {
            Some(i) => {
                let ghost s0 = self@;
                let mut entities: Vec<Entity> = Vec::new();
                std::mem::swap(&mut entities, &mut self.entities);
                let e = entities.remove(i);
                proof {
                    assert(entities_model(entities@) =~= s0.remove(i as int));
                    let s1 = entities_model(entities@);
                    assert forall|a: int, b: int| 0 <= a < b < s1.len() implies #[trigger] s1[a].id != #[trigger] s1[b].id by {
                        let a0 = if a < i { a } else { a + 1 };
                        let b0 = if b < i { b } else { b + 1 };
                        assert(s1[a] == s0[a0] && s1[b] == s0[b0]);
                    }
                    assert forall|k: int| 0 <= k < entities@.len() implies #[trigger] entities@[k].id.0 < self.next_id by {
                        let k0 = if k < i { k } else { k + 1 };
                        assert(entities@[k] == old(self).entities@[k0]);
                    }
                }
                self.entities = entities;
                Some(e)
            },
            None => None,
        }
    }

    /// Replace the properties of the entity at position `i`.
    pub(crate) fn set_properties_at(&mut self, i: usize, properties: ValueMap)
        requires
            i < old(self)@.len(),
        ensures
            final(self)@ == old(self)@.update(
                i as int,
                EntityModel { properties: properties@, ..old(self)@[i as int] },
            ),
            final(self).spec_next_id() == old(self).spec_next_id(),
    {
        let mut e = self.entities[i].duplicate();
        e.properties = properties;
        self.replace_at(i, e);
    }

    /// Replace the properties and the flags of the entity at position `i`.
    pub(crate) fn set_contents_at(&mut self, i: usize, properties: ValueMap, flags: FlagSet)
        requires
            i < old(self)@.len(),
        ensures
            final(self)@ == old(self)@.update(
                i as int,
                EntityModel { properties: properties@, flags: flags@, ..old(self)@[i as int] },
            ),
            final(self).spec_next_id() == old(self).spec_next_id(),
    {
        let mut e = self.entities[i].duplicate();
        e.properties = properties;
        e.flags = flags;
        self.replace_at(i, e);
    }

    /// Replace the entity at position `i` by `e`, which must keep its ID.
    fn replace_at(&mut self, i: usize, e: Entity)
        requires
            i < old(self)@.len(),
            e.id == old(self).entities@[i as int].id,
        ensures
            final(self)@ == old(self)@.update(i as int, e.model()),
            final(self).spec_next_id() == old(self).spec_next_id(),
    {
        proof {
            use_type_invariant(&*self);
        }
        let ghost s0 = self@;
        let ghost em = e.model();
        let mut entities: Vec<Entity> = Vec::new();
        std::mem::swap(&mut entities, &mut self.entities);
        let _old = entities.remove(i);
        entities.insert(i, e);
        proof {
            assert(entities_model(entities@) =~= s0.update(i as int, em));
            let s1 = entities_model(entities@);
            assert forall|a: int, b: int| 0 <= a < b < s1.len() implies #[trigger] s1[a].id != #[trigger] s1[b].id by {
                assert(s1[a].id == s0[a].id && s1[b].id == s0[b].id);
            }
            assert forall|k: int| 0 <= k < entities@.len() implies #[trigger] entities@[k].id.0 < self.next_id by {
                assert(entities@[k].id == old(self).entities@[k].id);
            }
        }
        self.entities = entities;
    }

    /// Set a property of the entity with ID `id`; returns whether the entity exists.
    pub fn set_property(&mut self, id: EntityId, key: &str, value: Value) -> (r: bool)
        ensures
            r == has_entity(old(self)@, id.0),
            r ==> final(self)@ == old(self)@.update(
                entity_index(old(self)@, id.0),
                EntityModel {
                    properties: insert_model(
                        old(self)@[entity_index(old(self)@, id.0)].properties,
                        key@,
                        value.model(),
                    ),
                    ..old(self)@[entity_index(old(self)@, id.0)]
                },
            ),
            !r ==> final(self)@ == old(self)@,
            final(self).spec_next_id() == old(self).spec_next_id(),
    {
        match self.position(id) {
            Some(i) => {
                let mut e = self.entities[i].duplicate();
                e.set(key, value);
                self.replace_at(i, e);
                true
            },
            None => false,
        }
    }

    /// Add a flag to the entity with ID `id`; returns whether the entity exists.
    pub fn add_flag(&mut self, id: EntityId, flag: DefId) -> (r: bool)
        ensures
            r == has_entity(old(self)@, id.0),
            r ==> final(self)@ == old(self)@.update(
                entity_index(old(self)@, id.0),
                EntityModel {
                    flags: if old(self)@[entity_index(old(self)@, id.0)].flags.contains(flag@) {
                        old(self)@[entity_index(old(self)@, id.0)].flags
                    } else {
                        old(self)@[entity_index(old(self)@, id.0)].flags.push(flag@)
                    },
                    ..old(self)@[entity_index(old(self)@, id.0)]
                },
            ),
            !r ==> final(self)@ == old(self)@,
            final(self).spec_next_id() == old(self).spec_next_id(),
    {
        match self.position(id) {
            Some(i) => {
                let mut e = self.entities[i].duplicate();
                e.add_flag(flag);
                self.replace_at(i, e);
                true
            },
            None => false,
        }
    }

    /// Remove a flag from the entity with ID `id`; returns whether the entity exists.
    pub fn remove_flag(&mut self, id: EntityId, flag: &DefId) -> (r: bool)
        ensures
            r == has_entity(old(self)@, id.0),
            r ==> final(self)@ == old(self)@.update(
                entity_index(old(self)@, id.0),
                EntityModel {
                    flags: if old(self)@[entity_index(old(self)@, id.0)].flags.contains(flag@) {
                        old(self)@[entity_index(old(self)@, id.0)].flags.remove(
                            flag_index(old(self)@[entity_index(old(self)@, id.0)].flags, flag@),
                        )
                    } else {
                        old(self)@[entity_index(old(self)@, id.0)].flags
                    },
                    ..old(self)@[entity_index(old(self)@, id.0)]
                },
            ),
            r ==> !final(self)@[entity_index(old(self)@, id.0)].flags.contains(flag@),
            !r ==> final(self)@ == old(self)@,
            final(self).spec_next_id() == old(self).spec_next_id(),
    {
        match self.position(id) {
            Some(i) => {
                let mut e = self.entities[i].duplicate();
                let _ = e.remove_flag(flag);
                self.replace_at(i, e);
                true
            },
            None => false,
        }
    }
}

} // verus!
