//! The store of loaded content definitions, by kind, where no ID occurs twice within a
//! kind; loading a batch adds its definitions in order and stops at the first duplicate.
use vstd::prelude::*;
use crate::identity::DefId;
use crate::schema::{EntityTypeDef, EventDef, ResourceDef};
use crate::script_error::Error;

verus! {

/// A definition with an ID.
pub trait Definition {
    /// The text of the ID.
    spec fn spec_key(&self) -> Seq<char>;

    /// The ID.
    fn key(&self) -> (r: &DefId)
        ensures
            r@ == self.spec_key(),
    ;
}

impl Definition for ResourceDef {
    open spec fn spec_key(&self) -> Seq<char> {
        self.id@
    }

    fn key(&self) -> (r: &DefId) {
        &self.id
    }
}

impl Definition for EventDef {
    open spec fn spec_key(&self) -> Seq<char> {
        self.id@
    }

    fn key(&self) -> (r: &DefId) {
        &self.id
    }
}

impl Definition for EntityTypeDef {
    open spec fn spec_key(&self) -> Seq<char> {
        self.id@
    }

    fn key(&self) -> (r: &DefId) {
        &self.id
    }
}

/// Some definition of `s` has the ID `key`.
pub open spec fn has_id<T: Definition>(s: Seq<T>, key: Seq<char>) -> bool {
    exists|i: int| 0 <= i < s.len() && #[trigger] s[i].spec_key() == key
}

/// No ID occurs twice in `s`.
pub open spec fn ids_unique<T: Definition>(s: Seq<T>) -> bool {
    forall|i: int, j: int| 0 <= i < j < s.len() ==> #[trigger] s[i].spec_key() != #[trigger] s[j].spec_key()
}

/// Loading `items` onto `before` added its first `k` definitions, none of whose IDs was
/// loaded already, giving `after`.
pub open spec fn loaded_prefix<T: Definition>(before: Seq<T>, items: Seq<T>, after: Seq<T>, k: int) -> bool {
    &&& 0 <= k <= items.len()
    &&& after == before + items.take(k)
    &&& forall|i: int| 0 <= i < k ==> !has_id(before + items.take(i), #[trigger] items[i].spec_key())
}

/// The result of loading `items` onto `before`, giving `after`: the definitions are added
/// in order until the first whose ID is already loaded; then the result is
/// `DuplicateDefinition` with that ID, else success.
pub open spec fn loaded<T: Definition>(before: Seq<T>, items: Seq<T>, after: Seq<T>, r: Result<(), Error>) -> bool {
    exists|k: int|
        #[trigger] loaded_prefix(before, items, after, k) && (k == items.len() ==> r is Ok) && (k
            < items.len() ==> has_id(before + items.take(k), items[k].spec_key()) && (r matches Err(
            Error::DuplicateDefinition(t),
        ) && t@ == items[k].spec_key()))
}

/// The position of a definition with ID `key` in `store`, if any.
fn find<T: Definition>(store: &Vec<T>, key: &DefId) -> (r: Option<usize>)
    ensures
        r is None <==> !has_id(store@, key@),
        r matches Some(i) ==> i < store@.len() && store@[i as int].spec_key() == key@,
{
    let n = store.len();
    let mut i: usize = 0;
    while i < n
        invariant
            n == store@.len(),
            i <= n,
            forall|j: int| 0 <= j < i ==> #[trigger] store@[j].spec_key() != key@,
        decreases n - i,
    {
        if store[i].key().same_as(key) {
            return Some(i);
        }
        i = i + 1;
    }
    None
}

/// Add one definition unless its ID is already in `store`.
fn insert_one<T: Definition>(store: &mut Vec<T>, item: T) -> (r: Result<(), Error>)
    requires
        ids_unique(old(store)@),
    ensures
        ids_unique(final(store)@),
        has_id(old(store)@, item.spec_key()) ==> (r matches Err(Error::DuplicateDefinition(t)) && t@
            == item.spec_key()) && final(store)@ == old(store)@,
        !has_id(old(store)@, item.spec_key()) ==> r is Ok && final(store)@ == old(store)@.push(item),
{
    match find(store, item.key()) {
        Some(_) => Err(Error::DuplicateDefinition(item.key().to_text())),
        None => {
            let ghost s0 = store@;
            store.push(item);
            proof {
                assert forall|i: int, j: int| 0 <= i < j < store@.len() implies #[trigger] store@[i].spec_key()
                    != #[trigger] store@[j].spec_key() by {
                    if j == s0.len() {
                        assert(s0[i].spec_key() != item.spec_key());
                    }
                }
            }
            Ok(())
        },
    }
}

/// Add definitions in order, stopping at the first whose ID is already in `store`.
fn insert_all<T: Definition>(store: &mut Vec<T>, items: Vec<T>) -> (r: Result<(), Error>)
    requires
        ids_unique(old(store)@),
    ensures
        ids_unique(final(store)@),
        loaded(old(store)@, items@, final(store)@, r),
{
    let ghost all = items@;
    let ghost s0 = store@;
    let total = items.len();
    let mut rest = items;
    let mut k: usize = 0;
    while rest.len() > 0
        invariant
            total == all.len(),
            s0 == old(store)@,
            all == items@,
            k <= all.len(),
            rest@ == all.skip(k as int),
            ids_unique(store@),
            loaded_prefix(s0, all, store@, k as int),
        decreases rest@.len(),
    {
        let item = rest.remove(0);
        proof {
            assert(item == all[k as int]);
        }
        let ghost before = store@;
        let ghost key = item.spec_key();
        let res = insert_one(store, item);
        if res.is_err() {
            {
                proof {
                    assert(s0 + all.take(k as int) == before);
                    assert(has_id(before, key));
                    assert(k < all.len());
                    assert(loaded_prefix(s0, all, store@, k as int));
                    assert(has_id(s0 + all.take(k as int), all[k as int].spec_key()));
                    assert(res matches Err(Error::DuplicateDefinition(t)) && t@ == all[k as int].spec_key());
                    assert(loaded(s0, all, store@, res));
                }
                return res;
            }
        }
        proof {
            assert(all.take(k + 1) =~= all.take(k as int).push(all[k as int]));
            assert(store@ =~= s0 + all.take(k + 1));
            assert forall|i: int| 0 <= i < k + 1 implies !has_id(s0 + all.take(i), #[trigger] all[i].spec_key()) by {
                if i == k {
                    assert(s0 + all.take(i) == before);
                }
            }
            assert(rest@ =~= all.skip(k + 1));
        }
        k = k + 1;
    }
    proof {
        assert(all.skip(k as int).len() == 0);
        assert(loaded_prefix(s0, all, store@, k as int));
    }
    Ok(())
}

/// The definition with an ID, if loaded.
fn lookup<'a, T: Definition>(store: &'a Vec<T>, id: &DefId) -> (r: Option<&'a T>)
    ensures
        r is None <==> !has_id(store@, id@),
        r matches Some(d) ==> d.spec_key() == id@ && exists|i: int| 0 <= i < store@.len() && store@[i] == *d,
{
    match find(store, id) {
        Some(i) => {
            assert(store@[i as int] == store[i as int]);
            Some(&store[i])
        },
        None => None,
    }
}

/// The loaded definitions, by kind; no ID occurs twice within a kind.
#[derive(Debug)]
pub struct GameDefs {
    resources: Vec<ResourceDef>,
    events: Vec<EventDef>,
    entity_types: Vec<EntityTypeDef>,
}

impl Default for GameDefs {
    /// No definitions.
    fn default() -> (r: Self)
        ensures
            r.spec_resources().len() == 0,
            r.spec_events().len() == 0,
            r.spec_entity_types().len() == 0,
            r.wf(),
    {
        GameDefs::new()
    }
}

impl GameDefs {
    /// The resource definitions, in load order.
    pub closed spec fn spec_resources(&self) -> Seq<ResourceDef> {
        self.resources@
    }

    /// The event definitions, in load order.
    pub closed spec fn spec_events(&self) -> Seq<EventDef> {
        self.events@
    }

    /// The entity type definitions, in load order.
    pub closed spec fn spec_entity_types(&self) -> Seq<EntityTypeDef> {
        self.entity_types@
    }

    /// No ID occurs twice within a kind.
    pub open spec fn wf(&self) -> bool {
        &&& ids_unique(self.spec_resources())
        &&& ids_unique(self.spec_events())
        &&& ids_unique(self.spec_entity_types())
    }

    /// No definitions.
    pub fn new() -> (r: Self)
        ensures
            r.spec_resources().len() == 0,
            r.spec_events().len() == 0,
            r.spec_entity_types().len() == 0,
            r.wf(),
    {
        GameDefs { resources: Vec::new(), events: Vec::new(), entity_types: Vec::new() }
    }

    /// The resource definition with an ID, if loaded.
    pub fn get_resource(&self, id: &DefId) -> (r: Option<&ResourceDef>)
        ensures
            r is None <==> !has_id(self.spec_resources(), id@),
            r matches Some(d) ==> d.id@ == id@ && exists|i: int|
                0 <= i < self.spec_resources().len() && self.spec_resources()[i] == *d,
    {
        let r = lookup(&self.resources, id);
        proof {
            if let Some(d) = r {
                assert(d.spec_key() == d.id@);
                let i = choose|i: int| 0 <= i < self.resources@.len() && self.resources@[i] == *d;
                assert(0 <= i < self.spec_resources().len() && self.spec_resources()[i] == *d);
            }
        }
        r
    }

    /// The event definition with an ID, if loaded.
    pub fn get_event(&self, id: &DefId) -> (r: Option<&EventDef>)
        ensures
            r is None <==> !has_id(self.spec_events(), id@),
            r matches Some(d) ==> d.id@ == id@ && exists|i: int|
                0 <= i < self.spec_events().len() && self.spec_events()[i] == *d,
    {
        let r = lookup(&self.events, id);
        proof {
            if let Some(d) = r {
                assert(d.spec_key() == d.id@);
                let i = choose|i: int| 0 <= i < self.events@.len() && self.events@[i] == *d;
                assert(0 <= i < self.spec_events().len() && self.spec_events()[i] == *d);
            }
        }
        r
    }

    /// The entity type definition with an ID, if loaded.
    pub fn get_entity_type(&self, id: &DefId) -> (r: Option<&EntityTypeDef>)
        ensures
            r is None <==> !has_id(self.spec_entity_types(), id@),
            r matches Some(d) ==> d.id@ == id@ && exists|i: int|
                0 <= i < self.spec_entity_types().len() && self.spec_entity_types()[i] == *d,
    {
        let r = lookup(&self.entity_types, id);
        proof {
            if let Some(d) = r {
                assert(d.spec_key() == d.id@);
                let i = choose|i: int| 0 <= i < self.entity_types@.len() && self.entity_types@[i] == *d;
                assert(0 <= i < self.spec_entity_types().len() && self.spec_entity_types()[i] == *d);
            }
        }
        r
    }

    /// The resource definitions, in load order.
    pub fn resources(&self) -> (r: &Vec<ResourceDef>)
        ensures
            r@ == self.spec_resources(),
    {
        &self.resources
    }

    /// The event definitions, in load order.
    pub fn events(&self) -> (r: &Vec<EventDef>)
        ensures
            r@ == self.spec_events(),
    {
        &self.events
    }

    /// The entity type definitions, in load order.
    pub fn entity_types(&self) -> (r: &Vec<EntityTypeDef>)
        ensures
            r@ == self.spec_entity_types(),
    {
        &self.entity_types
    }
}

/// Collects definitions as they are loaded.
#[derive(Debug)]
pub struct Loader {
    defs: GameDefs,
}

impl Default for Loader {
    /// A loader with no definitions.
    fn default() -> (r: Self)
        ensures
            r.spec_defs().spec_resources().len() == 0,
            r.spec_defs().spec_events().len() == 0,
            r.spec_defs().spec_entity_types().len() == 0,
            r.spec_defs().wf(),
    {
        Loader::new()
    }
}

impl Loader {
    /// The definitions loaded so far.
    pub closed spec fn spec_defs(&self) -> GameDefs {
        self.defs
    }

    /// A loader with no definitions.
    pub fn new() -> (r: Self)
        ensures
            r.spec_defs().spec_resources().len() == 0,
            r.spec_defs().spec_events().len() == 0,
            r.spec_defs().spec_entity_types().len() == 0,
            r.spec_defs().wf(),
    {
        Loader { defs: GameDefs::new() }
    }

    /// Load resource definitions in order (see [`loaded`]).
    pub fn load_resources(&mut self, resources: Vec<ResourceDef>) -> (r: Result<(), Error>)
        requires
            old(self).spec_defs().wf(),
        ensures
            final(self).spec_defs().wf(),
            loaded(old(self).spec_defs().spec_resources(), resources@, final(self).spec_defs().spec_resources(), r),
            final(self).spec_defs().spec_events() == old(self).spec_defs().spec_events(),
            final(self).spec_defs().spec_entity_types() == old(self).spec_defs().spec_entity_types(),
    {
        insert_all(&mut self.defs.resources, resources)
    }

    /// Load event definitions in order (see [`loaded`]).
    pub fn load_events(&mut self, events: Vec<EventDef>) -> (r: Result<(), Error>)
        requires
            old(self).spec_defs().wf(),
        ensures
            final(self).spec_defs().wf(),
            loaded(old(self).spec_defs().spec_events(), events@, final(self).spec_defs().spec_events(), r),
            final(self).spec_defs().spec_resources() == old(self).spec_defs().spec_resources(),
            final(self).spec_defs().spec_entity_types() == old(self).spec_defs().spec_entity_types(),
    {
        insert_all(&mut self.defs.events, events)
    }

    /// Load entity type definitions in order (see [`loaded`]).
    pub fn load_entity_types(&mut self, entity_types: Vec<EntityTypeDef>) -> (r: Result<(), Error>)
        requires
            old(self).spec_defs().wf(),
        ensures
            final(self).spec_defs().wf(),
            loaded(
                old(self).spec_defs().spec_entity_types(),
                entity_types@,
                final(self).spec_defs().spec_entity_types(),
                r,
            ),
            final(self).spec_defs().spec_resources() == old(self).spec_defs().spec_resources(),
            final(self).spec_defs().spec_events() == old(self).spec_defs().spec_events(),
    {
        insert_all(&mut self.defs.entity_types, entity_types)
    }

    /// Load one resource definition; `DuplicateDefinition` when its ID is already loaded.
    pub fn add_resource(&mut self, resource: ResourceDef) -> (r: Result<(), Error>)
        requires
            old(self).spec_defs().wf(),
        ensures
            final(self).spec_defs().wf(),
            has_id(old(self).spec_defs().spec_resources(), resource.id@) ==> (r matches Err(
                Error::DuplicateDefinition(t),
            ) && t@ == resource.id@) && final(self).spec_defs().spec_resources() == old(self).spec_defs().spec_resources(),
            !has_id(old(self).spec_defs().spec_resources(), resource.id@) ==> r is Ok && final(self).spec_defs().spec_resources()
                == old(self).spec_defs().spec_resources().push(resource),
            final(self).spec_defs().spec_events() == old(self).spec_defs().spec_events(),
            final(self).spec_defs().spec_entity_types() == old(self).spec_defs().spec_entity_types(),
    {
        insert_one(&mut self.defs.resources, resource)
    }

    /// Load one event definition; `DuplicateDefinition` when its ID is already loaded.
    pub fn add_event(&mut self, event: EventDef) -> (r: Result<(), Error>)
        requires
            old(self).spec_defs().wf(),
        ensures
            final(self).spec_defs().wf(),
            has_id(old(self).spec_defs().spec_events(), event.id@) ==> (r matches Err(
                Error::DuplicateDefinition(t),
            ) && t@ == event.id@) && final(self).spec_defs().spec_events() == old(self).spec_defs().spec_events(),
            !has_id(old(self).spec_defs().spec_events(), event.id@) ==> r is Ok && final(self).spec_defs().spec_events()
                == old(self).spec_defs().spec_events().push(event),
            final(self).spec_defs().spec_resources() == old(self).spec_defs().spec_resources(),
            final(self).spec_defs().spec_entity_types() == old(self).spec_defs().spec_entity_types(),
    {
        insert_one(&mut self.defs.events, event)
    }

    /// Load one entity type definition; `DuplicateDefinition` when its ID is already
    /// loaded.
    pub fn add_entity_type(&mut self, entity_type: EntityTypeDef) -> (r: Result<(), Error>)
        requires
            old(self).spec_defs().wf(),
        ensures
            final(self).spec_defs().wf(),
            has_id(old(self).spec_defs().spec_entity_types(), entity_type.id@) ==> (r matches Err(
                Error::DuplicateDefinition(t),
            ) && t@ == entity_type.id@) && final(self).spec_defs().spec_entity_types() == old(self).spec_defs().spec_entity_types(),
            !has_id(old(self).spec_defs().spec_entity_types(), entity_type.id@) ==> r is Ok && final(self).spec_defs().spec_entity_types() == old(self).spec_defs().spec_entity_types().push(entity_type),
            final(self).spec_defs().spec_resources() == old(self).spec_defs().spec_resources(),
            final(self).spec_defs().spec_events() == old(self).spec_defs().spec_events(),
    {
        insert_one(&mut self.defs.entity_types, entity_type)
    }

    /// Finish loading and return the definitions.
    pub fn finish(self) -> (r: GameDefs)
        ensures
            r == self.spec_defs(),
    {
        self.defs
    }

    /// The definitions loaded so far.
    pub fn defs(&self) -> (r: &GameDefs)
        ensures
            *r == self.spec_defs(),
    {
        &self.defs
    }
}

} // verus!
