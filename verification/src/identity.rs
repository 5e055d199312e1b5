//! Identity types for entities and definitions.
use vstd::prelude::*;

verus! {

/// Unique identifier for an entity instance at runtime.
#[derive(Debug, Clone, Copy, PartialEq, Eq, Structural, Hash)]
pub struct EntityId(pub u64);

impl EntityId {
    /// Create a new entity ID.
    pub fn new(id: u64) -> (r: Self)
        ensures
            r.0 == id,
    {
        EntityId(id)
    }

    /// Get the raw ID value.
    pub fn raw(&self) -> (r: u64)
        ensures
            r == self.0,
    {
        self.0
    }

    /// The display text of this ID, `entity:` and its number.
    pub fn to_text(&self) -> (r: String)
        ensures
            r@ == "entity:"@ + crate::text::decimal(self.0 as nat),
    {
        let mut s = String::from_str("entity:");
        crate::text::push_decimal(&mut s, self.0);
        s
    }
}

/// Identifier for a definition (type, event, resource, ...) loaded from scripts.
#[derive(Debug, Clone, PartialEq, Eq, Hash)]
pub struct DefId(pub String);

impl View for DefId {
    type V = Seq<char>;

    open spec fn view(&self) -> Seq<char> {
        self.0@
    }
}

impl DefId {
    /// Create a new definition ID.
    pub fn new(id: &str) -> (r: Self)
        ensures
            r@ == id@,
    {
        DefId(String::from_str(id))
    }

    /// Get the ID as a string slice.
    pub fn as_str(&self) -> (r: &str)
        ensures
            r@ == self@,
    {
        self.0.as_str()
    }

    /// Duplicate this ID.
    pub fn duplicate(&self) -> (r: Self)
        ensures
            r@ == self@,
    {
        DefId(self.0.clone())
    }

    /// Compare two IDs by their text.
    pub fn same_as(&self, other: &DefId) -> (r: bool)
        ensures
            r == (self@ == other@),
    {
        self.0 == other.0
    }

    /// The text of this ID, as shown to users.
    pub fn to_text(&self) -> (r: String)
        ensures
            r@ == self@,
    {
        self.0.clone()
    }
}

} // verus!
