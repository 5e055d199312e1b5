//! Identifiers of worker cores and of core groups.
use vstd::prelude::*;
use crate::text::{decimal, push_decimal};

verus! {

/// Unique identifier for a core.
#[derive(Debug, Clone, Copy, PartialEq, Eq, Structural, Hash)]
pub struct CoreId(pub usize);

impl CoreId {
    /// The display text of this ID: `Core(` and its number, then `)`.
    pub fn to_text(&self) -> (r: String)
        ensures
            r@ == "Core("@ + decimal(self.0 as nat) + ")"@,
    {
        let mut s = String::from_str("Core(");
        push_decimal(&mut s, self.0 as u64);
        s.append(")");
        s
    }
}

/// Unique identifier for a core group.
#[derive(Debug, Clone, Copy, PartialEq, Eq, Structural, Hash)]
pub struct GroupId(pub usize);

impl GroupId {
    /// The display text of this ID: `Group(` and its number, then `)`.
    pub fn to_text(&self) -> (r: String)
        ensures
            r@ == "Group("@ + decimal(self.0 as nat) + ")"@,
    {
        let mut s = String::from_str("Group(");
        push_decimal(&mut s, self.0 as u64);
        s.append(")");
        s
    }
}

} // verus!
