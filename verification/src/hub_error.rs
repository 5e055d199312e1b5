//! Errors of the hub.
use vstd::prelude::*;
use crate::conflict::ConflictReport;
use crate::cores::GroupId;
use crate::text::{decimal, push_decimal};

verus! {

/// An error of the hub.
#[derive(Debug)]
pub enum Error {
    /// No core groups are registered.
    NoGroups,
    /// A group was not found.
    GroupNotFound(GroupId),
    /// Conflicts were detected and the strategy does not resolve them.
    UnresolvedConflicts { count: usize, report: Box<ConflictReport> },
    /// An error of the simulation core.
    Core(crate::error::Error),
}

/// The display text of a count of detected conflicts.
pub open spec fn conflict_count_text(count: nat) -> Seq<char> {
    if count == 1 {
        "1 conflict detected"@
    } else {
        decimal(count) + " conflicts detected"@
    }
}

impl Error {
    /// The error for unresolved conflicts, carrying the report and its length.
    pub fn unresolved_conflicts(report: ConflictReport) -> (r: Self)
        ensures
            (r matches Error::UnresolvedConflicts { count, report: b } && count == report.conflicts@.len()
                && *b == report),
    {
        let count = report.len();
        Error::UnresolvedConflicts { count, report: Box::new(report) }
    }

    /// The conflict report, for unresolved conflicts.
    pub fn conflict_report(&self) -> (r: Option<&ConflictReport>)
        ensures
            (self matches Error::UnresolvedConflicts { report, .. } ==> r == Some(&**report)),
            !(self is UnresolvedConflicts) ==> r is None,
    {
        match self {
            Error::UnresolvedConflicts { report, .. } => Some(&**report),
            _ => None,
        }
    }

    /// The display text of this error.
    pub fn to_text(&self) -> (r: String)
        ensures
            self is NoGroups ==> r@ == "no core groups registered in hub"@,
            (self matches Error::GroupNotFound(g) ==> r@ == "group GroupId("@ + decimal(g.0 as nat)
                + ") not found"@),
            (self matches Error::UnresolvedConflicts { count, .. } ==> r@ == "unresolved conflicts: "@
                + conflict_count_text(count as nat)),
            (self matches Error::Core(e) ==> r@ == "core error: "@ + crate::error::error_text(*e)),
    {
        match self {
            Error::NoGroups => String::from_str("no core groups registered in hub"),
            Error::GroupNotFound(g) => {
                let mut s = String::from_str("group GroupId(");
                push_decimal(&mut s, g.0 as u64);
                s.append(") not found");
                s
            },
            Error::UnresolvedConflicts { count, .. } => {
                let mut s = String::from_str("unresolved conflicts: ");
                if *count == 1 {
                    s.append("1 conflict detected");
                } else {
                    push_decimal(&mut s, *count as u64);
                    s.append(" conflicts detected");
                }
                s
            },
            Error::Core(e) => {
                let mut s = String::from_str("core error: ");
                let t = e.to_text();
                s.append(t.as_str());
                s
            },
        }
    }
}

} // verus!
