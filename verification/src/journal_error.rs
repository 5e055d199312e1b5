//! Errors of journal replay and export.
use vstd::prelude::*;
use crate::text::{decimal, push_decimal};

verus! {

/// An error of replay or export. Input and output failures are reported by the host.
#[derive(Debug)]
pub enum Error {
    /// A tick range whose start lies after its end.
    InvalidTickRange(u64, u64),
    /// No snapshot with this ID.
    SnapshotNotFound(u64),
    /// Replay failed.
    ReplayError(String),
    /// Export failed.
    ExportError(String),
    /// Serialization failed.
    Serialization(String),
}

impl Error {
    /// The display text of this error.
    pub fn to_text(&self) -> (r: String)
        ensures
            (self matches Error::InvalidTickRange(a, b) ==> r@ == "Invalid tick range: "@ + decimal(
                a as nat,
            ) + ".."@ + decimal(b as nat)),
            (self matches Error::SnapshotNotFound(a) ==> r@ == "Snapshot not found: "@ + decimal(a as nat)),
            (self matches Error::ReplayError(s) ==> r@ == "Replay error: "@ + s@),
            (self matches Error::ExportError(s) ==> r@ == "Export error: "@ + s@),
            (self matches Error::Serialization(s) ==> r@ == "Serialization error: "@ + s@),
    {
        match self {
            Error::InvalidTickRange(a, b) => {
                let mut s = String::from_str("Invalid tick range: ");
                push_decimal(&mut s, *a);
                s.append("..");
                push_decimal(&mut s, *b);
                s
            },
            Error::SnapshotNotFound(a) => {
                let mut s = String::from_str("Snapshot not found: ");
                push_decimal(&mut s, *a);
                s
            },
            Error::ReplayError(x) => {
                let mut s = String::from_str("Replay error: ");
                s.append(x.as_str());
                s
            },
            Error::ExportError(x) => {
                let mut s = String::from_str("Export error: ");
                s.append(x.as_str());
                s
            },
            Error::Serialization(x) => {
                let mut s = String::from_str("Serialization error: ");
                s.append(x.as_str());
                s
            },
        }
    }
}

/// A format that a journal can be exported to.
#[derive(Debug, Clone, Copy, PartialEq, Eq, Structural)]
pub enum ExportFormat {
    Ron,
    Json,
    Csv,
    Text,
}

} // verus!
