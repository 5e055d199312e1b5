//! Errors of loading content definitions. Reading files and parsing text are done by the
//! host, which reports their failures with the message they gave.
use vstd::prelude::*;

verus! {

/// An error of loading definitions.
#[derive(Debug)]
pub enum Error {
    /// Reading failed.
    Io(String),
    /// The text could not be parsed.
    Ron(String),
    /// The text matches no known definition.
    InvalidSchema(String),
    /// A required field is missing.
    MissingField(String),
    /// A definition with the same ID is already loaded.
    DuplicateDefinition(String),
}

impl Error {
    /// The display text of this error.
    pub fn to_text(&self) -> (r: String)
        ensures
            (self matches Error::Io(s) ==> r@ == "IO error: "@ + s@),
            (self matches Error::Ron(s) ==> r@ == "RON parse error: "@ + s@),
            (self matches Error::InvalidSchema(s) ==> r@ == "Invalid schema: "@ + s@),
            (self matches Error::MissingField(s) ==> r@ == "Missing required field: "@ + s@),
            (self matches Error::DuplicateDefinition(s) ==> r@ == "Duplicate definition: "@ + s@),
    {
        let (prefix, detail) = match self {
            Error::Io(s) => ("IO error: ", s),
            Error::Ron(s) => ("RON parse error: ", s),
            Error::InvalidSchema(s) => ("Invalid schema: ", s),
            Error::MissingField(s) => ("Missing required field: ", s),
            Error::DuplicateDefinition(s) => ("Duplicate definition: ", s),
        };
        let mut out = String::from_str(prefix);
        out.append(detail.as_str());
        out
    }
}

} // verus!
