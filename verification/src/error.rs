//! Errors of the simulation core.
use vstd::prelude::*;

verus! {

/// An error of the simulation core.
#[derive(Debug)]
pub enum Error {
    /// A value had another type than expected.
    TypeError { expected: String, got: String },
    /// A property was not found.
    PropertyNotFound(String),
    /// An entity was not found.
    EntityNotFound(String),
    /// A definition was not found.
    DefinitionNotFound(String),
    /// Division by zero.
    DivisionByZero,
    /// An operation that is not allowed.
    InvalidOperation(String),
    /// An expression could not be evaluated.
    EvaluationError(String),
}

/// The display text of a core error.
pub open spec fn error_text(e: Error) -> Seq<char> {
    match e {
        Error::TypeError { expected, got } => "Type error: expected "@ + expected@ + ", got "@ + got@,
        Error::PropertyNotFound(s) => "Property not found: "@ + s@,
        Error::EntityNotFound(s) => "Entity not found: "@ + s@,
        Error::DefinitionNotFound(s) => "Definition not found: "@ + s@,
        Error::DivisionByZero => "Division by zero"@,
        Error::InvalidOperation(s) => "Invalid operation: "@ + s@,
        Error::EvaluationError(s) => "Evaluation error: "@ + s@,
    }
}

impl Error {
    /// The display text of this error.
    pub fn to_text(&self) -> (r: String)
        ensures
            r@ == error_text(*self),
    {
        match self {
            Error::TypeError { expected, got } => {
                let mut s = String::from_str("Type error: expected ");
                s.append(expected.as_str());
                s.append(", got ");
                s.append(got.as_str());
                s
            },
            Error::PropertyNotFound(x) => {
                let mut s = String::from_str("Property not found: ");
                s.append(x.as_str());
                s
            },
            Error::EntityNotFound(x) => {
                let mut s = String::from_str("Entity not found: ");
                s.append(x.as_str());
                s
            },
            Error::DefinitionNotFound(x) => {
                let mut s = String::from_str("Definition not found: ");
                s.append(x.as_str());
                s
            },
            Error::DivisionByZero => String::from_str("Division by zero"),
            Error::InvalidOperation(x) => {
                let mut s = String::from_str("Invalid operation: ");
                s.append(x.as_str());
                s
            },
            Error::EvaluationError(x) => {
                let mut s = String::from_str("Evaluation error: ");
                s.append(x.as_str());
                s
            },
        }
    }
}

} // verus!
