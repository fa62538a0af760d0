//! The ways in which an invocation of a predicate can fail.

use vstd::prelude::*;

verus! {

/// Why an invocation was abandoned. No error is recovered from locally: each
/// one aborts the whole batch.
#[derive(Clone, Copy, Debug, PartialEq, Eq, Structural, Hash)]
pub enum PredicateError {
    /// The number of arguments differs from the arity the signature declares.
    ArityMismatch,
    /// A column carries an encoding that no decoder is available for.
    UnsupportedGeometryEncoding,
    /// A column carries a recognized encoding, but a row of it is no geometry.
    MalformedGeometry,
    /// The two operands of a predicate differ in length.
    LengthMismatch,
}

impl PredicateError {
    /// A short description, fit for a message to the user of the engine.
    pub fn message(&self) -> (text: &'static str)
        ensures
            text@ == match *self {
                PredicateError::ArityMismatch => "wrong number of arguments"@,
                PredicateError::UnsupportedGeometryEncoding => "unsupported geometry encoding"@,
                PredicateError::MalformedGeometry => "malformed geometry"@,
                PredicateError::LengthMismatch => "operands differ in length"@,
            },
    {
        match self {
            PredicateError::ArityMismatch => "wrong number of arguments",
            PredicateError::UnsupportedGeometryEncoding => "unsupported geometry encoding",
            PredicateError::MalformedGeometry => "malformed geometry",
            PredicateError::LengthMismatch => "operands differ in length",
        }
    }
}

} // verus!
