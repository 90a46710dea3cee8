//! The library's error type.

use vstd::prelude::*;

verus! {

/// Errors raised across the library: each carries its reason as text.
#[derive(Debug)]
pub enum SrsError {
    /// A caller-supplied value was outside its valid range (with a reason).
    InvalidInput(String),
    /// A grid dimension or index was out of bounds.
    Grid(String),
    /// A value fell outside a correlation/spec's documented validity range.
    OutOfRange(String),
}

/// The rendered message of an error: its kind's prefix, then its reason.
pub open spec fn error_message(e: SrsError) -> Seq<char> {
    match e {
        SrsError::InvalidInput(m) => "invalid input: "@ + m@,
        SrsError::Grid(m) => "grid error: "@ + m@,
        SrsError::OutOfRange(m) => "outside validity range: "@ + m@,
    }
}

/// Whether `e` is an `InvalidInput` whose reason reads `reason`.
pub open spec fn is_invalid_input(e: SrsError, reason: Seq<char>) -> bool {
    e matches SrsError::InvalidInput(m) && m@ == reason
}

impl SrsError {
    /// The error rendered as text (`"invalid input: <reason>"`, …).
    pub fn message(&self) -> (s: String)
        ensures
            s@ == error_message(*self),
    {
        let (prefix, reason) = match self {
            SrsError::InvalidInput(m) => ("invalid input: ", m),
            SrsError::Grid(m) => ("grid error: ", m),
            SrsError::OutOfRange(m) => ("outside validity range: ", m),
        };
        let mut s = String::from_str(prefix);
        s.append(reason.as_str());
        s
    }
}

} // verus!
