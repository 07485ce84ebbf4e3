use vstd::prelude::*;

verus! {

/// An argument that a constructor refuses, with a message that says why.
#[derive(Debug)]
pub enum ArgumentError {
    /// The argument is not acceptable.
    ArgumentError(String),
    /// The argument lies outside the accepted range.
    ArgumentOutOfRange(String),
}

/// The result of a call that checks its arguments.
pub type Result<T> = std::result::Result<T, ArgumentError>;

} // verus!
