use vstd::prelude::*;

verus! {

/// How a character is treated when a field is quoted.
#[derive(Debug, PartialEq, Eq, Clone, Copy, Structural)]
pub enum EscapeOutcome {
    /// The character is written as it is.
    NotEscaped,
    /// The character is a double quote and is written twice.
    DuplicatedQuote,
}

} // verus!
