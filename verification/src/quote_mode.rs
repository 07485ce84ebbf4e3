use vstd::prelude::*;

verus! {

/// How a field is to be quoted when it is written.
#[derive(Debug, Clone, Copy, PartialEq, Eq, Structural)]
pub enum QuoteMode {
    /// The field is always surrounded by double quotes.
    Quoted,
    /// The field is quoted only when its content requires it.
    AutoDetect,
}

} // verus!
