use vstd::prelude::*;

use crate::quoting::{quote, quoted};

verus! {

/// `value` surrounded by double quotes, each of its double quotes written twice.
pub fn add_quote(value: &str) -> (r: String)
    ensures
        r@ == quoted(value@),
{
    quote(value)
}

} // verus!
