use vstd::prelude::*;

pub use crate::quote_mode::QuoteMode;

verus! {

/// The text of one field together with how it is to be quoted.
#[derive(Debug)]
pub struct Description {
    value: String,
    quoted_mode: QuoteMode,
}

impl View for Description {
    type V = (Seq<char>, QuoteMode);

    closed spec fn view(&self) -> (Seq<char>, QuoteMode) {
        (self.value@, self.quoted_mode)
    }
}

impl Description {
    /// A description holding a copy of `value`.
    pub fn new_str(value: &str, quoted_mode: QuoteMode) -> (r: Self)
        ensures
            r@ == (value@, quoted_mode),
    {
        Self { value: crate::strings::to_owned_string(value), quoted_mode }
    }

    /// A description holding `value`.
    pub fn new_string(value: String, quoted_mode: QuoteMode) -> (r: Self)
        ensures
            r@ == (value@, quoted_mode),
    {
        Self { value, quoted_mode }
    }

    /// How the field is to be quoted.
    pub fn quoted_mode(&self) -> (r: &QuoteMode)
        ensures
            *r == self@.1,
    {
        &self.quoted_mode
    }

    /// The text of the field.
    pub fn value(&self) -> (r: &str)
        ensures
            r@ == self@.0,
    {
        self.value.as_str()
    }
}

} // verus!
