use vstd::prelude::*;

use crate::quote_mode::QuoteMode;

verus! {

/// The text of one field and how it is to be quoted.
pub struct FieldDatum {
    value: String,
    quote_mode: QuoteMode,
}

impl View for FieldDatum {
    type V = (Seq<char>, QuoteMode);

    closed spec fn view(&self) -> (Seq<char>, QuoteMode) {
        (self.value@, self.quote_mode)
    }
}

impl FieldDatum {
    /// A datum holding `value`.
    pub fn new(value: String, quote_mode: QuoteMode) -> (r: Self)
        ensures
            r@ == (value@, quote_mode),
    {
        Self { value, quote_mode }
    }

    /// The text of the field.
    pub fn value(&self) -> (r: &str)
        ensures
            r@ == self@.0,
    {
        self.value.as_str()
    }

    /// How the field is to be quoted.
    pub fn quote_mode(&self) -> (r: QuoteMode)
        ensures
            r == self@.1,
    {
        self.quote_mode
    }
}

} // verus!
