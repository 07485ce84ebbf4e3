use vstd::prelude::*;

use crate::playground::shared::InvalidDelimiter;

verus! {

/// The outcome of scanning a field: whether it must be quoted, and whether it holds
/// a double quote that must be doubled.
#[derive(Debug)]
pub struct ShouldQuoteDatum {
    should_quote: bool,
    double_quote: bool,
}

impl View for ShouldQuoteDatum {
    type V = (bool, bool);

    closed spec fn view(&self) -> (bool, bool) {
        (self.should_quote, self.double_quote)
    }
}

impl ShouldQuoteDatum {
    /// An outcome with the two given flags.
    pub fn new(should_quote: bool, double_quote: bool) -> (r: Self)
        ensures
            r@ == (should_quote, double_quote),
    {
        Self { should_quote, double_quote }
    }

    /// Whether the field must be quoted.
    pub fn should_quote(&self) -> (r: bool)
        ensures
            r == self@.0,
    {
        self.should_quote
    }

    /// Whether the field holds a double quote.
    pub fn double_quote(&self) -> (r: bool)
        ensures
            r == self@.1,
    {
        self.double_quote
    }
}

impl std::ops::BitOrAssign<ShouldQuoteDatum> for ShouldQuoteDatum {
    /// Each flag becomes set when it is set on either side.
    fn bitor_assign(&mut self, rhs: ShouldQuoteDatum)
        ensures
            final(self)@ == (old(self)@.0 || rhs@.0, old(self)@.1 || rhs@.1),
    {
        self.should_quote = self.should_quote || rhs.should_quote;
        self.double_quote = self.double_quote || rhs.double_quote;
    }
}

/// The outcome of a scan, or the rejected delimiter.
pub type ShouldQuoteResult = Result<ShouldQuoteDatum, InvalidDelimiter>;

} // verus!
