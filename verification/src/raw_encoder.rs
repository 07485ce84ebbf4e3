use vstd::prelude::*;

use crate::quote_mode::QuoteMode;
use crate::raw_encoder_error::Result;

verus! {

/// Writes records field by field.
pub trait Encoder: Sized {
    /// Whether writing the field `value` with `quote_mode` may take the encoder from
    /// `self` to `after` and report `result`: what the encoder promises of
    /// `write_str_field`. An encoder that promises nothing keeps this default.
    open spec fn str_field_written(
        &self,
        after: &Self,
        value: Seq<char>,
        quote_mode: QuoteMode,
        result: Result<usize>,
    ) -> bool {
        true
    }

    /// Adds a field to the current record and returns what the encoder reports for it.
    fn write_str_field(&mut self, value: &str, quote_mode: QuoteMode) -> (r: Result<usize>)
        ensures
            old(self).str_field_written(&*final(self), value@, quote_mode, r),
    ;

    /// Adds an owned text as a field: the same as writing its characters.
    fn write_string_field(&mut self, value: String, quote_mode: QuoteMode) -> (r: Result<usize>)
        ensures
            old(self).str_field_written(&*final(self), value@, quote_mode, r),
    {
        self.write_str_field(value.as_str(), quote_mode)
    }

    /// Adds the text form of `value` as a field: the same as writing the characters
    /// of that text.
    fn write_value_field<T: std::fmt::Display>(
        &mut self,
        value: &T,
        quote_mode: QuoteMode,
    ) -> (r: Result<usize>)
        ensures
            exists|s: String|
                #[trigger] vstd::string::to_string_from_display_ensures::<T>(value, s)
                && old(self).str_field_written(&*final(self), s@, quote_mode, r),
    {
        let s = value.to_string();
        self.write_str_field(s.as_str(), quote_mode)
    }

    /// Ends the current record, sending it on when `should_flush` is set.
    fn end_of_record(&mut self, should_flush: bool) -> Result<usize>;

    /// The number of fields in the current record.
    fn cnt(&self) -> usize;
}

} // verus!
