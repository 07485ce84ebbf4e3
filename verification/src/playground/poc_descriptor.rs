use vstd::prelude::*;

use crate::playground::field_datum::FieldDatum;
use crate::quote_mode::QuoteMode;

verus! {

/// Describes a value of type `T` as `N` fields.
pub trait TypeDescriptor<T, const N: usize> {
    /// The number of fields.
    fn field_size() -> (r: usize)
        default_ensures
            r == N,
    {
        N
    }

    /// The fields of `value`.
    fn describe(&self, value: &T) -> [FieldDatum; N];

    /// How the fields are quoted.
    fn mode(&self) -> (r: QuoteMode)
        default_ensures
            r == QuoteMode::AutoDetect,
    {
        QuoteMode::AutoDetect
    }
}

/// Describes a value as the single field of its text form.
pub struct ToStringDescriptor<T>(std::marker::PhantomData<T>);

impl<T: std::fmt::Display> ToStringDescriptor<T> {
    /// The descriptor.
    pub fn new() -> (r: Self) {
        Self(std::marker::PhantomData)
    }
}

impl<T: std::fmt::Display> TypeDescriptor<T, 1> for ToStringDescriptor<T> {
    /// The text form of `value`, quoted as detected from its content.
    fn describe(&self, value: &T) -> (r: [FieldDatum; 1])
        ensures
            exists|s: String|
                #[trigger] vstd::string::to_string_from_display_ensures::<T>(value, s) && r@[0]@ == (
                    s@,
                    QuoteMode::AutoDetect,
                ),
    {
        let s = value.to_string();
        let mode = self.mode();
        [FieldDatum::new(s, mode)]
    }
}

} // verus!
