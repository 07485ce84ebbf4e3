use vstd::prelude::*;

use crate::field_descriptor::Descriptor as FieldDescriptor;
use crate::raw_encoder_error::Result;

verus! {

/// Writes records of a fixed number `N` of fields, each given by a field descriptor.
pub trait Writer<T, F> {
    /// The writer that receives the fields.
    type W;

    /// The number of fields in every record.
    const N: usize;

    /// The writer that receives the fields.
    fn writer(&mut self) -> &mut Self::W;

    /// Writes one record whose fields `value` describes.
    fn write(&mut self, value: &[FieldDescriptor<T, F>]) -> Result<usize>;
}

} // verus!
