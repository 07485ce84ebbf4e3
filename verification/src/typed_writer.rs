use vstd::prelude::*;

use crate::field_description::Description;
use crate::type_descriptor::Descriptor as TypeDescriptor;

verus! {

/// Writes values of type `T` to `W`, one record per value, as the type descriptor
/// describes them.
pub struct Writer<W, T, F> {
    writer: W,
    type_descriptor: TypeDescriptor<T, F>,
}

impl<W, T, F: Fn(&T) -> Description> Writer<W, T, F> {
    /// The destination.
    pub closed spec fn destination(&self) -> W {
        self.writer
    }

    /// The describing functions, in field order.
    pub closed spec fn functions(&self) -> Seq<F> {
        self.type_descriptor.functions()
    }

    /// A writer to `writer` that describes values with `type_descriptor`.
    pub fn new(writer: W, type_descriptor: TypeDescriptor<T, F>) -> (r: Self)
        ensures
            r.destination() == writer,
            r.functions() == type_descriptor.functions(),
    {
        Self { writer, type_descriptor }
    }
}

} // verus!
