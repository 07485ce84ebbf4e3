use vstd::prelude::*;

use crate::field_description::Description;

verus! {

/// Describes one field of a value of type `T` with the function `F`.
pub struct Descriptor<T, F> {
    describe_fn: F,
    target: std::marker::PhantomData<T>,
}

impl<T, F: Fn(&T) -> Description> Descriptor<T, F> {
    /// The describing function.
    pub closed spec fn function(&self) -> F {
        self.describe_fn
    }

    /// A descriptor that describes with `f`.
    pub fn new(f: F) -> (r: Self)
        ensures
            r.function() == f,
    {
        Self { describe_fn: f, target: std::marker::PhantomData }
    }

    /// Hands a describing function back unchanged, fixing its type for a descriptor.
    pub fn with_hr_closure(f: F) -> (r: F)
        ensures
            r == f,
    {
        f
    }

    /// The description of `t`: what the describing function gives for it.
    pub fn describe(&self, t: &T) -> (r: Description)
        requires
            call_requires(self.function(), (t,)),
        ensures
            call_ensures(self.function(), (t,), r),
    {
        (self.describe_fn)(t)
    }
}

impl<T, F: Fn(&T) -> Description> From<F> for Descriptor<T, F> {
    /// A descriptor that describes with `f`.
    fn from(f: F) -> (r: Self)
        ensures
            r.function() == f,
    {
        Self::new(f)
    }
}

impl<T, F: Fn(&T) -> Description> vstd::std_specs::convert::FromSpecImpl<F> for Descriptor<T, F> {
    open spec fn obeys_from_spec() -> bool {
        true
    }

    closed spec fn from_spec(f: F) -> Self {
        Descriptor { describe_fn: f, target: std::marker::PhantomData }
    }
}

} // verus!
