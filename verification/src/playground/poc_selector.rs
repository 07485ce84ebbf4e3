use vstd::prelude::*;

use crate::field_description::Description;

verus! {

/// Selects the description of one field of a value of type `T` with the function `F`.
pub struct Selector<T, F> {
    proc: F,
    target: std::marker::PhantomData<T>,
}

impl<T, F: Fn(&T) -> Description> Selector<T, F> {
    /// The selecting function.
    pub closed spec fn function(&self) -> F {
        self.proc
    }

    /// A selector that selects with `proc`.
    pub fn new(proc: F) -> (r: Self)
        ensures
            r.function() == proc,
    {
        Self { proc, target: std::marker::PhantomData }
    }

    /// What the selecting function gives for `t`.
    pub fn select(&self, t: &T) -> (r: Description)
        requires
            call_requires(self.function(), (t,)),
        ensures
            call_ensures(self.function(), (t,), r),
    {
        (self.proc)(t)
    }
}

} // verus!
