use vstd::prelude::*;

use crate::field_description::Description;
use crate::field_descriptor::Descriptor as FieldDescriptor;

verus! {

/// Describes each field of a value of type `T`, one field descriptor per field.
pub struct Descriptor<T, F>(pub Vec<FieldDescriptor<T, F>>);

impl<T, F: Fn(&T) -> Description> Default for Descriptor<T, F> {
    fn default() -> (r: Self)
        ensures
            r.functions() == Seq::<F>::empty(),
    {
        Self(Vec::new())
    }
}

impl<T, F: Fn(&T) -> Description> Descriptor<T, F> {
    /// The describing functions, in field order.
    pub closed spec fn functions(&self) -> Seq<F> {
        self.0@.map_values(|d: FieldDescriptor<T, F>| d.function())
    }

    /// Whether every describing function accepts `value`.
    pub open spec fn accepts(&self, value: &T) -> bool {
        forall|i: int| 0 <= i < self.functions().len() ==> call_requires(#[trigger] self.functions()[i], (value,))
    }

    /// Whether `out` holds, in field order, what each describing function gives for
    /// `value`.
    pub open spec fn describes(&self, value: &T, out: Seq<Description>) -> bool {
        &&& out.len() == self.functions().len()
        &&& forall|i: int| 0 <= i < out.len() ==> call_ensures(self.functions()[i], (value,), #[trigger] out[i])
    }

    /// Adds a field described by `f` and returns the number of fields.
    pub fn push(&mut self, f: F) -> (r: usize)
        ensures
            final(self).functions() == old(self).functions().push(f),
            r == final(self).functions().len(),
    {
        self.0.push(FieldDescriptor::new(f));
        assert(self.functions() =~= old(self).functions().push(f));
        self.0.len()
    }

    /// The descriptions of every field of `value`.
    pub fn describe(&self, value: &T) -> (r: Vec<Description>)
        requires
            self.accepts(value),
        ensures
            self.describes(value, r@),
    {
        let mut out: Vec<Description> = Vec::new();
        self.append(value, &mut out);
        assert(out@ =~= out@.skip(0));
        out
    }

    /// Replaces the contents of `buff` with the descriptions of every field of `value`
    /// and returns their number.
    pub fn fill(&self, value: &T, buff: &mut Vec<Description>) -> (r: usize)
        requires
            self.accepts(value),
        ensures
            self.describes(value, final(buff)@),
            final(buff)@.len() == r,
            r == self.functions().len(),
    {
        buff.clear();
        let n = self.append(value, buff);
        assert(buff@ =~= buff@.skip(0));
        n
    }

    /// Adds the descriptions of every field of `value` after what `buff` holds and
    /// returns their number.
    pub fn append(&self, value: &T, buff: &mut Vec<Description>) -> (r: usize)
        requires
            self.accepts(value),
        ensures
            final(buff)@.len() == old(buff)@.len() + r,
            final(buff)@.take(old(buff)@.len() as int) == old(buff)@,
            self.describes(value, final(buff)@.skip(old(buff)@.len() as int)),
            r == self.functions().len(),
    {
        let ghost start = buff@;
        let mut i: usize = 0;
        while i < self.0.len()
            invariant
                self.accepts(value),
                0 <= i <= self.0@.len(),
                buff@.len() == start.len() + i,
                buff@.take(start.len() as int) == start,
                forall|k: int| 0 <= k < i ==> call_ensures(self.functions()[k], (value,), #[trigger] buff@[start.len() + k]),
            decreases self.0@.len() - i,
        {
            let ghost f = self.functions()[i as int];
            assert(self.0@[i as int].function() == f);
            let d = self.0[i].describe(value);
            let ghost before = buff@;
            buff.push(d);
            assert(buff@.take(start.len() as int) =~= before.take(start.len() as int));
            i = i + 1;
        }
        let ghost tail = buff@.skip(start.len() as int);
        assert forall|k: int| 0 <= k < tail.len() implies call_ensures(self.functions()[k], (value,), #[trigger] tail[k]) by {
            assert(tail[k] == buff@[start.len() + k]);
        }
        self.0.len()
    }
}

/// After a field function `f` is added, a description list describes a value exactly
/// when all but its last entry describe it as before and its last entry is what `f`
/// gives for the value.
pub proof fn lemma_push_describes<T, F: Fn(&T) -> Description>(
    before: Descriptor<T, F>,
    after: Descriptor<T, F>,
    f: F,
    value: &T,
    out: Seq<Description>,
)
    requires
        after.functions() == before.functions().push(f),
    ensures
        after.describes(value, out) <==> (out.len() > 0 && before.describes(value, out.drop_last())
            && call_ensures(f, (value,), out.last())),
{
    let n = before.functions().len();
    if after.describes(value, out) {
        assert forall|i: int| 0 <= i < out.drop_last().len() implies call_ensures(
            before.functions()[i],
            (value,),
            #[trigger] out.drop_last()[i],
        ) by {
            assert(after.functions()[i] == before.functions()[i]);
            assert(out.drop_last()[i] == out[i]);
        }
        assert(after.functions()[n as int] == f);
        assert(call_ensures(after.functions()[n as int], (value,), out[n as int]));
    }
    if out.len() > 0 && before.describes(value, out.drop_last()) && call_ensures(f, (value,), out.last()) {
        assert forall|i: int| 0 <= i < out.len() implies call_ensures(
            after.functions()[i],
            (value,),
            #[trigger] out[i],
        ) by {
            if i < n {
                assert(out.drop_last()[i] == out[i]);
                assert(after.functions()[i] == before.functions()[i]);
            } else {
                assert(after.functions()[i] == f);
            }
        }
    }
}

} // verus!
