use vstd::prelude::*;

pub use crate::escape_outcome::EscapeOutcome;
use crate::quote_mode::QuoteMode;
use crate::quoting::{double_quotes, quoted};
use crate::raw_encoder_error::Result;
use crate::strings::push_char;

verus! {

/// The characters of `s` with each one whose outcome (at the same position in
/// `outcomes`) is a duplicated quote written twice.
pub open spec fn expand(s: Seq<char>, outcomes: Seq<EscapeOutcome>) -> Seq<char>
    decreases s.len(),
{
    if s.len() == 0 {
        Seq::empty()
    } else if outcomes[s.len() - 1] == EscapeOutcome::DuplicatedQuote {
        expand(s.drop_last(), outcomes) + seq![s.last(), s.last()]
    } else {
        expand(s.drop_last(), outcomes).push(s.last())
    }
}

/// Only the outcomes of the first `s.len()` characters matter to `expand`.
proof fn lemma_expand_prefix(s: Seq<char>, outcomes: Seq<EscapeOutcome>, more: Seq<EscapeOutcome>)
    requires
        outcomes.len() >= s.len(),
        more.len() >= s.len(),
        forall|i: int| 0 <= i < s.len() ==> outcomes[i] == more[i],
    ensures
        expand(s, outcomes) == expand(s, more),
    decreases s.len(),
{
    if s.len() > 0 {
        lemma_expand_prefix(s.drop_last(), outcomes, more);
    }
}

/// Expanding by outcomes that mark exactly the double quotes as duplicated doubles
/// exactly the double quotes.
proof fn lemma_expand_quotes(s: Seq<char>, outcomes: Seq<EscapeOutcome>)
    requires
        outcomes.len() >= s.len(),
        forall|i: int|
            0 <= i < s.len() ==> outcomes[i] == (if s[i] == '"' {
                EscapeOutcome::DuplicatedQuote
            } else {
                EscapeOutcome::NotEscaped
            }),
    ensures
        expand(s, outcomes) == double_quotes(s),
    decreases s.len(),
{
    if s.len() > 0 {
        let p = s.drop_last();
        assert forall|i: int| 0 <= i < p.len() implies outcomes[i] == (if p[i] == '"' {
            EscapeOutcome::DuplicatedQuote
        } else {
            EscapeOutcome::NotEscaped
        }) by {
            assert(p[i] == s[i]);
        }
        lemma_expand_quotes(p, outcomes);
        assert(s.last() == s[s.len() - 1]);
        if s.last() == '"' {
            assert(expand(p, outcomes) + seq![s.last(), s.last()] =~= double_quotes(p) + seq!['"', '"']);
        } else {
            assert(expand(p, outcomes).push(s.last()) =~= double_quotes(p).push(s.last()));
        }
    }
}

/// When an encoder classifies every character in exactly one way, the quoted text of a
/// value is fixed: any two outcome sequences it may give for the value expand alike.
pub proof fn lemma_add_quote_determined<const N: usize, E: Encoder<N>>(
    enc: &E,
    value: Seq<char>,
    o1: Seq<EscapeOutcome>,
    o2: Seq<EscapeOutcome>,
)
    requires
        forall|c: char, a: EscapeOutcome, b: EscapeOutcome|
            enc.classifies(c, a) && enc.classifies(c, b) ==> a == b,
        o1.len() == value.len(),
        o2.len() == value.len(),
        forall|i: int| 0 <= i < value.len() ==> enc.classifies(value[i], #[trigger] o1[i]),
        forall|i: int| 0 <= i < value.len() ==> enc.classifies(value[i], #[trigger] o2[i]),
    ensures
        expand(value, o1) == expand(value, o2),
{
    assert forall|i: int| 0 <= i < value.len() implies o1[i] == o2[i] by {
        assert(enc.classifies(value[i], o1[i]));
        assert(enc.classifies(value[i], o2[i]));
    }
    lemma_expand_prefix(value, o1, o2);
}

/// An encoder that classifies the double quote as duplicated and every other
/// character as written once quotes a value as the library's quoting does: the value
/// in double quotes with every double quote, the first one included, written twice.
pub proof fn lemma_add_quote_standard<const N: usize, E: Encoder<N>>(
    enc: &E,
    value: Seq<char>,
    outcomes: Seq<EscapeOutcome>,
)
    requires
        forall|c: char, o: EscapeOutcome|
            #[trigger] enc.classifies(c, o) ==> o == (if c == '"' {
                EscapeOutcome::DuplicatedQuote
            } else {
                EscapeOutcome::NotEscaped
            }),
        outcomes.len() == value.len(),
        forall|i: int| 0 <= i < value.len() ==> enc.classifies(value[i], #[trigger] outcomes[i]),
    ensures
        seq!['"'] + expand(value, outcomes) + seq!['"'] == quoted(value),
{
    assert forall|i: int| 0 <= i < value.len() implies outcomes[i] == (if value[i] == '"' {
        EscapeOutcome::DuplicatedQuote
    } else {
        EscapeOutcome::NotEscaped
    }) by {
        assert(enc.classifies(value[i], outcomes[i]));
    }
    lemma_expand_quotes(value, outcomes);
}

/// Writes records of `N` fields, deciding per character how a quoted field is escaped.
pub trait Encoder<const N: usize>: Sized {
    /// Whether writing the field `value` with `quote_mode` may take the encoder from
    /// `self` to `after` and report `result`: what the encoder promises of
    /// `write_str_field`. An encoder that promises nothing keeps this default.
    open spec fn str_field_written(
        &self,
        after: &Self,
        value: Seq<char>,
        quote_mode: QuoteMode,
        result: Result<usize>,
    ) -> bool {
        true
    }

    /// Whether `classify_char` may classify `c` as `outcome`: what the encoder promises
    /// of its classification. An encoder that promises nothing keeps this default.
    open spec fn classifies(&self, c: char, outcome: EscapeOutcome) -> bool {
        true
    }

    /// How `value` is escaped inside a quoted field.
    fn classify_char(&self, value: char) -> (r: EscapeOutcome)
        ensures
            self.classifies(value, r),
    ;

    /// Whether `value` must be quoted.
    fn should_quoting(&self, value: &str) -> bool;

    /// Adds a field to the current record.
    fn write_str_field(&mut self, value: &str, quote_mode: QuoteMode) -> (r: Result<usize>)
        ensures
            old(self).str_field_written(&*final(self), value@, quote_mode, r),
    ;

    /// Adds an owned text as a field: the same as writing its characters.
    fn write_string_field(&mut self, value: String, quote_mode: QuoteMode) -> (r: Result<usize>)
        ensures
            old(self).str_field_written(&*final(self), value@, quote_mode, r),
    {
        self.write_str_field(value.as_str(), quote_mode)
    }

    /// Adds the text form of `value` as a field: the same as writing the characters
    /// of that text.
    fn write_value_field<T: std::fmt::Display>(
        &mut self,
        value: &T,
        quote_mode: QuoteMode,
    ) -> (r: Result<usize>)
        ensures
            exists|s: String|
                #[trigger] vstd::string::to_string_from_display_ensures::<T>(value, s)
                && old(self).str_field_written(&*final(self), s@, quote_mode, r),
    {
        let s = value.to_string();
        self.write_str_field(s.as_str(), quote_mode)
    }

    /// Ends the current record.
    fn end_of_record(&mut self, should_flush: bool) -> Result<usize>;

    /// `value` surrounded by double quotes, each character that the encoder classifies
    /// as a duplicated quote written twice.
    fn add_quote(&self, value: &str) -> (r: String)
        ensures
            exists|outcomes: Seq<EscapeOutcome>|
                outcomes.len() == value@.len() && (forall|i: int|
                    0 <= i < value@.len() ==> self.classifies(value@[i], #[trigger] outcomes[i]))
                    && r@ == seq!['"'] + #[trigger] expand(value@, outcomes) + seq!['"'],
    {
        let ghost mut outcomes: Seq<EscapeOutcome> = Seq::empty();
        let mut buf = String::new();
        push_char(&mut buf, '"');
        for c in iter: value.chars()
            invariant
                iter.seq() == value@,
                outcomes.len() == iter.index(),
                forall|k: int| 0 <= k < iter.index() ==> self.classifies(value@[k], #[trigger] outcomes[k]),
                buf@ == seq!['"'] + expand(value@.take(iter.index() as int), outcomes),
        {
            let ghost i = iter.index() as int;
            let ghost prev = outcomes;
            let o = self.classify_char(c);
            proof {
                outcomes = outcomes.push(o);
                assert(value@.take(i + 1).drop_last() =~= value@.take(i));
                assert(value@.take(i + 1).last() == c);
                lemma_expand_prefix(value@.take(i), prev, outcomes);
            }
            match o {
                EscapeOutcome::DuplicatedQuote => {
                    push_char(&mut buf, c);
                    push_char(&mut buf, c);
                },
                EscapeOutcome::NotEscaped => {
                    push_char(&mut buf, c);
                },
            }
            assert(buf@ =~= seq!['"'] + expand(value@.take(i + 1), outcomes));
        }
        assert(value@.take(value@.len() as int) =~= value@);
        push_char(&mut buf, '"');
        buf
    }
}

} // verus!
