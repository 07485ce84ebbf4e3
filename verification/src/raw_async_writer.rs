use vstd::prelude::*;

use crate::argument_error::{ArgumentError, Result as ArgumentResult};
use crate::primitive_writer::join;
use crate::quote_mode::QuoteMode;
use crate::quoting::{encode_field, is_special, needs_quoting, quote};
use crate::strings::{encode_char, lemma_encode_utf8_concat, to_owned_string};

verus! {

/// The characters that force quoting under `delimiter`, each once, in the order
/// delimiter, line feed, carriage return, double quote.
pub open spec fn async_escape_set(delimiter: char) -> Seq<char> {
    if delimiter == '\n' || delimiter == '\r' {
        seq!['\n', '\r', '"']
    } else {
        seq![delimiter, '\n', '\r', '"']
    }
}

/// The bytes sent for the fields of a record, one field at a time: every field after
/// the first is preceded by the UTF-8 form of the delimiter.
pub open spec fn field_stream(fields: Seq<Seq<char>>, delimiter: char) -> Seq<u8>
    decreases fields.len(),
{
    if fields.len() == 0 {
        Seq::empty()
    } else {
        field_stream(fields.drop_last(), delimiter) + (if fields.len() > 1 {
            vstd::utf8::encode_utf8(seq![delimiter])
        } else {
            Seq::empty()
        }) + vstd::utf8::encode_utf8(fields.last())
    }
}

/// The bytes sent for a record's fields, one at a time, are the UTF-8 form of the
/// field texts joined by the delimiter.
pub proof fn lemma_field_stream_is_joined_fields(fields: Seq<Seq<char>>, delimiter: char)
    ensures
        field_stream(fields, delimiter) == vstd::utf8::encode_utf8(join(fields, delimiter)),
    decreases fields.len(),
{
    if fields.len() == 0 {
        assert(vstd::utf8::encode_utf8(Seq::<char>::empty()) =~= Seq::<u8>::empty());
    } else if fields.len() == 1 {
        let p = fields.drop_last();
        assert(field_stream(p, delimiter) =~= Seq::<u8>::empty());
        assert(fields.last() == fields[0]);
        assert(field_stream(fields, delimiter) =~= vstd::utf8::encode_utf8(fields[0]));
    } else {
        let p = fields.drop_last();
        lemma_field_stream_is_joined_fields(p, delimiter);
        let j = join(p, delimiter);
        lemma_encode_utf8_concat(j, seq![delimiter]);
        lemma_encode_utf8_concat(j + seq![delimiter], fields.last());
    }
}

/// The deciding part of a record writer that sends each field as it comes: it keeps
/// the delimiter and the number of fields sent in the current record, and says which
/// bytes each field is sent as.
pub struct RawAsyncWriter {
    set: Vec<char>,
    cnt: usize,
    delimiter: Vec<u8>,
    delimiter_char: Ghost<char>,
}

impl RawAsyncWriter {
    /// The delimiter.
    pub closed spec fn delimiter_spec(&self) -> char {
        self.delimiter_char@
    }

    /// The number of fields sent in the current record.
    pub closed spec fn count(&self) -> nat {
        self.cnt as nat
    }

    /// The writer's internal consistency.
    pub closed spec fn wf(&self) -> bool {
        &&& self.set@ == async_escape_set(self.delimiter_char@)
        &&& self.delimiter@ == vstd::utf8::encode_utf8(seq![self.delimiter_char@])
        &&& self.delimiter_char@ != '"'
    }

    /// A writer that separates fields with `delimiter`; a double quote is refused.
    pub fn try_new(delimiter: char) -> (r: ArgumentResult<Self>)
        ensures
            r is Err <==> delimiter == '"',
            r is Err ==> r->Err_0 is ArgumentError,
            r is Ok ==> r->Ok_0.wf() && r->Ok_0.delimiter_spec() == delimiter && r->Ok_0.count()
                == 0,
    {
        if delimiter == '"' {
            return Err(
                ArgumentError::ArgumentError(
                    to_owned_string("delimiter: double quote cannot be used as delimiter"),
                ),
            );
        }
        let mut set: Vec<char> = Vec::new();
        set.push(delimiter);
        if delimiter == '\n' || delimiter == '\r' {
            set = Vec::new();
        }
        set.push('\n');
        set.push('\r');
        set.push('"');
        let w = Self { set, cnt: 0, delimiter: encode_char(delimiter), delimiter_char: Ghost(delimiter) };
        assert(w.set@ =~= async_escape_set(delimiter));
        Ok(w)
    }

    /// The characters that force quoting.
    pub fn escape_chars(&self) -> (r: &Vec<char>)
        requires
            self.wf(),
        ensures
            r@ == async_escape_set(self.delimiter_spec()),
    {
        &self.set
    }

    /// Whether `value` holds a character that forces quoting.
    pub fn should_quoting(&self, value: &str) -> (r: bool)
        requires
            self.wf(),
        ensures
            r == needs_quoting(value@, self.delimiter_spec()),
    {
        let mut found = false;
        for c in iter: value.chars()
            invariant
                self.wf(),
                iter.seq() == value@,
                found == exists|k: int|
                    0 <= k < iter.index() && #[trigger] is_special(value@[k], self.delimiter_spec()),
        {
            let mut j: usize = 0;
            let mut hit = false;
            while j < self.set.len()
                invariant
                    self.wf(),
                    0 <= j <= self.set@.len(),
                    hit == exists|m: int| 0 <= m < j && self.set@[m] == c,
                decreases self.set@.len() - j,
            {
                if self.set[j] == c {
                    hit = true;
                }
                j = j + 1;
            }
            assert(hit == is_special(c, self.delimiter_spec()));
            if hit {
                assert(is_special(value@[iter.index() as int], self.delimiter_spec()));
                found = true;
            }
        }
        found
    }

    /// The bytes of the delimiter sent before a field, which every field but the
    /// first of a record gets.
    pub fn separator(&self) -> (r: Option<Vec<u8>>)
        requires
            self.wf(),
        ensures
            self.count() == 0 ==> r is None,
            self.count() > 0 ==> r is Some && r->0@ == vstd::utf8::encode_utf8(seq![self.delimiter_spec()]),
    {
        if self.cnt > 0 {
            Some(self.delimiter.clone())
        } else {
            None
        }
    }

    /// The bytes sent for a field with `value` and `quote_mode`: its text, quoted as the
    /// mode asks or as its content requires.
    pub fn field_bytes(&self, value: &str, quote_mode: QuoteMode) -> (r: Vec<u8>)
        requires
            self.wf(),
        ensures
            r@ == vstd::utf8::encode_utf8(encode_field(value@, self.delimiter_spec(), quote_mode)),
    {
        let quoted_mode = match quote_mode {
            QuoteMode::Quoted => true,
            QuoteMode::AutoDetect => false,
        };
        let tmp = if quoted_mode || self.should_quoting(value) {
            quote(value)
        } else {
            to_owned_string(value)
        };
        vstd::slice::slice_to_vec(tmp.as_str().as_bytes())
    }

    /// Records that a field was sent and returns the number of fields in the record.
    pub fn commit_field(&mut self) -> (r: usize)
        requires
            old(self).wf(),
            old(self).count() < usize::MAX,
        ensures
            final(self).wf(),
            final(self).delimiter_spec() == old(self).delimiter_spec(),
            final(self).count() == old(self).count() + 1,
            r == final(self).count(),
    {
        self.cnt = self.cnt + 1;
        self.cnt
    }

    /// Ends the current record and returns how many fields it held.
    pub fn end_of_record(&mut self) -> (r: usize)
        requires
            old(self).wf(),
        ensures
            final(self).wf(),
            final(self).delimiter_spec() == old(self).delimiter_spec(),
            final(self).count() == 0,
            r == old(self).count(),
    {
        let c = self.cnt;
        self.cnt = 0;
        c
    }

    /// The number of fields sent in the current record.
    pub fn cnt(&self) -> (r: usize)
        ensures
            r == self.count(),
    {
        self.cnt
    }
}

} // verus!
