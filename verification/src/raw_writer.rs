use vstd::prelude::*;

use crate::argument_error::{ArgumentError, Result as ArgumentResult};
use crate::playground::scalar::{scalar, scan_verdict};
use crate::quote_mode::QuoteMode;
use crate::playground::scalar::lemma_byte_scan_matches_text;
use crate::quoting::{encode_field, quote, quoted};
use crate::reading::written_fields;
use crate::strings::lemma_encode_utf8_concat;
use crate::strings::{push_char, to_owned_string};

verus! {

/// Whether the text of a field that `RawWriter::add_quote` is given is quoted: as
/// asked, or else as its bytes require.
pub open spec fn raw_quote_decision(value: Seq<char>, delimiter: u8, should_quote: Option<bool>) -> bool {
    match should_quote {
        Some(b) => b,
        None => scan_verdict(vstd::utf8::encode_utf8(value), delimiter).0,
    }
}

/// The field text this writer sends for `value` under the delimiter byte `delimiter`
/// and `quote_mode`.
pub open spec fn raw_field_text(value: Seq<char>, delimiter: u8, quote_mode: QuoteMode) -> Seq<char> {
    if raw_quote_decision(
        value,
        delimiter,
        match quote_mode {
            QuoteMode::Quoted => Some(true),
            QuoteMode::AutoDetect => None,
        },
    ) {
        quoted(value)
    } else {
        value
    }
}

/// A writer over an ASCII delimiter byte sends the same field text as the buffering
/// writer, which works on characters, writes for that delimiter's character.
pub proof fn lemma_raw_field_matches_text(value: Seq<char>, delimiter: u8, quote_mode: QuoteMode)
    requires
        delimiter < 128,
    ensures
        raw_field_text(value, delimiter, quote_mode) == encode_field(
            value,
            (delimiter as u32) as char,
            quote_mode,
        ),
{
    let c = (delimiter as u32) as char;
    assert((c as u32) == (delimiter as u32));
    assert(((c as u32) as u8) == delimiter);
    lemma_byte_scan_matches_text(value, c);
}

/// The field texts of a record put one after another, with nothing between them.
pub open spec fn concat_fields(fields: Seq<Seq<char>>) -> Seq<char>
    decreases fields.len(),
{
    if fields.len() == 0 {
        Seq::empty()
    } else {
        concat_fields(fields.drop_last()) + fields.last()
    }
}

/// The bytes this writer hands out for a record of `values` written with `modes`: each
/// field's bytes, one call after another, with nothing sent between them.
pub open spec fn raw_stream(values: Seq<Seq<char>>, modes: Seq<QuoteMode>, delimiter: u8) -> Seq<u8>
    decreases values.len(),
{
    if values.len() == 0 {
        Seq::empty()
    } else {
        raw_stream(values.drop_last(), modes, delimiter) + vstd::utf8::encode_utf8(
            raw_field_text(values.last(), delimiter, modes[values.len() - 1]),
        )
    }
}

/// Under an ASCII delimiter byte, the bytes this writer hands out for a record are the
/// UTF-8 form of the field texts the buffering writer writes, put one after another.
pub proof fn lemma_raw_stream_is_field_texts(values: Seq<Seq<char>>, modes: Seq<QuoteMode>, delimiter: u8)
    requires
        delimiter < 128,
        modes.len() >= values.len(),
    ensures
        raw_stream(values, modes, delimiter) == vstd::utf8::encode_utf8(
            concat_fields(written_fields(values, modes, (delimiter as u32) as char)),
        ),
    decreases values.len(),
{
    let c = (delimiter as u32) as char;
    let fs = written_fields(values, modes, c);
    if values.len() > 0 {
        let n = values.len() - 1;
        lemma_raw_stream_is_field_texts(values.drop_last(), modes, delimiter);
        assert(written_fields(values.drop_last(), modes, c) =~= fs.drop_last());
        lemma_raw_field_matches_text(values.last(), delimiter, modes[n]);
        assert(fs.last() == encode_field(values[n], c, modes[n]));
        lemma_encode_utf8_concat(concat_fields(fs.drop_last()), fs.last());
    } else {
        assert(fs.len() == 0);
        assert(vstd::utf8::encode_utf8(Seq::<char>::empty()) =~= Seq::<u8>::empty());
    }
}

/// The deciding part of a record writer over an ASCII delimiter that hands each field to
/// its destination as it comes: it keeps the delimiter byte, which decides quoting, and
/// the number of fields sent in the current record, and says which bytes each field is
/// sent as. A field is sent alone: nothing is sent between fields.
#[derive(Debug)]
pub struct RawWriter {
    cnt: usize,
    delimiter: u8,
}

impl RawWriter {
    /// The delimiter byte.
    pub closed spec fn delimiter_spec(&self) -> u8 {
        self.delimiter
    }

    /// The number of fields sent in the current record.
    pub closed spec fn count(&self) -> nat {
        self.cnt as nat
    }

    /// The writer's internal consistency: an ASCII delimiter other than a double quote.
    pub closed spec fn wf(&self) -> bool {
        self.delimiter < 128 && self.delimiter != 34
    }

    /// A writer that quotes the fields holding `delimiter`; a delimiter that is not
    /// ASCII, or is a double quote, is refused.
    pub fn try_new(delimiter: char) -> (r: ArgumentResult<Self>)
        ensures
            r is Err <==> ((delimiter as u32) >= 128 || delimiter == '"'),
            r is Err ==> r->Err_0 is ArgumentError,
            r is Ok ==> r->Ok_0.wf() && r->Ok_0.delimiter_spec() == (delimiter as u32) as u8
                && r->Ok_0.count() == 0,
    {
        let code: u32 = delimiter as u32;
        if code >= 128 {
            let mut message = to_owned_string("delimiter: delimiter must be ascii, but got ");
            push_char(&mut message, delimiter);
            return Err(ArgumentError::ArgumentError(message));
        }
        if delimiter == '"' {
            Err(ArgumentError::ArgumentError(to_owned_string("delimiter: \" is not allowed as delimiter")))
        } else {
            let d: u8 = code as u8;
            Ok(RawWriter { cnt: 0, delimiter: d })
        }
    }

    /// The delimiter byte.
    pub fn delimiter(&self) -> (r: u8)
        ensures
            r == self.delimiter_spec(),
    {
        self.delimiter
    }

    /// The characters that force quoting: the delimiter, line feed, carriage return
    /// and double quote.
    pub fn escape_set(&self) -> (r: Vec<char>)
        requires
            self.wf(),
        ensures
            r@ == seq![(self.delimiter_spec() as u32) as char, '\n', '\r', '"'],
    {
        let code: u32 = self.delimiter as u32;
        let c: char = if code < 128 { code as u8 as char } else { '\0' };
        assert(c == (self.delimiter as u32) as char);
        let mut r: Vec<char> = Vec::new();
        r.push(c);
        r.push('\n');
        r.push('\r');
        r.push('"');
        r
    }

    /// Whether `value` must be quoted, and whether it holds a double quote, from a scan
    /// of its bytes.
    pub fn should_quote(&self, value: &str) -> (r: (bool, bool))
        ensures
            r == scan_verdict(vstd::utf8::encode_utf8(value@), self.delimiter_spec()),
    {
        let d = scalar(value.as_bytes(), self.delimiter);
        (d.should_quote(), d.double_quote())
    }

    /// The bytes of `value` as a field: quoted as `should_quote` asks, or as its
    /// content requires when it asks nothing.
    pub fn add_quote(&self, value: &str, should_quote: Option<bool>) -> (r: Vec<u8>)
        ensures
            r@ == vstd::utf8::encode_utf8(
                if raw_quote_decision(value@, self.delimiter_spec(), should_quote) {
                    quoted(value@)
                } else {
                    value@
                },
            ),
    {
        let decision = match should_quote {
            Some(b) => b,
            None => self.should_quote(value).0,
        };
        if decision {
            let q = quote(value);
            vstd::slice::slice_to_vec(q.as_str().as_bytes())
        } else {
            vstd::slice::slice_to_vec(value.as_bytes())
        }
    }

    /// The bytes handed to the destination for a field with `value` and `quote_mode`:
    /// the field alone, whether or not it is the first of the record.
    pub fn field_bytes(&self, value: &str, quote_mode: QuoteMode) -> (r: Vec<u8>)
        ensures
            r@ == vstd::utf8::encode_utf8(raw_field_text(value@, self.delimiter_spec(), quote_mode)),
    {
        let ask = match quote_mode {
            QuoteMode::Quoted => Some(true),
            QuoteMode::AutoDetect => None,
        };
        self.add_quote(value, ask)
    }

    /// Records that a field was sent and returns the number of fields in the record.
    pub fn commit_field(&mut self) -> (r: usize)
        requires
            old(self).count() < usize::MAX,
        ensures
            final(self).delimiter_spec() == old(self).delimiter_spec(),
            final(self).wf() == old(self).wf(),
            final(self).count() == old(self).count() + 1,
            r == final(self).count(),
    {
        self.cnt = self.cnt + 1;
        self.cnt
    }

    /// Ends the current record and returns how many fields it held.
    pub fn end_of_record(&mut self) -> (r: usize)
        ensures
            final(self).delimiter_spec() == old(self).delimiter_spec(),
            final(self).wf() == old(self).wf(),
            final(self).count() == 0,
            r == old(self).count(),
    {
        let c = self.cnt;
        self.cnt = 0;
        c
    }

    /// The number of fields sent in the current record.
    pub fn cnt(&self) -> (r: usize)
        ensures
            r == self.count(),
    {
        self.cnt
    }
}

} // verus!
