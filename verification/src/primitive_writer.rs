use vstd::prelude::*;

pub use crate::quote_mode::QuoteMode;
use crate::quoting::{auto_field, encode_field, is_special, lemma_double_quotes_plain, needs_quoting, push_quoted, quoted};
use crate::strings::{push_char, push_str};

verus! {

/// The characters that force quoting under `delimiter`, each once, in the order
/// double quote, line feed, carriage return, delimiter.
pub open spec fn escape_set_of(delimiter: char) -> Seq<char> {
    if delimiter == '"' || delimiter == '\n' || delimiter == '\r' {
        seq!['"', '\n', '\r']
    } else {
        seq!['"', '\n', '\r', delimiter]
    }
}

/// The fields of a record, each followed by the delimiter.
pub open spec fn terminated(fields: Seq<Seq<char>>, delimiter: char) -> Seq<char>
    decreases fields.len(),
{
    if fields.len() == 0 {
        Seq::empty()
    } else {
        terminated(fields.drop_last(), delimiter) + fields.last() + seq![delimiter]
    }
}

/// The fields of a record separated by the delimiter.
pub open spec fn join(fields: Seq<Seq<char>>, delimiter: char) -> Seq<char>
    decreases fields.len(),
{
    if fields.len() == 0 {
        Seq::empty()
    } else if fields.len() == 1 {
        fields[0]
    } else {
        join(fields.drop_last(), delimiter) + seq![delimiter] + fields.last()
    }
}

/// A record writer that buffers the fields of the current record.
///
/// Fields are held as text until the record ends; the bytes of the record are then
/// handed out for the caller to send.
pub struct PrimitiveWriter {
    delimiter: char,
    esc_set: Vec<char>,
    buffer: String,
    cnt: usize,
    fields: Ghost<Seq<Seq<char>>>,
}

impl PrimitiveWriter {
    /// The delimiter this writer separates fields with.
    pub closed spec fn delimiter_spec(&self) -> char {
        self.delimiter
    }

    /// The field texts written into the current record, in order.
    pub closed spec fn pending(&self) -> Seq<Seq<char>> {
        self.fields@
    }

    /// The writer's internal consistency.
    pub closed spec fn wf(&self) -> bool {
        &&& self.buffer@ == terminated(self.fields@, self.delimiter)
        &&& self.cnt == self.fields@.len()
        &&& self.esc_set@ == escape_set_of(self.delimiter)
    }

    /// A writer with an empty record that separates fields with `delimiter`.
    pub fn new(delimiter: char) -> (r: Self)
        ensures
            r.wf(),
            r.delimiter_spec() == delimiter,
            r.pending() == Seq::<Seq<char>>::empty(),
    {
        let mut esc_set: Vec<char> = Vec::new();
        esc_set.push('"');
        esc_set.push('\n');
        esc_set.push('\r');
        if delimiter != '"' && delimiter != '\n' && delimiter != '\r' {
            esc_set.push(delimiter);
        }
        let r = PrimitiveWriter {
            delimiter,
            esc_set,
            buffer: String::new(),
            cnt: 0,
            fields: Ghost(Seq::empty()),
        };
        assert(r.esc_set@ =~= escape_set_of(delimiter));
        assert(r.buffer@ =~= terminated(Seq::empty(), delimiter));
        r
    }

    /// The characters that force a field to be quoted.
    pub fn escape_chars(&self) -> (r: &Vec<char>)
        requires
            self.wf(),
        ensures
            r@ == escape_set_of(self.delimiter_spec()),
    {
        &self.esc_set
    }

    /// Whether `c` is one of the characters that force quoting.
    fn is_escape_char(&self, c: char) -> (r: bool)
        requires
            self.wf(),
        ensures
            r == is_special(c, self.delimiter),
    {
        let mut i: usize = 0;
        while i < self.esc_set.len()
            invariant
                self.wf(),
                0 <= i <= self.esc_set@.len(),
                forall|k: int| 0 <= k < i ==> self.esc_set@[k] != c,
            decreases self.esc_set@.len() - i,
        {
            if self.esc_set[i] == c {
                return true;
            }
            i = i + 1;
        }
        false
    }

    /// The text of `value` with quoting detected from its content, and whether it
    /// was quoted.
    pub fn escape(&self, value: &str) -> (r: (String, bool))
        requires
            self.wf(),
        ensures
            r.0@ == auto_field(value@, self.delimiter_spec()),
            r.1 == needs_quoting(value@, self.delimiter_spec()),
    {
        let mut should_quoted = false;
        let mut has_quote = false;
        for c in iter: value.chars()
            invariant
                self.wf(),
                iter.seq() == value@,
                should_quoted == exists|k: int|
                    0 <= k < iter.index() && #[trigger] is_special(value@[k], self.delimiter),
                has_quote == exists|k: int| 0 <= k < iter.index() && value@[k] == '"',
        {
            if self.is_escape_char(c) {
                assert(is_special(value@[iter.index() as int], self.delimiter));
                should_quoted = true;
            }
            if c == '"' {
                has_quote = true;
            }
        }
        if has_quote {
            let mut buff = String::new();
            push_quoted(&mut buff, value);
            assert(is_special(value@[choose|k: int| 0 <= k < value@.len() && value@[k] == '"'], self.delimiter));
            assert(buff@ =~= quoted(value@));
            (buff, true)
        } else if should_quoted {
            let mut buff = String::new();
            push_char(&mut buff, '"');
            push_str(&mut buff, value);
            push_char(&mut buff, '"');
            proof {
                lemma_double_quotes_plain(value@);
            }
            assert(buff@ =~= quoted(value@));
            (buff, true)
        } else {
            (crate::strings::to_owned_string(value), false)
        }
    }

    /// `value` surrounded by double quotes, its own double quotes doubled.
    pub fn add_quote(&self, value: &str) -> (r: String)
        requires
            self.wf(),
        ensures
            r@ == quoted(value@),
    {
        let (cow, flg) = self.escape(value);
        if flg {
            cow
        } else {
            let mut buff = String::new();
            push_char(&mut buff, '"');
            push_str(&mut buff, cow.as_str());
            push_char(&mut buff, '"');
            proof {
                assert forall|k: int| 0 <= k < value@.len() implies value@[k] != '"' by {
                    if value@[k] == '"' {
                        assert(is_special(value@[k], self.delimiter));
                    }
                }
                lemma_double_quotes_plain(value@);
            }
            assert(buff@ =~= quoted(value@));
            buff
        }
    }

    /// Adds a field to the current record and returns the number of fields in it.
    pub fn write_str_field(&mut self, field: &str, quote_mode: QuoteMode) -> (r: usize)
        requires
            old(self).wf(),
            old(self).pending().len() < usize::MAX,
        ensures
            final(self).wf(),
            final(self).delimiter_spec() == old(self).delimiter_spec(),
            final(self).pending() == old(self).pending().push(
                encode_field(field@, old(self).delimiter_spec(), quote_mode),
            ),
            r == final(self).pending().len(),
    {
        let cow = match quote_mode {
            QuoteMode::Quoted => self.add_quote(field),
            QuoteMode::AutoDetect => self.escape(field).0,
        };
        let ghost enc = encode_field(field@, self.delimiter, quote_mode);
        let ghost new_fields = self.fields@.push(enc);
        assert(cow@ == enc);
        push_str(&mut self.buffer, cow.as_str());
        push_char(&mut self.buffer, self.delimiter);
        self.cnt = self.cnt + 1;
        self.fields = Ghost(new_fields);
        assert(new_fields.drop_last() =~= old(self).fields@);
        assert(self.buffer@ =~= terminated(new_fields, self.delimiter));
        self.cnt
    }

    /// Adds the text form of `field` to the current record and returns the number of
    /// fields in it.
    pub fn write_value_field<T: std::fmt::Display>(&mut self, field: &T, quote_mode: QuoteMode) -> (r: usize)
        requires
            old(self).wf(),
            old(self).pending().len() < usize::MAX,
        ensures
            final(self).wf(),
            final(self).delimiter_spec() == old(self).delimiter_spec(),
            exists|s: String|
                #[trigger] vstd::string::to_string_from_display_ensures::<T>(field, s)
                && final(self).pending() == old(self).pending().push(
                    encode_field(s@, old(self).delimiter_spec(), quote_mode),
                ),
            r == final(self).pending().len(),
    {
        let s = field.to_string();
        self.write_str_field(s.as_str(), quote_mode)
    }

    /// The bytes that carry the current record, without its line ending: the UTF-8
    /// form of its buffered text with the last byte left out, or `None` when the
    /// record holds no field.
    pub fn record_body(&self) -> (r: Option<Vec<u8>>)
        requires
            self.wf(),
        ensures
            self.pending().len() == 0 ==> r is None,
            self.pending().len() > 0 ==> r is Some && r->0@ == vstd::utf8::encode_utf8(
                terminated(self.pending(), self.delimiter_spec()),
            ).drop_last(),
    {
        if self.cnt == 0 {
            None
        } else {
            let bytes = self.buffer.as_str().as_bytes();
            proof {
                lemma_terminated_nonempty(self.fields@, self.delimiter);
                lemma_encode_utf8_nonempty(self.buffer@);
            }
            let body = vstd::slice::slice_subrange(bytes, 0, bytes.len() - 1);
            let v = vstd::slice::slice_to_vec(body);
            assert(v@ =~= vstd::utf8::encode_utf8(self.buffer@).drop_last());
            Some(v)
        }
    }

    /// Ends the current record: forgets its fields and returns how many there were.
    pub fn end_of_record(&mut self) -> (r: usize)
        requires
            old(self).wf(),
        ensures
            final(self).wf(),
            final(self).delimiter_spec() == old(self).delimiter_spec(),
            final(self).pending() == Seq::<Seq<char>>::empty(),
            r == old(self).pending().len(),
    {
        let n = self.cnt;
        self.cnt = 0;
        self.buffer = String::new();
        self.fields = Ghost(Seq::empty());
        assert(self.buffer@ =~= terminated(Seq::empty(), self.delimiter));
        n
    }

    /// The number of fields in the current record.
    pub fn count(&self) -> (r: usize)
        requires
            self.wf(),
        ensures
            r == self.pending().len(),
    {
        self.cnt
    }
}

/// The delimiter-terminated text of some fields is their joined text followed by the
/// delimiter.
pub proof fn lemma_terminated_join(fields: Seq<Seq<char>>, delimiter: char)
    requires
        fields.len() > 0,
    ensures
        terminated(fields, delimiter) == join(fields, delimiter) + seq![delimiter],
    decreases fields.len(),
{
    let p = fields.drop_last();
    if fields.len() == 1 {
        assert(p.len() == 0);
        assert(terminated(p, delimiter) =~= Seq::<char>::empty());
        assert(fields.last() == fields[0]);
        assert(terminated(fields, delimiter) =~= join(fields, delimiter) + seq![delimiter]);
    } else {
        lemma_terminated_join(p, delimiter);
        assert(terminated(fields, delimiter) =~= join(fields, delimiter) + seq![delimiter]);
    }
}

/// For an ASCII delimiter, the body of a record that holds fields is the UTF-8 form of
/// the field texts joined by the delimiter: leaving out the last byte removes exactly
/// the delimiter that follows the last field.
pub proof fn lemma_record_body_is_joined_fields(fields: Seq<Seq<char>>, delimiter: char)
    requires
        fields.len() > 0,
        (delimiter as u32) < 128,
    ensures
        vstd::utf8::encode_utf8(terminated(fields, delimiter)).drop_last()
            == vstd::utf8::encode_utf8(join(fields, delimiter)),
{
    lemma_terminated_join(fields, delimiter);
    crate::strings::lemma_encode_utf8_concat(join(fields, delimiter), seq![delimiter]);
    crate::strings::lemma_encode_ascii_char(delimiter);
    assert(vstd::utf8::encode_utf8(terminated(fields, delimiter)).drop_last()
        =~= vstd::utf8::encode_utf8(join(fields, delimiter)));
}

/// The delimiter-terminated text of at least one field is not empty.
proof fn lemma_terminated_nonempty(fields: Seq<Seq<char>>, delimiter: char)
    requires
        fields.len() > 0,
    ensures
        terminated(fields, delimiter).len() > 0,
{
}

/// The UTF-8 form of a non-empty text is not empty.
proof fn lemma_encode_utf8_nonempty(s: Seq<char>)
    requires
        s.len() > 0,
    ensures
        vstd::utf8::encode_utf8(s).len() > 0,
{
    broadcast use vstd::utf8::char_is_scalar;
    assert(vstd::utf8::encode_scalar(s[0] as u32).len() > 0);
}

} // verus!
