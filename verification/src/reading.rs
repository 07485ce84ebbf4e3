use vstd::prelude::*;

use crate::primitive_writer::join;
use crate::quote_mode::QuoteMode;
use crate::quoting::{double_quotes, encode_field, is_special, needs_quoting, quoted};

verus! {

/// Reads the content of a quoted field that follows its opening quote: the field's
/// value, with each pair of double quotes read as one, and what follows the closing
/// quote.
pub open spec fn read_quoted(u: Seq<char>) -> (Seq<char>, Seq<char>)
    decreases u.len(),
{
    if u.len() == 0 {
        (Seq::empty(), Seq::empty())
    } else if u[0] == '"' {
        if u.len() >= 2 && u[1] == '"' {
            let (v, rest) = read_quoted(u.skip(2));
            (seq!['"'] + v, rest)
        } else {
            (Seq::empty(), u.skip(1))
        }
    } else {
        let (v, rest) = read_quoted(u.skip(1));
        (seq![u[0]] + v, rest)
    }
}

/// Reads an unquoted field: its value runs up to the first delimiter, which begins
/// what follows.
pub open spec fn read_plain(u: Seq<char>, delimiter: char) -> (Seq<char>, Seq<char>)
    decreases u.len(),
{
    if u.len() == 0 {
        (Seq::empty(), Seq::empty())
    } else if u[0] == delimiter {
        (Seq::empty(), u)
    } else {
        let (v, rest) = read_plain(u.skip(1), delimiter);
        (seq![u[0]] + v, rest)
    }
}

/// Reads the first field of a record text: a quoted one when the text begins with a
/// double quote, an unquoted one otherwise.
pub open spec fn read_field(t: Seq<char>, delimiter: char) -> (Seq<char>, Seq<char>) {
    if t.len() > 0 && t[0] == '"' {
        read_quoted(t.skip(1))
    } else {
        read_plain(t, delimiter)
    }
}

/// What follows a quoted field is no longer than the text it was read from.
pub proof fn lemma_read_quoted_shorter(u: Seq<char>)
    ensures
        read_quoted(u).1.len() <= u.len(),
    decreases u.len(),
{
    if u.len() > 0 {
        if u[0] == '"' {
            if u.len() >= 2 && u[1] == '"' {
                lemma_read_quoted_shorter(u.skip(2));
            }
        } else {
            lemma_read_quoted_shorter(u.skip(1));
        }
    }
}

/// What follows an unquoted field is no longer than the text it was read from.
pub proof fn lemma_read_plain_shorter(u: Seq<char>, delimiter: char)
    ensures
        read_plain(u, delimiter).1.len() <= u.len(),
    decreases u.len(),
{
    if u.len() > 0 && u[0] != delimiter {
        lemma_read_plain_shorter(u.skip(1), delimiter);
    }
}

/// The values a reader takes a record text (without its line ending) to hold: field
/// after field, each ending at a delimiter that begins the rest of the text.
pub open spec fn read_record(t: Seq<char>, delimiter: char) -> Seq<Seq<char>>
    decreases t.len(),
{
    let (v, rest) = read_field(t, delimiter);
    if rest.len() > 0 && rest[0] == delimiter {
        proof {
            if t.len() > 0 && t[0] == '"' {
                lemma_read_quoted_shorter(t.skip(1));
            } else {
                lemma_read_plain_shorter(t, delimiter);
            }
        }
        seq![v] + read_record(rest.skip(1), delimiter)
    } else {
        seq![v]
    }
}

/// Doubling the quotes of a text that begins with `c`: the doubled `c`, then the rest
/// doubled.
proof fn lemma_double_quotes_front(c: char, w: Seq<char>)
    ensures
        double_quotes(seq![c] + w) == (if c == '"' {
            seq!['"', '"']
        } else {
            seq![c]
        }) + double_quotes(w),
    decreases w.len(),
{
    let s = seq![c] + w;
    if w.len() == 0 {
        assert(s.drop_last() =~= Seq::<char>::empty());
        assert(double_quotes(Seq::<char>::empty()) =~= Seq::<char>::empty());
        assert(double_quotes(s.drop_last()) =~= Seq::<char>::empty());
        assert(s.last() == c);
        if c == '"' {
            assert(double_quotes(s) =~= seq!['"', '"']);
        } else {
            assert(double_quotes(s) =~= seq![c]);
        }
        assert(double_quotes(w) =~= Seq::<char>::empty());
    } else {
        lemma_double_quotes_front(c, w.drop_last());
        assert(s.drop_last() =~= seq![c] + w.drop_last());
        assert(s.last() == w.last());
    }
}

/// A quoted field's content, followed by anything that does not begin with a double
/// quote, reads back as the value.
proof fn lemma_read_quoted_doubled(v: Seq<char>, suffix: Seq<char>)
    requires
        suffix.len() == 0 || suffix[0] != '"',
    ensures
        read_quoted(double_quotes(v) + seq!['"'] + suffix) == (v, suffix),
    decreases v.len(),
{
    let u = double_quotes(v) + seq!['"'] + suffix;
    if v.len() == 0 {
        assert(double_quotes(v) =~= Seq::<char>::empty());
        assert(u =~= seq!['"'] + suffix);
        assert(u.skip(1) =~= suffix);
    } else {
        let c = v[0];
        let w = v.skip(1);
        assert(v =~= seq![c] + w);
        lemma_double_quotes_front(c, w);
        lemma_read_quoted_doubled(w, suffix);
        let rest_u = double_quotes(w) + seq!['"'] + suffix;
        if c == '"' {
            assert(u =~= seq!['"', '"'] + rest_u);
            assert(u.skip(2) =~= rest_u);
        } else {
            assert(u =~= seq![c] + rest_u);
            assert(u.skip(1) =~= rest_u);
        }
        assert(seq![c] + w =~= v);
    }
}

/// An unquoted value free of the delimiter, followed by nothing or by the delimiter,
/// reads back as the value.
proof fn lemma_read_plain_value(v: Seq<char>, suffix: Seq<char>, delimiter: char)
    requires
        forall|k: int| 0 <= k < v.len() ==> v[k] != delimiter,
        suffix.len() == 0 || suffix[0] == delimiter,
    ensures
        read_plain(v + suffix, delimiter) == (v, suffix),
    decreases v.len(),
{
    let u = v + suffix;
    if v.len() == 0 {
        assert(u =~= suffix);
    } else {
        let w = v.skip(1);
        assert forall|k: int| 0 <= k < w.len() implies w[k] != delimiter by {
            assert(w[k] == v[k + 1]);
        }
        lemma_read_plain_value(w, suffix, delimiter);
        assert(u[0] == v[0]);
        assert(u.skip(1) =~= w + suffix);
        assert(seq![v[0]] + w =~= v);
    }
}

/// The text of a field written under a delimiter other than the double quote, followed
/// by nothing or by the delimiter, reads back as the field's value.
pub proof fn lemma_read_field_written(v: Seq<char>, delimiter: char, mode: QuoteMode, suffix: Seq<char>)
    requires
        delimiter != '"',
        suffix.len() == 0 || suffix[0] == delimiter,
    ensures
        read_field(encode_field(v, delimiter, mode) + suffix, delimiter) == (v, suffix),
{
    let e = encode_field(v, delimiter, mode);
    let t = e + suffix;
    if e == quoted(v) {
        assert(t[0] == '"');
        assert(t.skip(1) =~= double_quotes(v) + seq!['"'] + suffix);
        lemma_read_quoted_doubled(v, suffix);
    } else {
        assert(mode == QuoteMode::AutoDetect && !needs_quoting(v, delimiter));
        assert(e == v);
        assert forall|k: int| 0 <= k < v.len() implies v[k] != delimiter && v[k] != '"' by {
            assert(!is_special(v[k], delimiter));
        }
        if v.len() > 0 {
            assert(t[0] == v[0]);
        } else {
            assert(t =~= suffix);
        }
        lemma_read_plain_value(v, suffix, delimiter);
    }
}

/// The text of a record is its first field, the delimiter, then the text of the rest.
pub proof fn lemma_join_front(fields: Seq<Seq<char>>, delimiter: char)
    requires
        fields.len() >= 2,
    ensures
        join(fields, delimiter) == fields[0] + seq![delimiter] + join(fields.drop_first(), delimiter),
    decreases fields.len(),
{
    if fields.len() == 2 {
        let rest = fields.drop_first();
        assert(rest.len() == 1);
        assert(join(rest, delimiter) == rest[0]);
        assert(fields.drop_last().len() == 1);
        assert(join(fields.drop_last(), delimiter) == fields[0]);
    } else {
        let p = fields.drop_last();
        lemma_join_front(p, delimiter);
        assert(p.drop_first() =~= fields.drop_first().drop_last());
        assert(fields.drop_first().last() == fields.last());
    }
}

/// The texts of `values` written with `modes` under `delimiter`.
pub open spec fn written_fields(values: Seq<Seq<char>>, modes: Seq<QuoteMode>, delimiter: char) -> Seq<Seq<char>> {
    Seq::new(values.len(), |i: int| encode_field(values[i], delimiter, modes[i]))
}

/// A record written under a delimiter other than the double quote reads back as the
/// values it was written from, whatever quote mode each field was written with.
pub proof fn lemma_record_round_trip(values: Seq<Seq<char>>, modes: Seq<QuoteMode>, delimiter: char)
    requires
        delimiter != '"',
        values.len() >= 1,
        modes.len() == values.len(),
    ensures
        read_record(join(written_fields(values, modes, delimiter), delimiter), delimiter) == values,
    decreases values.len(),
{
    let fs = written_fields(values, modes, delimiter);
    if values.len() == 1 {
        assert(join(fs, delimiter) == fs[0]);
        lemma_read_field_written(values[0], delimiter, modes[0], Seq::empty());
        assert(fs[0] + Seq::<char>::empty() =~= fs[0]);
        assert(read_record(fs[0], delimiter) =~= seq![values[0]]);
        assert(seq![values[0]] =~= values);
    } else {
        let vs = values.drop_first();
        let ms = modes.drop_first();
        lemma_record_round_trip(vs, ms, delimiter);
        assert(written_fields(vs, ms, delimiter) =~= fs.drop_first());
        lemma_join_front(fs, delimiter);
        let rest_text = join(fs.drop_first(), delimiter);
        let suffix = seq![delimiter] + rest_text;
        lemma_read_field_written(values[0], delimiter, modes[0], suffix);
        assert(join(fs, delimiter) =~= fs[0] + suffix);
        assert(suffix.skip(1) =~= rest_text);
        assert(seq![values[0]] + vs =~= values);
    }
}

/// The bytes the buffering writer hands out for a record written under an ASCII
/// delimiter other than the double quote, read as UTF-8, read back as the values the
/// record was written from.
pub proof fn lemma_record_bytes_read_back(values: Seq<Seq<char>>, modes: Seq<QuoteMode>, delimiter: char)
    requires
        (delimiter as u32) < 128,
        delimiter != '"',
        values.len() >= 1,
        modes.len() == values.len(),
    ensures
        read_record(
            vstd::utf8::decode_utf8(
                vstd::utf8::encode_utf8(
                    crate::primitive_writer::terminated(written_fields(values, modes, delimiter), delimiter),
                ).drop_last(),
            ),
            delimiter,
        ) == values,
{
    broadcast use vstd::utf8::encode_utf8_decode_utf8;

    let fs = written_fields(values, modes, delimiter);
    crate::primitive_writer::lemma_record_body_is_joined_fields(fs, delimiter);
    lemma_record_round_trip(values, modes, delimiter);
}

} // verus!
