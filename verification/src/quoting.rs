use vstd::prelude::*;

use crate::quote_mode::QuoteMode;
use crate::strings::push_char;

verus! {

/// The characters of `s` with every double quote written twice.
pub open spec fn double_quotes(s: Seq<char>) -> Seq<char>
    decreases s.len(),
{
    if s.len() == 0 {
        Seq::empty()
    } else if s.last() == '"' {
        double_quotes(s.drop_last()) + seq!['"', '"']
    } else {
        double_quotes(s.drop_last()).push(s.last())
    }
}

/// A field surrounded by double quotes, its own double quotes doubled.
pub open spec fn quoted(s: Seq<char>) -> Seq<char> {
    seq!['"'] + double_quotes(s) + seq!['"']
}

/// Whether a character forces a field to be quoted under `delimiter`.
pub open spec fn is_special(c: char, delimiter: char) -> bool {
    c == '"' || c == '\n' || c == '\r' || c == delimiter
}

/// Whether some character of `s` forces quoting under `delimiter`.
pub open spec fn needs_quoting(s: Seq<char>, delimiter: char) -> bool {
    exists|i: int| 0 <= i < s.len() && #[trigger] is_special(s[i], delimiter)
}

/// Whether `c` occurs in `s`.
pub open spec fn contains_char(s: Seq<char>, c: char) -> bool {
    exists|i: int| 0 <= i < s.len() && s[i] == c
}

/// The text of a field whose quoting is detected from its content.
pub open spec fn auto_field(s: Seq<char>, delimiter: char) -> Seq<char> {
    if needs_quoting(s, delimiter) {
        quoted(s)
    } else {
        s
    }
}

/// The text of a field written with `mode` under `delimiter`.
pub open spec fn encode_field(s: Seq<char>, delimiter: char, mode: QuoteMode) -> Seq<char> {
    match mode {
        QuoteMode::Quoted => quoted(s),
        QuoteMode::AutoDetect => auto_field(s, delimiter),
    }
}

/// One step of `double_quotes`: the doubled form of a prefix grows by the next character.
pub proof fn lemma_double_quotes_step(s: Seq<char>, i: int)
    requires
        0 <= i < s.len(),
    ensures
        double_quotes(s.take(i + 1)) == double_quotes(s.take(i)) + (if s[i] == '"' {
            seq!['"', '"']
        } else {
            seq![s[i]]
        }),
{
    let t = s.take(i + 1);
    assert(t.drop_last() =~= s.take(i));
    assert(t.last() == s[i]);
    if s[i] != '"' {
        assert(double_quotes(s.take(i)).push(s[i]) =~= double_quotes(s.take(i)) + seq![s[i]]);
    }
}

/// Appends `value` with every double quote doubled.
pub fn push_doubled(buf: &mut String, value: &str)
    ensures
        final(buf)@ == old(buf)@ + double_quotes(value@),
{
    let ghost start = buf@;
    for c in iter: value.chars()
        invariant
            iter.seq() == value@,
            buf@ == start + double_quotes(value@.take(iter.index() as int)),
    {
        proof {
            lemma_double_quotes_step(value@, iter.index() as int);
        }
        if c == '"' {
            push_char(buf, '"');
            push_char(buf, '"');
        } else {
            push_char(buf, c);
        }
    }
    assert(value@.take(value@.len() as int) =~= value@);
}

/// Appends `value` surrounded by double quotes, its own double quotes doubled.
pub fn push_quoted(buf: &mut String, value: &str)
    ensures
        final(buf)@ == old(buf)@ + quoted(value@),
{
    let ghost start = buf@;
    push_char(buf, '"');
    push_doubled(buf, value);
    push_char(buf, '"');
    assert(buf@ =~= start + quoted(value@));
}

/// The quoted form of `value`.
pub fn quote(value: &str) -> (r: String)
    ensures
        r@ == quoted(value@),
{
    let mut r = String::new();
    push_quoted(&mut r, value);
    assert(r@ =~= quoted(value@));
    r
}

/// Whether `value` needs quoting under `delimiter`.
pub fn content_needs_quoting(value: &str, delimiter: char) -> (r: bool)
    ensures
        r == needs_quoting(value@, delimiter),
{
    let mut found = false;
    for c in iter: value.chars()
        invariant
            iter.seq() == value@,
            found == exists|k: int| 0 <= k < iter.index() && #[trigger] is_special(value@[k], delimiter),
    {
        if c == '"' || c == '\n' || c == '\r' || c == delimiter {
            assert(is_special(value@[iter.index() as int], delimiter));
            found = true;
        }
    }
    found
}

/// A text without double quotes is its own doubled form.
pub proof fn lemma_double_quotes_plain(s: Seq<char>)
    requires
        forall|k: int| 0 <= k < s.len() ==> s[k] != '"',
    ensures
        double_quotes(s) == s,
    decreases s.len(),
{
    if s.len() > 0 {
        let p = s.drop_last();
        assert forall|k: int| 0 <= k < p.len() implies p[k] != '"' by {
            assert(p[k] == s[k]);
        }
        lemma_double_quotes_plain(p);
        assert(s.last() == s[s.len() - 1]);
        assert(p.push(s.last()) =~= s);
    }
}

/// Collapses every pair of adjacent double quotes into one, reading from the end.
pub open spec fn collapse_quotes(t: Seq<char>) -> Seq<char>
    decreases t.len(),
{
    if t.len() == 0 {
        Seq::empty()
    } else if t.len() >= 2 && t.last() == '"' && t[t.len() - 2] == '"' {
        collapse_quotes(t.take(t.len() - 2)).push('"')
    } else {
        collapse_quotes(t.drop_last()).push(t.last())
    }
}

/// The value a reader takes a written field text to hold: a text enclosed in double
/// quotes stands for its inner part with doubled quotes collapsed; any other text
/// stands for itself.
pub open spec fn decode_field(t: Seq<char>) -> Seq<char> {
    if t.len() >= 2 && t[0] == '"' && t.last() == '"' {
        collapse_quotes(t.subrange(1, t.len() - 1))
    } else {
        t
    }
}

/// Collapsing the doubled quotes of a text gives the text back.
pub proof fn lemma_collapse_double_quotes(s: Seq<char>)
    ensures
        collapse_quotes(double_quotes(s)) == s,
    decreases s.len(),
{
    if s.len() > 0 {
        let p = s.drop_last();
        lemma_collapse_double_quotes(p);
        let t = double_quotes(s);
        if s.last() == '"' {
            assert(t.take(t.len() - 2) =~= double_quotes(p));
        } else {
            assert(t.drop_last() =~= double_quotes(p));
        }
        assert(p.push(s.last()) =~= s);
    }
}

/// A reader gets back every field value, whatever the quote mode and delimiter.
pub proof fn lemma_field_round_trip(s: Seq<char>, delimiter: char, mode: QuoteMode)
    ensures
        decode_field(encode_field(s, delimiter, mode)) == s,
{
    let q = quoted(s);
    lemma_collapse_double_quotes(s);
    assert(q.subrange(1, q.len() - 1) =~= double_quotes(s));
    if mode == QuoteMode::AutoDetect && !needs_quoting(s, delimiter) && s.len() >= 2 {
        assert(!is_special(s[0], delimiter));
    }
}

} // verus!
