use vstd::prelude::*;

use crate::playground::shared::{check_delimiter, valid_delimiter, InvalidDelimiter};
use crate::quoting::{contains_char, is_special, needs_quoting};
use crate::playground::should_quote_datum::{ShouldQuoteDatum, ShouldQuoteResult};

verus! {

/// Whether a byte forces a field to be quoted under the delimiter byte `delimiter`.
pub open spec fn is_special_byte(b: u8, delimiter: u8) -> bool {
    b == 13 || b == 10 || b == delimiter || b == 34
}

/// Whether some byte of `s` forces quoting under the delimiter byte `delimiter`.
pub open spec fn bytes_need_quote(s: Seq<u8>, delimiter: u8) -> bool {
    exists|i: int| 0 <= i < s.len() && #[trigger] is_special_byte(s[i], delimiter)
}

/// Whether the byte `b` occurs in `s`.
pub open spec fn bytes_contain(s: Seq<u8>, b: u8) -> bool {
    exists|i: int| 0 <= i < s.len() && s[i] == b
}

/// The outcome of scanning the bytes `s` under the delimiter byte `delimiter`.
pub open spec fn scan_verdict(s: Seq<u8>, delimiter: u8) -> (bool, bool) {
    (bytes_need_quote(s, delimiter), bytes_contain(s, 34))
}

/// Scans `target` byte by byte, stopping at the first double quote.
pub fn scalar(target: &[u8], delimiter: u8) -> (r: ShouldQuoteDatum)
    ensures
        r@ == scan_verdict(target@, delimiter),
{
    let mut should_quote = false;
    let mut i: usize = 0;
    while i < target.len()
        invariant
            0 <= i <= target@.len(),
            should_quote == exists|k: int| 0 <= k < i && #[trigger] is_special_byte(target@[k], delimiter),
            forall|k: int| 0 <= k < i ==> target@[k] != 34,
        decreases target@.len() - i,
    {
        let elem = target[i];
        should_quote = should_quote || elem == 13 || elem == 10 || elem == delimiter;
        if elem == 34 {
            assert(is_special_byte(target@[i as int], delimiter));
            return ShouldQuoteDatum::new(true, true);
        }
        if elem == 13 || elem == 10 || elem == delimiter {
            assert(is_special_byte(target@[i as int], delimiter));
        }
        i = i + 1;
    }
    ShouldQuoteDatum::new(should_quote, false)
}

/// Checks the delimiter, then scans the UTF-8 bytes of `target`.
pub fn should_quote(target: &str, delimiter: char) -> (r: ShouldQuoteResult)
    ensures
        r is Ok <==> valid_delimiter(delimiter),
        r is Err ==> r->Err_0 == (InvalidDelimiter { delimiter }),
        r is Ok ==> r->Ok_0@ == scan_verdict(
            vstd::utf8::encode_utf8(target@),
            (delimiter as u32) as u8,
        ),
{
    match check_delimiter(delimiter) {
        Err(e) => Err(e),
        Ok(()) => {
            let d: u32 = delimiter as u32;
            Ok(scalar(target.as_bytes(), d as u8))
        },
    }
}

/// An ASCII byte occurs in the UTF-8 form of a character exactly when the character is
/// that byte's character: the bytes of longer forms all have the high bit set.
proof fn lemma_scalar_contains_ascii(c: char, b: u8)
    requires
        b < 128,
    ensures
        bytes_contain(vstd::utf8::encode_scalar(c as u32), b) <==> (c as u32) == (b as u32),
{
    broadcast use vstd::utf8::char_is_scalar;
    let v = c as u32;
    let e = vstd::utf8::encode_scalar(v);
    if vstd::utf8::has_width_1_encoding(v) {
        assert((v & 0x7F) as u8 == v as u8) by (bit_vector)
            requires
                v < 128,
        ;
        assert(e[0] == v as u8);
        if (c as u32) == (b as u32) {
            assert(e[0] == b);
        }
    } else {
        assert forall|j: int| 0 <= j < e.len() implies e[j] >= 128 by {
            assert forall|x: u8| #![auto] (0x80u8 | x) >= 128 && (0xC0u8 | x) >= 128
                && (0xE0u8 | x) >= 128 && (0xF0u8 | x) >= 128 by {
                assert((0x80u8 | x) >= 128 && (0xC0u8 | x) >= 128 && (0xE0u8 | x) >= 128
                    && (0xF0u8 | x) >= 128) by (bit_vector);
            }
        }
    }
}

/// An ASCII byte occurs in the UTF-8 form of a text exactly when its character occurs
/// in the text.
pub proof fn lemma_utf8_contains_ascii(s: Seq<char>, b: u8)
    requires
        b < 128,
    ensures
        bytes_contain(vstd::utf8::encode_utf8(s), b) <==> contains_char(s, (b as u32) as char),
    decreases s.len(),
{
    broadcast use vstd::utf8::char_u32_cast;
    let e = vstd::utf8::encode_utf8(s);
    if s.len() == 0 {
        assert(e.len() == 0);
    } else {
        let head = vstd::utf8::encode_scalar(s[0] as u32);
        let rest = s.drop_first();
        let tail = vstd::utf8::encode_utf8(rest);
        lemma_utf8_contains_ascii(rest, b);
        lemma_scalar_contains_ascii(s[0], b);
        assert(e == head + tail);
        if bytes_contain(e, b) {
            let i = choose|i: int| 0 <= i < e.len() && e[i] == b;
            if i < head.len() {
                assert(head[i] == b);
                assert((s[0] as u32) == (b as u32));
                vstd::utf8::char_u32_cast(s[0], b as u32);
                assert(s[0] == (b as u32) as char);
            } else {
                assert(tail[i - head.len()] == b);
                let k = choose|k: int| 0 <= k < rest.len() && rest[k] == (b as u32) as char;
                assert(s[k + 1] == rest[k]);
            }
        }
        if contains_char(s, (b as u32) as char) {
            let k = choose|k: int| 0 <= k < s.len() && s[k] == (b as u32) as char;
            if k == 0 {
                assert((s[0] as u32) == (b as u32));
                let j = choose|j: int| 0 <= j < head.len() && head[j] == b;
                assert(e[j] == b);
            } else {
                assert(rest[k - 1] == s[k]);
                let j = choose|j: int| 0 <= j < tail.len() && tail[j] == b;
                assert(e[head.len() + j] == b);
            }
        }
    }
}

/// Under an ASCII delimiter, scanning the UTF-8 bytes of a text tells exactly whether
/// the text needs quoting and whether it holds a double quote.
pub proof fn lemma_byte_scan_matches_text(s: Seq<char>, delimiter: char)
    requires
        (delimiter as u32) < 128,
    ensures
        scan_verdict(vstd::utf8::encode_utf8(s), (delimiter as u32) as u8) == (
            needs_quoting(s, delimiter),
            contains_char(s, '"'),
        ),
{
    broadcast use vstd::utf8::char_u32_cast;
    let e = vstd::utf8::encode_utf8(s);
    let d = (delimiter as u32) as u8;
    assert((d as u32) == (delimiter as u32));
    assert(((d as u32) as char) == delimiter);
    lemma_utf8_contains_ascii(s, 34);
    lemma_utf8_contains_ascii(s, 10);
    lemma_utf8_contains_ascii(s, 13);
    lemma_utf8_contains_ascii(s, d);
    assert(((34u8 as u32) as char) == '"');
    assert(((10u8 as u32) as char) == '\n');
    assert(((13u8 as u32) as char) == '\r');
    if bytes_need_quote(e, d) {
        let i = choose|i: int| 0 <= i < e.len() && #[trigger] is_special_byte(e[i], d);
        assert(bytes_contain(e, e[i]));
        let c = if e[i] == 34 { '"' } else if e[i] == 10 { '\n' } else if e[i] == 13 { '\r' } else { delimiter };
        assert(contains_char(s, c));
        let k = choose|k: int| 0 <= k < s.len() && s[k] == c;
        assert(is_special(s[k], delimiter));
    }
    if needs_quoting(s, delimiter) {
        let k = choose|k: int| 0 <= k < s.len() && #[trigger] is_special(s[k], delimiter);
        let b: u8 = if s[k] == '"' { 34 } else if s[k] == '\n' { 10 } else if s[k] == '\r' { 13 } else { d };
        assert(contains_char(s, (b as u32) as char));
        let i = choose|i: int| 0 <= i < e.len() && e[i] == b;
        assert(is_special_byte(e[i], d));
    }
}

} // verus!
