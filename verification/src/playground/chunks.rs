use vstd::prelude::*;

use crate::playground::scalar::{bytes_contain, bytes_need_quote, is_special_byte, scalar, scan_verdict};
use crate::playground::scalar::lemma_byte_scan_matches_text;
use crate::playground::shared::valid_delimiter;
use crate::playground::should_quote_datum::ShouldQuoteDatum;
use crate::quoting::{contains_char, needs_quoting};

verus! {

/// The outcome of scanning `s` in blocks of 16 bytes: the first block that holds a
/// double quote, or else another special byte, decides; the bytes after the last whole
/// block are scanned one by one.
pub open spec fn block_verdict(s: Seq<u8>, delimiter: u8) -> (bool, bool)
    decreases s.len(),
{
    if s.len() >= 16 {
        let block = s.take(16);
        if bytes_contain(block, 34) {
            (true, true)
        } else if bytes_contain(block, delimiter) || bytes_contain(block, 10) || bytes_contain(
            block,
            13,
        ) {
            (true, false)
        } else {
            block_verdict(s.skip(16), delimiter)
        }
    } else {
        scan_verdict(s, delimiter)
    }
}

/// Whether the byte `b` occurs among the `len` bytes of `s` from `start`.
pub fn range_contains(s: &[u8], start: usize, len: usize, b: u8) -> (r: bool)
    requires
        start + len <= s.len(),
    ensures
        r == bytes_contain(s@.subrange(start as int, start + len), b),
{
    let ghost block = s@.subrange(start as int, start + len);
    let mut i: usize = 0;
    while i < len
        invariant
            start + len <= s.len(),
            block == s@.subrange(start as int, start + len),
            0 <= i <= len,
            forall|k: int| 0 <= k < i ==> block[k] != b,
        decreases len - i,
    {
        if s[start + i] == b {
            assert(block[i as int] == b);
            return true;
        }
        i = i + 1;
    }
    false
}

/// Scans `bytes` in blocks of 16, deciding at the first block with a special byte,
/// then scans the remaining bytes one by one.
pub fn block_scan(bytes: &[u8], delimiter: u8) -> (r: ShouldQuoteDatum)
    ensures
        r@ == block_verdict(bytes@, delimiter),
{
    let mut pos: usize = 0;
    assert(bytes@.skip(0) =~= bytes@);
    while bytes.len() - pos >= 16
        invariant
            0 <= pos <= bytes@.len(),
            block_verdict(bytes@, delimiter) == block_verdict(bytes@.skip(pos as int), delimiter),
        decreases bytes@.len() - pos,
    {
        let ghost rest = bytes@.skip(pos as int);
        assert(rest.take(16) =~= bytes@.subrange(pos as int, pos + 16));
        assert(rest.skip(16) =~= bytes@.skip(pos + 16));
        if range_contains(bytes, pos, 16, 34) {
            return ShouldQuoteDatum::new(true, true);
        }
        if range_contains(bytes, pos, 16, delimiter) || range_contains(bytes, pos, 16, 10)
            || range_contains(bytes, pos, 16, 13) {
            return ShouldQuoteDatum::new(true, false);
        }
        pos = pos + 16;
    }
    let tail = vstd::slice::slice_subrange(bytes, pos, bytes.len());
    assert(tail@ =~= bytes@.skip(pos as int));
    scalar(tail, delimiter)
}

/// The deciding block decides: when every byte before the block at `16 * k` is free of
/// the double quote, the delimiter, line feed and carriage return, a double quote in
/// that block gives "quote and double", and otherwise a delimiter, line feed or
/// carriage return in it gives "quote only".
pub proof fn lemma_deciding_block(s: Seq<u8>, delimiter: u8, k: int)
    requires
        0 <= k,
        16 * k + 16 <= s.len(),
        forall|i: int|
            0 <= i < 16 * k ==> s[i] != 34 && s[i] != delimiter && s[i] != 10 && s[i] != 13,
    ensures
        (exists|i: int| 16 * k <= i < 16 * k + 16 && s[i] == 34) ==> block_verdict(s, delimiter)
            == (true, true),
        (forall|i: int| 16 * k <= i < 16 * k + 16 ==> s[i] != 34) && (exists|i: int|
            16 * k <= i < 16 * k + 16 && (s[i] == delimiter || s[i] == 10 || s[i] == 13))
            ==> block_verdict(s, delimiter) == (true, false),
    decreases k,
{
    let block = s.take(16);
    if k == 0 {
        if exists|i: int| 0 <= i < 16 && s[i] == 34 {
            let i = choose|i: int| 0 <= i < 16 && s[i] == 34;
            assert(block[i] == 34);
        }
        if (forall|i: int| 0 <= i < 16 ==> s[i] != 34) && (exists|i: int|
            0 <= i < 16 && (s[i] == delimiter || s[i] == 10 || s[i] == 13)) {
            let i = choose|i: int| 0 <= i < 16 && (s[i] == delimiter || s[i] == 10 || s[i] == 13);
            assert(block[i] == s[i]);
            assert(!bytes_contain(block, 34)) by {
                if bytes_contain(block, 34) {
                    let j = choose|j: int| 0 <= j < block.len() && block[j] == 34;
                    assert(s[j] == 34);
                }
            }
        }
    } else {
        let rest = s.skip(16);
        assert forall|i: int| 0 <= i < 16 * (k - 1) implies rest[i] != 34 && rest[i] != delimiter
            && rest[i] != 10 && rest[i] != 13 by {
            assert(rest[i] == s[i + 16]);
        }
        lemma_deciding_block(rest, delimiter, k - 1);
        assert(!bytes_contain(block, 34) && !bytes_contain(block, delimiter) && !bytes_contain(
            block,
            10,
        ) && !bytes_contain(block, 13)) by {
            if bytes_contain(block, 34) || bytes_contain(block, delimiter) || bytes_contain(block, 10)
                || bytes_contain(block, 13) {
                let j = choose|j: int|
                    0 <= j < block.len() && (block[j] == 34 || block[j] == delimiter || block[j]
                        == 10 || block[j] == 13);
                assert(s[j] == block[j]);
            }
        }
        if exists|i: int| 16 * k <= i < 16 * k + 16 && s[i] == 34 {
            let i = choose|i: int| 16 * k <= i < 16 * k + 16 && s[i] == 34;
            assert(rest[i - 16] == s[i]);
        }
        if (forall|i: int| 16 * k <= i < 16 * k + 16 ==> s[i] != 34) && (exists|i: int|
            16 * k <= i < 16 * k + 16 && (s[i] == delimiter || s[i] == 10 || s[i] == 13)) {
            let i = choose|i: int|
                16 * k <= i < 16 * k + 16 && (s[i] == delimiter || s[i] == 10 || s[i] == 13);
            assert(rest[i - 16] == s[i]);
            assert forall|j: int| 16 * (k - 1) <= j < 16 * (k - 1) + 16 implies rest[j] != 34 by {
                assert(rest[j] == s[j + 16]);
            }
        }
    }
}

/// A block scan reports a double quote whenever the first block of 16 bytes holds one.
pub proof fn lemma_first_block_quote(s: Seq<u8>, delimiter: u8)
    requires
        s.len() >= 16,
        exists|i: int| 0 <= i < 16 && s[i] == 34,
    ensures
        block_verdict(s, delimiter) == (true, true),
{
    lemma_deciding_block(s, delimiter, 0);
}

/// Block scanning decides quoting exactly as a byte-by-byte scan does, and reports a
/// double quote only where there is one.
pub proof fn lemma_block_verdict_sound(s: Seq<u8>, delimiter: u8)
    ensures
        block_verdict(s, delimiter).0 == bytes_need_quote(s, delimiter),
        block_verdict(s, delimiter).1 ==> bytes_contain(s, 34),
    decreases s.len(),
{
    if s.len() >= 16 {
        let block = s.take(16);
        let rest = s.skip(16);
        lemma_block_verdict_sound(rest, delimiter);
        if bytes_contain(block, 34) {
            let i = choose|i: int| 0 <= i < block.len() && block[i] == 34;
            assert(s[i] == 34);
            assert(is_special_byte(s[i], delimiter));
        } else if bytes_contain(block, delimiter) || bytes_contain(block, 10) || bytes_contain(
            block,
            13,
        ) {
            let i = choose|i: int|
                0 <= i < block.len() && (block[i] == delimiter || block[i] == 10 || block[i] == 13);
            assert(s[i] == block[i]);
            assert(is_special_byte(s[i], delimiter));
        } else {
            if bytes_need_quote(s, delimiter) {
                let i = choose|i: int| 0 <= i < s.len() && #[trigger] is_special_byte(s[i], delimiter);
                if i < 16 {
                    assert(block[i] == s[i]);
                    assert(false);
                } else {
                    assert(rest[i - 16] == s[i]);
                    assert(is_special_byte(rest[i - 16], delimiter));
                }
            }
            if bytes_need_quote(rest, delimiter) {
                let i = choose|i: int| 0 <= i < rest.len() && #[trigger] is_special_byte(rest[i], delimiter);
                assert(s[i + 16] == rest[i]);
                assert(is_special_byte(s[i + 16], delimiter));
            }
            if bytes_contain(rest, 34) {
                let i = choose|i: int| 0 <= i < rest.len() && rest[i] == 34;
                assert(s[i + 16] == rest[i]);
            }
        }
    }
}

/// Under a valid delimiter, every scanning strategy decides quoting exactly when the
/// text holds a double quote, a line feed, a carriage return or the delimiter; the
/// byte-by-byte scan (and the accumulating block scan, which has the same outcome)
/// reports a double quote exactly when there is one, and the deciding block scan reports
/// one only when there is one.
pub proof fn lemma_strategies_agree(s: Seq<char>, delimiter: char)
    requires
        valid_delimiter(delimiter),
    ensures
        scan_verdict(vstd::utf8::encode_utf8(s), (delimiter as u32) as u8) == (
            needs_quoting(s, delimiter),
            contains_char(s, '"'),
        ),
        block_verdict(vstd::utf8::encode_utf8(s), (delimiter as u32) as u8).0 == needs_quoting(
            s,
            delimiter,
        ),
        block_verdict(vstd::utf8::encode_utf8(s), (delimiter as u32) as u8).1 ==> contains_char(
            s,
            '"',
        ),
{
    lemma_byte_scan_matches_text(s, delimiter);
    lemma_block_verdict_sound(vstd::utf8::encode_utf8(s), (delimiter as u32) as u8);
}

} // verus!
