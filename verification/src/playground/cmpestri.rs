use std::ops::BitOrAssign;
use vstd::prelude::*;

use crate::playground::chunks::range_contains;
use crate::playground::scalar::{bytes_contain, bytes_need_quote, is_special_byte, scalar, scan_verdict};
use crate::playground::shared::{check_delimiter, valid_delimiter, InvalidDelimiter};
use crate::playground::should_quote_datum::{ShouldQuoteDatum, ShouldQuoteResult};

verus! {

/// Whether one of the first `n` bytes of `set` occurs in `target` (an "equal any"
/// comparison of explicit length).
pub open spec fn any_of(target: Seq<u8>, set: Seq<u8>, n: int) -> bool {
    exists|j: int| 0 <= j < n && #[trigger] bytes_contain(target, set[j])
}

/// Classifies a block of 16 bytes: a double quote from the first byte of
/// `double_quote` means quoting and doubling; otherwise one of the first three bytes of
/// `escape_chars` means quoting alone.
pub fn simd(target: &[u8], double_quote: &[u8], escape_chars: &[u8]) -> (r: ShouldQuoteDatum)
    requires
        target@.len() == 16,
        double_quote@.len() >= 1,
        escape_chars@.len() >= 3,
    ensures
        r@ == (if any_of(target@, double_quote@, 1) {
            (true, true)
        } else if any_of(target@, escape_chars@, 3) {
            (true, false)
        } else {
            (false, false)
        }),
{
    assert(target@.subrange(0, 16) =~= target@);
    if range_contains(target, 0, 16, double_quote[0]) {
        assert(bytes_contain(target@, double_quote@[0]));
        return ShouldQuoteDatum::new(true, true);
    }
    assert(!any_of(target@, double_quote@, 1)) by {
        if any_of(target@, double_quote@, 1) {
            let j = choose|j: int| 0 <= j < 1 && #[trigger] bytes_contain(target@, double_quote@[j]);
            assert(j == 0);
        }
    }
    let mut j: usize = 0;
    while j < 3
        invariant
            target@.len() == 16,
            escape_chars@.len() >= 3,
            target@.subrange(0, 16) == target@,
            0 <= j <= 3,
            !any_of(target@, double_quote@, 1),
            forall|k: int| 0 <= k < j ==> !bytes_contain(target@, #[trigger] escape_chars@[k]),
        decreases 3 - j,
    {
        if range_contains(target, 0, 16, escape_chars[j]) {
            assert(bytes_contain(target@, escape_chars@[j as int]));
            return ShouldQuoteDatum::new(true, false);
        }
        j = j + 1;
    }
    ShouldQuoteDatum::new(false, false)
}

/// Scanning two byte sequences put together sets each flag when either part sets it.
pub proof fn lemma_scan_concat(a: Seq<u8>, b: Seq<u8>, delimiter: u8)
    ensures
        scan_verdict(a + b, delimiter) == (
            scan_verdict(a, delimiter).0 || scan_verdict(b, delimiter).0,
            scan_verdict(a, delimiter).1 || scan_verdict(b, delimiter).1,
        ),
{
    let ab = a + b;
    if bytes_need_quote(ab, delimiter) {
        let i = choose|i: int| 0 <= i < ab.len() && #[trigger] is_special_byte(ab[i], delimiter);
        if i < a.len() {
            assert(is_special_byte(a[i], delimiter));
        } else {
            assert(is_special_byte(b[i - a.len()], delimiter));
        }
    }
    if bytes_need_quote(a, delimiter) {
        let i = choose|i: int| 0 <= i < a.len() && #[trigger] is_special_byte(a[i], delimiter);
        assert(is_special_byte(ab[i], delimiter));
    }
    if bytes_need_quote(b, delimiter) {
        let i = choose|i: int| 0 <= i < b.len() && #[trigger] is_special_byte(b[i], delimiter);
        assert(is_special_byte(ab[i + a.len()], delimiter));
    }
    if bytes_contain(ab, 34) {
        let i = choose|i: int| 0 <= i < ab.len() && ab[i] == 34;
        if i < a.len() {
            assert(a[i] == 34);
        } else {
            assert(b[i - a.len()] == 34);
        }
    }
    if bytes_contain(a, 34) {
        let i = choose|i: int| 0 <= i < a.len() && a[i] == 34;
        assert(ab[i] == 34);
    }
    if bytes_contain(b, 34) {
        let i = choose|i: int| 0 <= i < b.len() && b[i] == 34;
        assert(ab[i + a.len()] == 34);
    }
}

/// The classification of a block by `simd` with the double quote and the delimiter,
/// carriage return and line feed is the outcome of scanning the block.
proof fn lemma_block_class(c: Seq<u8>, d: u8, double_quote: Seq<u8>, escape: Seq<u8>)
    requires
        escape == seq![d, 13u8, 10u8],
        double_quote == seq![34u8],
    ensures
        scan_verdict(c, d) == (if any_of(c, double_quote, 1) {
            (true, true)
        } else if any_of(c, escape, 3) {
            (true, false)
        } else {
            (false, false)
        }),
{
    if any_of(c, double_quote, 1) {
        let j = choose|j: int| 0 <= j < 1 && #[trigger] bytes_contain(c, double_quote[j]);
        assert(bytes_contain(c, 34));
        let i = choose|i: int| 0 <= i < c.len() && c[i] == 34;
        assert(is_special_byte(c[i], d));
    } else {
        assert(!bytes_contain(c, double_quote[0]));
        if any_of(c, escape, 3) {
            let j = choose|j: int| 0 <= j < 3 && #[trigger] bytes_contain(c, escape[j]);
            let i = choose|i: int| 0 <= i < c.len() && c[i] == escape[j];
            assert(is_special_byte(c[i], d));
        } else {
            assert(!bytes_contain(c, escape[0]));
            assert(!bytes_contain(c, escape[1]));
            assert(!bytes_contain(c, escape[2]));
            if bytes_need_quote(c, d) {
                let i = choose|i: int| 0 <= i < c.len() && #[trigger] is_special_byte(c[i], d);
                assert(c[i] == 13 || c[i] == 10 || c[i] == d || c[i] == 34);
                assert(false);
            }
        }
    }
}

/// Classifies `bytes` block by block with `simd`, stopping at the first block with a
/// double quote, then scans the remaining bytes one by one.
fn block_accumulate(bytes: &[u8], d: u8) -> (r: ShouldQuoteDatum)
    ensures
        r@ == scan_verdict(bytes@, d),
{
    let escape: [u8; 3] = [d, 13, 10];
    let double_quote: [u8; 1] = [34];
    let mut result = ShouldQuoteDatum::new(false, false);
    let mut pos: usize = 0;
    assert(bytes@.take(0) =~= Seq::<u8>::empty());
    while bytes.len() - pos >= 16
        invariant
            0 <= pos <= bytes@.len(),
            escape@ == seq![d, 13u8, 10u8],
            double_quote@ == seq![34u8],
            result@ == scan_verdict(bytes@.take(pos as int), d),
            !result@.1,
        decreases bytes@.len() - pos,
    {
        let chunk = vstd::slice::slice_subrange(bytes, pos, pos + 16);
        let v = simd(chunk, &double_quote, &escape);
        proof {
            assert(bytes@.take(pos + 16) =~= bytes@.take(pos as int) + chunk@);
            lemma_scan_concat(bytes@.take(pos as int), chunk@, d);
            lemma_block_class(chunk@, d, double_quote@, escape@);
        }
        result.bitor_assign(v);
        if result.double_quote() {
            proof {
                assert(bytes@ =~= bytes@.take(pos + 16) + bytes@.skip(pos + 16));
                lemma_scan_concat(bytes@.take(pos + 16), bytes@.skip(pos + 16), d);
            }
            return result;
        }
        pos = pos + 16;
    }
    let tail = vstd::slice::slice_subrange(bytes, pos, bytes.len());
    proof {
        assert(bytes@ =~= bytes@.take(pos as int) + tail@);
        lemma_scan_concat(bytes@.take(pos as int), tail@, d);
    }
    result.bitor_assign(scalar(tail, d));
    result
}

/// Checks the delimiter, then classifies the UTF-8 bytes of `target` block by block,
/// stopping at the first block with a double quote, and scans the remaining bytes one
/// by one.
pub fn should_quoted(target: &str, delimiter: char) -> (r: ShouldQuoteResult)
    ensures
        r is Ok <==> valid_delimiter(delimiter),
        r is Err ==> r->Err_0 == (InvalidDelimiter { delimiter }),
        r is Ok ==> r->Ok_0@ == scan_verdict(
            vstd::utf8::encode_utf8(target@),
            (delimiter as u32) as u8,
        ),
{
    match check_delimiter(delimiter) {
        Err(e) => Err(e),
        Ok(()) => {
            let d32: u32 = delimiter as u32;
            Ok(block_accumulate(target.as_bytes(), d32 as u8))
        },
    }
}

} // verus!
