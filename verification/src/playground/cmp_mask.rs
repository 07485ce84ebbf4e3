use vstd::prelude::*;

use crate::playground::chunks::{block_scan, block_verdict};
use crate::playground::shared::{check_delimiter, valid_delimiter, InvalidDelimiter};
use crate::playground::should_quote_datum::ShouldQuoteResult;

verus! {

/// Checks the delimiter, then scans the UTF-8 bytes of `target` in blocks of 16 bytes,
/// deciding at the first block that holds a special byte.
pub fn should_quote(target: &str, delimiter: char) -> (r: ShouldQuoteResult)
    ensures
        r is Ok <==> valid_delimiter(delimiter),
        r is Err ==> r->Err_0 == (InvalidDelimiter { delimiter }),
        r is Ok ==> r->Ok_0@ == block_verdict(
            vstd::utf8::encode_utf8(target@),
            (delimiter as u32) as u8,
        ),
{
    match check_delimiter(delimiter) {
        Err(e) => Err(e),
        Ok(()) => {
            let d: u32 = delimiter as u32;
            Ok(block_scan(target.as_bytes(), d as u8))
        },
    }
}

} // verus!
