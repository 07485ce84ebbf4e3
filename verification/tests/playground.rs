use dsv_writer::playground::cmp_mask;
use dsv_writer::playground::cmpestri::{self, simd};
use dsv_writer::playground::neon;
use dsv_writer::playground::quote_masks::QuoteMasks;
use dsv_writer::playground::scalar::{self, scalar};
use dsv_writer::playground::shared::{check_delimiter, InvalidDelimiter};
use dsv_writer::playground::should_quote_datum::{ShouldQuoteDatum, ShouldQuoteResult};
use std::ops::BitOrAssign;

fn run_suite(should_quote: fn(&str, char) -> ShouldQuoteResult) {
    let result = should_quote("test", '\n');
    assert!(result.is_err());

    let result = should_quote("test", '"');
    assert!(result.is_err());

    let result = should_quote("test", '\r');
    assert!(result.is_err());

    let result = should_quote("test", '\t').unwrap();
    assert!(!result.should_quote());
    assert!(!result.double_quote());

    let result = should_quote("test\"test", '\t').unwrap();
    assert!(result.should_quote());
    assert!(result.double_quote());

    let result = should_quote("test\ttest", '\t').unwrap();
    assert!(result.should_quote());
    assert!(!result.double_quote());

    let result = should_quote("test\rtest", '\t').unwrap();
    assert!(result.should_quote());
    assert!(!result.double_quote());

    let result = should_quote("test\ntest", '\t').unwrap();
    assert!(result.should_quote());
    assert!(!result.double_quote());

    let result = should_quote("test\ntest\ntest", '\t').unwrap();
    assert!(result.should_quote());

    let result = should_quote(
        "それほどジェスチャー必須でない場面でもサービスするDEEP DIVE理事🦀",
        '\t',
    )
    .unwrap();
    assert!(!result.should_quote());
    assert!(!result.double_quote());

    let result = should_quote(
        "それほどジェスチャー必須でない場面でも\"サービスするDEEP DIVE理事🦀",
        '\t',
    )
    .unwrap();
    assert!(result.should_quote());
    assert!(result.double_quote());

    let result = should_quote(
        "それほどジェスチャー必須でない場面でも\tサービスするDEEP DIVE理事🦀",
        '\t',
    )
    .unwrap();
    assert!(result.should_quote());
    assert!(!result.double_quote());
}

#[test]
fn scalar_should_quote_test() {
    run_suite(scalar::should_quote);
}

#[test]
fn cmp_mask_should_quote_test() {
    run_suite(cmp_mask::should_quote);
}

#[test]
fn cmpestri_should_quote_test() {
    run_suite(cmpestri::should_quoted);
}

#[test]
fn neon_should_quote_test() {
    let result = neon::should_quote(
        "それほどジェスチャー必須でない場面でも\tサービスするDEEP DIVE理事🦀",
        '\t',
    )
    .unwrap();
    assert!(result.should_quote());
    assert!(!result.double_quote());
}

#[test]
fn simd_test() {
    let escape: [u8; 3] = [b'\r', b'\n', b'\t'];
    let dq: [u8; 1] = [b'"'];
    let mut input = b"0123456789ABCDEF";

    let result = simd(input, &dq, &escape);
    assert!(!result.should_quote());
    assert!(!result.double_quote());

    input = b"01234\r6789ABCDEF";
    let result = simd(input, &dq, &escape);
    assert!(result.should_quote());
    assert!(!result.double_quote());

    input = b"01234\t6789ABCDEF";
    let result = simd(input, &dq, &escape);
    assert!(result.should_quote());
    assert!(!result.double_quote());

    input = b"01234\n6789ABCDEF";
    let result = simd(input, &dq, &escape);
    assert!(result.should_quote());
    assert!(!result.double_quote());

    input = b"01234\"6789ABCDEF";
    let result = simd(input, &dq, &escape);
    assert!(result.should_quote());
    assert!(result.double_quote());
}

#[test]
fn test_scalar() {
    let result = scalar(b"test", b't');
    assert!(result.should_quote());
    assert!(!result.double_quote());

    let result = scalar(b"test\"test", b't');
    assert!(result.should_quote());
    assert!(result.double_quote());
}

#[test]
fn check_delimiter_accepts_and_rejects() {
    assert!(check_delimiter(',').is_ok());
    assert!(check_delimiter('\t').is_ok());
    assert_eq!(check_delimiter('\0'), Err(InvalidDelimiter { delimiter: '\0' }));
    assert_eq!(check_delimiter('é'), Err(InvalidDelimiter { delimiter: 'é' }));
    assert_eq!(check_delimiter('"'), Err(InvalidDelimiter { delimiter: '"' }));
}

#[test]
fn deciding_block_scan_misses_a_later_quote() {
    let text = "aaaaaaaaaaaaaaa,\"";
    let deciding = cmp_mask::should_quote(text, ',').unwrap();
    assert!(deciding.should_quote());
    assert!(!deciding.double_quote());
    let accumulating = cmpestri::should_quoted(text, ',').unwrap();
    assert!(accumulating.should_quote());
    assert!(accumulating.double_quote());
    let reference = scalar::should_quote(text, ',').unwrap();
    assert!(reference.double_quote());
}

#[test]
fn long_texts_agree_across_strategies() {
    let text = "0123456789abcdef0123456789abcdef0123,5";
    for f in [scalar::should_quote, cmp_mask::should_quote, cmpestri::should_quoted, neon::should_quote] {
        let r = f(text, ',').unwrap();
        assert!(r.should_quote());
        assert!(!r.double_quote());
        let r = f(text, ';').unwrap();
        assert!(!r.should_quote());
    }
}

#[test]
fn bitor_assign_merges_flags() {
    let mut a = ShouldQuoteDatum::new(true, false);
    a.bitor_assign(ShouldQuoteDatum::new(false, true));
    assert!(a.should_quote());
    assert!(a.double_quote());
}

#[test]
fn quote_masks_are_splats() {
    let m = QuoteMasks::new(',');
    assert_eq!(m.dq, [b'"'; 16]);
    assert_eq!(m.delim, [b','; 16]);
    assert_eq!(m.nl, [b'\n'; 16]);
    assert_eq!(m.cr, [b'\r'; 16]);
}
