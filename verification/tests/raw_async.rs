use dsv_writer::argument_error::ArgumentError;
use dsv_writer::raw_async_encoder::add_quote;
use dsv_writer::{QuoteMode, RawAsyncWriter};

fn write_fields(fixture: &mut RawAsyncWriter, input: &[(&str, QuoteMode)]) -> Vec<u8> {
    let mut out = Vec::new();
    for (s, q) in input {
        if let Some(sep) = fixture.separator() {
            out.extend(sep);
        }
        out.extend(fixture.field_bytes(s, *q));
        fixture.commit_field();
    }
    out
}

#[test]
fn raw_async_encoder_add_quote_test() {
    assert_eq!(add_quote("test"), "\"test\"");
    assert_eq!(&add_quote("test\ttest"), "\"test\ttest\"");
    assert_eq!(&add_quote("test\"test"), "\"test\"\"test\"");
}

#[test]
fn try_new_test() {
    let fixture = RawAsyncWriter::try_new(',').unwrap();
    assert_eq!(fixture.cnt(), 0);
    assert_eq!(fixture.escape_chars().len(), 4);

    assert!(fixture.escape_chars().contains(&'"'));
    assert!(fixture.escape_chars().contains(&'\n'));
    assert!(fixture.escape_chars().contains(&'\r'));
    assert!(fixture.escape_chars().contains(&','));

    let err = RawAsyncWriter::try_new('\"').err().unwrap();
    assert!(matches!(err, ArgumentError::ArgumentError(_)));
}

#[test]
fn should_quoting_test() {
    let fixture = RawAsyncWriter::try_new(',').unwrap();
    assert!(!fixture.should_quoting("hello"));
    assert!(fixture.should_quoting("hel\"lo"));
    assert!(fixture.should_quoting("hello,world"));
    assert!(fixture.should_quoting("\r"));
    assert!(fixture.should_quoting("\n"));
    assert!(!fixture.should_quoting("\t"));
}

#[test]
fn raw_async_writer_write_str_field_test() {
    fn f(quote_mode: QuoteMode, input: &str, expected: &str) {
        let mut fixture = RawAsyncWriter::try_new(',').unwrap();
        let binding = write_fields(&mut fixture, &[(input, quote_mode)]);
        assert_eq!(binding, expected.as_bytes());
    }

    fn g(quote_mode: QuoteMode, input: &[&str], expected: &str) {
        let mut fixture = RawAsyncWriter::try_new(',').unwrap();
        let fields: Vec<(&str, QuoteMode)> = input.iter().map(|s| (*s, quote_mode)).collect();
        let binding = write_fields(&mut fixture, &fields);
        assert_eq!(binding, expected.as_bytes());
    }

    f(QuoteMode::Quoted, "hello", r#""hello""#);
    f(QuoteMode::AutoDetect, "hello", "hello");

    f(QuoteMode::AutoDetect, "hello,world", r#""hello,world""#);
    f(QuoteMode::AutoDetect, "hello\rworld", "\"hello\rworld\"");
    f(QuoteMode::AutoDetect, "hello\nworld", "\"hello\nworld\"");
    f(QuoteMode::AutoDetect, "hello\"world", r###""hello""world""###);

    g(QuoteMode::AutoDetect, &["hello", "world"], "hello,world");
    g(QuoteMode::AutoDetect, &["hello", ""], "hello,");
    g(QuoteMode::AutoDetect, &["hello", "wo,rld"], "hello,\"wo,rld\"");
}

#[test]
fn raw_async_writer_end_of_record_test() {
    fn f(input: &[(&str, QuoteMode)], expected: &str) {
        let mut fixture = RawAsyncWriter::try_new(',').unwrap();
        let mut binding = write_fields(&mut fixture, input);
        binding.extend_from_slice(b"\r\n");
        let act = fixture.end_of_record();
        assert_eq!(binding, expected.as_bytes());
        assert_eq!(act, input.len());
    }

    f(&[("hello", QuoteMode::Quoted), ("world", QuoteMode::AutoDetect)], "\"hello\",world\r\n");
}

#[test]
fn cnt_test() {
    let mut fixture = RawAsyncWriter::try_new(',').unwrap();
    assert_eq!(fixture.cnt(), 0);
    write_fields(&mut fixture, &[("hello", QuoteMode::Quoted)]);
    assert_eq!(fixture.cnt(), 1);

    fixture.end_of_record();
    assert_eq!(fixture.cnt(), 0);

    write_fields(&mut fixture, &[("hello", QuoteMode::Quoted)]);
    assert_eq!(fixture.cnt(), 1);
}

#[test]
fn multibyte_delimiter_is_sent_whole() {
    let mut fixture = RawAsyncWriter::try_new('§').unwrap();
    let out = write_fields(&mut fixture, &[("a", QuoteMode::AutoDetect), ("b§c", QuoteMode::AutoDetect)]);
    assert_eq!(out, "a§\"b§c\"".as_bytes());
}

#[test]
fn line_feed_delimiter_keeps_three_escape_chars() {
    let fixture = RawAsyncWriter::try_new('\n').unwrap();
    assert_eq!(fixture.escape_chars().len(), 3);
}
