use dsv_writer::argument_error::ArgumentError;
use dsv_writer::{QuoteMode, RawWriter};
use std::collections::HashSet;

fn write_fields(fixture: &mut RawWriter, input: &[(&str, QuoteMode)]) -> Vec<Vec<u8>> {
    let mut out = Vec::new();
    for (s, q) in input {
        out.push(fixture.field_bytes(s, *q));
        fixture.commit_field();
    }
    out
}

#[test]
fn try_new_tet() {
    let fixture = RawWriter::try_new(',').unwrap();

    assert_eq!(fixture.delimiter(), b',');
    assert_eq!(fixture.escape_set().len(), 4);
    assert_eq!(
        fixture.escape_set().into_iter().collect::<HashSet<char>>(),
        HashSet::from([',', '\n', '\r', '"'])
    );

    let err = RawWriter::try_new('"').err().unwrap();
    assert!(matches!(err, ArgumentError::ArgumentError(_)))
}

#[test]
fn raw_writer_write_str_field_test() {
    let mut fixture = RawWriter::try_new(',').unwrap();
    let written = write_fields(
        &mut fixture,
        &[
            ("test", QuoteMode::AutoDetect),
            ("te,st", QuoteMode::AutoDetect),
            ("test", QuoteMode::Quoted),
        ],
    );
    assert_eq!(written.len(), 3);
    assert_eq!(written[0], b"test");
    assert_eq!(written[1], b"\"te,st\"");
    assert_eq!(written[2], b"\"test\"");
}

#[test]
fn raw_writer_end_of_record_test() {
    let mut fixture = RawWriter::try_new(',').unwrap();
    let mut out = Vec::new();
    out.extend(write_fields(&mut fixture, &[("hello", QuoteMode::AutoDetect)]).concat());
    out.extend_from_slice(b"\r\n");
    assert_eq!(fixture.end_of_record(), 1);
    out.extend(write_fields(&mut fixture, &[("world", QuoteMode::AutoDetect)]).concat());
    out.extend_from_slice(b"\r\n");
    assert_eq!(fixture.end_of_record(), 1);
    assert_eq!(out, b"hello\r\nworld\r\n");
}

#[test]
fn non_ascii_delimiter_is_refused() {
    let err = RawWriter::try_new('§').err().unwrap();
    match err {
        ArgumentError::ArgumentError(m) => assert!(m.ends_with('§')),
        ArgumentError::ArgumentOutOfRange(_) => panic!("wrong variant"),
    }
}

#[test]
fn add_quote_follows_the_request() {
    let fixture = RawWriter::try_new(';').unwrap();
    assert_eq!(fixture.should_quote("a;b"), (true, false));
    assert_eq!(fixture.should_quote("a\"b"), (true, true));
    assert_eq!(fixture.should_quote("a,b"), (false, false));
    assert_eq!(fixture.add_quote("a\"b", None), b"\"a\"\"b\"");
    assert_eq!(fixture.add_quote("ab", Some(true)), b"\"ab\"");
    assert_eq!(fixture.add_quote("a;b", Some(false)), b"a;b");
    assert_eq!(fixture.add_quote("ab", None), b"ab");
}
