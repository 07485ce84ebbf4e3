use dsv_writer::playground::lut::popcount_block;
use dsv_writer::primitive_writer::PrimitiveWriter;
use dsv_writer::raw_async_encoder::add_quote;
use dsv_writer::{QuoteMode, RawAsyncWriter, RawWriter};

/// Reads a record text the way the library's reading law describes.
fn read_record(t: &str, d: char) -> Vec<String> {
    let chars: Vec<char> = t.chars().collect();
    let mut fields = Vec::new();
    let mut i = 0;
    loop {
        let mut v = String::new();
        if i < chars.len() && chars[i] == '"' {
            i += 1;
            while i < chars.len() {
                if chars[i] == '"' {
                    if i + 1 < chars.len() && chars[i + 1] == '"' {
                        v.push('"');
                        i += 2;
                    } else {
                        i += 1;
                        break;
                    }
                } else {
                    v.push(chars[i]);
                    i += 1;
                }
            }
        } else {
            while i < chars.len() && chars[i] != d {
                v.push(chars[i]);
                i += 1;
            }
        }
        fields.push(v);
        if i < chars.len() && chars[i] == d {
            i += 1;
        } else {
            return fields;
        }
    }
}

fn cases() -> Vec<Vec<(&'static str, QuoteMode)>> {
    vec![
        vec![("plain", QuoteMode::AutoDetect)],
        vec![("", QuoteMode::AutoDetect)],
        vec![("", QuoteMode::AutoDetect), ("", QuoteMode::AutoDetect)],
        vec![("a,b", QuoteMode::AutoDetect), ("say \"hi\"", QuoteMode::AutoDetect), ("x", QuoteMode::Quoted)],
        vec![("\"", QuoteMode::AutoDetect), ("line\r\nbreak", QuoteMode::AutoDetect), ("", QuoteMode::Quoted)],
        vec![("日本語,テキスト", QuoteMode::AutoDetect), ("🦀", QuoteMode::Quoted), ("\"\"", QuoteMode::AutoDetect)],
    ]
}

#[test]
fn buffered_records_read_back() {
    for case in cases() {
        for d in [',', '\t', ';'] {
            let mut w = PrimitiveWriter::new(d);
            for (v, m) in &case {
                w.write_str_field(v, *m);
            }
            let body = String::from_utf8(w.record_body().unwrap()).unwrap();
            let expected: Vec<String> = case.iter().map(|(v, _)| v.to_string()).collect();
            assert_eq!(read_record(&body, d), expected);
        }
    }
}

#[test]
fn streamed_records_match_buffered_records() {
    for case in cases() {
        for d in [',', '\t', ';'] {
            let mut buffered = PrimitiveWriter::new(d);
            let mut raw = RawWriter::try_new(d).unwrap();
            let mut streamed = RawAsyncWriter::try_new(d).unwrap();
            let mut raw_bytes = Vec::new();
            let mut streamed_bytes = Vec::new();
            for (v, m) in &case {
                buffered.write_str_field(v, *m);
                let field = raw.field_bytes(v, *m);
                let mut alone = PrimitiveWriter::new(d);
                alone.write_str_field(v, *m);
                assert_eq!(Some(field.clone()), alone.record_body());
                raw_bytes.extend(field);
                raw.commit_field();
                if let Some(s) = streamed.separator() {
                    streamed_bytes.extend(s);
                }
                streamed_bytes.extend(streamed.field_bytes(v, *m));
                streamed.commit_field();
            }
            let body = buffered.record_body().unwrap();
            let joined: Vec<u8> = body.iter().copied().filter(|b| *b != d as u8).collect();
            let raw_plain: Vec<u8> = raw_bytes.iter().copied().filter(|b| *b != d as u8).collect();
            assert_eq!(raw_plain, joined);
            assert_eq!(streamed_bytes, body);
        }
    }
}

#[test]
fn all_quoting_functions_agree() {
    let w = PrimitiveWriter::new(',');
    for v in ["", "a", "a\"b", "\"\"", "x,y", "日本\"語"] {
        assert_eq!(w.add_quote(v), add_quote(v));
        let (escaped, flag) = w.escape(v);
        if flag {
            assert_eq!(escaped, add_quote(v));
        } else {
            assert_eq!(escaped, v);
        }
    }
}

#[test]
fn popcount_of_counting_block() {
    let block: [u8; 16] = [0, 1, 2, 3, 4, 5, 6, 7, 8, 9, 10, 11, 12, 13, 14, 15];
    assert_eq!(popcount_block(&block), 32);
    assert_eq!(popcount_block(&[0xff; 16]), 128);
    assert_eq!(popcount_block(&[0; 16]), 0);
}
