use dsv_writer::{Encoder, QuoteMode};

#[derive(Default)]
struct RecordingWriter {
    calls: Vec<(String, QuoteMode)>,
}

impl Encoder for RecordingWriter {
    fn write_str_field(&mut self, value: &str, quote_mode: QuoteMode) -> dsv_writer::Result<usize> {
        self.calls.push((value.to_string(), quote_mode));
        Ok(42)
    }

    fn end_of_record(&mut self, _should_flush: bool) -> dsv_writer::Result<usize> {
        Ok(self.calls.len())
    }

    fn cnt(&self) -> usize {
        self.calls.len()
    }
}

#[test]
fn raw_encoder_write_value_field_test() {
    let mut mock = RecordingWriter::default();
    mock.write_value_field(&42, QuoteMode::Quoted).unwrap();
    assert_eq!(mock.calls, vec![("42".to_string(), QuoteMode::Quoted)]);
}

#[test]
fn write_string_test() {
    let mut mock = RecordingWriter::default();
    assert_eq!(
        mock.write_string_field("hello".to_string(), QuoteMode::AutoDetect).unwrap(),
        42
    );
    assert_eq!(mock.calls, vec![("hello".to_string(), QuoteMode::AutoDetect)]);
}
