# dsv_writer

Writing delimiter-separated values (CSV, TSV and the like), verified with Verus.

- `src/quoting.rs` — what a field's text is: when it is quoted and how quotes are doubled.
- `src/reading.rs` — how a reader takes a record's text apart, and the proof that a
  written record reads back as the values it was written from.
- `src/primitive_writer.rs` — a writer that buffers a record and hands out its bytes.
- `src/raw_writer.rs`, `src/raw_async_writer.rs` — writers that send each field as it
  comes; the library decides the bytes, the caller sends them.
- `src/field_description.rs`, `src/field_descriptor.rs`, `src/type_descriptor.rs` —
  describing the fields of a value with functions.
- `src/playground/` — scanners that decide whether a field needs quoting (byte by byte
  and in 16-byte blocks), a 16-byte popcount and the sample-character source.
- `app/` — the program around the library: sending bytes to `std::io::Write` and
  `futures::AsyncWrite` destinations, sample generation, error messages.
