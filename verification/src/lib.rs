pub mod argument_error;
pub mod escape_outcome;
pub mod field_description;
pub mod field_descriptor;
pub mod fixed_writer;
pub mod playground;
pub mod primitive_encoder;
pub mod primitive_writer;
pub mod quote_mode;
pub mod quoting;
pub mod raw_async_encoder;
pub mod raw_async_writer;
pub mod raw_encoder;
pub mod raw_encoder_error;
pub mod raw_writer;
pub mod reading;
pub mod strings;
pub mod to_dsv;
pub mod type_descriptor;
pub mod typed_writer;

pub use crate::quote_mode::QuoteMode;
pub use crate::raw_async_writer::RawAsyncWriter;
pub use crate::raw_encoder::Encoder;
pub use crate::raw_encoder_error::{Error, Result};
pub use crate::raw_writer::RawWriter;
pub use crate::to_dsv::ToDsv;
