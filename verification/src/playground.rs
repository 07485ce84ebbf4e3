pub mod chunks;
pub mod cmp_mask;
pub mod cmpestri;
pub mod field_datum;
pub mod lut;
pub mod neon;
pub mod poc_descriptor;
pub mod poc_selector;
pub mod quote_masks;
pub mod sample_generator;
pub mod scalar;
pub mod shared;
pub mod should_quote_datum;
