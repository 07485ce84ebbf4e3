use dsv_writer::to_dsv::{ToDsvResult, ToOptionedDsv};
use dsv_writer::{Encoder, QuoteMode, ToDsv};
use std::error::Error as StdError;
use std::fmt::{Debug, Display, Formatter};

#[test]
fn to_dsv_playground() {
    let i: u16 = u16::default();
    assert_eq!(i, 0);
}

pub struct DummyErr;

impl Debug for DummyErr {
    fn fmt(&self, _f: &mut Formatter<'_>) -> std::fmt::Result {
        unreachable!()
    }
}

impl Display for DummyErr {
    fn fmt(&self, _f: &mut Formatter<'_>) -> std::fmt::Result {
        unreachable!()
    }
}

impl StdError for DummyErr {}

struct DummyTarget;

impl ToOptionedDsv for DummyTarget {
    type Opt = u16;
    type Error = DummyErr;

    fn to_opt_dsv<T: Encoder>(&self, option: &Self::Opt, _writer: &mut T) -> ToDsvResult<(), DummyErr> {
        assert_eq!(*option, 0);
        Ok(())
    }
}

struct DummyEnc;

impl Encoder for DummyEnc {
    fn write_str_field(&mut self, _value: &str, _quote_mode: QuoteMode) -> dsv_writer::Result<usize> {
        unreachable!()
    }

    fn end_of_record(&mut self, _: bool) -> dsv_writer::Result<usize> {
        unreachable!()
    }

    fn cnt(&self) -> usize {
        unreachable!()
    }
}

#[test]
fn to_dsv_test() {
    let target = DummyTarget;
    let mut enc = DummyEnc;
    ToDsv::to_dsv(&target, &mut enc).unwrap();
}
