use dsv_writer::field_description::Description;
use dsv_writer::field_descriptor::Descriptor;
use dsv_writer::playground::field_datum::FieldDatum;
use dsv_writer::playground::poc_descriptor::{ToStringDescriptor, TypeDescriptor};
use dsv_writer::playground::poc_selector::Selector;
use dsv_writer::QuoteMode;

pub struct Sample(pub &'static str);

#[test]
fn field_descriptor_describes_with_its_function() {
    let desc = Descriptor::new(Descriptor::<Sample, _>::with_hr_closure(|x: &Sample| {
        Description::new_str(x.0, QuoteMode::Quoted)
    }));
    let sample = Sample("test");
    let described = desc.describe(&sample);
    assert_eq!(described.value(), "test");
    assert_eq!(*described.quoted_mode(), QuoteMode::Quoted);
}

#[test]
fn selector_selects_with_its_function() {
    let sel = Selector::new(|x: &Sample| Description::new_string(x.0.to_uppercase(), QuoteMode::AutoDetect));
    let d = sel.select(&Sample("abc"));
    assert_eq!(d.value(), "ABC");
}

#[test]
fn to_string_descriptor_gives_one_auto_field() {
    let d = ToStringDescriptor::<i32>::new();
    assert_eq!(<ToStringDescriptor<i32> as TypeDescriptor<i32, 1>>::field_size(), 1);
    let fields = d.describe(&-7);
    assert_eq!(fields[0].value(), "-7");
    assert_eq!(fields[0].quote_mode(), QuoteMode::AutoDetect);
}

#[test]
fn field_datum_keeps_value_and_mode() {
    let f = FieldDatum::new("x".to_string(), QuoteMode::Quoted);
    assert_eq!(f.value(), "x");
    assert_eq!(f.quote_mode(), QuoteMode::Quoted);
}
