use opensk::cbor::builder;
use opensk::cbor::model::{SimpleValue, Value};
use opensk::cbor::reader::read;

fn encoded(value: Value) -> Vec<u8> {
    let mut out = vec![];
    assert!(opensk::cbor::writer::write(value, &mut out));
    out
}

fn round_trip(value: Value, bytes: &[u8]) {
    assert_eq!(read(bytes), Some(read(bytes).unwrap()));
    assert_eq!(read(bytes).unwrap(), value);
    assert_eq!(encoded(value), bytes.to_vec());
}

fn text(s: &str) -> Value {
    Value::TextString(String::from(s))
}

#[test]
fn numbers_take_as_few_bytes_as_possible() {
    round_trip(Value::Unsigned(0), &[0x00]);
    round_trip(Value::Unsigned(23), &[0x17]);
    round_trip(Value::Unsigned(24), &[0x18, 0x18]);
    round_trip(Value::Unsigned(0xff), &[0x18, 0xff]);
    round_trip(Value::Unsigned(0x100), &[0x19, 0x01, 0x00]);
    round_trip(Value::Unsigned(0xffff), &[0x19, 0xff, 0xff]);
    round_trip(Value::Unsigned(0x10000), &[0x1a, 0x00, 0x01, 0x00, 0x00]);
    round_trip(
        Value::Unsigned(0x1_0000_0000),
        &[0x1b, 0x00, 0x00, 0x00, 0x01, 0x00, 0x00, 0x00, 0x00],
    );
    round_trip(builder::integer(-1), &[0x20]);
    round_trip(builder::integer(-7), &[0x26]);
    round_trip(builder::integer(-25), &[0x38, 0x18]);
    round_trip(
        builder::integer(i64::MIN),
        &[0x3b, 0x7f, 0xff, 0xff, 0xff, 0xff, 0xff, 0xff, 0xff],
    );
}

#[test]
fn strings_lists_and_maps_are_read_back() {
    round_trip(Value::ByteString(vec![1, 2, 3]), &[0x43, 1, 2, 3]);
    round_trip(text("packed"), &[0x66, 0x70, 0x61, 0x63, 0x6b, 0x65, 0x64]);
    round_trip(text("ü"), &[0x62, 0xc3, 0xbc]);
    round_trip(
        Value::Array(vec![Value::Unsigned(1), builder::boolean(true)]),
        &[0x82, 0x01, 0xf5],
    );
    round_trip(
        Value::Table(vec![
            (Value::Unsigned(1), builder::boolean(false)),
            (builder::integer(-1), Value::Simple(SimpleValue::NullValue)),
            (text("b"), Value::Simple(SimpleValue::Undefined)),
            (text("aa"), Value::Unsigned(2)),
            (text("ab"), Value::Unsigned(3)),
        ]),
        &[
            0xa5, 0x01, 0xf4, 0x20, 0xf6, 0x61, 0x62, 0xf7, 0x62, 0x61, 0x61, 0x02, 0x62, 0x61,
            0x62, 0x03,
        ],
    );
}

#[test]
fn what_is_not_canonical_is_not_read() {
    // Heads that are longer than they need to be.
    assert_eq!(read(&[0x18, 0x17]), None);
    assert_eq!(read(&[0x19, 0x00, 0xff]), None);
    assert_eq!(read(&[0x1a, 0x00, 0x00, 0xff, 0xff]), None);
    assert_eq!(read(&[0x1b, 0, 0, 0, 0, 0xff, 0xff, 0xff, 0xff]), None);
    // Keys out of order, and a key twice.
    assert_eq!(read(&[0xa2, 0x02, 0x00, 0x01, 0x00]), None);
    assert_eq!(read(&[0xa2, 0x01, 0x00, 0x01, 0x00]), None);
    assert_eq!(read(&[0xa2, 0x61, 0x62, 0x00, 0x61, 0x61, 0x00]), None);
    assert_eq!(read(&[0xa2, 0x20, 0x00, 0x01, 0x00]), None);
    assert_eq!(read(&[0xa2, 0x42, 0x00, 0x00, 0x00, 0x41, 0x00, 0x00]), None);
    // A list as key.
    assert_eq!(read(&[0xa1, 0x80, 0x00]), None);
    // A negative number out of range, a tag, a float, an unknown simple value,
    // an indefinite length.
    assert_eq!(read(&[0x3b, 0x80, 0, 0, 0, 0, 0, 0, 0]), None);
    assert_eq!(read(&[0xc0, 0x00]), None);
    assert_eq!(read(&[0xf9, 0x00, 0x00]), None);
    assert_eq!(read(&[0xf3]), None);
    assert_eq!(read(&[0x9f, 0xff]), None);
    // Text that is not UTF-8.
    assert_eq!(read(&[0x62, 0xc3, 0x28]), None);
}

#[test]
fn data_ends_with_the_item() {
    assert_eq!(read(&[]), None);
    assert_eq!(read(&[0x00, 0x00]), None);
    assert_eq!(read(&[0x18]), None);
    assert_eq!(read(&[0x42, 0x00]), None);
    assert_eq!(read(&[0x62, 0x61]), None);
    assert_eq!(read(&[0x82, 0x00]), None);
    assert_eq!(read(&[0xa1, 0x00]), None);
    assert_eq!(read(&[0x1b, 0xff, 0xff]), None);
    assert_eq!(read(&[0x5b, 0xff, 0xff, 0xff, 0xff, 0xff, 0xff, 0xff, 0xff]), None);
    assert_eq!(read(&[0x9b, 0xff, 0xff, 0xff, 0xff, 0xff, 0xff, 0xff, 0xff]), None);
}

#[test]
fn nesting_is_limited() {
    let mut value = Value::Unsigned(0);
    for _ in 0..4 {
        value = Value::Array(vec![value]);
    }
    round_trip(value, &[0x81, 0x81, 0x81, 0x81, 0x00]);
    assert_eq!(read(&[0x81, 0x81, 0x81, 0x81, 0x81, 0x00]), None);
    // An empty list holds no level.
    assert!(read(&[0x81, 0x81, 0x81, 0x81, 0x80]).is_some());

    let mut value = Value::Unsigned(0);
    for _ in 0..5 {
        value = Value::Table(vec![(Value::Unsigned(0), value)]);
    }
    let mut out = vec![0x00];
    assert!(!opensk::cbor::writer::write(value, &mut out));
    assert_eq!(out[0], 0x00);
}
