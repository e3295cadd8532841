use packet_codec::de::{deserialize, Deserializer};
use packet_codec::error::Error;
use packet_codec::ser::{serialize, Serializer};
use packet_codec::value::{Shape, Unsupported, Value};

#[test]
fn ping_payload_is_eight_bytes_and_reads_back() {
    let ping = Value::Struct(vec![Value::U64(42)]);
    let bytes = serialize(&ping).unwrap();
    assert_eq!(bytes, vec![0, 0, 0, 0, 0, 0, 0, 42]);
    let shape = Shape::Struct(vec![Shape::U64]);
    assert_eq!(deserialize(&shape, &bytes), Ok(ping));
}

#[test]
fn short_string_has_one_byte_prefix() {
    let bytes = serialize(&Value::Str("hi".to_string())).unwrap();
    assert_eq!(bytes, vec![0x02, 0x68, 0x69]);
    assert_eq!(deserialize(&Shape::Str, &bytes), Ok(Value::Str("hi".to_string())));
}

#[test]
fn truncated_string_underflows() {
    let bytes = serialize(&Value::Str("hi".to_string())).unwrap();
    assert_eq!(deserialize(&Shape::Str, &bytes[..2]), Err(Error::Underflow));
}

#[test]
fn map_is_refused_and_nothing_is_written() {
    let map = Value::Other(Unsupported::Mapping);
    assert_eq!(serialize(&map), Err(Error::Unimplemented));
    let mut out = Serializer::new();
    assert_eq!(out.serialize_map(Some(1)), Err(Error::Unimplemented));
    assert_eq!(out.serialize_value(&map), Err(Error::Unimplemented));
    assert_eq!(out.len(), 0);
    assert_eq!(out.to_vec(), Vec::<u8>::new());
}

#[test]
fn failed_read_consumes_nothing() {
    let mut input = Deserializer::new(&[0x02, 0xff, 0xfe, 0x07]);
    assert_eq!(input.deserialize_str(), Err(Error::InvalidUtf8 { valid_up_to: 0 }));
    assert_eq!(input.remaining(), 4);
    assert_eq!(input.deserialize_u8(), Ok(2));
}
