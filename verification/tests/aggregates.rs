use packet_codec::de::{deserialize, Deserializer};
use packet_codec::error::Error;
use packet_codec::ser::{serialize, Serializer};
use packet_codec::value::{Shape, Unsupported, Value};

fn handshake() -> Value {
    Value::Struct(vec![
        Value::VarInt(578),
        Value::Str("localhost".to_string()),
        Value::U16(25565),
        Value::VarInt(1),
    ])
}

fn handshake_shape() -> Shape {
    Shape::Struct(vec![Shape::VarInt, Shape::Str, Shape::U16, Shape::VarInt])
}

fn nested() -> Value {
    Value::Struct(vec![
        Value::U8(1),
        Value::Sequence(vec![Value::U16(2), Value::U16(3)]),
        Value::Struct(vec![
            Value::Str("h\u{e9}".to_string()),
            Value::ByteBuf(vec![9, 8, 7]),
            Value::Sequence(Vec::new()),
        ]),
        Value::F32(0x40490fdb),
        Value::F64(0x400921fb54442d18),
        Value::VarLong(-2),
        Value::U64(u64::MAX),
    ])
}

#[test]
fn struct_is_its_fields_end_to_end() {
    let bytes = serialize(&handshake()).unwrap();
    let mut expected = vec![0xc2, 0x04, 0x09];
    expected.extend_from_slice(b"localhost");
    expected.extend_from_slice(&[0x63, 0xdd, 0x01]);
    assert_eq!(bytes, expected);
}

#[test]
fn struct_reads_back() {
    let bytes = serialize(&handshake()).unwrap();
    assert_eq!(deserialize(&handshake_shape(), &bytes), Ok(handshake()));
}

#[test]
fn sequence_and_struct_have_the_same_bytes() {
    let as_struct = Value::Struct(vec![Value::U8(1), Value::U16(2)]);
    let as_sequence = Value::Sequence(vec![Value::U8(1), Value::U16(2)]);
    assert_eq!(serialize(&as_struct), Ok(vec![1, 0, 2]));
    assert_eq!(serialize(&as_sequence), Ok(vec![1, 0, 2]));
    assert_eq!(serialize(&Value::Struct(Vec::new())), Ok(Vec::new()));
}

#[test]
fn nested_value_reads_back_through_its_own_shape() {
    let value = nested();
    let shape = value.shape();
    let bytes = serialize(&value).unwrap();
    assert_eq!(deserialize(&shape, &bytes), Ok(nested()));
    let mut input = Deserializer::new(&bytes);
    assert_eq!(input.deserialize_value(&shape), Ok(nested()));
    assert_eq!(input.remaining(), 0);
}

#[test]
fn shape_of_a_value() {
    assert_eq!(handshake().shape(), handshake_shape());
    assert_eq!(Value::Bool(true).shape(), Shape::Bool);
    assert_eq!(Value::UnitStruct.shape(), Shape::UnitStruct);
    assert_eq!(
        Value::Tuple(vec![Value::F32(0), Value::Other(Unsupported::Char)]).shape(),
        Shape::Tuple(vec![Shape::F32, Shape::Other(Unsupported::Char)])
    );
    assert_eq!(
        Value::shapes(&vec![Value::U8(1), Value::Sequence(vec![Value::VarLong(2)])]),
        vec![Shape::U8, Shape::Sequence(vec![Shape::VarLong])]
    );
}

#[test]
fn tuples_and_sequences_are_read_like_structs() {
    let bytes = [0x01, 0x00, 0x02, 0xff];
    let fields = vec![Shape::U8, Shape::U16, Shape::Bool];
    let items = vec![Value::U8(1), Value::U16(2), Value::Bool(true)];
    assert_eq!(
        deserialize(&Shape::Tuple(vec![Shape::U8, Shape::U16, Shape::Bool]), &bytes),
        Ok(Value::Tuple(vec![Value::U8(1), Value::U16(2), Value::Bool(true)]))
    );
    assert_eq!(
        deserialize(&Shape::Sequence(vec![Shape::U8, Shape::U16, Shape::Bool]), &bytes),
        Ok(Value::Sequence(vec![Value::U8(1), Value::U16(2), Value::Bool(true)]))
    );
    let mut input = Deserializer::new(&bytes);
    assert_eq!(input.deserialize_tuple(3, &fields), Ok(items));
    assert_eq!(input.remaining(), 0);
    let mut input = Deserializer::new(&bytes);
    assert_eq!(
        input.deserialize_struct("Sample", &fields),
        Ok(vec![Value::U8(1), Value::U16(2), Value::Bool(true)])
    );
    let mut input = Deserializer::new(&bytes);
    assert_eq!(
        input.deserialize_seq(&fields),
        Ok(vec![Value::U8(1), Value::U16(2), Value::Bool(true)])
    );
}

#[test]
fn unit_struct_takes_no_bytes() {
    let mut input = Deserializer::new(&[0x07]);
    assert_eq!(input.deserialize_unit_struct("Marker"), Ok(()));
    assert_eq!(input.deserialize_unit(), Ok(()));
    assert_eq!(input.remaining(), 1);
    assert_eq!(deserialize(&Shape::Unit, &[]), Ok(Value::Unit));
    assert_eq!(deserialize(&Shape::UnitStruct, &[]), Ok(Value::UnitStruct));
    assert_eq!(
        deserialize(&Shape::Struct(vec![Shape::UnitStruct, Shape::U8, Shape::UnitStruct]), &[0x07]),
        Ok(Value::Struct(vec![Value::UnitStruct, Value::U8(7), Value::UnitStruct]))
    );
}

#[test]
fn next_element_always_has_one() {
    let mut input = Deserializer::new(&[0x01, 0x02]);
    assert_eq!(input.next_element(&Shape::U8), Ok(Some(Value::U8(1))));
    assert_eq!(input.next_element(&Shape::U8), Ok(Some(Value::U8(2))));
    assert_eq!(input.next_element(&Shape::U8), Err(Error::Underflow));
    assert_eq!(input.next_element(&Shape::UnitStruct), Ok(Some(Value::UnitStruct)));
}

#[test]
fn struct_on_a_short_buffer_underflows() {
    let shape = Shape::Struct(vec![Shape::U8, Shape::U16, Shape::U64]);
    let bytes = [1, 0, 2, 0, 0, 0, 0, 0, 0, 0, 3];
    assert_eq!(
        deserialize(&shape, &bytes),
        Ok(Value::Struct(vec![Value::U8(1), Value::U16(2), Value::U64(3)]))
    );
    for len in 0..bytes.len() {
        assert_eq!(deserialize(&shape, &bytes[..len]), Err(Error::Underflow));
    }
    let tuple = Shape::Tuple(vec![Shape::Bool, Shape::Struct(vec![Shape::F32, Shape::F64])]);
    for len in 0..13 {
        assert_eq!(deserialize(&tuple, &[0u8; 13][..len]), Err(Error::Underflow));
    }
    assert!(deserialize(&tuple, &[0u8; 13]).is_ok());
}

#[test]
fn every_truncation_of_a_written_value_fails() {
    let bytes = serialize(&nested()).unwrap();
    let shape = nested().shape();
    for len in 0..bytes.len() {
        let outcome = deserialize(&shape, &bytes[..len]);
        assert!(
            outcome == Err(Error::Underflow) || outcome == Err(Error::MalformedVarint),
            "{:?}",
            outcome
        );
    }
}

#[test]
fn failing_field_keeps_what_was_read_before_it() {
    let shape = Shape::Struct(vec![Shape::U8, Shape::U16]);
    let mut input = Deserializer::new(&[0x01, 0x02]);
    assert_eq!(input.deserialize_value(&shape), Err(Error::Underflow));
    assert_eq!(input.remaining(), 1);
    let shape = Shape::Struct(vec![Shape::U8, Shape::Other(Unsupported::Mapping), Shape::U8]);
    let mut input = Deserializer::new(&[0x01, 0x02, 0x03]);
    assert_eq!(input.deserialize_value(&shape), Err(Error::Unimplemented));
    assert_eq!(input.remaining(), 2);
}

#[test]
fn trailing_bytes_are_left_alone() {
    assert_eq!(
        deserialize(&Shape::Struct(vec![Shape::U8]), &[0x01, 0x02, 0x03]),
        Ok(Value::Struct(vec![Value::U8(1)]))
    );
}

#[test]
fn unsupported_field_refuses_the_whole_value() {
    let value = Value::Struct(vec![
        Value::U8(1),
        Value::Sequence(vec![Value::U16(2), Value::Other(Unsupported::Mapping)]),
    ]);
    assert_eq!(serialize(&value), Err(Error::Unimplemented));
    let mut out = Serializer::new();
    assert_eq!(out.serialize_u8(9), Ok(()));
    assert_eq!(out.serialize_value(&value), Err(Error::Unimplemented));
    assert_eq!(out.to_vec(), vec![9]);
    assert!(!Serializer::supports(&value));
    assert!(Serializer::supports(&nested()));
    assert!(Serializer::supports_all(&vec![Value::U8(1), Value::Str(String::new())]));
    assert!(!Serializer::supports_all(&vec![Value::U8(1), Value::Bool(true)]));
}

#[test]
fn beginning_an_aggregate_writes_nothing() {
    let mut out = Serializer::new();
    assert_eq!(out.serialize_struct("Ping", 1), Ok(()));
    assert_eq!(out.serialize_seq(Some(3)), Ok(()));
    assert_eq!(out.serialize_seq(None), Ok(()));
    assert_eq!(out.len(), 0);
}

#[test]
fn small_values_have_room() {
    let mut out = Serializer::new();
    assert!(out.has_room_for(&nested()));
    assert!(out.has_room_for(&Value::Other(Unsupported::Mapping)));
    assert_eq!(out.serialize_value(&nested()), Ok(()));
    assert!(out.has_room_for(&nested()));
    assert_eq!(out.serialize_value(&nested()), Ok(()));
    let once = serialize(&nested()).unwrap();
    assert_eq!(out.to_vec(), [once.clone(), once].concat());
}
