use packet_codec::de::{deserialize, Deserializer};
use packet_codec::error::Error;
use packet_codec::ser::{serialize, Serializer};
use packet_codec::text::{decode_len, decode_str};
use packet_codec::value::{Shape, Value};

#[test]
fn empty_string_is_a_single_zero() {
    assert_eq!(serialize(&Value::Str(String::new())), Ok(vec![0x00]));
    assert_eq!(deserialize(&Shape::Str, &[0x00]), Ok(Value::Str(String::new())));
}

#[test]
fn prefix_counts_bytes_not_chars() {
    let bytes = serialize(&Value::Str("h\u{e9}llo".to_string())).unwrap();
    assert_eq!(bytes, vec![0x06, 0x68, 0xc3, 0xa9, 0x6c, 0x6c, 0x6f]);
    let bytes = serialize(&Value::Str("\u{65e5}\u{672c}\u{8a9e}".to_string())).unwrap();
    assert_eq!(bytes.len(), 10);
    assert_eq!(bytes[0], 9);
    let bytes = serialize(&Value::Str("\u{1f980}".to_string())).unwrap();
    assert_eq!(bytes, vec![0x04, 0xf0, 0x9f, 0xa6, 0x80]);
}

#[test]
fn strings_read_back_with_their_exact_bytes() {
    let samples =
        ["", "a", "hi", "h\u{e9}llo", "\u{65e5}\u{672c}\u{8a9e}", "\u{1f980} crab", "nul\0inside"];
    for text in samples {
        let bytes = serialize(&Value::Str(text.to_string())).unwrap();
        assert_eq!(bytes.len(), 1 + text.len());
        assert_eq!(&bytes[1..], text.as_bytes());
        assert_eq!(deserialize(&Shape::Str, &bytes), Ok(Value::Str(text.to_string())));
    }
}

#[test]
fn long_string_has_a_two_byte_prefix() {
    let text = "x".repeat(300);
    let bytes = serialize(&Value::Str(text.clone())).unwrap();
    assert_eq!(bytes.len(), 302);
    assert_eq!(&bytes[..2], &[0xac, 0x02]);
    assert_eq!(deserialize(&Shape::Str, &bytes), Ok(Value::Str(text)));
}

#[test]
fn string_read_takes_prefix_and_span_and_no_more() {
    let mut input = Deserializer::new(&[0x02, 0x68, 0x69, 0x01, 0x21, 0x09]);
    assert_eq!(input.deserialize_str(), Ok("hi".to_string()));
    assert_eq!(input.remaining(), 3);
    assert_eq!(input.deserialize_string(), Ok("!".to_string()));
    assert_eq!(input.remaining(), 1);
    assert_eq!(input.deserialize_u8(), Ok(9));
}

#[test]
fn invalid_utf8_reports_where_it_starts() {
    assert_eq!(
        deserialize(&Shape::Str, &[0x04, 0x61, 0x62, 0xff, 0x63]),
        Err(Error::InvalidUtf8 { valid_up_to: 2 })
    );
    assert_eq!(
        deserialize(&Shape::Str, &[0x01, 0x80]),
        Err(Error::InvalidUtf8 { valid_up_to: 0 })
    );
    assert_eq!(
        deserialize(&Shape::Str, &[0x03, 0x61, 0xc3, 0x28]),
        Err(Error::InvalidUtf8 { valid_up_to: 1 })
    );
    assert_eq!(
        deserialize(&Shape::Str, &[0x03, 0x61, 0x62, 0xc3]),
        Err(Error::InvalidUtf8 { valid_up_to: 2 })
    );
    assert_eq!(
        deserialize(&Shape::Str, &[0x03, 0xed, 0xa0, 0x80]),
        Err(Error::InvalidUtf8 { valid_up_to: 0 })
    );
}

#[test]
fn invalid_utf8_leaves_the_buffer_as_it_was() {
    let mut input = Deserializer::new(&[0x02, 0x61, 0xff, 0x07]);
    assert_eq!(input.deserialize_str(), Err(Error::InvalidUtf8 { valid_up_to: 1 }));
    assert_eq!(input.remaining(), 4);
    assert_eq!(input.deserialize_byte_buf(), Ok(vec![0x61, 0xff]));
    assert_eq!(input.remaining(), 1);
}

#[test]
fn only_the_announced_span_is_validated() {
    assert_eq!(
        deserialize(&Shape::Str, &[0x01, 0x61, 0xff, 0xff]),
        Ok(Value::Str("a".to_string()))
    );
}

#[test]
fn announced_span_longer_than_the_buffer_underflows() {
    assert_eq!(deserialize(&Shape::Str, &[0x02, 0x68]), Err(Error::Underflow));
    assert_eq!(deserialize(&Shape::Str, &[0x01]), Err(Error::Underflow));
    assert_eq!(deserialize(&Shape::ByteBuf, &[0x05, 1, 2, 3, 4]), Err(Error::Underflow));
    let mut input = Deserializer::new(&[0x03, 0x68, 0x69]);
    assert_eq!(input.deserialize_str(), Err(Error::Underflow));
    assert_eq!(input.deserialize_byte_buf(), Err(Error::Underflow));
    assert_eq!(input.remaining(), 3);
}

#[test]
fn negative_length_underflows() {
    assert_eq!(
        deserialize(&Shape::Str, &[0xff, 0xff, 0xff, 0xff, 0x0f, 0x61]),
        Err(Error::Underflow)
    );
    assert_eq!(
        deserialize(&Shape::ByteBuf, &[0x80, 0x80, 0x80, 0x80, 0x08]),
        Err(Error::Underflow)
    );
    assert_eq!(decode_len(&[0xff, 0xff, 0xff, 0xff, 0x0f]), Err(Error::Underflow));
}

#[test]
fn bad_length_prefix_is_malformed() {
    assert_eq!(deserialize(&Shape::Str, &[]), Err(Error::MalformedVarint));
    assert_eq!(deserialize(&Shape::Str, &[0x80]), Err(Error::MalformedVarint));
    assert_eq!(
        deserialize(&Shape::ByteBuf, &[0x80, 0x80, 0x80, 0x80, 0x80, 0x01]),
        Err(Error::MalformedVarint)
    );
    assert_eq!(
        deserialize(&Shape::Str, &[0xff, 0xff, 0xff, 0xff, 0x7f]),
        Err(Error::MalformedVarint)
    );
}

#[test]
fn length_prefix_alone() {
    assert_eq!(decode_len(&[0x00]), Ok((0, 1)));
    assert_eq!(decode_len(&[0x02, 0x68, 0x69]), Ok((2, 1)));
    assert_eq!(decode_len(&[0x82, 0x00, 0x68, 0x69]), Ok((2, 2)));
    assert_eq!(decode_len(&[0x02, 0x68]), Err(Error::Underflow));
    assert_eq!(decode_len(&[]), Err(Error::MalformedVarint));
}

#[test]
fn string_from_a_slice() {
    assert_eq!(decode_str(&[0x02, 0x68, 0x69, 0x99]), Ok(("hi".to_string(), 3)));
    assert_eq!(decode_str(&[0x00]), Ok((String::new(), 1)));
    assert_eq!(decode_str(&[0x02, 0xc3, 0xa9]), Ok(("\u{e9}".to_string(), 3)));
    assert_eq!(decode_str(&[0x02, 0xc3]), Err(Error::Underflow));
    assert_eq!(decode_str(&[0x01, 0xc3]), Err(Error::InvalidUtf8 { valid_up_to: 0 }));
}

#[test]
fn byte_buffers_are_not_validated() {
    let bytes = serialize(&Value::ByteBuf(vec![0xff, 0x00, 0xfe])).unwrap();
    assert_eq!(bytes, vec![0x03, 0xff, 0x00, 0xfe]);
    assert_eq!(
        deserialize(&Shape::ByteBuf, &bytes),
        Ok(Value::ByteBuf(vec![0xff, 0x00, 0xfe]))
    );
    assert_eq!(serialize(&Value::ByteBuf(Vec::new())), Ok(vec![0x00]));
    assert_eq!(deserialize(&Shape::ByteBuf, &[0x00, 0x01]), Ok(Value::ByteBuf(Vec::new())));
}

#[test]
fn serializer_writes_strings_and_buffers_behind_what_is_there() {
    let mut out = Serializer::new();
    assert_eq!(out.serialize_u8(0x2a), Ok(()));
    assert_eq!(out.serialize_str("hi"), Ok(()));
    assert_eq!(out.serialize_byte_buf(&[0x01, 0x02]), Ok(()));
    assert_eq!(out.serialize_str(""), Ok(()));
    assert_eq!(out.to_vec(), vec![0x2a, 0x02, 0x68, 0x69, 0x02, 0x01, 0x02, 0x00]);
}
