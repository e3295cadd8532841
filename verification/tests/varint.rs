use packet_codec::error::Error;
use packet_codec::varint::{encode_var, Var};

#[test]
fn zero_takes_one_byte() {
    assert_eq!(encode_var(0), vec![0x00]);
    assert_eq!(Var(0i32).encode(), vec![0x00]);
    assert_eq!(Var(0i64).encode(), vec![0x00]);
    assert_eq!(Var(0u32).encode(), vec![0x00]);
    assert_eq!(Var(0u64).encode(), vec![0x00]);
}

#[test]
fn known_encodings_of_32_bit_integers() {
    assert_eq!(Var(1i32).encode(), vec![0x01]);
    assert_eq!(Var(2i32).encode(), vec![0x02]);
    assert_eq!(Var(127i32).encode(), vec![0x7f]);
    assert_eq!(Var(128i32).encode(), vec![0x80, 0x01]);
    assert_eq!(Var(255i32).encode(), vec![0xff, 0x01]);
    assert_eq!(Var(300i32).encode(), vec![0xac, 0x02]);
    assert_eq!(Var(25565i32).encode(), vec![0xdd, 0xc7, 0x01]);
    assert_eq!(Var(2097151i32).encode(), vec![0xff, 0xff, 0x7f]);
    assert_eq!(Var(i32::MAX).encode(), vec![0xff, 0xff, 0xff, 0xff, 0x07]);
    assert_eq!(Var(-1i32).encode(), vec![0xff, 0xff, 0xff, 0xff, 0x0f]);
    assert_eq!(Var(i32::MIN).encode(), vec![0x80, 0x80, 0x80, 0x80, 0x08]);
    assert_eq!(Var(u32::MAX).encode(), vec![0xff, 0xff, 0xff, 0xff, 0x0f]);
}

#[test]
fn known_encodings_of_64_bit_integers() {
    assert_eq!(Var(2147483647i64).encode(), vec![0xff, 0xff, 0xff, 0xff, 0x07]);
    assert_eq!(
        Var(i64::MAX).encode(),
        vec![0xff, 0xff, 0xff, 0xff, 0xff, 0xff, 0xff, 0xff, 0x7f]
    );
    assert_eq!(
        Var(-1i64).encode(),
        vec![0xff, 0xff, 0xff, 0xff, 0xff, 0xff, 0xff, 0xff, 0xff, 0x01]
    );
    assert_eq!(
        Var(-2147483648i64).encode(),
        vec![0x80, 0x80, 0x80, 0x80, 0xf8, 0xff, 0xff, 0xff, 0xff, 0x01]
    );
    assert_eq!(
        Var(i64::MIN).encode(),
        vec![0x80, 0x80, 0x80, 0x80, 0x80, 0x80, 0x80, 0x80, 0x80, 0x01]
    );
    assert_eq!(
        Var(u64::MAX).encode(),
        vec![0xff, 0xff, 0xff, 0xff, 0xff, 0xff, 0xff, 0xff, 0xff, 0x01]
    );
}

#[test]
fn encoding_length_never_shrinks_as_the_value_grows() {
    let samples: [u64; 14] = [
        0,
        1,
        127,
        128,
        16383,
        16384,
        2097151,
        2097152,
        268435455,
        268435456,
        u32::MAX as u64,
        1 << 35,
        1 << 63,
        u64::MAX,
    ];
    let mut previous = 0;
    for n in samples {
        let len = encode_var(n).len();
        assert!(len >= previous);
        previous = len;
    }
    assert_eq!(encode_var(127).len(), 1);
    assert_eq!(encode_var(128).len(), 2);
    assert_eq!(encode_var(u64::MAX).len(), 10);
}

#[test]
fn signed_values_decode_to_themselves() {
    for x in [0i32, 1, -1, 127, 128, -128, 25565, i32::MAX, i32::MIN] {
        let bytes = Var(x).encode();
        assert_eq!(Var::<i32>::decode(&bytes), Ok((Var(x), bytes.len())));
    }
    for x in [0i64, 1, -1, 1 << 40, -(1 << 40), i64::MAX, i64::MIN] {
        let bytes = Var(x).encode();
        assert_eq!(Var::<i64>::decode(&bytes), Ok((Var(x), bytes.len())));
    }
}

#[test]
fn unsigned_values_decode_to_themselves() {
    for x in [0u32, 1, 127, 128, 300, u32::MAX] {
        let bytes = Var(x).encode();
        assert_eq!(Var::<u32>::decode(&bytes), Ok((Var(x), bytes.len())));
    }
    for x in [0u64, 1, 1 << 35, 1 << 63, u64::MAX] {
        let bytes = Var(x).encode();
        assert_eq!(Var::<u64>::decode(&bytes), Ok((Var(x), bytes.len())));
    }
}

#[test]
fn two_encodings_end_to_end_decode_in_order() {
    let mut bytes = Var(300i32).encode();
    bytes.extend(Var(-7i32).encode());
    bytes.push(0x55);
    let (first, used) = Var::<i32>::decode(&bytes).unwrap();
    assert_eq!(first, Var(300));
    assert_eq!(used, 2);
    let (second, used_again) = Var::<i32>::decode(&bytes[used..]).unwrap();
    assert_eq!(second, Var(-7));
    assert_eq!(used_again, 5);
    assert_eq!(&bytes[used + used_again..], &[0x55]);
}

#[test]
fn decoding_stops_at_the_first_byte_without_the_high_bit() {
    assert_eq!(Var::<i32>::decode(&[0x05, 0xff, 0xff]), Ok((Var(5), 1)));
    assert_eq!(Var::<u64>::decode(&[0xac, 0x02, 0x80]), Ok((Var(300), 2)));
}

#[test]
fn longer_than_needed_encodings_are_read() {
    assert_eq!(Var::<i32>::decode(&[0x80, 0x00]), Ok((Var(0), 2)));
    assert_eq!(Var::<i32>::decode(&[0x81, 0x80, 0x80, 0x80, 0x00]), Ok((Var(1), 5)));
}

#[test]
fn empty_input_is_malformed() {
    assert_eq!(Var::<i32>::decode(&[]), Err(Error::MalformedVarint));
    assert_eq!(Var::<i64>::decode(&[]), Err(Error::MalformedVarint));
    assert_eq!(Var::<u32>::decode(&[]), Err(Error::MalformedVarint));
    assert_eq!(Var::<u64>::decode(&[]), Err(Error::MalformedVarint));
}

#[test]
fn input_that_ends_before_the_integer_does_is_malformed() {
    assert_eq!(Var::<i32>::decode(&[0x80]), Err(Error::MalformedVarint));
    assert_eq!(Var::<i32>::decode(&[0xff, 0xff, 0xff]), Err(Error::MalformedVarint));
    assert_eq!(Var::<i64>::decode(&[0xff; 9]), Err(Error::MalformedVarint));
}

#[test]
fn integer_that_does_not_end_in_time_is_malformed() {
    assert_eq!(
        Var::<i32>::decode(&[0x80, 0x80, 0x80, 0x80, 0x80, 0x00]),
        Err(Error::MalformedVarint)
    );
    assert_eq!(
        Var::<i64>::decode(&[0x80, 0x80, 0x80, 0x80, 0x80, 0x80, 0x80, 0x80, 0x80, 0x80, 0x00]),
        Err(Error::MalformedVarint)
    );
}

#[test]
fn integer_beyond_the_target_width_is_malformed() {
    assert_eq!(
        Var::<i32>::decode(&[0xff, 0xff, 0xff, 0xff, 0x1f]),
        Err(Error::MalformedVarint)
    );
    assert_eq!(
        Var::<u32>::decode(&[0x80, 0x80, 0x80, 0x80, 0x10]),
        Err(Error::MalformedVarint)
    );
    assert_eq!(
        Var::<u64>::decode(&[0xff, 0xff, 0xff, 0xff, 0xff, 0xff, 0xff, 0xff, 0xff, 0x02]),
        Err(Error::MalformedVarint)
    );
    assert_eq!(
        Var::<u32>::decode(&[0xff, 0xff, 0xff, 0xff, 0x0f]),
        Ok((Var(u32::MAX), 5))
    );
}
