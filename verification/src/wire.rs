//! The wire format, stated as mathematics.
//!
//! [`wire`] says which bytes stand for a value and [`parse`] says what a reader
//! that expects a given shape makes of a byte sequence. The serializer and the
//! deserializer are proved against these two functions, and the laws at the
//! end of this file relate them to each other.
use crate::error::Error;
use crate::value::{SpecShape, SpecValue};
use crate::varint::{signed32, signed64, unsigned32, unsigned64, var_decoding, var_encoding};
use vstd::prelude::*;
use vstd::utf8::{decode_utf8, encode_utf8, valid_utf8};

verus! {

/// The longest string or byte buffer, in bytes, that a length prefix can
/// announce.
pub const MAX_FIELD_LEN: usize = 0x7fff_ffff;

/// The number that `s` spells in base 256, most significant byte first.
pub open spec fn be_value(s: Seq<u8>) -> nat
    decreases s.len(),
{
    if s.len() == 0 {
        0
    } else {
        be_value(s.drop_last()) * 256 + s.last() as nat
    }
}

/// The `width` low-order base-256 digits of `n`, most significant first.
pub open spec fn be_bytes(n: nat, width: nat) -> Seq<u8>
    decreases width,
{
    if width == 0 {
        Seq::empty()
    } else {
        be_bytes(n / 256, (width - 1) as nat).push((n % 256) as u8)
    }
}

/// 256 to the power `i`.
pub open spec fn pow256(i: nat) -> nat
    decreases i,
{
    if i == 0 { 1 } else { 256 * pow256((i - 1) as nat) }
}

/// Whether the serializer has a wire form for `v`.
pub open spec fn writable(v: SpecValue) -> bool
    decreases v, 0nat,
{
    match v {
        SpecValue::U8(_) => true,
        SpecValue::U16(_) => true,
        SpecValue::U64(_) => true,
        SpecValue::F32(_) => true,
        SpecValue::F64(_) => true,
        SpecValue::VarInt(_) => true,
        SpecValue::VarLong(_) => true,
        SpecValue::Str(chars) => encode_utf8(chars).len() <= MAX_FIELD_LEN,
        SpecValue::ByteBuf(bytes) => bytes.len() <= MAX_FIELD_LEN,
        SpecValue::Sequence(items) => all_writable(items),
        SpecValue::Struct(items) => all_writable(items),
        SpecValue::Bool(_) => false,
        SpecValue::Unit => false,
        SpecValue::UnitStruct => false,
        SpecValue::Tuple(_) => false,
        SpecValue::Other(_) => false,
    }
}

/// Whether the serializer has a wire form for every one of `items`.
pub open spec fn all_writable(items: Seq<SpecValue>) -> bool
    decreases items, 1nat,
{
    forall|i: int| 0 <= i < items.len() ==> writable(#[trigger] items[i])
}

/// `body` behind its length.
pub open spec fn prefixed(body: Seq<u8>) -> Seq<u8> {
    var_encoding(body.len()) + body
}

/// The bytes that stand for `v` on the wire, where `v` is writable.
pub open spec fn wire(v: SpecValue) -> Seq<u8>
    decreases v, 0nat,
{
    match v {
        SpecValue::U8(n) => seq![n],
        SpecValue::U16(n) => be_bytes(n as nat, 2),
        SpecValue::U64(n) => be_bytes(n as nat, 8),
        SpecValue::F32(bits) => be_bytes(bits as nat, 4),
        SpecValue::F64(bits) => be_bytes(bits as nat, 8),
        SpecValue::VarInt(n) => var_encoding(unsigned32(n as int)),
        SpecValue::VarLong(n) => var_encoding(unsigned64(n as int)),
        SpecValue::Str(chars) => prefixed(encode_utf8(chars)),
        SpecValue::ByteBuf(bytes) => prefixed(bytes),
        SpecValue::Sequence(items) => wire_upto(items, items.len()),
        SpecValue::Struct(items) => wire_upto(items, items.len()),
        _ => Seq::empty(),
    }
}

/// The bytes that stand for the first `n` of `items`, laid end to end.
pub open spec fn wire_upto(items: Seq<SpecValue>, n: nat) -> Seq<u8>
    decreases items, n,
{
    if n == 0 || n > items.len() {
        Seq::empty()
    } else {
        wire_upto(items, (n - 1) as nat) + wire(items[n - 1])
    }
}

/// The shape that a reader must expect in order to read `v` back.
pub open spec fn shape_of(v: SpecValue) -> SpecShape
    decreases v, 0nat,
{
    match v {
        SpecValue::Bool(_) => SpecShape::Bool,
        SpecValue::U8(_) => SpecShape::U8,
        SpecValue::U16(_) => SpecShape::U16,
        SpecValue::U64(_) => SpecShape::U64,
        SpecValue::F32(_) => SpecShape::F32,
        SpecValue::F64(_) => SpecShape::F64,
        SpecValue::VarInt(_) => SpecShape::VarInt,
        SpecValue::VarLong(_) => SpecShape::VarLong,
        SpecValue::Str(_) => SpecShape::Str,
        SpecValue::ByteBuf(_) => SpecShape::ByteBuf,
        SpecValue::Unit => SpecShape::Unit,
        SpecValue::UnitStruct => SpecShape::UnitStruct,
        SpecValue::Sequence(items) => SpecShape::Sequence(shapes_of(items)),
        SpecValue::Tuple(items) => SpecShape::Tuple(shapes_of(items)),
        SpecValue::Struct(items) => SpecShape::Struct(shapes_of(items)),
        SpecValue::Other(kind) => SpecShape::Other(kind),
    }
}

/// The shapes of `items`, one by one.
pub open spec fn shapes_of(items: Seq<SpecValue>) -> Seq<SpecShape>
    decreases items, 1nat,
{
    Seq::new(
        items.len(),
        |i: int| if 0 <= i < items.len() { shape_of(items[i]) } else { SpecShape::Unit },
    )
}

/// Whether `n` is the length of the longest prefix of `bytes` that is UTF-8.
pub open spec fn is_utf8_valid_up_to(bytes: Seq<u8>, n: nat) -> bool {
    &&& n <= bytes.len()
    &&& valid_utf8(bytes.take(n as int))
    &&& forall|m: nat| n < m <= bytes.len() ==> !valid_utf8(#[trigger] bytes.take(m as int))
}

/// The length of the longest prefix of `bytes` that is UTF-8.
pub open spec fn utf8_valid_up_to(bytes: Seq<u8>) -> nat {
    choose|n: nat| is_utf8_valid_up_to(bytes, n)
}

/// What a read of fixed width, `width` bytes, makes of `s`: the number that
/// they spell, or underflow.
pub open spec fn parse_fixed(s: Seq<u8>, width: nat) -> Result<nat, Error> {
    if s.len() < width {
        Err(Error::Underflow)
    } else {
        Ok(be_value(s.take(width as int)))
    }
}

/// What a reader makes of a length prefix at the front of `s`: the length
/// announced and the width of the prefix itself. The bytes announced must all
/// be there.
pub open spec fn parse_len(s: Seq<u8>) -> Result<(nat, nat), Error> {
    match var_decoding(s, 5, u32::MAX as nat) {
        None => Err(Error::MalformedVarint),
        Some((len, k)) => if len > MAX_FIELD_LEN || k + len > s.len() {
            Err(Error::Underflow)
        } else {
            Ok((len, k))
        },
    }
}

/// What a reader that expects `shape` makes of `s`: the value or the error,
/// and the bytes that it leaves unread. A read that fails leaves everything
/// unread; an aggregate that fails leaves unread what its failing field did.
pub open spec fn parse(shape: SpecShape, s: Seq<u8>) -> (Result<SpecValue, Error>, Seq<u8>)
    decreases shape, 0nat,
{
    match shape {
        SpecShape::Bool => match parse_fixed(s, 1) {
            Ok(n) => (Ok(SpecValue::Bool(n != 0)), s.skip(1)),
            Err(e) => (Err(e), s),
        },
        SpecShape::U8 => match parse_fixed(s, 1) {
            Ok(n) => (Ok(SpecValue::U8(n as u8)), s.skip(1)),
            Err(e) => (Err(e), s),
        },
        SpecShape::U16 => match parse_fixed(s, 2) {
            Ok(n) => (Ok(SpecValue::U16(n as u16)), s.skip(2)),
            Err(e) => (Err(e), s),
        },
        SpecShape::U64 => match parse_fixed(s, 8) {
            Ok(n) => (Ok(SpecValue::U64(n as u64)), s.skip(8)),
            Err(e) => (Err(e), s),
        },
        SpecShape::F32 => match parse_fixed(s, 4) {
            Ok(n) => (Ok(SpecValue::F32(n as u32)), s.skip(4)),
            Err(e) => (Err(e), s),
        },
        SpecShape::F64 => match parse_fixed(s, 8) {
            Ok(n) => (Ok(SpecValue::F64(n as u64)), s.skip(8)),
            Err(e) => (Err(e), s),
        },
        SpecShape::VarInt => match var_decoding(s, 5, u32::MAX as nat) {
            Some((v, k)) => (Ok(SpecValue::VarInt(signed32(v) as i32)), s.skip(k as int)),
            None => (Err(Error::MalformedVarint), s),
        },
        SpecShape::VarLong => match var_decoding(s, 10, u64::MAX as nat) {
            Some((v, k)) => (Ok(SpecValue::VarLong(signed64(v) as i64)), s.skip(k as int)),
            None => (Err(Error::MalformedVarint), s),
        },
        SpecShape::Str => match parse_len(s) {
            Ok((len, k)) => {
                let span = s.subrange(k as int, (k + len) as int);
                if valid_utf8(span) {
                    (Ok(SpecValue::Str(decode_utf8(span))), s.skip((k + len) as int))
                } else {
                    (Err(Error::InvalidUtf8 { valid_up_to: utf8_valid_up_to(span) as usize }), s)
                }
            },
            Err(e) => (Err(e), s),
        },
        SpecShape::ByteBuf => match parse_len(s) {
            Ok((len, k)) => (
                Ok(SpecValue::ByteBuf(s.subrange(k as int, (k + len) as int))),
                s.skip((k + len) as int),
            ),
            Err(e) => (Err(e), s),
        },
        SpecShape::Unit => (Ok(SpecValue::Unit), s),
        SpecShape::UnitStruct => (Ok(SpecValue::UnitStruct), s),
        SpecShape::Sequence(fields) => {
            let (r, rest) = parse_upto(fields, fields.len(), s);
            match r {
                Ok(items) => (Ok(SpecValue::Sequence(items)), rest),
                Err(e) => (Err(e), rest),
            }
        },
        SpecShape::Tuple(fields) => {
            let (r, rest) = parse_upto(fields, fields.len(), s);
            match r {
                Ok(items) => (Ok(SpecValue::Tuple(items)), rest),
                Err(e) => (Err(e), rest),
            }
        },
        SpecShape::Struct(fields) => {
            let (r, rest) = parse_upto(fields, fields.len(), s);
            match r {
                Ok(items) => (Ok(SpecValue::Struct(items)), rest),
                Err(e) => (Err(e), rest),
            }
        },
        SpecShape::Other(_) => (Err(Error::Unimplemented), s),
    }
}

/// What a reader makes of `s` when it expects the first `n` of `fields`, one
/// after the other. The first field that fails ends the read.
pub open spec fn parse_upto(fields: Seq<SpecShape>, n: nat, s: Seq<u8>) -> (
    Result<Seq<SpecValue>, Error>,
    Seq<u8>,
)
    decreases fields, n,
{
    if n == 0 || n > fields.len() {
        (Ok(Seq::empty()), s)
    } else {
        let (r, rest) = parse_upto(fields, (n - 1) as nat, s);
        match r {
            Ok(items) => {
                let (r1, rest1) = parse(fields[n - 1], rest);
                match r1 {
                    Ok(item) => (Ok(items.push(item)), rest1),
                    Err(e) => (Err(e), rest1),
                }
            },
            Err(e) => (Err(e), rest),
        }
    }
}

/// Whether every value of this shape takes the same number of bytes.
pub open spec fn fixed_width(shape: SpecShape) -> bool
    decreases shape, 0nat,
{
    match shape {
        SpecShape::Bool => true,
        SpecShape::U8 => true,
        SpecShape::U16 => true,
        SpecShape::U64 => true,
        SpecShape::F32 => true,
        SpecShape::F64 => true,
        SpecShape::Unit => true,
        SpecShape::UnitStruct => true,
        SpecShape::Sequence(fields) => all_fixed_width(fields),
        SpecShape::Tuple(fields) => all_fixed_width(fields),
        SpecShape::Struct(fields) => all_fixed_width(fields),
        _ => false,
    }
}

/// Whether every one of `fields` is of fixed width.
pub open spec fn all_fixed_width(fields: Seq<SpecShape>) -> bool
    decreases fields, 1nat,
{
    forall|i: int| 0 <= i < fields.len() ==> fixed_width(#[trigger] fields[i])
}

/// The number of bytes that a value of this shape takes, where the shape is of
/// fixed width.
pub open spec fn fixed_size(shape: SpecShape) -> nat
    decreases shape, 0nat,
{
    match shape {
        SpecShape::Bool => 1,
        SpecShape::U8 => 1,
        SpecShape::U16 => 2,
        SpecShape::U64 => 8,
        SpecShape::F32 => 4,
        SpecShape::F64 => 8,
        SpecShape::Sequence(fields) => fixed_size_upto(fields, fields.len()),
        SpecShape::Tuple(fields) => fixed_size_upto(fields, fields.len()),
        SpecShape::Struct(fields) => fixed_size_upto(fields, fields.len()),
        _ => 0,
    }
}

/// The number of bytes that the first `n` of `fields` take together.
pub open spec fn fixed_size_upto(fields: Seq<SpecShape>, n: nat) -> nat
    decreases fields, n,
{
    if n == 0 || n > fields.len() {
        0
    } else {
        fixed_size_upto(fields, (n - 1) as nat) + fixed_size(fields[n - 1])
    }
}

} // verus!
