//! Reading values from an input buffer.
use crate::bytes_specs::{
    bytes_advance, bytes_chunk, bytes_contents, bytes_copy_from_slice, bytes_get_u16,
    bytes_get_u32, bytes_get_u64, bytes_get_u8, bytes_split_to,
};
use crate::error::Error;
use crate::laws::{lemma_be_value_single, lemma_parse_upto_error};
use crate::text::{decode_len, decode_str};
use crate::value::{shapes_view, values_view, Shape, SpecShape, SpecValue, Value};
use crate::varint::Var;
use crate::wire::{parse, parse_upto};
use bytes::Bytes;
use vstd::prelude::*;
use vstd::slice::slice_to_vec;

verus! {

/// Reads values, one after the other, off the front of a buffer that only
/// shrinks.
pub struct Deserializer(pub Bytes);

impl View for Deserializer {
    type V = Seq<u8>;

    /// Everything not read yet.
    open spec fn view(&self) -> Seq<u8> {
        bytes_contents(&self.0)
    }
}

impl Deserializer {
    /// A deserializer that is about to read a copy of `data`.
    pub fn new(data: &[u8]) -> (d: Deserializer)
        ensures
            d@ == data@,
    {
        Deserializer(bytes_copy_from_slice(data))
    }

    /// The number of bytes not read yet.
    pub fn remaining(&self) -> (n: usize)
        ensures
            n == self@.len(),
    {
        bytes_chunk(&self.0).len()
    }

    /// Reads one byte as a boolean: zero is `false`, anything else is `true`.
    pub fn deserialize_bool(&mut self) -> (r: Result<bool, Error>)
        ensures
            match r {
                Ok(b) => parse(SpecShape::Bool, old(self)@) == (
                    Ok::<SpecValue, Error>(SpecValue::Bool(b)),
                    final(self)@,
                ),
                Err(e) => parse(SpecShape::Bool, old(self)@) == (
                    Err::<SpecValue, Error>(e),
                    final(self)@,
                ),
            },
    {
        if self.remaining() < 1 {
            return Err(Error::Underflow);
        }
        proof {
            lemma_be_value_single(self@);
        }
        Ok(bytes_get_u8(&mut self.0) != 0)
    }

    /// Reads one byte.
    pub fn deserialize_u8(&mut self) -> (r: Result<u8, Error>)
        ensures
            match r {
                Ok(n) => parse(SpecShape::U8, old(self)@) == (
                    Ok::<SpecValue, Error>(SpecValue::U8(n)),
                    final(self)@,
                ),
                Err(e) => parse(SpecShape::U8, old(self)@) == (
                    Err::<SpecValue, Error>(e),
                    final(self)@,
                ),
            },
    {
        if self.remaining() < 1 {
            return Err(Error::Underflow);
        }
        proof {
            lemma_be_value_single(self@);
        }
        Ok(bytes_get_u8(&mut self.0))
    }

    /// Reads two bytes, the more significant one first.
    pub fn deserialize_u16(&mut self) -> (r: Result<u16, Error>)
        ensures
            match r {
                Ok(n) => parse(SpecShape::U16, old(self)@) == (
                    Ok::<SpecValue, Error>(SpecValue::U16(n)),
                    final(self)@,
                ),
                Err(e) => parse(SpecShape::U16, old(self)@) == (
                    Err::<SpecValue, Error>(e),
                    final(self)@,
                ),
            },
    {
        if self.remaining() < 2 {
            return Err(Error::Underflow);
        }
        Ok(bytes_get_u16(&mut self.0))
    }

    /// Reads eight bytes, the most significant one first.
    pub fn deserialize_u64(&mut self) -> (r: Result<u64, Error>)
        ensures
            match r {
                Ok(n) => parse(SpecShape::U64, old(self)@) == (
                    Ok::<SpecValue, Error>(SpecValue::U64(n)),
                    final(self)@,
                ),
                Err(e) => parse(SpecShape::U64, old(self)@) == (
                    Err::<SpecValue, Error>(e),
                    final(self)@,
                ),
            },
    {
        if self.remaining() < 8 {
            return Err(Error::Underflow);
        }
        Ok(bytes_get_u64(&mut self.0))
    }

    /// Reads a single-precision float and returns its bit pattern: four
    /// bytes, the most significant one first.
    pub fn deserialize_f32(&mut self) -> (r: Result<u32, Error>)
        ensures
            match r {
                Ok(bits) => parse(SpecShape::F32, old(self)@) == (
                    Ok::<SpecValue, Error>(SpecValue::F32(bits)),
                    final(self)@,
                ),
                Err(e) => parse(SpecShape::F32, old(self)@) == (
                    Err::<SpecValue, Error>(e),
                    final(self)@,
                ),
            },
    {
        if self.remaining() < 4 {
            return Err(Error::Underflow);
        }
        Ok(bytes_get_u32(&mut self.0))
    }

    /// Reads a double-precision float and returns its bit pattern: eight
    /// bytes, the most significant one first.
    pub fn deserialize_f64(&mut self) -> (r: Result<u64, Error>)
        ensures
            match r {
                Ok(bits) => parse(SpecShape::F64, old(self)@) == (
                    Ok::<SpecValue, Error>(SpecValue::F64(bits)),
                    final(self)@,
                ),
                Err(e) => parse(SpecShape::F64, old(self)@) == (
                    Err::<SpecValue, Error>(e),
                    final(self)@,
                ),
            },
    {
        if self.remaining() < 8 {
            return Err(Error::Underflow);
        }
        Ok(bytes_get_u64(&mut self.0))
    }

    /// Reads a 32-bit integer in variable-width form.
    pub fn deserialize_var_i32(&mut self) -> (r: Result<i32, Error>)
        ensures
            match r {
                Ok(n) => parse(SpecShape::VarInt, old(self)@) == (
                    Ok::<SpecValue, Error>(SpecValue::VarInt(n)),
                    final(self)@,
                ),
                Err(e) => parse(SpecShape::VarInt, old(self)@) == (
                    Err::<SpecValue, Error>(e),
                    final(self)@,
                ),
            },
    {
        match Var::<i32>::decode(bytes_chunk(&self.0)) {
            Ok((n, k)) => {
                bytes_advance(&mut self.0, k);
                Ok(n.0)
            },
            Err(e) => Err(e),
        }
    }

    /// Reads a 64-bit integer in variable-width form.
    pub fn deserialize_var_i64(&mut self) -> (r: Result<i64, Error>)
        ensures
            match r {
                Ok(n) => parse(SpecShape::VarLong, old(self)@) == (
                    Ok::<SpecValue, Error>(SpecValue::VarLong(n)),
                    final(self)@,
                ),
                Err(e) => parse(SpecShape::VarLong, old(self)@) == (
                    Err::<SpecValue, Error>(e),
                    final(self)@,
                ),
            },
    {
        match Var::<i64>::decode(bytes_chunk(&self.0)) {
            Ok((n, k)) => {
                bytes_advance(&mut self.0, k);
                Ok(n.0)
            },
            Err(e) => Err(e),
        }
    }

    /// Reads a string: a length in variable-width form, then that many bytes,
    /// which must be UTF-8. A read that fails consumes nothing.
    pub fn deserialize_str(&mut self) -> (r: Result<String, Error>)
        ensures
            match r {
                Ok(text) => parse(SpecShape::Str, old(self)@) == (
                    Ok::<SpecValue, Error>(SpecValue::Str(text@)),
                    final(self)@,
                ),
                Err(e) => parse(SpecShape::Str, old(self)@) == (
                    Err::<SpecValue, Error>(e),
                    final(self)@,
                ),
            },
    {
        match decode_str(bytes_chunk(&self.0)) {
            Ok((text, n)) => {
                bytes_advance(&mut self.0, n);
                Ok(text)
            },
            Err(e) => Err(e),
        }
    }

    /// Reads a string, as [`Deserializer::deserialize_str`] does.
    pub fn deserialize_string(&mut self) -> (r: Result<String, Error>)
        ensures
            match r {
                Ok(text) => parse(SpecShape::Str, old(self)@) == (
                    Ok::<SpecValue, Error>(SpecValue::Str(text@)),
                    final(self)@,
                ),
                Err(e) => parse(SpecShape::Str, old(self)@) == (
                    Err::<SpecValue, Error>(e),
                    final(self)@,
                ),
            },
    {
        self.deserialize_str()
    }

    /// Reads a byte buffer: a length in variable-width form, then that many
    /// bytes, whatever they are. A read that fails consumes nothing.
    pub fn deserialize_byte_buf(&mut self) -> (r: Result<Vec<u8>, Error>)
        ensures
            match r {
                Ok(bytes) => parse(SpecShape::ByteBuf, old(self)@) == (
                    Ok::<SpecValue, Error>(SpecValue::ByteBuf(bytes@)),
                    final(self)@,
                ),
                Err(e) => parse(SpecShape::ByteBuf, old(self)@) == (
                    Err::<SpecValue, Error>(e),
                    final(self)@,
                ),
            },
    {
        match decode_len(bytes_chunk(&self.0)) {
            Ok((len, k)) => {
                bytes_advance(&mut self.0, k);
                let body = bytes_split_to(&mut self.0, len);
                proof {
                    let s = old(self)@;
                    assert(s.skip(k as int).take(len as int) =~= s.subrange(
                        k as int,
                        (k + len) as int,
                    ));
                    assert(s.skip(k as int).skip(len as int) =~= s.skip((k + len) as int));
                }
                Ok(slice_to_vec(bytes_chunk(&body)))
            },
            Err(e) => Err(e),
        }
    }

    /// Reads the unit value, which takes no bytes.
    pub fn deserialize_unit(&mut self) -> (r: Result<(), Error>)
        ensures
            r is Ok,
            parse(SpecShape::Unit, old(self)@) == (
                Ok::<SpecValue, Error>(SpecValue::Unit),
                final(self)@,
            ),
    {
        Ok(())
    }

    /// Reads a unit struct, which takes no bytes.
    pub fn deserialize_unit_struct(&mut self, name: &str) -> (r: Result<(), Error>)
        ensures
            r is Ok,
            parse(SpecShape::UnitStruct, old(self)@) == (
                Ok::<SpecValue, Error>(SpecValue::UnitStruct),
                final(self)@,
            ),
    {
        Ok(())
    }

    /// Refuses a value that is to describe itself: the wire carries no
    /// description of what is on it. Nothing is consumed.
    pub fn deserialize_any(&mut self) -> (r: Result<Value, Error>)
        ensures
            r == Err::<Value, Error>(Error::Unimplemented),
            final(self)@ == old(self)@,
    {
        Err(Error::Unimplemented)
    }

    /// Refuses a character. Nothing is consumed.
    pub fn deserialize_char(&mut self) -> (r: Result<char, Error>)
        ensures
            r == Err::<char, Error>(Error::Unimplemented),
            final(self)@ == old(self)@,
    {
        Err(Error::Unimplemented)
    }

    /// Refuses a signed byte. Nothing is consumed.
    pub fn deserialize_i8(&mut self) -> (r: Result<i8, Error>)
        ensures
            r == Err::<i8, Error>(Error::Unimplemented),
            final(self)@ == old(self)@,
    {
        Err(Error::Unimplemented)
    }

    /// Refuses a signed 16-bit integer of fixed width. Nothing is consumed.
    pub fn deserialize_i16(&mut self) -> (r: Result<i16, Error>)
        ensures
            r == Err::<i16, Error>(Error::Unimplemented),
            final(self)@ == old(self)@,
    {
        Err(Error::Unimplemented)
    }

    /// Refuses a signed 32-bit integer of fixed width. Nothing is consumed.
    pub fn deserialize_i32(&mut self) -> (r: Result<i32, Error>)
        ensures
            r == Err::<i32, Error>(Error::Unimplemented),
            final(self)@ == old(self)@,
    {
        Err(Error::Unimplemented)
    }

    /// Refuses a signed 64-bit integer of fixed width. Nothing is consumed.
    pub fn deserialize_i64(&mut self) -> (r: Result<i64, Error>)
        ensures
            r == Err::<i64, Error>(Error::Unimplemented),
            final(self)@ == old(self)@,
    {
        Err(Error::Unimplemented)
    }

    /// Refuses an unsigned 32-bit integer of fixed width. Nothing is consumed.
    pub fn deserialize_u32(&mut self) -> (r: Result<u32, Error>)
        ensures
            r == Err::<u32, Error>(Error::Unimplemented),
            final(self)@ == old(self)@,
    {
        Err(Error::Unimplemented)
    }

    /// Refuses the name of a field or of a variant. Nothing is consumed.
    pub fn deserialize_identifier(&mut self) -> (r: Result<Value, Error>)
        ensures
            r == Err::<Value, Error>(Error::Unimplemented),
            final(self)@ == old(self)@,
    {
        Err(Error::Unimplemented)
    }

    /// Refuses a value that is to be skipped: without its shape the reader
    /// cannot tell where it ends. Nothing is consumed.
    pub fn deserialize_ignored_any(&mut self) -> (r: Result<Value, Error>)
        ensures
            r == Err::<Value, Error>(Error::Unimplemented),
            final(self)@ == old(self)@,
    {
        Err(Error::Unimplemented)
    }

    /// Refuses a map. Nothing is consumed.
    pub fn deserialize_map(&mut self) -> (r: Result<Value, Error>)
        ensures
            r == Err::<Value, Error>(Error::Unimplemented),
            final(self)@ == old(self)@,
    {
        Err(Error::Unimplemented)
    }

    /// Refuses an optional value. Nothing is consumed.
    pub fn deserialize_option(&mut self) -> (r: Result<Value, Error>)
        ensures
            r == Err::<Value, Error>(Error::Unimplemented),
            final(self)@ == old(self)@,
    {
        Err(Error::Unimplemented)
    }

    /// Refuses raw bytes without a length in front. Nothing is consumed.
    pub fn deserialize_bytes(&mut self) -> (r: Result<Vec<u8>, Error>)
        ensures
            r == Err::<Vec<u8>, Error>(Error::Unimplemented),
            final(self)@ == old(self)@,
    {
        Err(Error::Unimplemented)
    }

    /// Refuses a newtype struct. Nothing is consumed.
    pub fn deserialize_newtype_struct(&mut self, name: &str) -> (r: Result<Value, Error>)
        ensures
            r == Err::<Value, Error>(Error::Unimplemented),
            final(self)@ == old(self)@,
    {
        Err(Error::Unimplemented)
    }

    /// Refuses a tuple struct. Nothing is consumed.
    pub fn deserialize_tuple_struct(&mut self, name: &str, len: usize) -> (r: Result<Value, Error>)
        ensures
            r == Err::<Value, Error>(Error::Unimplemented),
            final(self)@ == old(self)@,
    {
        Err(Error::Unimplemented)
    }

    /// Refuses an enum. Nothing is consumed.
    pub fn deserialize_enum(&mut self, name: &str, variants: &[&str]) -> (r: Result<Value, Error>)
        ensures
            r == Err::<Value, Error>(Error::Unimplemented),
            final(self)@ == old(self)@,
    {
        Err(Error::Unimplemented)
    }

    /// Reads the next element of an aggregate. The wire does not say where an
    /// aggregate ends, so there always is a next element as far as this
    /// function can tell: it never returns `Ok(None)`, and the caller stops
    /// asking when it has what its shape calls for.
    pub fn next_element(&mut self, shape: &Shape) -> (r: Result<Option<Value>, Error>)
        ensures
            match r {
                Ok(Some(v)) => parse(shape@, old(self)@) == (
                    Ok::<SpecValue, Error>(v@),
                    final(self)@,
                ),
                Ok(None) => false,
                Err(e) => parse(shape@, old(self)@) == (Err::<SpecValue, Error>(e), final(self)@),
            },
        decreases shape, 1nat,
    {
        match self.deserialize_value(shape) {
            Ok(v) => Ok(Some(v)),
            Err(e) => Err(e),
        }
    }

    /// Reads a sequence with one element for each of `fields`, in order. The
    /// first element that fails ends the read; what was read before it stays
    /// read.
    pub fn deserialize_seq(&mut self, fields: &Vec<Shape>) -> (r: Result<Vec<Value>, Error>)
        ensures
            match r {
                Ok(items) => parse_upto(shapes_view(fields@), fields@.len(), old(self)@) == (
                    Ok::<Seq<SpecValue>, Error>(values_view(items@)),
                    final(self)@,
                ),
                Err(e) => parse_upto(shapes_view(fields@), fields@.len(), old(self)@) == (
                    Err::<Seq<SpecValue>, Error>(e),
                    final(self)@,
                ),
            },
        decreases fields, 2nat,
    {
        let ghost start = self@;
        let ghost shapes = shapes_view(fields@);
        let mut items: Vec<Value> = Vec::new();
        let mut i: usize = 0;
        assert(values_view(items@) =~= Seq::<SpecValue>::empty());
        while i < fields.len()
            invariant
                i <= fields.len(),
                start == old(self)@,
                shapes == shapes_view(fields@),
                parse_upto(shapes, i as nat, start) == (
                    Ok::<Seq<SpecValue>, Error>(values_view(items@)),
                    self@,
                ),
            decreases fields.len() - i,
        {
            assert(shapes[i as int] == fields@[i as int]@);
            let ghost before = values_view(items@);
            match self.next_element(&fields[i]) {
                Ok(Some(item)) => {
                    items.push(item);
                    assert(values_view(items@) =~= before.push(item@));
                },
                Ok(None) => {},
                Err(e) => {
                    proof {
                        lemma_parse_upto_error(shapes, (i + 1) as nat, fields@.len(), start);
                    }
                    return Err(e);
                },
            }
            i = i + 1;
        }
        Ok(items)
    }

    /// Reads a tuple of `len` elements, which is read as a sequence is.
    pub fn deserialize_tuple(&mut self, len: usize, fields: &Vec<Shape>) -> (r: Result<
        Vec<Value>,
        Error,
    >)
        ensures
            match r {
                Ok(items) => parse_upto(shapes_view(fields@), fields@.len(), old(self)@) == (
                    Ok::<Seq<SpecValue>, Error>(values_view(items@)),
                    final(self)@,
                ),
                Err(e) => parse_upto(shapes_view(fields@), fields@.len(), old(self)@) == (
                    Err::<Seq<SpecValue>, Error>(e),
                    final(self)@,
                ),
            },
        decreases fields, 3nat,
    {
        self.deserialize_seq(fields)
    }

    /// Reads a struct, which is read as the sequence of its fields.
    pub fn deserialize_struct(&mut self, name: &str, fields: &Vec<Shape>) -> (r: Result<
        Vec<Value>,
        Error,
    >)
        ensures
            match r {
                Ok(items) => parse_upto(shapes_view(fields@), fields@.len(), old(self)@) == (
                    Ok::<Seq<SpecValue>, Error>(values_view(items@)),
                    final(self)@,
                ),
                Err(e) => parse_upto(shapes_view(fields@), fields@.len(), old(self)@) == (
                    Err::<Seq<SpecValue>, Error>(e),
                    final(self)@,
                ),
            },
        decreases fields, 3nat,
    {
        self.deserialize_seq(fields)
    }

    /// Reads one value of the given shape.
    pub fn deserialize_value(&mut self, shape: &Shape) -> (r: Result<Value, Error>)
        ensures
            match r {
                Ok(v) => parse(shape@, old(self)@) == (Ok::<SpecValue, Error>(v@), final(self)@),
                Err(e) => parse(shape@, old(self)@) == (Err::<SpecValue, Error>(e), final(self)@),
            },
        decreases shape, 0nat,
    {
        match shape {
            Shape::Bool => match self.deserialize_bool() {
                Ok(b) => Ok(Value::Bool(b)),
                Err(e) => Err(e),
            },
            Shape::U8 => match self.deserialize_u8() {
                Ok(n) => Ok(Value::U8(n)),
                Err(e) => Err(e),
            },
            Shape::U16 => match self.deserialize_u16() {
                Ok(n) => Ok(Value::U16(n)),
                Err(e) => Err(e),
            },
            Shape::U64 => match self.deserialize_u64() {
                Ok(n) => Ok(Value::U64(n)),
                Err(e) => Err(e),
            },
            Shape::F32 => match self.deserialize_f32() {
                Ok(bits) => Ok(Value::F32(bits)),
                Err(e) => Err(e),
            },
            Shape::F64 => match self.deserialize_f64() {
                Ok(bits) => Ok(Value::F64(bits)),
                Err(e) => Err(e),
            },
            Shape::VarInt => match self.deserialize_var_i32() {
                Ok(n) => Ok(Value::VarInt(n)),
                Err(e) => Err(e),
            },
            Shape::VarLong => match self.deserialize_var_i64() {
                Ok(n) => Ok(Value::VarLong(n)),
                Err(e) => Err(e),
            },
            Shape::Str => match self.deserialize_str() {
                Ok(text) => Ok(Value::Str(text)),
                Err(e) => Err(e),
            },
            Shape::ByteBuf => match self.deserialize_byte_buf() {
                Ok(bytes) => Ok(Value::ByteBuf(bytes)),
                Err(e) => Err(e),
            },
            Shape::Unit => match self.deserialize_unit() {
                Ok(_) => Ok(Value::Unit),
                Err(e) => Err(e),
            },
            Shape::UnitStruct => match self.deserialize_unit_struct("") {
                Ok(_) => Ok(Value::UnitStruct),
                Err(e) => Err(e),
            },
            Shape::Sequence(fields) => match self.deserialize_seq(fields) {
                Ok(items) => Ok(Value::Sequence(items)),
                Err(e) => Err(e),
            },
            Shape::Tuple(fields) => match self.deserialize_tuple(fields.len(), fields) {
                Ok(items) => Ok(Value::Tuple(items)),
                Err(e) => Err(e),
            },
            Shape::Struct(fields) => match self.deserialize_struct("", fields) {
                Ok(items) => Ok(Value::Struct(items)),
                Err(e) => Err(e),
            },
            Shape::Other(_) => Err(Error::Unimplemented),
        }
    }
}

/// Reads one value of the given shape from the front of `bytes`. Bytes behind
/// the value are not looked at.
pub fn deserialize(shape: &Shape, bytes: &[u8]) -> (r: Result<Value, Error>)
    ensures
        match r {
            Ok(v) => parse(shape@, bytes@).0 == Ok::<SpecValue, Error>(v@),
            Err(e) => parse(shape@, bytes@).0 == Err::<SpecValue, Error>(e),
        },
{
    let mut input = Deserializer::new(bytes);
    input.deserialize_value(shape)
}

} // verus!
