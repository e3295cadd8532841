//! Writing values to an output buffer.
use crate::bytes_specs::{
    bytes_mut_as_slice, bytes_mut_contents, bytes_mut_extend_from_slice, bytes_mut_new,
    bytes_mut_put_u16, bytes_mut_put_u32, bytes_mut_put_u64, bytes_mut_put_u8,
};
use crate::error::Error;
use crate::laws::{lemma_be_bytes_len, lemma_wire_upto_grows};
use crate::value::{values_view, SpecValue, Value};
use crate::varint::Var;
use crate::wire::{all_writable, prefixed, wire, wire_upto, writable, MAX_FIELD_LEN};
use bytes::BytesMut;
use vstd::prelude::*;
use vstd::slice::slice_to_vec;

verus! {

/// Writes values, one after the other, to the end of a buffer that only
/// grows.
pub struct Serializer(pub BytesMut);

impl View for Serializer {
    type V = Seq<u8>;

    /// Everything written so far.
    open spec fn view(&self) -> Seq<u8> {
        bytes_mut_contents(&self.0)
    }
}

/// Whether a buffer that holds `len` bytes can take the wire form of `v` too.
/// A buffer never holds more than `isize::MAX` bytes.
pub open spec fn has_room(len: nat, v: SpecValue) -> bool {
    writable(v) ==> len + wire(v).len() <= isize::MAX
}

impl Serializer {
    /// A serializer that has written nothing yet.
    pub fn new() -> (s: Serializer)
        ensures
            s@ == Seq::<u8>::empty(),
    {
        Serializer(bytes_mut_new())
    }

    /// The number of bytes written so far.
    pub fn len(&self) -> (n: usize)
        ensures
            n == self@.len(),
    {
        bytes_mut_as_slice(&self.0).len()
    }

    /// A copy of everything written so far.
    pub fn to_vec(&self) -> (out: Vec<u8>)
        ensures
            out@ == self@,
    {
        slice_to_vec(bytes_mut_as_slice(&self.0))
    }

    /// Writes one byte.
    pub fn serialize_u8(&mut self, value: u8) -> (r: Result<(), Error>)
        requires
            old(self)@.len() + 1 <= isize::MAX,
        ensures
            r is Ok,
            final(self)@ == old(self)@ + wire(SpecValue::U8(value)),
    {
        bytes_mut_put_u8(&mut self.0, value);
        assert(self@ =~= old(self)@ + seq![value]);
        Ok(())
    }

    /// Writes two bytes, the more significant one first.
    pub fn serialize_u16(&mut self, value: u16) -> (r: Result<(), Error>)
        requires
            old(self)@.len() + 2 <= isize::MAX,
        ensures
            r is Ok,
            final(self)@ == old(self)@ + wire(SpecValue::U16(value)),
    {
        proof {
            lemma_be_bytes_len(value as nat, 2);
        }
        bytes_mut_put_u16(&mut self.0, value);
        Ok(())
    }

    /// Writes eight bytes, the most significant one first.
    pub fn serialize_u64(&mut self, value: u64) -> (r: Result<(), Error>)
        requires
            old(self)@.len() + 8 <= isize::MAX,
        ensures
            r is Ok,
            final(self)@ == old(self)@ + wire(SpecValue::U64(value)),
    {
        proof {
            lemma_be_bytes_len(value as nat, 8);
        }
        bytes_mut_put_u64(&mut self.0, value);
        Ok(())
    }

    /// Writes a single-precision float, given as its bit pattern: four bytes,
    /// the most significant one first.
    pub fn serialize_f32(&mut self, bits: u32) -> (r: Result<(), Error>)
        requires
            old(self)@.len() + 4 <= isize::MAX,
        ensures
            r is Ok,
            final(self)@ == old(self)@ + wire(SpecValue::F32(bits)),
    {
        proof {
            lemma_be_bytes_len(bits as nat, 4);
        }
        bytes_mut_put_u32(&mut self.0, bits);
        Ok(())
    }

    /// Writes a double-precision float, given as its bit pattern: eight bytes,
    /// the most significant one first.
    pub fn serialize_f64(&mut self, bits: u64) -> (r: Result<(), Error>)
        requires
            old(self)@.len() + 8 <= isize::MAX,
        ensures
            r is Ok,
            final(self)@ == old(self)@ + wire(SpecValue::F64(bits)),
    {
        proof {
            lemma_be_bytes_len(bits as nat, 8);
        }
        bytes_mut_put_u64(&mut self.0, bits);
        Ok(())
    }

    /// Writes a 32-bit integer in variable-width form.
    pub fn serialize_var_i32(&mut self, value: i32) -> (r: Result<(), Error>)
        requires
            has_room(old(self)@.len(), SpecValue::VarInt(value)),
        ensures
            r is Ok,
            final(self)@ == old(self)@ + wire(SpecValue::VarInt(value)),
    {
        let encoded = Var(value).encode();
        bytes_mut_extend_from_slice(&mut self.0, encoded.as_slice());
        Ok(())
    }

    /// Writes a 64-bit integer in variable-width form.
    pub fn serialize_var_i64(&mut self, value: i64) -> (r: Result<(), Error>)
        requires
            has_room(old(self)@.len(), SpecValue::VarLong(value)),
        ensures
            r is Ok,
            final(self)@ == old(self)@ + wire(SpecValue::VarLong(value)),
    {
        let encoded = Var(value).encode();
        bytes_mut_extend_from_slice(&mut self.0, encoded.as_slice());
        Ok(())
    }

    /// Writes `body` behind its length. Refuses a body of more than
    /// `MAX_FIELD_LEN` bytes, for which no prefix exists, and then writes
    /// nothing.
    fn serialize_prefixed(&mut self, body: &[u8]) -> (r: Result<(), Error>)
        requires
            body@.len() <= MAX_FIELD_LEN ==> old(self)@.len() + prefixed(body@).len() <= isize::MAX,
        ensures
            match r {
                Ok(_) => body@.len() <= MAX_FIELD_LEN && final(self)@ == old(self)@ + prefixed(
                    body@,
                ),
                Err(e) => e == Error::Unimplemented && body@.len() > MAX_FIELD_LEN && final(self)@
                    == old(self)@,
            },
    {
        if body.len() > MAX_FIELD_LEN {
            return Err(Error::Unimplemented);
        }
        let prefix = Var(body.len() as i32).encode();
        bytes_mut_extend_from_slice(&mut self.0, prefix.as_slice());
        bytes_mut_extend_from_slice(&mut self.0, body);
        assert(self@ =~= old(self)@ + prefixed(body@));
        Ok(())
    }

    /// Writes a string: the number of its UTF-8 bytes in variable-width form,
    /// then the bytes. A string of more than `MAX_FIELD_LEN` bytes has no wire
    /// form: it is refused and nothing is written.
    pub fn serialize_str(&mut self, value: &str) -> (r: Result<(), Error>)
        requires
            has_room(old(self)@.len(), SpecValue::Str(value@)),
        ensures
            match r {
                Ok(_) => writable(SpecValue::Str(value@)) && final(self)@ == old(self)@ + wire(
                    SpecValue::Str(value@),
                ),
                Err(e) => e == Error::Unimplemented && !writable(SpecValue::Str(value@))
                    && final(self)@ == old(self)@,
            },
    {
        self.serialize_prefixed(value.as_bytes())
    }

    /// Writes a byte buffer: its length in variable-width form, then the
    /// bytes. A buffer of more than `MAX_FIELD_LEN` bytes has no wire form: it
    /// is refused and nothing is written.
    pub fn serialize_byte_buf(&mut self, value: &[u8]) -> (r: Result<(), Error>)
        requires
            has_room(old(self)@.len(), SpecValue::ByteBuf(value@)),
        ensures
            match r {
                Ok(_) => writable(SpecValue::ByteBuf(value@)) && final(self)@ == old(self)@ + wire(
                    SpecValue::ByteBuf(value@),
                ),
                Err(e) => e == Error::Unimplemented && !writable(SpecValue::ByteBuf(value@))
                    && final(self)@ == old(self)@,
            },
    {
        self.serialize_prefixed(value)
    }

    /// Begins a sequence. A sequence has no wire form of its own: nothing is
    /// written, and the elements follow one by one.
    pub fn serialize_seq(&mut self, len: Option<usize>) -> (r: Result<(), Error>)
        ensures
            r is Ok,
            final(self)@ == old(self)@,
    {
        Ok(())
    }

    /// Begins a struct, which is written as a sequence of its fields.
    pub fn serialize_struct(&mut self, name: &str, len: usize) -> (r: Result<(), Error>)
        ensures
            r is Ok,
            final(self)@ == old(self)@,
    {
        self.serialize_seq(Some(len))
    }
    /// Refuses a boolean: the format has no wire form for it. Nothing is
    /// written.
    pub fn serialize_bool(&mut self, value: bool) -> (r: Result<(), Error>)
        ensures
            r == Err::<(), Error>(Error::Unimplemented),
            final(self)@ == old(self)@,
    {
        Err(Error::Unimplemented)
    }

    /// Refuses a character: the format has no wire form for it. Nothing is
    /// written.
    pub fn serialize_char(&mut self, value: char) -> (r: Result<(), Error>)
        ensures
            r == Err::<(), Error>(Error::Unimplemented),
            final(self)@ == old(self)@,
    {
        Err(Error::Unimplemented)
    }

    /// Refuses a signed byte: the format has no wire form for it. Nothing is
    /// written.
    pub fn serialize_i8(&mut self, value: i8) -> (r: Result<(), Error>)
        ensures
            r == Err::<(), Error>(Error::Unimplemented),
            final(self)@ == old(self)@,
    {
        Err(Error::Unimplemented)
    }

    /// Refuses a signed 16-bit integer of fixed width: the format has no wire
    /// form for it. Nothing is written.
    pub fn serialize_i16(&mut self, value: i16) -> (r: Result<(), Error>)
        ensures
            r == Err::<(), Error>(Error::Unimplemented),
            final(self)@ == old(self)@,
    {
        Err(Error::Unimplemented)
    }

    /// Refuses a signed 32-bit integer of fixed width: the format has no wire
    /// form for it. Nothing is written.
    pub fn serialize_i32(&mut self, value: i32) -> (r: Result<(), Error>)
        ensures
            r == Err::<(), Error>(Error::Unimplemented),
            final(self)@ == old(self)@,
    {
        Err(Error::Unimplemented)
    }

    /// Refuses a signed 64-bit integer of fixed width: the format has no wire
    /// form for it. Nothing is written.
    pub fn serialize_i64(&mut self, value: i64) -> (r: Result<(), Error>)
        ensures
            r == Err::<(), Error>(Error::Unimplemented),
            final(self)@ == old(self)@,
    {
        Err(Error::Unimplemented)
    }

    /// Refuses an unsigned 32-bit integer of fixed width: the format has no
    /// wire form for it. Nothing is written.
    pub fn serialize_u32(&mut self, value: u32) -> (r: Result<(), Error>)
        ensures
            r == Err::<(), Error>(Error::Unimplemented),
            final(self)@ == old(self)@,
    {
        Err(Error::Unimplemented)
    }

    /// Refuses raw bytes without a length in front: the format has no wire form
    /// for it. Nothing is written.
    pub fn serialize_bytes(&mut self, value: &[u8]) -> (r: Result<(), Error>)
        ensures
            r == Err::<(), Error>(Error::Unimplemented),
            final(self)@ == old(self)@,
    {
        Err(Error::Unimplemented)
    }

    /// Refuses the unit value: the format has no wire form for it. Nothing is
    /// written.
    pub fn serialize_unit(&mut self) -> (r: Result<(), Error>)
        ensures
            r == Err::<(), Error>(Error::Unimplemented),
            final(self)@ == old(self)@,
    {
        Err(Error::Unimplemented)
    }

    /// Refuses a unit struct: the format has no wire form for it. Nothing is
    /// written.
    pub fn serialize_unit_struct(&mut self, name: &str) -> (r: Result<(), Error>)
        ensures
            r == Err::<(), Error>(Error::Unimplemented),
            final(self)@ == old(self)@,
    {
        Err(Error::Unimplemented)
    }

    /// Refuses an absent optional value: the format has no wire form for it.
    /// Nothing is written.
    pub fn serialize_none(&mut self) -> (r: Result<(), Error>)
        ensures
            r == Err::<(), Error>(Error::Unimplemented),
            final(self)@ == old(self)@,
    {
        Err(Error::Unimplemented)
    }

    /// Refuses a present optional value: the format has no wire form for it.
    /// Nothing is written.
    pub fn serialize_some(&mut self) -> (r: Result<(), Error>)
        ensures
            r == Err::<(), Error>(Error::Unimplemented),
            final(self)@ == old(self)@,
    {
        Err(Error::Unimplemented)
    }

    /// Refuses an enum variant without data: the format has no wire form for
    /// it. Nothing is written.
    pub fn serialize_unit_variant(
        &mut self,
        name: &str,
        variant_index: u32,
        variant: &str,
    ) -> (r: Result<(), Error>)
        ensures
            r == Err::<(), Error>(Error::Unimplemented),
            final(self)@ == old(self)@,
    {
        Err(Error::Unimplemented)
    }

    /// Refuses a map: the format has no wire form for it. Nothing is written.
    pub fn serialize_map(&mut self, len: Option<usize>) -> (r: Result<(), Error>)
        ensures
            r == Err::<(), Error>(Error::Unimplemented),
            final(self)@ == old(self)@,
    {
        Err(Error::Unimplemented)
    }

    /// Refuses a tuple: the format has no wire form for it. Nothing is written.
    pub fn serialize_tuple(&mut self, len: usize) -> (r: Result<(), Error>)
        ensures
            r == Err::<(), Error>(Error::Unimplemented),
            final(self)@ == old(self)@,
    {
        Err(Error::Unimplemented)
    }

    /// Refuses a tuple struct: the format has no wire form for it. Nothing is
    /// written.
    pub fn serialize_tuple_struct(&mut self, name: &str, len: usize) -> (r: Result<(), Error>)
        ensures
            r == Err::<(), Error>(Error::Unimplemented),
            final(self)@ == old(self)@,
    {
        Err(Error::Unimplemented)
    }

    /// Refuses a struct variant of an enum: the format has no wire form for it.
    /// Nothing is written.
    pub fn serialize_struct_variant(
        &mut self,
        name: &str,
        variant_index: u32,
        variant: &str,
        len: usize,
    ) -> (r: Result<(), Error>)
        ensures
            r == Err::<(), Error>(Error::Unimplemented),
            final(self)@ == old(self)@,
    {
        Err(Error::Unimplemented)
    }

    /// Refuses a tuple variant of an enum: the format has no wire form for it.
    /// Nothing is written.
    pub fn serialize_tuple_variant(
        &mut self,
        name: &str,
        variant_index: u32,
        variant: &str,
        len: usize,
    ) -> (r: Result<(), Error>)
        ensures
            r == Err::<(), Error>(Error::Unimplemented),
            final(self)@ == old(self)@,
    {
        Err(Error::Unimplemented)
    }

    /// Refuses a newtype struct: the format has no wire form for it. Nothing is
    /// written.
    pub fn serialize_newtype_struct(&mut self, name: &str) -> (r: Result<(), Error>)
        ensures
            r == Err::<(), Error>(Error::Unimplemented),
            final(self)@ == old(self)@,
    {
        Err(Error::Unimplemented)
    }

    /// Refuses a newtype variant of an enum: the format has no wire form for
    /// it. Nothing is written.
    pub fn serialize_newtype_variant(
        &mut self,
        name: &str,
        variant_index: u32,
        variant: &str,
    ) -> (r: Result<(), Error>)
        ensures
            r == Err::<(), Error>(Error::Unimplemented),
            final(self)@ == old(self)@,
    {
        Err(Error::Unimplemented)
    }

    /// Whether `value` has a wire form.
    pub fn supports(value: &Value) -> (ok: bool)
        ensures
            ok == writable(value@),
        decreases value,
    {
        match value {
            Value::U8(_) => true,
            Value::U16(_) => true,
            Value::U64(_) => true,
            Value::F32(_) => true,
            Value::F64(_) => true,
            Value::VarInt(_) => true,
            Value::VarLong(_) => true,
            Value::Str(text) => text.as_str().as_bytes().len() <= MAX_FIELD_LEN,
            Value::ByteBuf(bytes) => bytes.len() <= MAX_FIELD_LEN,
            Value::Sequence(items) => Self::supports_all(items),
            Value::Struct(items) => Self::supports_all(items),
            _ => false,
        }
    }

    /// Whether every one of `items` has a wire form.
    pub fn supports_all(items: &Vec<Value>) -> (ok: bool)
        ensures
            ok == all_writable(values_view(items@)),
        decreases items,
    {
        let mut i: usize = 0;
        while i < items.len()
            invariant
                i <= items.len(),
                forall|j: int| 0 <= j < i ==> writable(#[trigger] values_view(items@)[j]),
            decreases items.len() - i,
        {
            if !Self::supports(&items[i]) {
                assert(!writable(values_view(items@)[i as int]));
                return false;
            }
            i = i + 1;
        }
        true
    }

    /// The number of bytes that `value` takes on the wire, or `None` where
    /// that number is beyond `usize`.
    fn encoded_len(value: &Value) -> (n: Option<usize>)
        requires
            writable(value@),
        ensures
            match n {
                Some(k) => k == wire(value@).len(),
                None => wire(value@).len() > usize::MAX,
            },
        decreases value,
    {
        match value {
            Value::U8(_) => Some(1),
            Value::U16(n) => {
                proof {
                    lemma_be_bytes_len(*n as nat, 2);
                }
                Some(2)
            },
            Value::U64(n) => {
                proof {
                    lemma_be_bytes_len(*n as nat, 8);
                }
                Some(8)
            },
            Value::F32(bits) => {
                proof {
                    lemma_be_bytes_len(*bits as nat, 4);
                }
                Some(4)
            },
            Value::F64(bits) => {
                proof {
                    lemma_be_bytes_len(*bits as nat, 8);
                }
                Some(8)
            },
            Value::VarInt(n) => Some(Var(*n).encode().len()),
            Value::VarLong(n) => Some(Var(*n).encode().len()),
            Value::Str(text) => {
                let body = text.as_str().as_bytes().len();
                Some(Var(body as i32).encode().len() + body)
            },
            Value::ByteBuf(bytes) => {
                let body = bytes.len();
                Some(Var(body as i32).encode().len() + body)
            },
            Value::Sequence(items) => Self::encoded_len_all(items),
            Value::Struct(items) => Self::encoded_len_all(items),
            _ => Some(0),
        }
    }

    /// The number of bytes that `items` take on the wire together, or `None`
    /// where that number is beyond `usize`.
    fn encoded_len_all(items: &Vec<Value>) -> (n: Option<usize>)
        requires
            all_writable(values_view(items@)),
        ensures
            match n {
                Some(k) => k == wire_upto(values_view(items@), items@.len()).len(),
                None => wire_upto(values_view(items@), items@.len()).len() > usize::MAX,
            },
        decreases items,
    {
        let ghost all = values_view(items@);
        let mut total: usize = 0;
        let mut i: usize = 0;
        while i < items.len()
            invariant
                i <= items.len(),
                all == values_view(items@),
                all_writable(all),
                total == wire_upto(all, i as nat).len(),
            decreases items.len() - i,
        {
            proof {
                lemma_wire_upto_grows(all, (i + 1) as nat, items@.len());
                assert(all[i as int] == items@[i as int]@);
                assert(writable(all[i as int]));
            }
            match Self::encoded_len(&items[i]) {
                Some(k) => match total.checked_add(k) {
                    Some(sum) => {
                        total = sum;
                    },
                    None => {
                        return None;
                    },
                },
                None => {
                    return None;
                },
            }
            i = i + 1;
        }
        Some(total)
    }

    /// Whether this buffer can take `value` too: the test to make before
    /// [`Serializer::serialize_value`] where the sizes are not known.
    pub fn has_room_for(&self, value: &Value) -> (ok: bool)
        ensures
            ok == has_room(self@.len(), value@),
    {
        if !Self::supports(value) {
            return true;
        }
        let cap: usize = isize::MAX as usize;
        let used = self.len();
        match Self::encoded_len(value) {
            Some(k) => used <= cap && k <= cap - used,
            None => false,
        }
    }

    /// Writes `value`. A value that has no wire form, or that holds one that
    /// has none, is refused as a whole, and then nothing is written.
    pub fn serialize_value(&mut self, value: &Value) -> (r: Result<(), Error>)
        requires
            has_room(old(self)@.len(), value@),
        ensures
            match r {
                Ok(_) => writable(value@) && final(self)@ == old(self)@ + wire(value@),
                Err(e) => e == Error::Unimplemented && !writable(value@) && final(self)@ == old(
                    self,
                )@,
            },
    {
        if !Self::supports(value) {
            return Err(Error::Unimplemented);
        }
        self.emit(value);
        Ok(())
    }

    fn emit(&mut self, value: &Value)
        requires
            writable(value@),
            old(self)@.len() + wire(value@).len() <= isize::MAX,
        ensures
            final(self)@ == old(self)@ + wire(value@),
        decreases value,
    {
        match value {
            Value::U8(n) => {
                let _ = self.serialize_u8(*n);
            },
            Value::U16(n) => {
                proof {
                    lemma_be_bytes_len(*n as nat, 2);
                }
                let _ = self.serialize_u16(*n);
            },
            Value::U64(n) => {
                proof {
                    lemma_be_bytes_len(*n as nat, 8);
                }
                let _ = self.serialize_u64(*n);
            },
            Value::F32(bits) => {
                proof {
                    lemma_be_bytes_len(*bits as nat, 4);
                }
                let _ = self.serialize_f32(*bits);
            },
            Value::F64(bits) => {
                proof {
                    lemma_be_bytes_len(*bits as nat, 8);
                }
                let _ = self.serialize_f64(*bits);
            },
            Value::VarInt(n) => {
                let _ = self.serialize_var_i32(*n);
            },
            Value::VarLong(n) => {
                let _ = self.serialize_var_i64(*n);
            },
            Value::Str(text) => {
                let _ = self.serialize_str(text.as_str());
            },
            Value::ByteBuf(bytes) => {
                let _ = self.serialize_byte_buf(bytes.as_slice());
            },
            Value::Sequence(items) => {
                let _ = self.serialize_seq(Some(items.len()));
                self.emit_all(items);
            },
            Value::Struct(items) => {
                let _ = self.serialize_struct("", items.len());
                self.emit_all(items);
            },
            _ => {},
        }
    }

    fn emit_all(&mut self, items: &Vec<Value>)
        requires
            all_writable(values_view(items@)),
            old(self)@.len() + wire_upto(values_view(items@), items@.len()).len() <= isize::MAX,
        ensures
            final(self)@ == old(self)@ + wire_upto(values_view(items@), items@.len()),
        decreases items,
    {
        let ghost start = self@;
        let ghost all = values_view(items@);
        let mut i: usize = 0;
        assert(self@ =~= start + wire_upto(all, 0));
        while i < items.len()
            invariant
                i <= items.len(),
                all == values_view(items@),
                self@ == start + wire_upto(all, i as nat),
                all_writable(all),
                start.len() + wire_upto(all, items@.len()).len() <= isize::MAX,
            decreases items.len() - i,
        {
            proof {
                lemma_wire_upto_grows(all, (i + 1) as nat, items@.len());
                assert(all[i as int] == items@[i as int]@);
                assert(writable(all[i as int]));
            }
            self.emit(&items[i]);
            assert(self@ =~= start + wire_upto(all, (i + 1) as nat));
            i = i + 1;
        }
    }
}

/// The bytes that stand for `value` on the wire. A value that has no wire
/// form, or that holds one that has none, is refused.
pub fn serialize(value: &Value) -> (r: Result<Vec<u8>, Error>)
    requires
        has_room(0, value@),
    ensures
        match r {
            Ok(bytes) => writable(value@) && bytes@ == wire(value@),
            Err(e) => e == Error::Unimplemented && !writable(value@),
        },
{
    let mut output = Serializer::new();
    match output.serialize_value(value) {
        Ok(_) => Ok(output.to_vec()),
        Err(e) => Err(e),
    }
}

} // verus!
