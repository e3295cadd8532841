//! Values as the codec sees them, and the shapes that tell a reader what to
//! expect.
//!
//! The wire carries no tags and no counts, so a reader has to know in advance
//! what it is reading: a [`Shape`] is that knowledge, and a [`Value`] is what
//! a shape turns bytes into.
use crate::wire::{shape_of, shapes_of};
use vstd::prelude::*;

verus! {

/// The kinds of data for which the codec has no wire form in either direction.
#[derive(Debug, Clone, Copy, PartialEq, Eq, Structural)]
pub enum Unsupported {
    I8,
    I16,
    I32,
    I64,
    U32,
    Char,
    /// Bytes handed over raw, without a length in front.
    RawBytes,
    Optional,
    NewtypeStruct,
    TupleStruct,
    Mapping,
    Enum,
    Identifier,
    IgnoredAny,
    Any,
}

/// A value that can be handed to the serializer or received from the
/// deserializer.
#[derive(Debug, PartialEq, Eq)]
pub enum Value {
    Bool(bool),
    U8(u8),
    U16(u16),
    U64(u64),
    /// A single-precision float, as its IEEE 754 bit pattern.
    F32(u32),
    /// A double-precision float, as its IEEE 754 bit pattern.
    F64(u64),
    /// A 32-bit integer in variable-width form.
    VarInt(i32),
    /// A 64-bit integer in variable-width form.
    VarLong(i64),
    Str(String),
    ByteBuf(Vec<u8>),
    /// The value that carries no information.
    Unit,
    /// A marker without payload.
    UnitStruct,
    Sequence(Vec<Value>),
    Tuple(Vec<Value>),
    Struct(Vec<Value>),
    /// Data of a kind that the codec does not carry.
    Other(Unsupported),
}

/// What a reader expects to find on the wire.
#[derive(Debug, PartialEq, Eq)]
pub enum Shape {
    Bool,
    U8,
    U16,
    U64,
    F32,
    F64,
    VarInt,
    VarLong,
    Str,
    ByteBuf,
    Unit,
    UnitStruct,
    /// A sequence of known length, one shape for each element.
    Sequence(Vec<Shape>),
    Tuple(Vec<Shape>),
    Struct(Vec<Shape>),
    Other(Unsupported),
}

/// The mathematical content of a [`Value`].
pub enum SpecValue {
    Bool(bool),
    U8(u8),
    U16(u16),
    U64(u64),
    F32(u32),
    F64(u64),
    VarInt(i32),
    VarLong(i64),
    Str(Seq<char>),
    ByteBuf(Seq<u8>),
    Unit,
    UnitStruct,
    Sequence(Seq<SpecValue>),
    Tuple(Seq<SpecValue>),
    Struct(Seq<SpecValue>),
    Other(Unsupported),
}

/// The mathematical content of a [`Shape`].
pub enum SpecShape {
    Bool,
    U8,
    U16,
    U64,
    F32,
    F64,
    VarInt,
    VarLong,
    Str,
    ByteBuf,
    Unit,
    UnitStruct,
    Sequence(Seq<SpecShape>),
    Tuple(Seq<SpecShape>),
    Struct(Seq<SpecShape>),
    Other(Unsupported),
}

/// The contents of a list of values, one by one.
pub open spec fn values_view(items: Seq<Value>) -> Seq<SpecValue>
    decreases items,
{
    Seq::new(
        items.len(),
        |i: int| if 0 <= i < items.len() { items[i]@ } else { SpecValue::Unit },
    )
}

/// The contents of a list of shapes, one by one.
pub open spec fn shapes_view(items: Seq<Shape>) -> Seq<SpecShape>
    decreases items,
{
    Seq::new(
        items.len(),
        |i: int| if 0 <= i < items.len() { items[i]@ } else { SpecShape::Unit },
    )
}

impl View for Value {
    type V = SpecValue;

    open spec fn view(&self) -> SpecValue
        decreases self,
    {
        match self {
            Value::Bool(b) => SpecValue::Bool(*b),
            Value::U8(n) => SpecValue::U8(*n),
            Value::U16(n) => SpecValue::U16(*n),
            Value::U64(n) => SpecValue::U64(*n),
            Value::F32(bits) => SpecValue::F32(*bits),
            Value::F64(bits) => SpecValue::F64(*bits),
            Value::VarInt(n) => SpecValue::VarInt(*n),
            Value::VarLong(n) => SpecValue::VarLong(*n),
            Value::Str(s) => SpecValue::Str(s@),
            Value::ByteBuf(b) => SpecValue::ByteBuf(b@),
            Value::Unit => SpecValue::Unit,
            Value::UnitStruct => SpecValue::UnitStruct,
            Value::Sequence(items) => SpecValue::Sequence(values_view(items@)),
            Value::Tuple(items) => SpecValue::Tuple(values_view(items@)),
            Value::Struct(items) => SpecValue::Struct(values_view(items@)),
            Value::Other(kind) => SpecValue::Other(*kind),
        }
    }
}

impl View for Shape {
    type V = SpecShape;

    open spec fn view(&self) -> SpecShape
        decreases self,
    {
        match self {
            Shape::Bool => SpecShape::Bool,
            Shape::U8 => SpecShape::U8,
            Shape::U16 => SpecShape::U16,
            Shape::U64 => SpecShape::U64,
            Shape::F32 => SpecShape::F32,
            Shape::F64 => SpecShape::F64,
            Shape::VarInt => SpecShape::VarInt,
            Shape::VarLong => SpecShape::VarLong,
            Shape::Str => SpecShape::Str,
            Shape::ByteBuf => SpecShape::ByteBuf,
            Shape::Unit => SpecShape::Unit,
            Shape::UnitStruct => SpecShape::UnitStruct,
            Shape::Sequence(items) => SpecShape::Sequence(shapes_view(items@)),
            Shape::Tuple(items) => SpecShape::Tuple(shapes_view(items@)),
            Shape::Struct(items) => SpecShape::Struct(shapes_view(items@)),
            Shape::Other(kind) => SpecShape::Other(*kind),
        }
    }
}

/// The contents of a list of values are the contents of its elements.
pub proof fn lemma_values_view(items: Seq<Value>)
    ensures
        values_view(items).len() == items.len(),
        forall|i: int| 0 <= i < items.len() ==> #[trigger] values_view(items)[i] == items[i]@,
{
}

/// The contents of a list of shapes are the contents of its elements.
pub proof fn lemma_shapes_view(items: Seq<Shape>)
    ensures
        shapes_view(items).len() == items.len(),
        forall|i: int| 0 <= i < items.len() ==> #[trigger] shapes_view(items)[i] == items[i]@,
{
}

impl Value {
    /// The shape that a reader must expect in order to read this value back.
    pub fn shape(&self) -> (s: Shape)
        ensures
            s@ == shape_of(self@),
        decreases self,
    {
        match self {
            Value::Bool(_) => Shape::Bool,
            Value::U8(_) => Shape::U8,
            Value::U16(_) => Shape::U16,
            Value::U64(_) => Shape::U64,
            Value::F32(_) => Shape::F32,
            Value::F64(_) => Shape::F64,
            Value::VarInt(_) => Shape::VarInt,
            Value::VarLong(_) => Shape::VarLong,
            Value::Str(_) => Shape::Str,
            Value::ByteBuf(_) => Shape::ByteBuf,
            Value::Unit => Shape::Unit,
            Value::UnitStruct => Shape::UnitStruct,
            Value::Sequence(items) => Shape::Sequence(Self::shapes(items)),
            Value::Tuple(items) => Shape::Tuple(Self::shapes(items)),
            Value::Struct(items) => Shape::Struct(Self::shapes(items)),
            Value::Other(kind) => Shape::Other(*kind),
        }
    }

    /// The shapes of `items`, one by one.
    pub fn shapes(items: &Vec<Value>) -> (out: Vec<Shape>)
        ensures
            shapes_view(out@) == shapes_of(values_view(items@)),
        decreases items,
    {
        let mut out: Vec<Shape> = Vec::new();
        let mut i: usize = 0;
        while i < items.len()
            invariant
                i <= items.len(),
                out@.len() == i,
                forall|j: int| 0 <= j < i ==> (#[trigger] out@[j])@ == shape_of(items@[j]@),
            decreases items.len() - i,
        {
            out.push(items[i].shape());
            i = i + 1;
        }
        assert(shapes_view(out@) =~= shapes_of(values_view(items@)));
        out
    }
}

} // verus!
