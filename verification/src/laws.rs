//! Laws of the wire format: what is written can be read back, and a reader is
//! never fooled by a buffer that ends too soon.
use crate::error::Error;
use crate::value::{SpecShape, SpecValue};
use crate::varint::{
    lemma_var_fits, lemma_var_round_trip, lemma_var_truncated, unsigned32, unsigned64,
    var_encoding,
};
use crate::wire::{
    all_fixed_width, all_writable, be_bytes, be_value, fixed_size, fixed_size_upto, fixed_width,
    is_utf8_valid_up_to, parse, parse_fixed, parse_len, parse_upto, pow256, prefixed, shape_of,
    shapes_of, utf8_valid_up_to, wire, wire_upto, writable, MAX_FIELD_LEN,
};
use vstd::prelude::*;
use vstd::utf8::{encode_utf8, encode_utf8_decode_utf8, encode_utf8_valid_utf8, valid_utf8};

verus! {

/// Big-endian digits are as many as were asked for.
pub proof fn lemma_be_bytes_len(n: nat, width: nat)
    ensures
        be_bytes(n, width).len() == width,
    decreases width,
{
    if width > 0 {
        lemma_be_bytes_len(n / 256, (width - 1) as nat);
    }
}

/// A number that fits in `width` digits is spelled back by them.
pub proof fn lemma_be_round_trip(n: nat, width: nat)
    requires
        n < pow256(width),
    ensures
        be_value(be_bytes(n, width)) == n,
    decreases width,
{
    if width > 0 {
        lemma_be_round_trip(n / 256, (width - 1) as nat);
        let digits = be_bytes(n, width);
        assert(digits.drop_last() =~= be_bytes(n / 256, (width - 1) as nat));
        assert(digits.last() == (n % 256) as u8);
    }
}

/// One byte spells itself.
pub proof fn lemma_be_value_single(s: Seq<u8>)
    requires
        s.len() >= 1,
    ensures
        be_value(s.take(1)) == s[0],
{
    reveal_with_fuel(be_value, 2);
    assert(s.take(1).drop_last().len() == 0);
}

/// The ranges of the fixed widths that the format uses.
pub proof fn lemma_pow256_widths()
    ensures
        pow256(1) == 0x100,
        pow256(2) == 0x1_0000,
        pow256(4) == 0x1_0000_0000,
        pow256(8) == 0x1_0000_0000_0000_0000,
{
    reveal_with_fuel(pow256, 9);
}

/// No byte sequence has two longest valid prefixes.
pub proof fn lemma_utf8_valid_up_to_unique(bytes: Seq<u8>, n: nat)
    requires
        is_utf8_valid_up_to(bytes, n),
    ensures
        utf8_valid_up_to(bytes) == n,
{
    let m = utf8_valid_up_to(bytes);
    assert(is_utf8_valid_up_to(bytes, m));
    if m < n {
        assert(!valid_utf8(bytes.take(n as int)));
    } else if n < m {
        assert(!valid_utf8(bytes.take(m as int)));
    }
}

proof fn lemma_fixed_round_trip(n: nat, width: nat, rest: Seq<u8>)
    requires
        n < pow256(width),
    ensures
        parse_fixed(be_bytes(n, width) + rest, width) == Ok::<nat, Error>(n),
        (be_bytes(n, width) + rest).skip(width as int) == rest,
{
    lemma_be_bytes_len(n, width);
    lemma_be_round_trip(n, width);
    let s = be_bytes(n, width) + rest;
    assert(s.take(width as int) =~= be_bytes(n, width));
    assert(s.skip(width as int) =~= rest);
}

proof fn lemma_prefixed_round_trip(body: Seq<u8>, rest: Seq<u8>)
    requires
        body.len() <= MAX_FIELD_LEN,
    ensures
        ({
            let s = prefixed(body) + rest;
            let k = var_encoding(body.len()).len();
            &&& parse_len(s) == Ok::<(nat, nat), Error>((body.len(), k))
            &&& s.subrange(k as int, (k + body.len()) as int) == body
            &&& s.skip((k + body.len()) as int) == rest
        }),
{
    let s = prefixed(body) + rest;
    let k = var_encoding(body.len()).len();
    lemma_var_fits(body.len());
    lemma_var_round_trip(body.len(), body + rest, 5);
    assert(s =~= var_encoding(body.len()) + (body + rest));
    assert(s.subrange(k as int, (k + body.len()) as int) =~= body);
    assert(s.skip((k + body.len()) as int) =~= rest);
}

/// The wire form of a list grows with the list.
pub proof fn lemma_wire_upto_grows(items: Seq<SpecValue>, m: nat, n: nat)
    requires
        m <= n <= items.len(),
    ensures
        wire_upto(items, m).len() <= wire_upto(items, n).len(),
    decreases n,
{
    if m < n {
        lemma_wire_upto_grows(items, m, (n - 1) as nat);
    }
}

/// Reading back what was written gives the value that was written, and leaves
/// unread whatever followed it.
pub proof fn lemma_round_trip(v: SpecValue, rest: Seq<u8>)
    requires
        writable(v),
    ensures
        parse(shape_of(v), wire(v) + rest) == (Ok::<SpecValue, Error>(v), rest),
    decreases v, 0nat,
{
    lemma_pow256_widths();
    let s = wire(v) + rest;
    match v {
        SpecValue::U8(n) => {
            assert(be_bytes(n as nat, 1) =~= seq![n]) by {
                reveal_with_fuel(be_bytes, 2);
            }
            lemma_fixed_round_trip(n as nat, 1, rest);
        },
        SpecValue::U16(n) => {
            lemma_fixed_round_trip(n as nat, 2, rest);
        },
        SpecValue::U64(n) => {
            lemma_fixed_round_trip(n as nat, 8, rest);
        },
        SpecValue::F32(bits) => {
            lemma_fixed_round_trip(bits as nat, 4, rest);
        },
        SpecValue::F64(bits) => {
            lemma_fixed_round_trip(bits as nat, 8, rest);
        },
        SpecValue::VarInt(n) => {
            let u = unsigned32(n as int);
            lemma_var_fits(u);
            lemma_var_round_trip(u, rest, 5);
            assert(s.skip(var_encoding(u).len() as int) =~= rest);
        },
        SpecValue::VarLong(n) => {
            let u = unsigned64(n as int);
            lemma_var_fits(u);
            lemma_var_round_trip(u, rest, 10);
            assert(s.skip(var_encoding(u).len() as int) =~= rest);
        },
        SpecValue::Str(chars) => {
            lemma_prefixed_round_trip(encode_utf8(chars), rest);
            encode_utf8_valid_utf8(chars);
            encode_utf8_decode_utf8(chars);
        },
        SpecValue::ByteBuf(bytes) => {
            lemma_prefixed_round_trip(bytes, rest);
        },
        SpecValue::Sequence(items) => {
            lemma_round_trip_upto(items, items.len(), rest);
            assert(items.take(items.len() as int) =~= items);
        },
        SpecValue::Struct(items) => {
            lemma_round_trip_upto(items, items.len(), rest);
            assert(items.take(items.len() as int) =~= items);
        },
        _ => {},
    }
}

/// Reading back the first `n` of a list of written values gives those values.
pub proof fn lemma_round_trip_upto(items: Seq<SpecValue>, n: nat, rest: Seq<u8>)
    requires
        n <= items.len(),
        all_writable(items),
    ensures
        parse_upto(shapes_of(items), n, wire_upto(items, n) + rest) == (
            Ok::<Seq<SpecValue>, Error>(items.take(n as int)),
            rest,
        ),
    decreases items, n,
{
    if n == 0 {
        assert(wire_upto(items, n) + rest =~= rest);
        assert(items.take(0) =~= Seq::<SpecValue>::empty());
    } else {
        let last = items[n - 1];
        let s = wire_upto(items, n) + rest;
        assert(s =~= wire_upto(items, (n - 1) as nat) + (wire(last) + rest));
        lemma_round_trip_upto(items, (n - 1) as nat, wire(last) + rest);
        lemma_round_trip(last, rest);
        assert(shapes_of(items)[n - 1] == shape_of(last));
        assert(items.take((n - 1) as int).push(last) =~= items.take(n as int));
    }
}

/// Once a field has failed, the fields after it are not read: the outcome of
/// the whole list is the outcome up to and including that field.
pub proof fn lemma_parse_upto_error(fields: Seq<SpecShape>, m: nat, n: nat, s: Seq<u8>)
    requires
        m <= n <= fields.len(),
        parse_upto(fields, m, s).0 is Err,
    ensures
        parse_upto(fields, n, s) == parse_upto(fields, m, s),
    decreases n,
{
    if m < n {
        lemma_parse_upto_error(fields, m, (n - 1) as nat, s);
    }
}

/// A string is read back char for char, and its bytes on the wire are a
/// length prefix and then exactly its UTF-8 bytes, however many each char
/// takes and also when there are none.
pub proof fn lemma_str_round_trip(chars: Seq<char>, rest: Seq<u8>)
    requires
        encode_utf8(chars).len() <= MAX_FIELD_LEN,
    ensures
        wire(SpecValue::Str(chars)) == var_encoding(encode_utf8(chars).len()) + encode_utf8(chars),
        parse(SpecShape::Str, wire(SpecValue::Str(chars)) + rest) == (
            Ok::<SpecValue, Error>(SpecValue::Str(chars)),
            rest,
        ),
{
    lemma_round_trip(SpecValue::Str(chars), rest);
}

/// A string whose announced bytes are all there but are not UTF-8 is refused
/// with the place where they stop being UTF-8, and nothing is consumed.
pub proof fn lemma_invalid_utf8_refused(s: Seq<u8>, len: nat, k: nat)
    requires
        parse_len(s) == Ok::<(nat, nat), Error>((len, k)),
        !valid_utf8(s.subrange(k as int, (k + len) as int)),
    ensures
        parse(SpecShape::Str, s) == (
            Err::<SpecValue, Error>(
                Error::InvalidUtf8 {
                    valid_up_to: utf8_valid_up_to(s.subrange(k as int, (k + len) as int)) as usize,
                },
            ),
            s,
        ),
{
}

/// A struct, a tuple or any other shape made of fields of fixed width is read
/// exactly when the buffer holds as many bytes as the fields take together, and
/// then exactly those bytes are consumed. On any shorter buffer the read fails
/// with `Underflow`: a reader is never handed a value made up from too few
/// bytes.
pub proof fn lemma_fixed_width_underflow(shape: SpecShape, s: Seq<u8>)
    requires
        fixed_width(shape),
    ensures
        s.len() < fixed_size(shape) ==> parse(shape, s).0 == Err::<SpecValue, Error>(
            Error::Underflow,
        ),
        s.len() >= fixed_size(shape) ==> parse(shape, s).0 is Ok && parse(shape, s).1 == s.skip(
            fixed_size(shape) as int,
        ),
    decreases shape, 0nat,
{
    match shape {
        SpecShape::Sequence(fields) => {
            lemma_fixed_width_underflow_upto(fields, fields.len(), s);
        },
        SpecShape::Tuple(fields) => {
            lemma_fixed_width_underflow_upto(fields, fields.len(), s);
        },
        SpecShape::Struct(fields) => {
            lemma_fixed_width_underflow_upto(fields, fields.len(), s);
        },
        SpecShape::Unit => {
            assert(s.skip(0) =~= s);
        },
        SpecShape::UnitStruct => {
            assert(s.skip(0) =~= s);
        },
        _ => {},
    }
}

/// The same, of the first `n` fields of a list.
pub proof fn lemma_fixed_width_underflow_upto(fields: Seq<SpecShape>, n: nat, s: Seq<u8>)
    requires
        n <= fields.len(),
        all_fixed_width(fields),
    ensures
        s.len() < fixed_size_upto(fields, n) ==> parse_upto(fields, n, s).0 == Err::<
            Seq<SpecValue>,
            Error,
        >(Error::Underflow),
        s.len() >= fixed_size_upto(fields, n) ==> parse_upto(fields, n, s).0 is Ok && parse_upto(
            fields,
            n,
            s,
        ).1 == s.skip(fixed_size_upto(fields, n) as int),
    decreases fields, n,
{
    if n == 0 {
        assert(s.skip(0) =~= s);
    } else {
        let before = fixed_size_upto(fields, (n - 1) as nat);
        lemma_fixed_width_underflow_upto(fields, (n - 1) as nat, s);
        if s.len() >= before {
            let rest = s.skip(before as int);
            lemma_fixed_width_underflow(fields[n - 1], rest);
            if rest.len() >= fixed_size(fields[n - 1]) {
                assert(rest.skip(fixed_size(fields[n - 1]) as int) =~= s.skip(
                    fixed_size_upto(fields, n) as int,
                ));
            }
        }
    }
}

/// The two errors that say that the input ended too soon.
pub open spec fn cut_short(e: Error) -> bool {
    e == Error::Underflow || e == Error::MalformedVarint
}

proof fn lemma_prefixed_truncated(body: Seq<u8>, cut: nat)
    requires
        body.len() <= MAX_FIELD_LEN,
        cut < prefixed(body).len(),
    ensures
        parse_len(prefixed(body).take(cut as int)) matches Err(e) && cut_short(e),
{
    let prefix = var_encoding(body.len());
    let part = prefixed(body).take(cut as int);
    if cut < prefix.len() {
        assert(part =~= prefix.take(cut as int));
        lemma_var_truncated(body.len(), cut, 5);
    } else {
        let rest = body.take(cut - prefix.len());
        assert(part =~= prefix + rest);
        lemma_var_fits(body.len());
        lemma_var_round_trip(body.len(), rest, 5);
    }
}

/// What was written and then cut short is never taken for a value: a reader
/// that is handed less than the whole of a value's bytes fails, and says that
/// its input ended too soon.
pub proof fn lemma_truncation_fails(v: SpecValue, cut: nat)
    requires
        writable(v),
        cut < wire(v).len(),
    ensures
        parse(shape_of(v), wire(v).take(cut as int)).0 matches Err(e) && cut_short(e),
    decreases v, 0nat,
{
    let part = wire(v).take(cut as int);
    match v {
        SpecValue::U8(n) => {},
        SpecValue::U16(n) => {
            lemma_be_bytes_len(n as nat, 2);
        },
        SpecValue::U64(n) => {
            lemma_be_bytes_len(n as nat, 8);
        },
        SpecValue::F32(bits) => {
            lemma_be_bytes_len(bits as nat, 4);
        },
        SpecValue::F64(bits) => {
            lemma_be_bytes_len(bits as nat, 8);
        },
        SpecValue::VarInt(n) => {
            lemma_var_truncated(unsigned32(n as int), cut, 5);
        },
        SpecValue::VarLong(n) => {
            lemma_var_truncated(unsigned64(n as int), cut, 10);
        },
        SpecValue::Str(chars) => {
            lemma_prefixed_truncated(encode_utf8(chars), cut);
        },
        SpecValue::ByteBuf(bytes) => {
            lemma_prefixed_truncated(bytes, cut);
        },
        SpecValue::Sequence(items) => {
            lemma_truncation_fails_upto(items, items.len(), cut);
        },
        SpecValue::Struct(items) => {
            lemma_truncation_fails_upto(items, items.len(), cut);
        },
        _ => {},
    }
}

/// The same, of the first `n` values of a list.
pub proof fn lemma_truncation_fails_upto(items: Seq<SpecValue>, n: nat, cut: nat)
    requires
        n <= items.len(),
        all_writable(items),
        cut < wire_upto(items, n).len(),
    ensures
        parse_upto(shapes_of(items), n, wire_upto(items, n).take(cut as int)).0 matches Err(e)
            && cut_short(e),
    decreases items, n,
{
    if n > 0 {
        let before = wire_upto(items, (n - 1) as nat);
        let last = items[n - 1];
        let part = wire_upto(items, n).take(cut as int);
        if cut < before.len() {
            assert(part =~= before.take(cut as int));
            lemma_truncation_fails_upto(items, (n - 1) as nat, cut);
        } else {
            let tail = wire(last).take(cut - before.len());
            assert(part =~= before + tail);
            lemma_round_trip_upto(items, (n - 1) as nat, tail);
            lemma_truncation_fails(last, (cut - before.len()) as nat);
            assert(shapes_of(items)[n - 1] == shape_of(last));
        }
    }
}

} // verus!
