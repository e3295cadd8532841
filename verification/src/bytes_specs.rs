//! What this crate assumes of the `bytes` crate.
//!
//! Nothing in this file is proved. Each function is a single call into
//! `bytes`, and its contract restates what the documentation of the function
//! called promises.
use crate::wire::{be_bytes, be_value};
use bytes::{Buf, BufMut, Bytes, BytesMut};
use vstd::prelude::*;

verus! {

/// `bytes::Bytes`, made known so that it can stand in fields and signatures.
/// Nothing inside it is visible to a proof.
#[verifier::external_type_specification]
#[verifier::external_body]
pub struct ExBytes(bytes::Bytes);

/// `bytes::BytesMut`, made known so that it can stand in fields and
/// signatures. Nothing inside it is visible to a proof.
#[verifier::external_type_specification]
#[verifier::external_body]
pub struct ExBytesMut(bytes::BytesMut);

/// The bytes that `b` holds, the next one to be read first. This is a name
/// and no more: all that is known of it is what the functions below say.
pub uninterp spec fn bytes_contents(b: &Bytes) -> Seq<u8>;

/// The bytes that `b` holds, in the order in which they were written. This is
/// a name and no more: all that is known of it is what the functions below
/// say.
pub uninterp spec fn bytes_mut_contents(b: &BytesMut) -> Seq<u8>;

/// `Bytes::copy_from_slice`: a buffer holding a copy of `data`.
#[verifier::external_body]
pub(crate) fn bytes_copy_from_slice(data: &[u8]) -> (b: Bytes)
    ensures
        bytes_contents(&b) == data@,
{
    Bytes::copy_from_slice(data)
}

/// `Buf::chunk` of a `Bytes`: all that is left to read, as one slice.
#[verifier::external_body]
pub(crate) fn bytes_chunk(b: &Bytes) -> (s: &[u8])
    ensures
        s@ == bytes_contents(b),
{
    b.chunk()
}

/// `Buf::advance` of a `Bytes`: drops the first `cnt` bytes. The call panics
/// where `cnt` is more than what is left.
#[verifier::external_body]
pub(crate) fn bytes_advance(b: &mut Bytes, cnt: usize)
    requires
        cnt <= bytes_contents(old(b)).len(),
    ensures
        bytes_contents(final(b)) == bytes_contents(old(b)).skip(cnt as int),
{
    b.advance(cnt)
}

/// `Bytes::split_to`: hands out the first `at` bytes and keeps the rest. The
/// call panics where `at` is more than what is left.
#[verifier::external_body]
pub(crate) fn bytes_split_to(b: &mut Bytes, at: usize) -> (head: Bytes)
    requires
        at <= bytes_contents(old(b)).len(),
    ensures
        bytes_contents(&head) == bytes_contents(old(b)).take(at as int),
        bytes_contents(final(b)) == bytes_contents(old(b)).skip(at as int),
{
    b.split_to(at)
}

/// `Buf::get_u8`: takes one byte off the front. The call panics on an empty
/// buffer.
#[verifier::external_body]
pub(crate) fn bytes_get_u8(b: &mut Bytes) -> (n: u8)
    requires
        bytes_contents(old(b)).len() >= 1,
    ensures
        n == bytes_contents(old(b))[0],
        bytes_contents(final(b)) == bytes_contents(old(b)).skip(1),
{
    b.get_u8()
}

/// `Buf::get_u16`: takes two bytes off the front, big-endian. The call panics
/// where fewer are left.
#[verifier::external_body]
pub(crate) fn bytes_get_u16(b: &mut Bytes) -> (n: u16)
    requires
        bytes_contents(old(b)).len() >= 2,
    ensures
        n == be_value(bytes_contents(old(b)).take(2)),
        bytes_contents(final(b)) == bytes_contents(old(b)).skip(2),
{
    b.get_u16()
}

/// `Buf::get_u32`: takes four bytes off the front, big-endian. The call panics
/// where fewer are left.
#[verifier::external_body]
pub(crate) fn bytes_get_u32(b: &mut Bytes) -> (n: u32)
    requires
        bytes_contents(old(b)).len() >= 4,
    ensures
        n == be_value(bytes_contents(old(b)).take(4)),
        bytes_contents(final(b)) == bytes_contents(old(b)).skip(4),
{
    b.get_u32()
}

/// `Buf::get_u64`: takes eight bytes off the front, big-endian. The call
/// panics where fewer are left.
#[verifier::external_body]
pub(crate) fn bytes_get_u64(b: &mut Bytes) -> (n: u64)
    requires
        bytes_contents(old(b)).len() >= 8,
    ensures
        n == be_value(bytes_contents(old(b)).take(8)),
        bytes_contents(final(b)) == bytes_contents(old(b)).skip(8),
{
    b.get_u64()
}

/// `BytesMut::new`: an empty buffer.
#[verifier::external_body]
pub(crate) fn bytes_mut_new() -> (b: BytesMut)
    ensures
        bytes_mut_contents(&b) == Seq::<u8>::empty(),
{
    BytesMut::new()
}

/// `AsRef<[u8]>` of a `BytesMut`: all that was written, as one slice.
#[verifier::external_body]
pub(crate) fn bytes_mut_as_slice(b: &BytesMut) -> (s: &[u8])
    ensures
        s@ == bytes_mut_contents(b),
{
    b.as_ref()
}

/// `BufMut::put_u8` of a `BytesMut`: appends one byte. The buffer grows as
/// needed; its length is capped at `isize::MAX`.
#[verifier::external_body]
pub(crate) fn bytes_mut_put_u8(b: &mut BytesMut, n: u8)
    requires
        bytes_mut_contents(old(b)).len() + 1 <= isize::MAX,
    ensures
        bytes_mut_contents(final(b)) == bytes_mut_contents(old(b)).push(n),
{
    b.put_u8(n)
}

/// `BufMut::put_u16` of a `BytesMut`: appends two bytes, big-endian.
#[verifier::external_body]
pub(crate) fn bytes_mut_put_u16(b: &mut BytesMut, n: u16)
    requires
        bytes_mut_contents(old(b)).len() + 2 <= isize::MAX,
    ensures
        bytes_mut_contents(final(b)) == bytes_mut_contents(old(b)) + be_bytes(n as nat, 2),
{
    b.put_u16(n)
}

/// `BufMut::put_u32` of a `BytesMut`: appends four bytes, big-endian.
#[verifier::external_body]
pub(crate) fn bytes_mut_put_u32(b: &mut BytesMut, n: u32)
    requires
        bytes_mut_contents(old(b)).len() + 4 <= isize::MAX,
    ensures
        bytes_mut_contents(final(b)) == bytes_mut_contents(old(b)) + be_bytes(n as nat, 4),
{
    b.put_u32(n)
}

/// `BufMut::put_u64` of a `BytesMut`: appends eight bytes, big-endian.
#[verifier::external_body]
pub(crate) fn bytes_mut_put_u64(b: &mut BytesMut, n: u64)
    requires
        bytes_mut_contents(old(b)).len() + 8 <= isize::MAX,
    ensures
        bytes_mut_contents(final(b)) == bytes_mut_contents(old(b)) + be_bytes(n as nat, 8),
{
    b.put_u64(n)
}

/// `BytesMut::extend_from_slice`: appends a copy of `extend`.
#[verifier::external_body]
pub(crate) fn bytes_mut_extend_from_slice(b: &mut BytesMut, extend: &[u8])
    requires
        bytes_mut_contents(old(b)).len() + extend@.len() <= isize::MAX,
    ensures
        bytes_mut_contents(final(b)) == bytes_mut_contents(old(b)) + extend@,
{
    b.extend_from_slice(extend)
}

} // verus!
