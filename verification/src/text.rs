//! Length prefixes and the strings behind them, read from a slice.
use crate::error::Error;
use crate::laws::lemma_utf8_valid_up_to_unique;
use crate::value::{SpecShape, SpecValue};
use crate::varint::Var;
use crate::wire::{is_utf8_valid_up_to, parse, parse_len, MAX_FIELD_LEN};
use vstd::prelude::*;
use vstd::slice::slice_subrange;
use vstd::utf8::{encode_utf8, encode_utf8_decode_utf8, valid_utf8};

verus! {

/// `std::str::from_utf8`, with its error reduced to what
/// `Utf8Error::valid_up_to` says of it. Not proved: the standard library
/// documents that the call succeeds exactly on UTF-8, that the string it gives
/// has the bytes it was given, and that `valid_up_to` is the greatest length
/// of a prefix on which the call would succeed.
#[verifier::external_body]
pub(crate) fn str_from_utf8(bytes: &[u8]) -> (r: Result<&str, usize>)
    ensures
        match r {
            Ok(s) => valid_utf8(bytes@) && encode_utf8(s@) == bytes@,
            Err(n) => !valid_utf8(bytes@) && is_utf8_valid_up_to(bytes@, n as nat),
        },
{
    match std::str::from_utf8(bytes) {
        Ok(s) => Ok(s),
        Err(e) => Err(e.valid_up_to()),
    }
}

/// Reads the length prefix at the front of `s`. Returns the length announced
/// and the width of the prefix; fails with `MalformedVarint` on a prefix that
/// is no 32-bit integer, and with `Underflow` where it announces more bytes
/// than follow it in `s`, or a negative number of them.
pub fn decode_len(s: &[u8]) -> (r: Result<(usize, usize), Error>)
    ensures
        match r {
            Ok((len, k)) => 1 <= k && k + len <= s@.len() && len <= MAX_FIELD_LEN && parse_len(s@)
                == Ok::<(nat, nat), Error>((len as nat, k as nat)),
            Err(e) => parse_len(s@) == Err::<(nat, nat), Error>(e),
        },
{
    match Var::<u32>::decode(s) {
        Ok((announced, k)) => {
            if announced.0 > MAX_FIELD_LEN as u32 {
                return Err(Error::Underflow);
            }
            let len: usize = announced.0 as usize;
            if len > s.len() - k {
                return Err(Error::Underflow);
            }
            Ok((len, k))
        },
        Err(e) => Err(e),
    }
}

/// Reads one string from the front of `s`. Returns the string and the number
/// of bytes that it took, prefix included.
pub fn decode_str(s: &[u8]) -> (r: Result<(String, usize), Error>)
    ensures
        match r {
            Ok((text, n)) => n <= s@.len() && parse(SpecShape::Str, s@) == (
                Ok::<SpecValue, Error>(SpecValue::Str(text@)),
                s@.skip(n as int),
            ),
            Err(e) => parse(SpecShape::Str, s@) == (Err::<SpecValue, Error>(e), s@),
        },
{
    match decode_len(s) {
        Ok((len, k)) => {
            assert(k + len <= s.len());
            let span = slice_subrange(s, k, k + len);
            match str_from_utf8(span) {
                Ok(text) => {
                    proof {
                        encode_utf8_decode_utf8(text@);
                    }
                    Ok((text.to_owned(), k + len))
                },
                Err(valid_up_to) => {
                    proof {
                        lemma_utf8_valid_up_to_unique(span@, valid_up_to as nat);
                    }
                    Err(Error::InvalidUtf8 { valid_up_to })
                },
            }
        },
        Err(e) => Err(e),
    }
}

} // verus!
