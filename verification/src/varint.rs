//! Variable-width integers.
//!
//! An unsigned value is cut into groups of seven bits, least significant group
//! first. Each group travels in one byte; the high bit of a byte says that
//! another group follows. Signed integers travel as their two's complement bit
//! pattern, so a negative number always takes the full length.
//!
//! A writer always produces the shortest encoding. A reader takes any encoding
//! of up to five bytes for 32 bits and ten bytes for 64 bits, the shortest or
//! not, and refuses one that goes on beyond that or that spells a number too
//! large for its target.
use crate::error::Error;
use vstd::prelude::*;

verus! {

/// The encoding of `n`: the shortest byte sequence that decodes to it.
pub open spec fn var_encoding(n: nat) -> Seq<u8>
    decreases n,
{
    if n < 128 {
        seq![n as u8]
    } else {
        seq![(n % 128 + 128) as u8] + var_encoding(n / 128)
    }
}

/// Reads one integer from the front of `s`, looking at no more than `limit`
/// bytes: the value and the number of bytes it took, or `None` where no byte
/// among them ends the integer.
pub open spec fn var_scan(s: Seq<u8>, limit: nat) -> Option<(nat, nat)>
    decreases limit,
{
    if limit == 0 || s.len() == 0 {
        None
    } else if s[0] < 128 {
        Some((s[0] as nat, 1nat))
    } else {
        match var_scan(s.skip(1), (limit - 1) as nat) {
            Some((v, k)) => Some(((s[0] - 128) as nat + 128 * v, k + 1)),
            None => None,
        }
    }
}

/// What decoding the front of `s` yields for a target type whose largest value
/// is `max` and whose longest encoding is `limit` bytes.
pub open spec fn var_decoding(s: Seq<u8>, limit: nat, max: nat) -> Option<(nat, nat)> {
    match var_scan(s, limit) {
        Some((v, k)) => if v <= max { Some((v, k)) } else { None },
        None => None,
    }
}

/// 128 to the power `i`: the weight of group `i`.
pub open spec fn pow128(i: nat) -> nat
    decreases i,
{
    if i == 0 { 1 } else { 128 * pow128((i - 1) as nat) }
}

/// The bit pattern of a 32-bit signed integer, read as unsigned.
pub open spec fn unsigned32(x: int) -> nat {
    if x >= 0 { x as nat } else { (x + 0x1_0000_0000) as nat }
}

/// The 32-bit signed integer whose bit pattern is `v`.
pub open spec fn signed32(v: nat) -> int {
    if v < 0x8000_0000 { v as int } else { v - 0x1_0000_0000 }
}

/// The bit pattern of a 64-bit signed integer, read as unsigned.
pub open spec fn unsigned64(x: int) -> nat {
    if x >= 0 { x as nat } else { (x + 0x1_0000_0000_0000_0000) as nat }
}

/// The 64-bit signed integer whose bit pattern is `v`.
pub open spec fn signed64(v: nat) -> int {
    if v < 0x8000_0000_0000_0000 { v as int } else { v - 0x1_0000_0000_0000_0000 }
}

/// Longest encoding of a 32-bit integer.
pub const VAR32_MAX_LEN: usize = 5;

/// Longest encoding of a 64-bit integer.
pub const VAR64_MAX_LEN: usize = 10;

spec fn var_lift(acc: nat, weight: nat, i: nat, tail: Option<(nat, nat)>) -> Option<(nat, nat)> {
    match tail {
        Some((v, k)) => Some((acc + weight * v, i + k)),
        None => None,
    }
}

proof fn lemma_pow128_increases(i: nat, j: nat)
    requires
        i <= j,
    ensures
        1 <= pow128(i) <= pow128(j),
    decreases j,
{
    if j == 0 {
    } else if i == j {
        lemma_pow128_increases(0, (j - 1) as nat);
    } else {
        lemma_pow128_increases(i, (j - 1) as nat);
    }
}

proof fn lemma_pow128_ten()
    ensures
        pow128(10) == 0x40_0000_0000_0000_0000,
{
    reveal_with_fuel(pow128, 11);
}

proof fn lemma_scan_continues(s: Seq<u8>, limit: nat, i: nat, acc: nat, weight: nat)
    requires
        i < limit,
        i < s.len(),
        s[i as int] >= 128,
    ensures
        var_lift(acc, weight, i, var_scan(s.skip(i as int), (limit - i) as nat)) == var_lift(
            acc + weight * (s[i as int] - 128) as nat,
            weight * 128,
            i + 1,
            var_scan(s.skip((i + 1) as int), (limit - i - 1) as nat),
        ),
{
    let here = s.skip(i as int);
    assert(here[0] == s[i as int]);
    assert(here.skip(1) =~= s.skip((i + 1) as int));
    let p = (s[i as int] - 128) as nat;
    match var_scan(s.skip((i + 1) as int), (limit - i - 1) as nat) {
        Some((v, k)) => {
            assert(weight * (p + 128 * v) == weight * p + (weight * 128) * v) by (nonlinear_arith);
        },
        None => {},
    }
}

proof fn lemma_scan_overflows(s: Seq<u8>, limit: nat, i: nat, acc: nat, weight: nat, max: nat)
    requires
        i < limit,
        i < s.len(),
        acc + weight * (s[i as int] % 128) as nat > max,
    ensures
        match var_lift(acc, weight, i, var_scan(s.skip(i as int), (limit - i) as nat)) {
            Some((v, k)) => v > max,
            None => true,
        },
{
    let here = s.skip(i as int);
    assert(here[0] == s[i as int]);
    let p = (s[i as int] % 128) as nat;
    if s[i as int] >= 128 {
        match var_scan(here.skip(1), (limit - i - 1) as nat) {
            Some((v, k)) => {
                assert(weight * (p + 128 * v) >= weight * p) by (nonlinear_arith);
            },
            None => {},
        }
    }
}

/// An integer takes at least one byte, and no more than were there to look
/// at.
pub proof fn lemma_var_scan_bounds(s: Seq<u8>, limit: nat)
    ensures
        match var_scan(s, limit) {
            Some((v, k)) => 1 <= k <= limit && k <= s.len(),
            None => true,
        },
    decreases limit,
{
    if limit > 0 && s.len() > 0 && s[0] >= 128 {
        lemma_var_scan_bounds(s.skip(1), (limit - 1) as nat);
    }
}

/// Encodes `n`.
pub fn encode_var(n: u64) -> (out: Vec<u8>)
    ensures
        out@ == var_encoding(n as nat),
{
    let mut out: Vec<u8> = Vec::new();
    let mut rest: u64 = n;
    while rest >= 128
        invariant
            var_encoding(n as nat) == out@ + var_encoding(rest as nat),
        decreases rest,
    {
        let group: u8 = (rest % 128) as u8 + 128;
        proof {
            assert(var_encoding(rest as nat) == seq![group] + var_encoding((rest / 128) as nat));
            assert(out@ + (seq![group] + var_encoding((rest / 128) as nat)) =~= out@.push(group)
                + var_encoding((rest / 128) as nat));
        }
        out.push(group);
        rest = rest / 128;
    }
    proof {
        assert(out@ + var_encoding(rest as nat) =~= out@.push(rest as u8));
    }
    out.push(rest as u8);
    out
}

/// Decodes one integer no larger than `max` from the front of `s`, reading at
/// most `limit` bytes. Returns the value and the number of bytes it took.
pub(crate) fn decode_var(s: &[u8], limit: usize, max: u64) -> (r: Result<(u64, usize), Error>)
    requires
        limit <= VAR64_MAX_LEN,
    ensures
        match r {
            Ok((v, k)) => 1 <= k <= s@.len() && var_decoding(s@, limit as nat, max as nat) == Some(
                (v as nat, k as nat),
            ),
            Err(e) => e == Error::MalformedVarint && var_decoding(s@, limit as nat, max as nat)
                is None,
        },
{
    let mut acc: u64 = 0;
    let mut weight: u128 = 1;
    let mut i: usize = 0;
    proof {
        assert(s@.skip(0) =~= s@);
    }
    while i < limit && i < s.len()
        invariant
            i <= limit <= 10,
            i <= s.len(),
            acc <= max,
            weight == pow128(i as nat),
            var_scan(s@, limit as nat) == var_lift(
                acc as nat,
                weight as nat,
                i as nat,
                var_scan(s@.skip(i as int), (limit - i) as nat),
            ),
        decreases limit - i,
    {
        let byte: u8 = s[i];
        let payload: u128 = (byte % 128) as u128;
        proof {
            lemma_pow128_increases(i as nat, 10);
            lemma_pow128_ten();
            assert(payload * weight <= 127 * 0x40_0000_0000_0000_0000) by (nonlinear_arith)
                requires
                    payload <= 127,
                    weight <= 0x40_0000_0000_0000_0000,
            ;
        }
        let total: u128 = payload * weight + (acc as u128);
        if total > max as u128 {
            proof {
                lemma_scan_overflows(
                    s@,
                    limit as nat,
                    i as nat,
                    acc as nat,
                    weight as nat,
                    max as nat,
                );
            }
            return Err(Error::MalformedVarint);
        }
        if byte < 128 {
            proof {
                assert(s@.skip(i as int)[0] == byte);
            }
            return Ok((total as u64, i + 1));
        }
        proof {
            lemma_scan_continues(s@, limit as nat, i as nat, acc as nat, weight as nat);
        }
        acc = total as u64;
        weight = weight * 128;
        i = i + 1;
    }
    Err(Error::MalformedVarint)
}

/// Zero takes exactly one byte.
pub proof fn lemma_var_zero()
    ensures
        var_encoding(0) == seq![0u8],
        var_encoding(0).len() == 1,
{
}

/// An encoding is never empty, and it fits in `k` bytes exactly when the value
/// is below 128 to the power `k`.
pub proof fn lemma_var_len(n: nat, k: nat)
    requires
        k >= 1,
    ensures
        var_encoding(n).len() >= 1,
        (var_encoding(n).len() <= k) == (n < pow128(k)),
    decreases n,
{
    lemma_pow128_increases(1, k);
    assert(pow128(1) == 128) by {
        reveal_with_fuel(pow128, 2);
    }
    if n >= 128 {
        if k == 1 {
            lemma_var_len(n / 128, 1);
        } else {
            lemma_var_len(n / 128, (k - 1) as nat);
        }
    }
}

/// A larger value never has a shorter encoding.
pub proof fn lemma_var_len_monotonic(a: nat, b: nat)
    requires
        a <= b,
    ensures
        var_encoding(a).len() <= var_encoding(b).len(),
    decreases b,
{
    if b >= 128 {
        if a >= 128 {
            lemma_var_len_monotonic(a / 128, b / 128);
        } else {
            lemma_var_len(b / 128, 1);
        }
    }
}

/// Reading an encoding back gives the value and the encoding's length,
/// whatever follows it.
pub proof fn lemma_var_round_trip(n: nat, rest: Seq<u8>, limit: nat)
    requires
        var_encoding(n).len() <= limit,
    ensures
        var_scan(var_encoding(n) + rest, limit) == Some((n, var_encoding(n).len())),
    decreases n,
{
    let s = var_encoding(n) + rest;
    if n >= 128 {
        lemma_var_round_trip(n / 128, rest, (limit - 1) as nat);
        assert(s.skip(1) =~= var_encoding(n / 128) + rest);
        assert(s[0] == (n % 128 + 128) as u8);
    } else {
        assert(s[0] == n as u8);
    }
}

/// No byte sequence that decodes to a value is shorter than the value's
/// encoding.
pub proof fn lemma_var_minimal(s: Seq<u8>, limit: nat)
    ensures
        match var_scan(s, limit) {
            Some((v, k)) => var_encoding(v).len() <= k,
            None => true,
        },
    decreases limit,
{
    if limit > 0 && s.len() > 0 && s[0] >= 128 {
        lemma_var_minimal(s.skip(1), (limit - 1) as nat);
        lemma_var_scan_bounds(s.skip(1), (limit - 1) as nat);
    }
}

/// An encoding cut short is no integer: every byte of it but the last says
/// that another follows.
pub proof fn lemma_var_truncated(n: nat, cut: nat, limit: nat)
    requires
        cut < var_encoding(n).len(),
    ensures
        var_scan(var_encoding(n).take(cut as int), limit) is None,
    decreases n,
{
    let whole = var_encoding(n);
    let part = whole.take(cut as int);
    if n >= 128 && cut > 0 && limit > 0 {
        lemma_var_truncated(n / 128, (cut - 1) as nat, (limit - 1) as nat);
        assert(part[0] == (n % 128 + 128) as u8);
        assert(part.skip(1) =~= var_encoding(n / 128).take(cut - 1));
    }
}

/// Two encodings laid end to end decode to the first value and then, from
/// where the first ended, to the second; what followed them is left over.
pub proof fn lemma_var_pair(a: nat, b: nat, rest: Seq<u8>, limit: nat, max: nat)
    requires
        a <= max,
        b <= max,
        var_encoding(a).len() <= limit,
        var_encoding(b).len() <= limit,
    ensures
        ({
            let s = var_encoding(a) + var_encoding(b) + rest;
            let la = var_encoding(a).len();
            let lb = var_encoding(b).len();
            &&& var_decoding(s, limit, max) == Some((a, la))
            &&& var_decoding(s.skip(la as int), limit, max) == Some((b, lb))
            &&& s.skip(la as int).skip(lb as int) == rest
        }),
{
    let s = var_encoding(a) + var_encoding(b) + rest;
    let la = var_encoding(a).len();
    let lb = var_encoding(b).len();
    assert(s =~= var_encoding(a) + (var_encoding(b) + rest));
    lemma_var_round_trip(a, var_encoding(b) + rest, limit);
    assert(s.skip(la as int) =~= var_encoding(b) + rest);
    lemma_var_round_trip(b, rest, limit);
    assert(s.skip(la as int).skip(lb as int) =~= rest);
}

/// Every 32-bit pattern fits in five bytes and every 64-bit pattern in ten.
pub proof fn lemma_var_fits(n: nat)
    ensures
        n <= u32::MAX ==> var_encoding(n).len() <= VAR32_MAX_LEN,
        n <= u64::MAX ==> var_encoding(n).len() <= VAR64_MAX_LEN,
{
    lemma_var_len(n, 5);
    lemma_var_len(n, 10);
    lemma_pow128_ten();
    assert(pow128(5) == 0x8_0000_0000) by {
        reveal_with_fuel(pow128, 6);
    }
}

/// An integer that travels in variable-width form.
#[derive(Debug, Clone, Copy, PartialEq, Eq)]
pub struct Var<T>(pub T);

impl Var<u32> {
    /// The bytes of this integer on the wire.
    pub fn encode(&self) -> (out: Vec<u8>)
        ensures
            out@ == var_encoding(self.0 as nat),
            1 <= out@.len() <= VAR32_MAX_LEN,
    {
        proof {
            lemma_var_fits(self.0 as nat);
            lemma_var_len(self.0 as nat, 1);
        }
        encode_var(self.0 as u64)
    }

    /// Reads one integer from the front of `s`; also returns the number of
    /// bytes it took.
    pub fn decode(s: &[u8]) -> (r: Result<(Var<u32>, usize), Error>)
        ensures
            match r {
                Ok((x, k)) => 1 <= k <= s@.len() && var_decoding(s@, 5, u32::MAX as nat) == Some(
                    (x.0 as nat, k as nat),
                ),
                Err(e) => e == Error::MalformedVarint && var_decoding(s@, 5, u32::MAX as nat)
                    is None,
            },
    {
        match decode_var(s, VAR32_MAX_LEN, u32::MAX as u64) {
            Ok((v, k)) => Ok((Var(v as u32), k)),
            Err(e) => Err(e),
        }
    }
}

impl Var<u64> {
    /// The bytes of this integer on the wire.
    pub fn encode(&self) -> (out: Vec<u8>)
        ensures
            out@ == var_encoding(self.0 as nat),
            1 <= out@.len() <= VAR64_MAX_LEN,
    {
        proof {
            lemma_var_fits(self.0 as nat);
            lemma_var_len(self.0 as nat, 1);
        }
        encode_var(self.0)
    }

    /// Reads one integer from the front of `s`; also returns the number of
    /// bytes it took.
    pub fn decode(s: &[u8]) -> (r: Result<(Var<u64>, usize), Error>)
        ensures
            match r {
                Ok((x, k)) => 1 <= k <= s@.len() && var_decoding(s@, 10, u64::MAX as nat) == Some(
                    (x.0 as nat, k as nat),
                ),
                Err(e) => e == Error::MalformedVarint && var_decoding(s@, 10, u64::MAX as nat)
                    is None,
            },
    {
        match decode_var(s, VAR64_MAX_LEN, u64::MAX) {
            Ok((v, k)) => Ok((Var(v), k)),
            Err(e) => Err(e),
        }
    }
}

impl Var<i32> {
    /// The bytes of this integer on the wire.
    pub fn encode(&self) -> (out: Vec<u8>)
        ensures
            out@ == var_encoding(unsigned32(self.0 as int)),
            1 <= out@.len() <= VAR32_MAX_LEN,
    {
        let x: i32 = self.0;
        let bits: u32 = x as u32;
        proof {
            assert(x >= 0 ==> bits == x) by (bit_vector)
                requires
                    bits == x as u32,
            ;
            assert(x < 0 ==> bits == x + 0x1_0000_0000) by (bit_vector)
                requires
                    bits == x as u32,
            ;
            lemma_var_fits(bits as nat);
            lemma_var_len(bits as nat, 1);
        }
        encode_var(bits as u64)
    }

    /// Reads one integer from the front of `s`; also returns the number of
    /// bytes it took.
    pub fn decode(s: &[u8]) -> (r: Result<(Var<i32>, usize), Error>)
        ensures
            match r {
                Ok((x, k)) => 1 <= k <= s@.len() && var_decoding(s@, 5, u32::MAX as nat) == Some(
                    (unsigned32(x.0 as int), k as nat),
                ),
                Err(e) => e == Error::MalformedVarint && var_decoding(s@, 5, u32::MAX as nat)
                    is None,
            },
    {
        match decode_var(s, VAR32_MAX_LEN, u32::MAX as u64) {
            Ok((v, k)) => {
                let bits: u32 = v as u32;
                let x: i32 = bits as i32;
                proof {
                    assert(bits < 0x8000_0000 ==> x == bits) by (bit_vector)
                        requires
                            x == bits as i32,
                    ;
                    assert(bits >= 0x8000_0000 ==> x == bits - 0x1_0000_0000) by (bit_vector)
                        requires
                            x == bits as i32,
                    ;
                }
                Ok((Var(x), k))
            },
            Err(e) => Err(e),
        }
    }
}

impl Var<i64> {
    /// The bytes of this integer on the wire.
    pub fn encode(&self) -> (out: Vec<u8>)
        ensures
            out@ == var_encoding(unsigned64(self.0 as int)),
            1 <= out@.len() <= VAR64_MAX_LEN,
    {
        let x: i64 = self.0;
        let bits: u64 = x as u64;
        proof {
            assert(x >= 0 ==> bits == x) by (bit_vector)
                requires
                    bits == x as u64,
            ;
            assert(x < 0 ==> bits == x + 0x1_0000_0000_0000_0000) by (bit_vector)
                requires
                    bits == x as u64,
            ;
            lemma_var_fits(bits as nat);
            lemma_var_len(bits as nat, 1);
        }
        encode_var(bits)
    }

    /// Reads one integer from the front of `s`; also returns the number of
    /// bytes it took.
    pub fn decode(s: &[u8]) -> (r: Result<(Var<i64>, usize), Error>)
        ensures
            match r {
                Ok((x, k)) => 1 <= k <= s@.len() && var_decoding(s@, 10, u64::MAX as nat) == Some(
                    (unsigned64(x.0 as int), k as nat),
                ),
                Err(e) => e == Error::MalformedVarint && var_decoding(s@, 10, u64::MAX as nat)
                    is None,
            },
    {
        match decode_var(s, VAR64_MAX_LEN, u64::MAX) {
            Ok((v, k)) => {
                let x: i64 = v as i64;
                proof {
                    assert(v < 0x8000_0000_0000_0000 ==> x == v) by (bit_vector)
                        requires
                            x == v as i64,
                    ;
                    assert(v >= 0x8000_0000_0000_0000 ==> x == v - 0x1_0000_0000_0000_0000)
                        by (bit_vector)
                        requires
                            x == v as i64,
                    ;
                }
                Ok((Var(x), k))
            },
            Err(e) => Err(e),
        }
    }
}

} // verus!
