//! The ways in which a codec operation can fail.
use vstd::prelude::*;

verus! {

/// Why an encode or decode was abandoned.
#[derive(Debug, Clone, Copy, PartialEq, Eq, Structural)]
pub enum Error {
    /// The buffer ended before a read of declared width could complete.
    Underflow,
    /// A variable-width integer ran past its last permitted byte, past the end
    /// of the buffer, or past the range of its target type.
    MalformedVarint,
    /// The bytes of a string are not UTF-8. `valid_up_to` is the length of the
    /// longest prefix of the string's bytes that is.
    InvalidUtf8 { valid_up_to: usize },
    /// The codec has no wire form for the requested shape.
    Unimplemented,
}

} // verus!
