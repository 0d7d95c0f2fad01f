//! Decode failures of the attribute codec.

use vstd::prelude::*;

verus! {

/// Why a byte buffer could not be decoded.
///
/// Unknown attribute kinds are never an error: feature codecs keep them
/// as raw pass-through attributes. An error means the buffer itself is
/// malformed, or the reply's command code has no decoder in this crate.
/// A failure inside a nested attribute is wrapped, outermost attribute
/// first, so the error names the path to the record that failed.
#[derive(Debug, PartialEq, Eq)]
pub enum DecodeError {
    /// Fewer bytes remained than one attribute record header needs.
    NlaBufferTooSmall { buffer_len: usize },
    /// A record declares more bytes than remain in the buffer.
    NlaLengthMismatch { buffer_len: usize, nla_len: u16 },
    /// A record declares fewer bytes than its own header occupies.
    NlaInvalidLength { nla_len: u16 },
    /// A fixed-width integer attribute had a payload of the wrong size.
    InvalidNumber { expected: usize, received: usize },
    /// A string attribute held bytes that are not valid UTF-8.
    InvalidString,
    /// A bitset carried no BITS container record.
    MissingBitsetBits,
    /// A bitset bit record carried no NAME leaf; the name is required
    /// for a meaningful decode.
    MissingBitsetBitName,
    /// A reply carried a command code this crate cannot decode.
    UnsupportedReplyCommand { cmd: u8 },
    /// A failure inside the attribute with the given type field.
    InAttribute { kind: u16, cause: Box<DecodeError> },
}

/// The given failure, located inside the attribute with the given type
/// field.
pub open spec fn spec_in_attr(kind: u16, cause: DecodeError) -> DecodeError {
    DecodeError::InAttribute { kind, cause: Box::new(cause) }
}

/// Locates a failure inside the attribute with the given type field.
pub fn in_attr(kind: u16, cause: DecodeError) -> (r: DecodeError)
    ensures
        r == spec_in_attr(kind, cause),
{
    DecodeError::InAttribute { kind, cause: Box::new(cause) }
}

} // verus!
