//! Base64, as the `base64` crate's standard engine writes and reads it.

use vstd::prelude::*;
use base64::Engine;
use crate::text;

verus! {

/// Why a text is not base64.
#[derive(Debug, Clone, Copy, PartialEq, Eq, Structural)]
pub enum DecodeFailure {
    /// A byte at an offset that does not belong there.
    InvalidByte(usize, u8),
    /// A number of symbols that no encoding has.
    InvalidLength(usize),
    /// A last symbol at an offset with bits that would be lost.
    InvalidLastSymbol(usize, u8),
    /// Padding that is absent or not canonical.
    InvalidPadding,
}

/// What the standard engine of `base64` makes of `bytes` when it encodes them.
pub uninterp spec fn base64_encoded(bytes: Seq<u8>) -> Seq<char>;

/// What the standard engine of `base64` makes of `data` when it decodes it.
pub uninterp spec fn base64_decoded(data: Seq<char>) -> Result<Seq<u8>, DecodeFailure>;

/// The outcome of a decoding, with the bytes as a sequence.
pub open spec fn decoded_view(r: Result<Vec<u8>, DecodeFailure>) -> Result<Seq<u8>, DecodeFailure> {
    match r {
        Ok(bytes) => Ok(bytes@),
        Err(e) => Err(e),
    }
}

/// Whether decoding `data` gives `bytes`.
pub open spec fn decodes_to(data: Seq<char>, bytes: Seq<u8>) -> bool {
    match base64_decoded(data) {
        Ok(back) => back == bytes,
        Err(_) => false,
    }
}

/// `base64::engine::general_purpose::STANDARD.encode`. The result is a function of the bytes, four
/// symbols for each three bytes begun, and decoding it gives the bytes back. The size of the
/// output must not exceed what a vector can hold.
#[verifier::external_body]
pub(crate) fn encode_base64(bytes: &[u8]) -> (r: String)
    requires
        (bytes@.len() + 2) / 3 * 4 <= isize::MAX,
    ensures
        r@ == base64_encoded(bytes@),
        r@.len() == (bytes@.len() + 2) / 3 * 4,
        decodes_to(r@, bytes@),
{
    base64::engine::general_purpose::STANDARD.encode(bytes)
}

/// `base64::engine::general_purpose::STANDARD.decode`. The result is a function of the text; an
/// error is handed on variant by variant.
#[verifier::external_body]
pub(crate) fn decode_base64(data: &str) -> (r: Result<Vec<u8>, DecodeFailure>)
    ensures
        decoded_view(r) == base64_decoded(data@),
{
    match base64::engine::general_purpose::STANDARD.decode(data) {
        Ok(bytes) => Ok(bytes),
        Err(base64::DecodeError::InvalidByte(i, b)) => Err(DecodeFailure::InvalidByte(i, b)),
        Err(base64::DecodeError::InvalidLength(n)) => Err(DecodeFailure::InvalidLength(n)),
        Err(base64::DecodeError::InvalidLastSymbol(i, b)) => {
            Err(DecodeFailure::InvalidLastSymbol(i, b))
        },
        Err(base64::DecodeError::InvalidPadding) => Err(DecodeFailure::InvalidPadding),
    }
}

/// The message of a decode failure.
pub open spec fn decode_failure_text(failure: DecodeFailure) -> Seq<char> {
    match failure {
        DecodeFailure::InvalidByte(offset, byte) => "Invalid symbol "@ + text::decimal(byte as nat)
            + ", offset "@ + text::decimal(offset as nat) + "."@,
        DecodeFailure::InvalidLength(len) => "Invalid input length: "@ + text::decimal(len as nat),
        DecodeFailure::InvalidLastSymbol(offset, byte) => "Invalid last symbol "@ + text::decimal(
            byte as nat,
        ) + ", offset "@ + text::decimal(offset as nat) + "."@,
        DecodeFailure::InvalidPadding => "Invalid padding"@,
    }
}

impl DecodeFailure {
    /// The `Display` text of the `base64::DecodeError` with the same variant and fields: a fixed
    /// phrase with the numbers in decimal.
    #[verifier::external_body]
    pub(crate) fn message(&self) -> (r: String)
        ensures
            r@ == decode_failure_text(*self),
    {
        let e = match *self {
            DecodeFailure::InvalidByte(i, b) => base64::DecodeError::InvalidByte(i, b),
            DecodeFailure::InvalidLength(n) => base64::DecodeError::InvalidLength(n),
            DecodeFailure::InvalidLastSymbol(i, b) => base64::DecodeError::InvalidLastSymbol(i, b),
            DecodeFailure::InvalidPadding => base64::DecodeError::InvalidPadding,
        };
        e.to_string()
    }
}

} // verus!
