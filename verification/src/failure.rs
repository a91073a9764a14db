//! The classified decode-failure taxonomy.
//!
//! A decode failure is tagged by where decoding went wrong: the request
//! carried no JSON content type, the body could not be read at all, the body
//! text was not syntactically valid, or the text was valid but did not match
//! the expected shape. The taxonomy is open-ended: a consumer must treat an
//! unrecognized tag as `Other` rather than assume the list is complete.

use vstd::prelude::*;

verus! {

/// Why a typed decode of a request's input failed.
#[derive(Clone, Copy, Debug, PartialEq, Eq, Structural)]
pub enum DecodeFailure {
    /// A JSON body was posted without a JSON content-type header.
    MissingContentType,
    /// The input was read and parsed, but does not match the expected shape
    /// (a missing required field, or a field of the wrong type).
    BodyDeserializationError,
    /// The body text is not syntactically valid for its format.
    BodySyntaxError,
    /// The body could not be read from the transport at all.
    BodyReadError,
    /// Any failure outside the recognized tags.
    Other,
}

/// The response status owed to a decode failure: a missing content type is
/// answered 415, a shape mismatch 422, and everything else — the syntax
/// failure, the unreadable body, and any tag outside the recognized list —
/// 400. Every decode failure is a client error: the status is always in the
/// 4xx class, never a server error.
pub open spec fn spec_failure_status(f: DecodeFailure) -> u16 {
    match f {
        DecodeFailure::MissingContentType => 415u16,
        DecodeFailure::BodyDeserializationError => 422u16,
        _ => 400u16,
    }
}

/// The status for a failure, as executable code. The match keeps a default
/// arm, so a tag added to the taxonomy later still gets an answer.
pub fn failure_status(f: DecodeFailure) -> (r: u16)
    ensures
        r == spec_failure_status(f),
        400 <= r < 500,
{
    match f {
        DecodeFailure::MissingContentType => 415,
        DecodeFailure::BodyDeserializationError => 422,
        _ => 400,
    }
}

} // verus!
