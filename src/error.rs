use crate::time::ChronoError;
use vstd::prelude::*;

verus! {

/// Largest length that a 16-bit length prefix can carry.
pub const MAX_PREFIXED_LEN: usize = 65535;

/// The failures that encoding and decoding report.
#[derive(Debug, Clone, Copy, PartialEq, Eq, Structural)]
pub enum EncodingError {
    /// The header does not begin with the format's magic bytes.
    InvalidMagic,
    /// The header's version byte is not one this library reads.
    UnsupportedVersion(u8),
    /// The compression descriptor names an unknown algorithm.
    InvalidCompressionType(u8),
    /// The input ended, or held a byte that no value encodes to.
    UnexpectedEof,
    /// A value union or typed map carried an unknown discriminator.
    UnknownTypeKey(u8),
    /// A length does not fit in a 16-bit prefix.
    TypeTooLarge(usize),
    /// A failure reported by a collaborator.
    OtherDecodingError(OtherError),
    /// A typed map's stored discriminator differs from the expected one
    /// (expected, found).
    MismatchedObjectType(u8, u8),
}

/// The failures of collaborators that decoding passes on.
#[derive(Debug, Clone, Copy, PartialEq, Eq, Structural)]
pub enum OtherError {
    /// Bytes that are not a valid HTTP header name.
    InvalidHeaderName,
    /// Raw calendar values that the calendar library refused.
    Chrono(ChronoError),
}

impl EncodingError {
    /// Wraps a collaborator's failure.
    pub fn other(err: OtherError) -> (r: EncodingError)
        ensures
            r == EncodingError::OtherDecodingError(err),
    {
        EncodingError::OtherDecodingError(err)
    }
}

/// Accepts a length that fits in a 16-bit prefix; rejects any other with
/// `TypeTooLarge` carrying that length.
pub fn is_size_allowed(size: usize) -> (r: Result<(), EncodingError>)
    ensures
        size <= MAX_PREFIXED_LEN ==> r is Ok,
        size > MAX_PREFIXED_LEN ==> r == Err::<(), EncodingError>(EncodingError::TypeTooLarge(size)),
{
    if size > MAX_PREFIXED_LEN {
        return Err(EncodingError::TypeTooLarge(size));
    }
    Ok(())
}

} // verus!
