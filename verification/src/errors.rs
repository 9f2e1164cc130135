use vstd::prelude::*;

verus! {

/// The reasons a canonicalization or format conversion can fail.
///
/// Every failure is a local validation or parse failure detected at the
/// point of violation; no partial output is ever produced alongside one.
#[derive(Clone, Copy, Debug, PartialEq, Eq, Structural)]
pub enum ErrorKind {
    /// Raw input at the boundary was null or empty.
    InvalidInput,
    /// Input bytes were not a parseable structured document.
    MalformedDocument,
    /// `ver` held a value other than the supported version literal.
    UnsupportedVersion,
    /// `alg` held a value other than the supported algorithm literal.
    UnsupportedAlgorithm,
    /// `sigFormat` held a value other than the supported format literal.
    UnsupportedSignatureFormat,
    /// `exp` was not strictly greater than `ts`.
    InvalidTimeWindow,
    /// A delimiter or NUL byte was found in a field used in canonicalization.
    IllegalCharacterInField,
    /// A SEC1 key had the wrong length or marker, or was not on the curve.
    MalformedKey,
    /// A DER signature failed structural validation or had an oversized
    /// component.
    MalformedSignature,
    /// Output could not be represented as a valid textual string for the
    /// boundary layer.
    EncodingFailure,
}

impl ErrorKind {
    /// The stable numeric code for this error, as reported across the
    /// process boundary.
    pub fn code(&self) -> (c: i32)
        ensures
            c == self.spec_code(),
    {
        match self {
            ErrorKind::InvalidInput => 1001,
            ErrorKind::MalformedDocument => 3001,
            ErrorKind::UnsupportedVersion => 3002,
            ErrorKind::UnsupportedAlgorithm => 3003,
            ErrorKind::UnsupportedSignatureFormat => 3004,
            ErrorKind::InvalidTimeWindow => 3005,
            ErrorKind::IllegalCharacterInField => 3006,
            ErrorKind::MalformedKey => 1010,
            ErrorKind::MalformedSignature => 4001,
            ErrorKind::EncodingFailure => 5001,
        }
    }

    /// The numeric code, one per variant and all distinct.
    pub open spec fn spec_code(&self) -> i32 {
        match self {
            ErrorKind::InvalidInput => 1001,
            ErrorKind::MalformedDocument => 3001,
            ErrorKind::UnsupportedVersion => 3002,
            ErrorKind::UnsupportedAlgorithm => 3003,
            ErrorKind::UnsupportedSignatureFormat => 3004,
            ErrorKind::InvalidTimeWindow => 3005,
            ErrorKind::IllegalCharacterInField => 3006,
            ErrorKind::MalformedKey => 1010,
            ErrorKind::MalformedSignature => 4001,
            ErrorKind::EncodingFailure => 5001,
        }
    }
}

} // verus!
