//! The ways in which key handling, signing and verification fail.
use vstd::prelude::*;

verus! {

/// Every failure the library reports. The last five are the reasons for which
/// an inbound request is rejected.
#[derive(Clone, Copy, Debug, PartialEq, Eq, Structural)]
pub enum Error {
    /// No key pair could be produced: the size is out of range or the
    /// randomness source failed.
    KeyGenerationError,
    /// A stored key is not in the expected encoding.
    KeyFormatError,
    /// The private key could not produce a signature.
    SigningError,
    /// The `Signature` header lacks a required field, names a component the
    /// request does not carry, or holds an invalid base64 payload.
    MalformedSignatureHeader,
    /// The key that the header names could not be obtained or read.
    KeyResolutionError,
    /// The signature does not match the canonical string under the resolved key.
    SignatureMismatch,
    /// The digest header does not match the received body.
    DigestMismatch,
    /// The date header is unreadable or outside the accepted clock-skew window.
    StaleTimestamp,
}

impl Error {
    /// The name of the failure, for logs.
    pub fn name(&self) -> (r: &'static str)
        ensures
            r@ == error_name(*self),
    {
        match self {
            Error::KeyGenerationError => "KeyGenerationError",
            Error::KeyFormatError => "KeyFormatError",
            Error::SigningError => "SigningError",
            Error::MalformedSignatureHeader => "MalformedSignatureHeader",
            Error::KeyResolutionError => "KeyResolutionError",
            Error::SignatureMismatch => "SignatureMismatch",
            Error::DigestMismatch => "DigestMismatch",
            Error::StaleTimestamp => "StaleTimestamp",
        }
    }

    /// Whether the failure is one of the reasons for rejecting an inbound request.
    pub fn is_rejection(&self) -> (r: bool)
        ensures
            r == is_rejection_kind(*self),
    {
        match self {
            Error::KeyGenerationError | Error::KeyFormatError | Error::SigningError => false,
            _ => true,
        }
    }
}

/// The text that names each failure.
pub open spec fn error_name(e: Error) -> Seq<char> {
    match e {
        Error::KeyGenerationError => "KeyGenerationError"@,
        Error::KeyFormatError => "KeyFormatError"@,
        Error::SigningError => "SigningError"@,
        Error::MalformedSignatureHeader => "MalformedSignatureHeader"@,
        Error::KeyResolutionError => "KeyResolutionError"@,
        Error::SignatureMismatch => "SignatureMismatch"@,
        Error::DigestMismatch => "DigestMismatch"@,
        Error::StaleTimestamp => "StaleTimestamp"@,
    }
}

/// The failures that are verdicts on an inbound request.
pub open spec fn is_rejection_kind(e: Error) -> bool {
    e == Error::MalformedSignatureHeader || e == Error::KeyResolutionError || e
        == Error::SignatureMismatch || e == Error::DigestMismatch || e == Error::StaleTimestamp
}

} // verus!
