//! Error taxonomy for the decoding and orchestration layers.

use vstd::prelude::*;

verus! {

/// Structural malformation of an encoded point or signature.
#[derive(Clone, Copy, Debug, PartialEq, Eq)]
pub enum DecodeError {
    /// The input does not have the length an encoded public key must have.
    InvalidLength,
    /// The input does not start with the uncompressed-point tag.
    InvalidEncoding,
    /// The input is not a well-formed DER `Ecdsa-Sig-Value`.
    MalformedSignature,
}

/// Failure of ECDH key agreement.
///
/// All failures inside the curve engine are collapsed into [`Failed`]
/// deliberately, so that a caller probing with malformed peer keys cannot
/// distinguish failure causes.
///
/// [`Failed`]: AgreementError::Failed
#[derive(Clone, Copy, Debug, PartialEq, Eq)]
pub enum AgreementError {
    /// The peer's public key is not a well-formed uncompressed point.
    InvalidPeerKey,
    /// The curve engine rejected the inputs or the computation failed.
    Failed,
}

/// Failure of ECDSA signature verification.
///
/// Cryptographic-content failures (signature mismatch, out-of-range `r` or
/// `s`, public-key point not on the curve) are all collapsed into
/// [`SignatureInvalid`], again to avoid a failure-cause oracle.
///
/// [`SignatureInvalid`]: VerifyError::SignatureInvalid
#[derive(Clone, Copy, Debug, PartialEq, Eq)]
pub enum VerifyError {
    /// The signature is not a well-formed DER `Ecdsa-Sig-Value`.
    MalformedSignature,
    /// The public key is not a well-formed uncompressed point.
    InvalidPublicKey,
    /// The curve engine did not accept the signature.
    SignatureInvalid,
}

} // verus!
