//! ECDSA signature verification: digest, decode, normalize, and hand the
//! curve engine the verification.

use vstd::prelude::*;

use crate::alg::Curve;
use crate::alg::DigestAlg;
use crate::alg::VerificationAlgorithm;
use crate::der::decode_der_signature;
use crate::der::spec_decode_der_signature;
use crate::engine::digest;
use crate::engine::spec_digest;
use crate::engine::spec_signature_valid;
use crate::engine::verify_engine;
use crate::errors::VerifyError;
use crate::num::fixed_width;
use crate::num::spec_fixed_width;
use crate::point::decode_uncompressed_point;
use crate::point::spec_decode_uncompressed_point;

verus! {

/// The outcome signature verification owes for given inputs. A signature
/// that is not a well-formed DER `Ecdsa-Sig-Value` is the malformed-signature
/// error; a public key that is not a well-formed uncompressed point is the
/// invalid-public-key error; otherwise the engine decides over the message's
/// digest, the two signature components brought to the curve's element width,
/// and the public key. A component too wide for the element width is out of
/// range, which collapses — like every other cryptographic-content failure —
/// into the one invalid-signature error.
pub open spec fn spec_verify(
    curve: Curve,
    digest_alg: DigestAlg,
    public_key: Seq<u8>,
    msg: Seq<u8>,
    signature: Seq<u8>,
) -> Result<(), VerifyError> {
    match spec_decode_der_signature(signature) {
        Err(_) => Err(VerifyError::MalformedSignature),
        Ok((r, s)) => match spec_decode_uncompressed_point(
            public_key,
            curve.spec_elem_and_scalar_len(),
        ) {
            Err(_) => Err(VerifyError::InvalidPublicKey),
            Ok(_) => match (
                spec_fixed_width(r, curve.spec_elem_and_scalar_len()),
                spec_fixed_width(s, curve.spec_elem_and_scalar_len()),
            ) {
                (Some(rw), Some(sw)) => {
                    if spec_signature_valid(
                        curve,
                        spec_digest(digest_alg, msg),
                        rw,
                        sw,
                        public_key,
                    ) {
                        Ok(())
                    } else {
                        Err(VerifyError::SignatureInvalid)
                    }
                },
                _ => Err(VerifyError::SignatureInvalid),
            },
        },
    }
}

/// Verify an ECDSA signature: compute the message digest, decode the DER
/// signature and the uncompressed public key, and invoke the curve engine,
/// which re-validates that `1 <= r, s < order` and that the point is on the
/// curve before checking the signature equation. All-or-nothing, stateless
/// across calls.
pub fn verify(
    alg: &VerificationAlgorithm,
    public_key: &Vec<u8>,
    msg: &Vec<u8>,
    signature: &Vec<u8>,
) -> (res: Result<(), VerifyError>)
    ensures
        res == spec_verify(alg.curve, alg.digest_alg, public_key@, msg@, signature@),
{
    let digest_bytes = digest(alg.digest_alg, msg);
    let (r, s) = match decode_der_signature(signature) {
        Ok(v) => v,
        Err(_) => {
            return Err(VerifyError::MalformedSignature);
        },
    };
    let n = alg.curve.elem_and_scalar_len();
    match decode_uncompressed_point(public_key, n) {
        Ok(_) => {},
        Err(_) => {
            return Err(VerifyError::InvalidPublicKey);
        },
    }
    let rw = match fixed_width(&r, n) {
        Some(v) => v,
        None => {
            return Err(VerifyError::SignatureInvalid);
        },
    };
    let sw = match fixed_width(&s, n) {
        Some(v) => v,
        None => {
            return Err(VerifyError::SignatureInvalid);
        },
    };
    if verify_engine(alg.curve, &digest_bytes, &rw, &sw, public_key) {
        Ok(())
    } else {
        Err(VerifyError::SignatureInvalid)
    }
}

} // verus!
