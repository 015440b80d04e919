//! Tests for ECDSA verification, run against the real curve engine with
//! signatures produced by the engine's own signing side.

use p256::ecdsa::signature::hazmat::PrehashSigner;
use sha1::Digest;

use suite_b::alg::Curve;
use suite_b::alg::DigestAlg;
use suite_b::alg::VerificationAlgorithm;
use suite_b::ecdsa::verify;
use suite_b::errors::VerifyError;

fn digest_of(alg: DigestAlg, msg: &[u8]) -> Vec<u8> {
    match alg {
        DigestAlg::Sha1 => sha1::Sha1::digest(msg).as_slice().to_vec(),
        DigestAlg::Sha256 => sha2::Sha256::digest(msg).as_slice().to_vec(),
        DigestAlg::Sha384 => sha2::Sha384::digest(msg).as_slice().to_vec(),
        DigestAlg::Sha512 => sha2::Sha512::digest(msg).as_slice().to_vec(),
    }
}

/// A known-good `(public_key, message, signature)` triple for one algorithm,
/// produced by the engine's deterministic (RFC 6979) signing side.
fn known_good(curve: Curve, digest_alg: DigestAlg, msg: &[u8]) -> (Vec<u8>, Vec<u8>) {
    let prehash = digest_of(digest_alg, msg);
    match curve {
        Curve::P256 => {
            let key = p256::ecdsa::SigningKey::from_slice(&[7u8; 32]).unwrap();
            let sig: p256::ecdsa::Signature = key.sign_prehash(&prehash).unwrap();
            let public = key.verifying_key().to_sec1_point(false).as_ref().to_vec();
            (public, sig.to_der().as_ref().to_vec())
        }
        Curve::P384 => {
            let key = p384::ecdsa::SigningKey::from_slice(&[7u8; 48]).unwrap();
            let sig: p384::ecdsa::Signature = key.sign_prehash(&prehash).unwrap();
            let public = key.verifying_key().to_sec1_point(false).as_ref().to_vec();
            (public, sig.to_der().as_ref().to_vec())
        }
    }
}

fn all_algs() -> [VerificationAlgorithm; 8] {
    [
    VerificationAlgorithm { curve: Curve::P256, digest_alg: DigestAlg::Sha1 },
    VerificationAlgorithm { curve: Curve::P256, digest_alg: DigestAlg::Sha256 },
    VerificationAlgorithm { curve: Curve::P256, digest_alg: DigestAlg::Sha384 },
    VerificationAlgorithm { curve: Curve::P256, digest_alg: DigestAlg::Sha512 },
    VerificationAlgorithm { curve: Curve::P384, digest_alg: DigestAlg::Sha1 },
    VerificationAlgorithm { curve: Curve::P384, digest_alg: DigestAlg::Sha256 },
    VerificationAlgorithm { curve: Curve::P384, digest_alg: DigestAlg::Sha384 },
    VerificationAlgorithm { curve: Curve::P384, digest_alg: DigestAlg::Sha512 },
    ]
}

#[test]
fn test_signature_ecdsa_verify() {
    let msg = b"Suite B message".to_vec();
    for alg in all_algs().iter() {
        let (public_key, signature) = known_good(alg.curve, alg.digest_alg, &msg);

        let actual_result = verify(alg, &public_key, &msg, &signature);
        assert_eq!(actual_result, Ok(()));

        // Any corruption of the signature value must fail verification.
        let mut tampered = signature.clone();
        let last = tampered.len() - 1;
        tampered[last] ^= 0x01;
        assert!(verify(alg, &public_key, &msg, &tampered).is_err());
    }
}

#[test]
fn test_p256_sha256_known_good_and_bit_flip() {
    let msg = b"sample".to_vec();
    let alg = VerificationAlgorithm { curve: Curve::P256, digest_alg: DigestAlg::Sha256 };
    let (public_key, signature) = known_good(Curve::P256, DigestAlg::Sha256, &msg);
    assert_eq!(verify(&alg, &public_key, &msg, &signature), Ok(()));

    // Flipping one bit in `s` keeps the DER structure but must make the
    // cryptographic check fail.
    let mut flipped = signature.clone();
    let last = flipped.len() - 1;
    flipped[last] ^= 0x01;
    assert_eq!(verify(&alg, &public_key, &msg, &flipped), Err(VerifyError::SignatureInvalid));
}

#[test]
fn test_verify_rejects_wrong_message() {
    let alg = VerificationAlgorithm { curve: Curve::P256, digest_alg: DigestAlg::Sha256 };
    let msg = b"signed message".to_vec();
    let other = b"another message".to_vec();
    let (public_key, signature) = known_good(Curve::P256, DigestAlg::Sha256, &msg);
    assert_eq!(verify(&alg, &public_key, &other, &signature), Err(VerifyError::SignatureInvalid));
}

#[test]
fn test_verify_rejects_malformed_signature() {
    let alg = VerificationAlgorithm { curve: Curve::P256, digest_alg: DigestAlg::Sha256 };
    let msg = b"msg".to_vec();
    let (public_key, signature) = known_good(Curve::P256, DigestAlg::Sha256, &msg);

    // Truncated DER.
    let truncated = signature[..signature.len() - 1].to_vec();
    assert_eq!(verify(&alg, &public_key, &msg, &truncated), Err(VerifyError::MalformedSignature));

    // A non-minimal integer encoding inside an otherwise plausible sequence.
    let nonminimal = vec![0x30u8, 0x08, 0x02, 0x02, 0x00, 0x01, 0x02, 0x02, 0x00, 0x01];
    assert_eq!(verify(&alg, &public_key, &msg, &nonminimal), Err(VerifyError::MalformedSignature));
}

#[test]
fn test_verify_rejects_invalid_public_key() {
    let alg = VerificationAlgorithm { curve: Curve::P256, digest_alg: DigestAlg::Sha256 };
    let msg = b"msg".to_vec();
    let (_, signature) = known_good(Curve::P256, DigestAlg::Sha256, &msg);

    // Wrong length for P-256.
    let short = vec![0x04u8; 64];
    assert_eq!(verify(&alg, &short, &msg, &signature), Err(VerifyError::InvalidPublicKey));
    // Wrong tag.
    let tagged = vec![0x05u8; 65];
    assert_eq!(verify(&alg, &tagged, &msg, &signature), Err(VerifyError::InvalidPublicKey));
}

#[test]
fn test_verify_wrong_curve_key_rejected() {
    // A P-384 key under a P-256 descriptor has the wrong length and is a
    // public-key error, not a crash.
    let alg = VerificationAlgorithm { curve: Curve::P256, digest_alg: DigestAlg::Sha256 };
    let msg = b"msg".to_vec();
    let (p384_key, _) = known_good(Curve::P384, DigestAlg::Sha256, &msg);
    let (_, signature) = known_good(Curve::P256, DigestAlg::Sha256, &msg);
    assert_eq!(verify(&alg, &p384_key, &msg, &signature), Err(VerifyError::InvalidPublicKey));
}
