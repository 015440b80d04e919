//! Tests for ECDH private-key generation and key agreement, run against the
//! real curve engine.

use suite_b::alg::AgreementAlgorithm;
use suite_b::alg::Curve;
use suite_b::ecdh::EphemeralPrivateKey;
use suite_b::ecdh::SecureRandom;
use suite_b::ecdh::agree;
use suite_b::errors::AgreementError;

struct FixedByteRandom {
    byte: u8,
}

impl SecureRandom for FixedByteRandom {
    fn fill(&self, dest: &mut Vec<u8>) -> Result<(), ()> {
        for d in dest.iter_mut() {
            *d = self.byte;
        }
        Ok(())
    }
}

struct FailingRandom;

impl SecureRandom for FailingRandom {
    fn fill(&self, _dest: &mut Vec<u8>) -> Result<(), ()> {
        Err(())
    }
}

fn supported_suite_b_algs() -> [AgreementAlgorithm; 2] {
    [
        AgreementAlgorithm { curve: Curve::P256 },
        AgreementAlgorithm { curve: Curve::P384 },
    ]
}

#[test]
fn test_agreement_suite_b_ecdh_generate() {
    // Generates a string of bytes 0x00...00, which will always result in
    // a scalar value of zero.
    let random_00 = FixedByteRandom { byte: 0 };

    // Generates a string of bytes 0xFF...FF, which will be larger than the
    // group order of any curve that is supported.
    let random_ff = FixedByteRandom { byte: 0xff };

    for alg in supported_suite_b_algs().iter() {
        // Test that the private key value zero is rejected and that
        // `generate` gives up after a while of only getting zeros.
        assert!(EphemeralPrivateKey::generate(alg, &random_00).is_err());

        // Test that the private key value larger than the group order is
        // rejected and that `generate` gives up after a while of only
        // getting values larger than the group order.
        assert!(EphemeralPrivateKey::generate(alg, &random_ff).is_err());
    }
}

#[test]
fn test_generate_failing_source_fails() {
    for alg in supported_suite_b_algs().iter() {
        assert!(EphemeralPrivateKey::generate(alg, &FailingRandom).is_err());
    }
}

#[test]
fn test_generate_in_range_scalar_succeeds() {
    for alg in supported_suite_b_algs().iter() {
        assert!(EphemeralPrivateKey::generate(alg, &FixedByteRandom { byte: 1 }).is_ok());
    }
}

fn p256_public_of(scalar: &[u8]) -> Vec<u8> {
    let key = p256::ecdsa::SigningKey::from_slice(scalar).unwrap();
    key.verifying_key().to_sec1_point(false).as_ref().to_vec()
}

fn p384_public_of(scalar: &[u8]) -> Vec<u8> {
    let key = p384::ecdsa::SigningKey::from_slice(scalar).unwrap();
    key.verifying_key().to_sec1_point(false).as_ref().to_vec()
}

#[test]
fn test_agree_p256_both_sides_same_secret() {
    let alg = AgreementAlgorithm { curve: Curve::P256 };
    let alice = EphemeralPrivateKey::generate(&alg, &FixedByteRandom { byte: 1 }).unwrap();
    let bob = EphemeralPrivateKey::generate(&alg, &FixedByteRandom { byte: 2 }).unwrap();
    let alice_public = p256_public_of(&[1u8; 32]);
    let bob_public = p256_public_of(&[2u8; 32]);
    let alice_secret = agree(&alg, &alice, &bob_public).unwrap();
    let bob_secret = agree(&alg, &bob, &alice_public).unwrap();
    assert_eq!(alice_secret, bob_secret);
    assert_eq!(alice_secret.len(), 32);
    // A shared secret is not either party's scalar handed back.
    assert_ne!(alice_secret, vec![1u8; 32]);
    assert_ne!(alice_secret, vec![2u8; 32]);
}

#[test]
fn test_agree_p384_both_sides_same_secret() {
    let alg = AgreementAlgorithm { curve: Curve::P384 };
    let alice = EphemeralPrivateKey::generate(&alg, &FixedByteRandom { byte: 1 }).unwrap();
    let bob = EphemeralPrivateKey::generate(&alg, &FixedByteRandom { byte: 2 }).unwrap();
    let alice_public = p384_public_of(&[1u8; 48]);
    let bob_public = p384_public_of(&[2u8; 48]);
    let alice_secret = agree(&alg, &alice, &bob_public).unwrap();
    let bob_secret = agree(&alg, &bob, &alice_public).unwrap();
    assert_eq!(alice_secret, bob_secret);
    assert_eq!(alice_secret.len(), 48);
}

#[test]
fn test_agree_deterministic_repeated_calls() {
    for alg in supported_suite_b_algs().iter() {
        let key = EphemeralPrivateKey::generate(alg, &FixedByteRandom { byte: 3 }).unwrap();
        let peer = match alg.curve {
            Curve::P256 => p256_public_of(&[5u8; 32]),
            Curve::P384 => p384_public_of(&[5u8; 48]),
        };
        let first = agree(alg, &key, &peer).unwrap();
        let second = agree(alg, &key, &peer).unwrap();
        assert_eq!(first, second);
    }
}

#[test]
fn test_agree_rejects_malformed_peer_key() {
    let alg = AgreementAlgorithm { curve: Curve::P256 };
    let key = EphemeralPrivateKey::generate(&alg, &FixedByteRandom { byte: 1 }).unwrap();
    // Wrong length.
    let short = vec![0x04u8; 64];
    assert_eq!(agree(&alg, &key, &short), Err(AgreementError::InvalidPeerKey));
    // Wrong tag.
    let tagged = vec![0x05u8; 65];
    assert_eq!(agree(&alg, &key, &tagged), Err(AgreementError::InvalidPeerKey));
}

#[test]
fn test_agree_rejects_point_off_curve() {
    let alg = AgreementAlgorithm { curve: Curve::P256 };
    let key = EphemeralPrivateKey::generate(&alg, &FixedByteRandom { byte: 1 }).unwrap();
    // (0, 0) is well-formed but not on P-256, whose equation has b != 0.
    let origin = vec![0x04u8; 1]
        .into_iter()
        .chain(std::iter::repeat(0u8).take(64))
        .collect::<Vec<u8>>();
    assert_eq!(agree(&alg, &key, &origin), Err(AgreementError::Failed));
}

#[test]
fn test_descriptor_parameters() {
    assert_eq!(Curve::P256.bits(), 256);
    assert_eq!(Curve::P384.bits(), 384);
    assert_eq!(Curve::P256.elem_and_scalar_len(), 32);
    assert_eq!(Curve::P384.elem_and_scalar_len(), 48);
    assert_eq!(Curve::P256.public_key_len(), 65);
    assert_eq!(Curve::P384.public_key_len(), 97);
    let p256_order = Curve::P256.order_bytes();
    assert_eq!(p256_order.len(), 32);
    assert_eq!(p256_order[0], 0xff);
    assert_eq!(p256_order[31], 0x51);
    let p384_order = Curve::P384.order_bytes();
    assert_eq!(p384_order.len(), 48);
    assert_eq!(p384_order[47], 0x73);
}
