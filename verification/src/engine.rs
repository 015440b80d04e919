//! The boundary with the external collaborators: the curve-arithmetic engine
//! and the message-digest algorithms. Each call crosses through one trusted
//! wrapper whose contract names what the collaborator returns; everything on
//! this side of the boundary is verified against those names.

use vstd::prelude::*;

use p256::ecdsa::signature::hazmat::PrehashVerifier;
use sha2::Digest;

use crate::alg::Curve;
use crate::alg::DigestAlg;

verus! {

/// The SHA-1 digest of a message: a function of the message alone.
pub uninterp spec fn sha1_digest_of(msg: Seq<u8>) -> Seq<u8>;

/// The SHA-256 digest of a message: a function of the message alone.
pub uninterp spec fn sha256_digest_of(msg: Seq<u8>) -> Seq<u8>;

/// The SHA-384 digest of a message: a function of the message alone.
pub uninterp spec fn sha384_digest_of(msg: Seq<u8>) -> Seq<u8>;

/// The SHA-512 digest of a message: a function of the message alone.
pub uninterp spec fn sha512_digest_of(msg: Seq<u8>) -> Seq<u8>;

/// What the P-256 engine returns for a private scalar and a SEC1-encoded
/// peer point: the x-coordinate of the computed product when the scalar is
/// in range and the point is on the curve and not the identity, and nothing
/// otherwise. A function of the two byte strings alone.
pub uninterp spec fn p256_agreed_secret(private_key: Seq<u8>, peer_sec1: Seq<u8>) -> Option<
    Seq<u8>,
>;

/// What the P-384 engine returns for a private scalar and a SEC1-encoded
/// peer point; a function of the two byte strings alone.
pub uninterp spec fn p384_agreed_secret(private_key: Seq<u8>, peer_sec1: Seq<u8>) -> Option<
    Seq<u8>,
>;

/// Whether the P-256 engine accepts `(r, s)` as a signature over `digest`
/// under the SEC1-encoded public key, including its own range, on-curve and
/// equation checks. A function of the four byte strings alone.
pub uninterp spec fn p256_signature_valid(
    digest: Seq<u8>,
    r: Seq<u8>,
    s: Seq<u8>,
    key_sec1: Seq<u8>,
) -> bool;

/// Whether the P-384 engine accepts `(r, s)` as a signature over `digest`
/// under the SEC1-encoded public key; a function of the four byte strings
/// alone.
pub uninterp spec fn p384_signature_valid(
    digest: Seq<u8>,
    r: Seq<u8>,
    s: Seq<u8>,
    key_sec1: Seq<u8>,
) -> bool;

/// The digest a given algorithm assigns to a message.
pub open spec fn spec_digest(alg: DigestAlg, msg: Seq<u8>) -> Seq<u8> {
    match alg {
        DigestAlg::Sha1 => sha1_digest_of(msg),
        DigestAlg::Sha256 => sha256_digest_of(msg),
        DigestAlg::Sha384 => sha384_digest_of(msg),
        DigestAlg::Sha512 => sha512_digest_of(msg),
    }
}

/// The byte length of a digest.
pub open spec fn spec_digest_len(alg: DigestAlg) -> nat {
    match alg {
        DigestAlg::Sha1 => 20,
        DigestAlg::Sha256 => 32,
        DigestAlg::Sha384 => 48,
        DigestAlg::Sha512 => 64,
    }
}

/// What the engine of a given curve returns for an agreement.
pub open spec fn spec_agreed_secret(curve: Curve, private_key: Seq<u8>, peer_sec1: Seq<u8>) -> Option<
    Seq<u8>,
> {
    match curve {
        Curve::P256 => p256_agreed_secret(private_key, peer_sec1),
        Curve::P384 => p384_agreed_secret(private_key, peer_sec1),
    }
}

/// Whether the engine of a given curve accepts a signature.
pub open spec fn spec_signature_valid(
    curve: Curve,
    digest: Seq<u8>,
    r: Seq<u8>,
    s: Seq<u8>,
    key_sec1: Seq<u8>,
) -> bool {
    match curve {
        Curve::P256 => p256_signature_valid(digest, r, s, key_sec1),
        Curve::P384 => p384_signature_valid(digest, r, s, key_sec1),
    }
}

/// Relies on sha1::Sha1 through the one-shot `Digest::digest`: the 20-byte
/// SHA-1 hash of the message, a function of the message alone.
#[verifier::external_body]
fn sha1_digest(msg: &Vec<u8>) -> (d: Vec<u8>)
    ensures
        d@ == sha1_digest_of(msg@),
        d@.len() == 20,
{
    sha1::Sha1::digest(msg.as_slice()).as_slice().to_vec()
}

/// Relies on sha2::Sha256 through the one-shot `Digest::digest`: the 32-byte
/// SHA-256 hash of the message, a function of the message alone.
#[verifier::external_body]
fn sha256_digest(msg: &Vec<u8>) -> (d: Vec<u8>)
    ensures
        d@ == sha256_digest_of(msg@),
        d@.len() == 32,
{
    sha2::Sha256::digest(msg.as_slice()).as_slice().to_vec()
}

/// Relies on sha2::Sha384 through the one-shot `Digest::digest`: the 48-byte
/// SHA-384 hash of the message, a function of the message alone.
#[verifier::external_body]
fn sha384_digest(msg: &Vec<u8>) -> (d: Vec<u8>)
    ensures
        d@ == sha384_digest_of(msg@),
        d@.len() == 48,
{
    sha2::Sha384::digest(msg.as_slice()).as_slice().to_vec()
}

/// Relies on sha2::Sha512 through the one-shot `Digest::digest`: the 64-byte
/// SHA-512 hash of the message, a function of the message alone.
#[verifier::external_body]
fn sha512_digest(msg: &Vec<u8>) -> (d: Vec<u8>)
    ensures
        d@ == sha512_digest_of(msg@),
        d@.len() == 64,
{
    sha2::Sha512::digest(msg.as_slice()).as_slice().to_vec()
}

/// Compute the digest a verification algorithm prescribes.
pub fn digest(alg: DigestAlg, msg: &Vec<u8>) -> (d: Vec<u8>)
    ensures
        d@ == spec_digest(alg, msg@),
        d@.len() == spec_digest_len(alg),
{
    match alg {
        DigestAlg::Sha1 => sha1_digest(msg),
        DigestAlg::Sha256 => sha256_digest(msg),
        DigestAlg::Sha384 => sha384_digest(msg),
        DigestAlg::Sha512 => sha512_digest(msg),
    }
}

/// Relies on p256::NonZeroScalar::try_from (rejects a scalar of the wrong
/// width, zero, or at least the group order), p256::PublicKey::from_sec1_bytes
/// (SEC1 decode with on-curve and non-identity validation) and
/// p256::ecdh::diffie_hellman (the scalar multiplication): on success the
/// 32-byte x-coordinate of the product. Deterministic in its arguments.
#[verifier::external_body]
fn p256_agree(private_key: &Vec<u8>, peer_sec1: &Vec<u8>) -> (r: Option<Vec<u8>>)
    ensures
        match r {
            Some(secret) => p256_agreed_secret(private_key@, peer_sec1@) == Some(secret@)
                && secret@.len() == 32,
            None => p256_agreed_secret(private_key@, peer_sec1@) is None,
        },
{
    let scalar = match p256::NonZeroScalar::try_from(private_key.as_slice()) {
        Ok(s) => s,
        Err(_) => return None,
    };
    let public = match p256::PublicKey::from_sec1_bytes(peer_sec1.as_slice()) {
        Ok(p) => p,
        Err(_) => return None,
    };
    let shared = p256::ecdh::diffie_hellman(scalar, public.as_affine());
    Some(shared.raw_secret_bytes().as_slice().to_vec())
}

/// Relies on p384::NonZeroScalar::try_from, p384::PublicKey::from_sec1_bytes
/// and p384::ecdh::diffie_hellman, as the P-256 wrapper does: on success the
/// 48-byte x-coordinate of the product. Deterministic in its arguments.
#[verifier::external_body]
fn p384_agree(private_key: &Vec<u8>, peer_sec1: &Vec<u8>) -> (r: Option<Vec<u8>>)
    ensures
        match r {
            Some(secret) => p384_agreed_secret(private_key@, peer_sec1@) == Some(secret@)
                && secret@.len() == 48,
            None => p384_agreed_secret(private_key@, peer_sec1@) is None,
        },
{
    let scalar = match p384::NonZeroScalar::try_from(private_key.as_slice()) {
        Ok(s) => s,
        Err(_) => return None,
    };
    let public = match p384::PublicKey::from_sec1_bytes(peer_sec1.as_slice()) {
        Ok(p) => p,
        Err(_) => return None,
    };
    let shared = p384::ecdh::diffie_hellman(scalar, public.as_affine());
    Some(shared.raw_secret_bytes().as_slice().to_vec())
}

/// Run the curve engine's scalar multiplication for one agreement: the
/// shared-secret x-coordinate, of exactly the curve's element width, or
/// nothing when the engine rejects the scalar or the peer point.
pub fn agree_engine(curve: Curve, private_key: &Vec<u8>, peer_sec1: &Vec<u8>) -> (r: Option<
    Vec<u8>,
>)
    ensures
        match r {
            Some(secret) => spec_agreed_secret(curve, private_key@, peer_sec1@) == Some(secret@)
                && secret@.len() == curve.spec_elem_and_scalar_len(),
            None => spec_agreed_secret(curve, private_key@, peer_sec1@) is None,
        },
{
    match curve {
        Curve::P256 => p256_agree(private_key, peer_sec1),
        Curve::P384 => p384_agree(private_key, peer_sec1),
    }
}

/// Relies on p256::ecdsa::VerifyingKey::from_sec1_bytes (SEC1 decode with
/// on-curve and non-identity validation), p256::ecdsa::Signature::from_scalars
/// (rejects `r` or `s` of zero or at least the group order) and
/// `PrehashVerifier::verify_prehash` (the ECDSA verification equation over
/// the prehash). Deterministic in its arguments.
#[verifier::external_body]
fn p256_verify(digest: &Vec<u8>, r: &Vec<u8>, s: &Vec<u8>, key_sec1: &Vec<u8>) -> (ok: bool)
    requires
        r@.len() == 32,
        s@.len() == 32,
    ensures
        ok == p256_signature_valid(digest@, r@, s@, key_sec1@),
{
    let key = match p256::ecdsa::VerifyingKey::from_sec1_bytes(key_sec1.as_slice()) {
        Ok(k) => k,
        Err(_) => return false,
    };
    let mut rb = p256::FieldBytes::default();
    rb.copy_from_slice(r.as_slice());
    let mut sb = p256::FieldBytes::default();
    sb.copy_from_slice(s.as_slice());
    let sig = match p256::ecdsa::Signature::from_scalars(rb, sb) {
        Ok(sig) => sig,
        Err(_) => return false,
    };
    key.verify_prehash(digest.as_slice(), &sig).is_ok()
}

/// Relies on p384::ecdsa::VerifyingKey::from_sec1_bytes,
/// p384::ecdsa::Signature::from_scalars and
/// `PrehashVerifier::verify_prehash`, as the P-256 wrapper does.
/// Deterministic in its arguments.
#[verifier::external_body]
fn p384_verify(digest: &Vec<u8>, r: &Vec<u8>, s: &Vec<u8>, key_sec1: &Vec<u8>) -> (ok: bool)
    requires
        r@.len() == 48,
        s@.len() == 48,
    ensures
        ok == p384_signature_valid(digest@, r@, s@, key_sec1@),
{
    let key = match p384::ecdsa::VerifyingKey::from_sec1_bytes(key_sec1.as_slice()) {
        Ok(k) => k,
        Err(_) => return false,
    };
    let mut rb = p384::FieldBytes::default();
    rb.copy_from_slice(r.as_slice());
    let mut sb = p384::FieldBytes::default();
    sb.copy_from_slice(s.as_slice());
    let sig = match p384::ecdsa::Signature::from_scalars(rb, sb) {
        Ok(sig) => sig,
        Err(_) => return false,
    };
    key.verify_prehash(digest.as_slice(), &sig).is_ok()
}

/// Run the curve engine's full ECDSA verification over a prehash and
/// fixed-width scalar components.
pub fn verify_engine(
    curve: Curve,
    digest: &Vec<u8>,
    r: &Vec<u8>,
    s: &Vec<u8>,
    key_sec1: &Vec<u8>,
) -> (ok: bool)
    requires
        r@.len() == curve.spec_elem_and_scalar_len(),
        s@.len() == curve.spec_elem_and_scalar_len(),
    ensures
        ok == spec_signature_valid(curve, digest@, r@, s@, key_sec1@),
{
    match curve {
        Curve::P256 => p256_verify(digest, r, s, key_sec1),
        Curve::P384 => p384_verify(digest, r, s, key_sec1),
    }
}

} // verus!
