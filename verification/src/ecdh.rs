//! ECDH key agreement: private-key generation by rejection sampling and the
//! agreement orchestrator.

use vstd::prelude::*;

use crate::alg::AgreementAlgorithm;
use crate::alg::Curve;
use crate::alg::lemma_order_len;
use crate::engine::agree_engine;
use crate::engine::spec_agreed_secret;
use crate::errors::AgreementError;
use crate::num::be_bytes_lt;
use crate::num::be_bytes_nonzero;
use crate::num::be_val;
use crate::point::decode_uncompressed_point;
use crate::point::spec_decode_uncompressed_point;

verus! {

/// How many draws from the random source key generation makes before giving
/// up permanently.
pub const MAX_GENERATE_ATTEMPTS: usize = 100;

/// A source of secure random bytes, implemented by the library's users.
/// `fill` overwrites `dest` with random bytes and reports failure with
/// `Err`; nothing is assumed of what it writes.
pub trait SecureRandom {
    /// Fill `dest` with random bytes.
    fn fill(&self, dest: &mut Vec<u8>) -> Result<(), ()>;
}

/// Whether `scalar` is a valid private scalar for `curve`: exactly one
/// element wide and with a value in `[1, order - 1]`.
pub open spec fn spec_scalar_valid(curve: Curve, scalar: Seq<u8>) -> bool {
    &&& scalar.len() == curve.spec_elem_and_scalar_len()
    &&& 1 <= be_val(scalar)
    &&& be_val(scalar) < be_val(curve.spec_order())
}

/// Whether a candidate scalar buffer holds a value in `[1, order - 1]`.
fn scalar_in_range(scalar: &Vec<u8>, order: &Vec<u8>) -> (r: bool)
    requires
        scalar@.len() == order@.len(),
    ensures
        r == (1 <= be_val(scalar@) && be_val(scalar@) < be_val(order@)),
{
    be_bytes_nonzero(scalar) && be_bytes_lt(scalar, order)
}

/// An ephemeral ECDH private key: a fixed-width scalar for one curve, in
/// `[1, order - 1]`.
pub struct EphemeralPrivateKey {
    curve: Curve,
    bytes: Vec<u8>,
}

impl EphemeralPrivateKey {
    /// The curve the key belongs to.
    pub closed spec fn spec_curve(self) -> Curve {
        self.curve
    }

    /// The key's scalar bytes.
    pub closed spec fn spec_bytes(self) -> Seq<u8> {
        self.bytes@
    }

    /// Well-formedness: the scalar has the curve's element width and a value
    /// in `[1, order - 1]`.
    pub open spec fn wf(self) -> bool {
        spec_scalar_valid(self.spec_curve(), self.spec_bytes())
    }

    /// Generate a private key for `alg`'s curve by rejection sampling: draw
    /// `elem_and_scalar_len` bytes from `rng`, accept them only when they
    /// hold a scalar in `[1, order - 1]`, and give up permanently after a
    /// bounded number of draws or on a random-source failure.
    pub fn generate<R: SecureRandom>(alg: &AgreementAlgorithm, rng: &R) -> (r: Result<
        EphemeralPrivateKey,
        (),
    >)
        ensures
            match r {
                Ok(key) => key.wf() && key.spec_curve() == alg.curve,
                Err(()) => true,
            },
    {
        let n = alg.curve.elem_and_scalar_len();
        let order = alg.curve.order_bytes();
        proof {
            lemma_order_len(alg.curve);
        }
        let mut attempt: usize = 0;
        while attempt < MAX_GENERATE_ATTEMPTS
            invariant
                n == alg.curve.spec_elem_and_scalar_len(),
                order@ == alg.curve.spec_order(),
                order@.len() == n,
            decreases MAX_GENERATE_ATTEMPTS - attempt,
        {
            let mut candidate: Vec<u8> = vec![0u8; n];
            if rng.fill(&mut candidate).is_err() {
                return Err(());
            }
            if candidate.len() == n && scalar_in_range(&candidate, &order) {
                return Ok(EphemeralPrivateKey { curve: alg.curve, bytes: candidate });
            }
            attempt = attempt + 1;
        }
        Err(())
    }
}

/// The outcome key agreement owes for given inputs: a peer key that is not a
/// well-formed uncompressed point is the invalid-peer-key error; otherwise
/// the engine's answer decides, every engine-side failure collapsing into
/// the one agreement failure.
pub open spec fn spec_agree(curve: Curve, private_key: Seq<u8>, peer: Seq<u8>) -> Result<
    Seq<u8>,
    AgreementError,
> {
    match spec_decode_uncompressed_point(peer, curve.spec_elem_and_scalar_len()) {
        Err(_) => Err(AgreementError::InvalidPeerKey),
        Ok(_) => match spec_agreed_secret(curve, private_key, peer) {
            Some(secret) => Ok(secret),
            None => Err(AgreementError::Failed),
        },
    }
}

/// ECDH key agreement: validate the peer's uncompressed public key, hand the
/// private scalar and the validated encoding to the curve engine, and return
/// exactly `elem_and_scalar_len` bytes of shared secret — the x-coordinate
/// of the computed point, with no key derivation applied. Single attempt,
/// deterministic in the key pair.
pub fn agree(
    alg: &AgreementAlgorithm,
    my_private_key: &EphemeralPrivateKey,
    peer_public_key: &Vec<u8>,
) -> (r: Result<Vec<u8>, AgreementError>)
    requires
        my_private_key.wf(),
        my_private_key.spec_curve() == alg.curve,
    ensures
        match r {
            Ok(secret) => spec_agree(alg.curve, my_private_key.spec_bytes(), peer_public_key@)
                == Ok::<_, AgreementError>(secret@) && secret@.len()
                == alg.curve.spec_elem_and_scalar_len(),
            Err(e) => spec_agree(alg.curve, my_private_key.spec_bytes(), peer_public_key@)
                == Err::<Seq<u8>, _>(e),
        },
{
    let n = alg.curve.elem_and_scalar_len();
    match decode_uncompressed_point(peer_public_key, n) {
        Err(_) => Err(AgreementError::InvalidPeerKey),
        Ok(_) => match agree_engine(alg.curve, &my_private_key.bytes, peer_public_key) {
            Some(secret) => Ok(secret),
            None => Err(AgreementError::Failed),
        },
    }
}

/// Key agreement is deterministic: for one curve, one private key and one
/// peer public key, every outcome the agreement contract admits is the same
/// — repeated calls return the same shared secret or the same error.
pub proof fn lemma_agree_deterministic(
    curve: Curve,
    private_key: Seq<u8>,
    peer: Seq<u8>,
    r1: Result<Seq<u8>, AgreementError>,
    r2: Result<Seq<u8>, AgreementError>,
)
    requires
        r1 == spec_agree(curve, private_key, peer),
        r2 == spec_agree(curve, private_key, peer),
    ensures
        r1 == r2,
{
}

} // verus!
