//! Algorithm descriptors: the curve and digest parameter bundles that select
//! one agreement or verification operation.

use vstd::prelude::*;

verus! {

/// A supported Suite B curve.
#[derive(Clone, Copy, Debug, PartialEq, Eq)]
pub enum Curve {
    /// NIST P-256 (secp256r1).
    P256,
    /// NIST P-384 (secp384r1).
    P384,
}

/// A supported message-digest algorithm for ECDSA verification.
#[derive(Clone, Copy, Debug, PartialEq, Eq)]
pub enum DigestAlg {
    Sha1,
    Sha256,
    Sha384,
    Sha512,
}

impl Curve {
    /// The curve's bit length.
    pub open spec fn spec_bits(self) -> nat {
        match self {
            Curve::P256 => 256,
            Curve::P384 => 384,
        }
    }

    /// The byte length of one field element or scalar: `ceil(bits / 8)`.
    pub open spec fn spec_elem_and_scalar_len(self) -> nat {
        (self.spec_bits() + 7) / 8
    }

    /// The byte length of an encoded uncompressed public key.
    pub open spec fn spec_public_key_len(self) -> nat {
        1 + 2 * self.spec_elem_and_scalar_len()
    }

    /// The curve's group order as big-endian bytes, `elem_and_scalar_len`
    /// of them; valid private scalars lie in `[1, order - 1]`.
    pub open spec fn spec_order(self) -> Seq<u8> {
        match self {
            Curve::P256 => seq![
                0xffu8, 0xff, 0xff, 0xff, 0x00, 0x00, 0x00, 0x00,
                0xff, 0xff, 0xff, 0xff, 0xff, 0xff, 0xff, 0xff,
                0xbc, 0xe6, 0xfa, 0xad, 0xa7, 0x17, 0x9e, 0x84,
                0xf3, 0xb9, 0xca, 0xc2, 0xfc, 0x63, 0x25, 0x51,
            ],
            Curve::P384 => seq![
                0xffu8, 0xff, 0xff, 0xff, 0xff, 0xff, 0xff, 0xff,
                0xff, 0xff, 0xff, 0xff, 0xff, 0xff, 0xff, 0xff,
                0xff, 0xff, 0xff, 0xff, 0xff, 0xff, 0xff, 0xff,
                0xc7, 0x63, 0x4d, 0x81, 0xf4, 0x37, 0x2d, 0xdf,
                0x58, 0x1a, 0x0d, 0xb2, 0x48, 0xb0, 0xa7, 0x7a,
                0xec, 0xec, 0x19, 0x6a, 0xcc, 0xc5, 0x29, 0x73,
            ],
        }
    }

    /// The curve's bit length.
    pub fn bits(self) -> (b: u32)
        ensures
            b == self.spec_bits(),
    {
        match self {
            Curve::P256 => 256,
            Curve::P384 => 384,
        }
    }

    /// The byte length of one field element or scalar.
    pub fn elem_and_scalar_len(self) -> (n: usize)
        ensures
            n == self.spec_elem_and_scalar_len(),
    {
        match self {
            Curve::P256 => 32,
            Curve::P384 => 48,
        }
    }

    /// The byte length of an encoded uncompressed public key.
    pub fn public_key_len(self) -> (n: usize)
        ensures
            n == self.spec_public_key_len(),
    {
        match self {
            Curve::P256 => 65,
            Curve::P384 => 97,
        }
    }

    /// The curve's group order as big-endian bytes.
    pub fn order_bytes(self) -> (o: Vec<u8>)
        ensures
            o@ == self.spec_order(),
    {
        let o: Vec<u8> = match self {
            Curve::P256 => vec![
                0xffu8, 0xff, 0xff, 0xff, 0x00, 0x00, 0x00, 0x00,
                0xff, 0xff, 0xff, 0xff, 0xff, 0xff, 0xff, 0xff,
                0xbc, 0xe6, 0xfa, 0xad, 0xa7, 0x17, 0x9e, 0x84,
                0xf3, 0xb9, 0xca, 0xc2, 0xfc, 0x63, 0x25, 0x51,
            ],
            Curve::P384 => vec![
                0xffu8, 0xff, 0xff, 0xff, 0xff, 0xff, 0xff, 0xff,
                0xff, 0xff, 0xff, 0xff, 0xff, 0xff, 0xff, 0xff,
                0xff, 0xff, 0xff, 0xff, 0xff, 0xff, 0xff, 0xff,
                0xc7, 0x63, 0x4d, 0x81, 0xf4, 0x37, 0x2d, 0xdf,
                0x58, 0x1a, 0x0d, 0xb2, 0x48, 0xb0, 0xa7, 0x7a,
                0xec, 0xec, 0x19, 0x6a, 0xcc, 0xc5, 0x29, 0x73,
            ],
        };
        proof {
            assert(o@ =~= self.spec_order());
        }
        o
    }
}

/// The order has one byte per field element, so a freshly generated scalar
/// buffer can be compared against it directly.
pub proof fn lemma_order_len(c: Curve)
    ensures
        c.spec_order().len() == c.spec_elem_and_scalar_len(),
{
    match c {
        Curve::P256 => {},
        Curve::P384 => {},
    }
}

/// Parameters of one ECDH key-agreement operation.
#[derive(Clone, Copy, Debug, PartialEq, Eq)]
pub struct AgreementAlgorithm {
    /// The curve the agreement runs over.
    pub curve: Curve,
}

/// Parameters of one ECDSA verification operation: a curve paired with the
/// digest that was applied to the message.
#[derive(Clone, Copy, Debug, PartialEq, Eq)]
pub struct VerificationAlgorithm {
    /// The curve the public key and signature belong to.
    pub curve: Curve,
    /// The digest algorithm applied to the message before verification.
    pub digest_alg: DigestAlg,
}

} // verus!
