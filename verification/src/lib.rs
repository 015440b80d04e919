//! Protocol layer for elliptic-curve Diffie-Hellman key agreement and ECDSA
//! signature verification over the NIST P-256 and P-384 curves.
//!
//! This crate covers the untrusted-input boundary around the curve
//! arithmetic: decoding SEC1 uncompressed public-key points, decoding DER
//! `Ecdsa-Sig-Value` signatures, binding curve and digest parameters, and
//! orchestrating the agreement and verification operations. The modular and
//! group arithmetic itself is delegated to an external curve engine, reached
//! only through narrow trusted wrappers.

pub mod alg;
pub mod der;
pub mod ecdh;
pub mod ecdsa;
pub mod engine;
pub mod errors;
pub mod num;
pub mod point;
