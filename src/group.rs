//! The Ristretto group and its scalars, through curve25519-dalek.
//!
//! Points and scalars are opaque here: the set-membership protocols only
//! move them between group operations and byte encodings, and nothing is
//! assumed of what those operations compute.
use curve25519_dalek::ristretto::{CompressedRistretto, RistrettoPoint};
use curve25519_dalek::scalar::Scalar;
use subtle::ConstantTimeEq;
use vstd::prelude::*;

verus! {

#[verifier::external_type_specification]
#[verifier::external_body]
pub struct ExRistrettoPoint(RistrettoPoint);

#[verifier::external_type_specification]
#[verifier::external_body]
pub struct ExScalar(Scalar);

/// Relies on curve25519-dalek's `RistrettoPoint::from_uniform_bytes`: a
/// point from 64 uniform bytes.
#[verifier::external_body]
pub(crate) fn point_from_uniform_bytes(bytes: &[u8; 64]) -> (r: RistrettoPoint) {
    RistrettoPoint::from_uniform_bytes(bytes)
}

/// Relies on curve25519-dalek's `RistrettoPoint * Scalar`.
#[verifier::external_body]
pub(crate) fn point_mul(p: &RistrettoPoint, s: &Scalar) -> (r: RistrettoPoint) {
    p * s
}

/// Relies on curve25519-dalek's `RistrettoPoint + RistrettoPoint`.
#[verifier::external_body]
pub(crate) fn point_add(a: &RistrettoPoint, b: &RistrettoPoint) -> (r: RistrettoPoint) {
    a + b
}

/// Relies on curve25519-dalek's `RistrettoPoint::compress`: the 32-byte
/// encoding of a point.
#[verifier::external_body]
pub(crate) fn encode_point(p: &RistrettoPoint) -> (r: [u8; 32]) {
    p.compress().to_bytes()
}

/// Relies on curve25519-dalek's `CompressedRistretto::decompress`: `None`
/// for bytes that encode no point.
#[verifier::external_body]
pub(crate) fn decode_point(bytes: &[u8; 32]) -> (r: Option<RistrettoPoint>) {
    CompressedRistretto(*bytes).decompress()
}

/// Relies on the constant-time `ct_eq` of curve25519-dalek's points.
#[verifier::external_body]
pub(crate) fn point_eq(a: &RistrettoPoint, b: &RistrettoPoint) -> (r: bool) {
    a.ct_eq(b).into()
}

/// Relies on curve25519-dalek's `Scalar::from_bytes_mod_order`.
#[verifier::external_body]
pub(crate) fn scalar_from_bytes_mod_order(bytes: [u8; 32]) -> (r: Scalar) {
    Scalar::from_bytes_mod_order(bytes)
}

/// Relies on curve25519-dalek's `Scalar::from_bytes_mod_order_wide`.
#[verifier::external_body]
pub(crate) fn scalar_from_bytes_mod_order_wide(bytes: &[u8; 64]) -> (r: Scalar) {
    Scalar::from_bytes_mod_order_wide(bytes)
}

/// Relies on curve25519-dalek's `Scalar + Scalar`.
#[verifier::external_body]
pub(crate) fn scalar_add(a: &Scalar, b: &Scalar) -> (r: Scalar) {
    a + b
}

/// Relies on curve25519-dalek's `Scalar * Scalar`.
#[verifier::external_body]
pub(crate) fn scalar_mul(a: &Scalar, b: &Scalar) -> (r: Scalar) {
    a * b
}

/// Relies on curve25519-dalek's `Scalar::invert`.
#[verifier::external_body]
pub(crate) fn scalar_invert(a: &Scalar) -> (r: Scalar) {
    a.invert()
}

/// Relies on curve25519-dalek's `Scalar::to_bytes`: the 32-byte encoding.
#[verifier::external_body]
pub(crate) fn encode_scalar(s: &Scalar) -> (r: [u8; 32]) {
    s.to_bytes()
}

/// Relies on curve25519-dalek's `Scalar::from_canonical_bytes`: `None` for
/// a non-canonical encoding.
#[verifier::external_body]
pub(crate) fn decode_scalar(bytes: &[u8; 32]) -> (r: Option<Scalar>) {
    Option::from(Scalar::from_canonical_bytes(*bytes))
}

} // verus!
