//! Non-interactive proof of knowledge of a discrete logarithm (Schnorr, with
//! the Fiat-Shamir transform).
use crate::group::{
    decode_point, decode_scalar, encode_point, encode_scalar, point_add, point_eq, point_mul,
    scalar_add, scalar_from_bytes_mod_order, scalar_from_bytes_mod_order_wide, scalar_mul,
};
use crate::transcript::{transcript_append, transcript_challenge_wide, transcript_new};
use crate::utils::DLOG_LABEL;
use curve25519_dalek::ristretto::RistrettoPoint;
use curve25519_dalek::scalar::Scalar;
use vstd::prelude::*;

verus! {

/// Non-interactive Proof of knowledge of discrete logarithm with Fiat-Shamir transform.
#[derive(Clone, Copy, Debug, PartialEq, Eq)]
pub struct DLogProof {
    /// Public point `t`.
    pub t: [u8; 32],
    /// Challenge response
    pub s: [u8; 32],
}

impl DLogProof {
    /// Prove knowledge of `x` with `y = base_point * x`; `nonce` is 32
    /// fresh random bytes.
    pub fn prove(x: &Scalar, base_point: &RistrettoPoint, session_id: &[u8], nonce: [u8; 32]) -> (r: Self)
        requires
            session_id@.len() <= u32::MAX,
    {
        let r = scalar_from_bytes_mod_order(nonce);
        let t = point_mul(base_point, &r);
        let y = point_mul(base_point, x);
        let c = Self::fiat_shamir(&y, &t, base_point, session_id);
        let s = scalar_add(&r, &scalar_mul(&c, x));
        DLogProof { t: encode_point(&t), s: encode_scalar(&s) }
    }

    /// Verify knowledge of discrete logarithm: `false` for encodings of no
    /// point or scalar, else whether `base_point * s == t + y * c`.
    pub fn verify(&self, y: &RistrettoPoint, base_point: &RistrettoPoint, session_id: &[u8]) -> (r: bool)
        requires
            session_id@.len() <= u32::MAX,
    {
        let t = match decode_point(&self.t) {
            None => return false,
            Some(v) => v,
        };
        let s = match decode_scalar(&self.s) {
            None => return false,
            Some(v) => v,
        };
        let c = Self::fiat_shamir(y, &t, base_point, session_id);
        let lhs = point_mul(base_point, &s);
        let rhs = point_add(&t, &point_mul(y, &c));
        point_eq(&lhs, &rhs)
    }

    /// The Fiat-Shamir challenge for the proof.
    fn fiat_shamir(y: &RistrettoPoint, t: &RistrettoPoint, base_point: &RistrettoPoint, session_id: &[u8]) -> (r: Scalar)
        requires
            session_id@.len() <= u32::MAX,
    {
        let mut transcript = transcript_new(DLOG_LABEL);
        transcript_append(&mut transcript, "session-id", session_id);
        transcript_append(&mut transcript, "y", encode_point(y).as_slice());
        transcript_append(&mut transcript, "t", encode_point(t).as_slice());
        transcript_append(&mut transcript, "base-point", encode_point(base_point).as_slice());
        let bytes = transcript_challenge_wide(&mut transcript, "challenge-bytes");
        scalar_from_bytes_mod_order_wide(&bytes)
    }
}

} // verus!
