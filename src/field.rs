//! Arithmetic in the prime field F_p used by every share of the protocol.
//!
//! Field elements are held as plain `u128` values; the modular operations
//! themselves are carried out by crypto-bigint's runtime-modulus residues.
use crypto_bigint::modular::runtime_mod::{DynResidue, DynResidueParams};
use crypto_bigint::U128;
use vstd::arithmetic::div_mod::{
    lemma_add_mod_noop, lemma_mod_bound, lemma_mul_mod_noop_general, lemma_sub_mod_noop,
};
use vstd::prelude::*;

verus! {

/// The protocol's 128-bit prime, big-endian `ccc87af2fe0b80db9924beecec1bc803`.
pub const P: u128 = 0xccc87af2fe0b80db9924beecec1bc803u128;

/// The modulus of the field, as handed to every share operation.
#[derive(Clone, Copy, Debug, PartialEq, Eq, Structural)]
pub struct FieldParams {
    pub p: u128,
}

impl FieldParams {
    /// A modulus that the residue arithmetic accepts: odd and above one.
    pub open spec fn wf(&self) -> bool {
        self.p % 2 == 1 && self.p > 1
    }

    /// Parameters for an odd modulus above one; `None` for any other value.
    pub fn new(p: u128) -> (r: Option<FieldParams>)
        ensures
            r.is_some() <==> (p % 2 == 1 && p > 1),
            r.is_some() ==> r.unwrap().p == p && r.unwrap().wf(),
    {
        if p % 2 == 1 && p > 1 {
            Some(FieldParams { p })
        } else {
            None
        }
    }

    /// The parameters of the protocol's fixed prime.
    pub fn protocol() -> (r: FieldParams)
        ensures
            r.p == P,
            r.wf(),
    {
        FieldParams { p: P }
    }
}

/// `a + b` in F_p, for any representatives `a` and `b`.
pub open spec fn fadd(a: int, b: int, p: int) -> int {
    (a + b) % p
}

/// `a - b` in F_p.
pub open spec fn fsub(a: int, b: int, p: int) -> int {
    (a - b) % p
}

/// `a * b` in F_p.
pub open spec fn fmul(a: int, b: int, p: int) -> int {
    (a * b) % p
}

/// `a` and `b` stand for the same element of F_p.
pub open spec fn cong(a: int, b: int, p: int) -> bool {
    a % p == b % p
}

/// Relies on crypto-bigint's `DynResidue::add` (entered with `DynResidue::new`,
/// left with `retrieve`): the sum of two residues modulo an odd modulus.
#[verifier::external_body]
fn residue_add(a: u128, b: u128, p: u128) -> (r: u128)
    requires
        p % 2 == 1,
        p > 1,
    ensures
        r == (a + b) % (p as int),
{
    let params = DynResidueParams::new(&U128::from_u128(p));
    let x = DynResidue::new(&U128::from_u128(a), params);
    let y = DynResidue::new(&U128::from_u128(b), params);
    x.add(&y).retrieve().into()
}

/// Relies on crypto-bigint's `DynResidue::sub` (entered with `DynResidue::new`,
/// left with `retrieve`): the difference of two residues modulo an odd modulus.
#[verifier::external_body]
fn residue_sub(a: u128, b: u128, p: u128) -> (r: u128)
    requires
        p % 2 == 1,
        p > 1,
    ensures
        r == (a - b) % (p as int),
{
    let params = DynResidueParams::new(&U128::from_u128(p));
    let x = DynResidue::new(&U128::from_u128(a), params);
    let y = DynResidue::new(&U128::from_u128(b), params);
    x.sub(&y).retrieve().into()
}

/// Relies on crypto-bigint's `DynResidue::mul` (entered with `DynResidue::new`,
/// left with `retrieve`): the product of two residues modulo an odd modulus.
#[verifier::external_body]
fn residue_mul(a: u128, b: u128, p: u128) -> (r: u128)
    requires
        p % 2 == 1,
        p > 1,
    ensures
        r == (a * b) % (p as int),
{
    let params = DynResidueParams::new(&U128::from_u128(p));
    let x = DynResidue::new(&U128::from_u128(a), params);
    let y = DynResidue::new(&U128::from_u128(b), params);
    x.mul(&y).retrieve().into()
}

/// `a + b` in F_p.
pub fn add_mod(a: u128, b: u128, params: FieldParams) -> (r: u128)
    requires
        params.wf(),
    ensures
        r as int == fadd(a as int, b as int, params.p as int),
        r < params.p,
{
    let r = residue_add(a, b, params.p);
    proof {
        lemma_mod_bound(a + b, params.p as int);
    }
    r
}

/// `a - b` in F_p.
pub fn sub_mod(a: u128, b: u128, params: FieldParams) -> (r: u128)
    requires
        params.wf(),
    ensures
        r as int == fsub(a as int, b as int, params.p as int),
        r < params.p,
{
    let r = residue_sub(a, b, params.p);
    proof {
        lemma_mod_bound(a - b, params.p as int);
    }
    r
}

/// `a * b` in F_p.
pub fn mul_mod(a: u128, b: u128, params: FieldParams) -> (r: u128)
    requires
        params.wf(),
    ensures
        r as int == fmul(a as int, b as int, params.p as int),
        r < params.p,
{
    let r = residue_mul(a, b, params.p);
    proof {
        lemma_mod_bound(a * b, params.p as int);
    }
    r
}

/// `-a` in F_p.
pub fn neg_mod(a: u128, params: FieldParams) -> (r: u128)
    requires
        params.wf(),
    ensures
        r as int == fsub(0, a as int, params.p as int),
        r < params.p,
{
    sub_mod(0, a, params)
}

/// Congruence is kept by sums.
pub proof fn lemma_cong_add(a: int, a2: int, b: int, b2: int, p: int)
    requires
        p > 0,
        cong(a, a2, p),
        cong(b, b2, p),
    ensures
        cong(a + b, a2 + b2, p),
{
    lemma_add_mod_noop(a, b, p);
    lemma_add_mod_noop(a2, b2, p);
}

/// Congruence is kept by differences.
pub proof fn lemma_cong_sub(a: int, a2: int, b: int, b2: int, p: int)
    requires
        p > 0,
        cong(a, a2, p),
        cong(b, b2, p),
    ensures
        cong(a - b, a2 - b2, p),
{
    lemma_sub_mod_noop(a, b, p);
    lemma_sub_mod_noop(a2, b2, p);
}

/// Congruence is kept by products.
pub proof fn lemma_cong_mul(a: int, a2: int, b: int, b2: int, p: int)
    requires
        p > 0,
        cong(a, a2, p),
        cong(b, b2, p),
    ensures
        cong(a * b, a2 * b2, p),
{
    lemma_mul_mod_noop_general(a, b, p);
    lemma_mul_mod_noop_general(a2, b2, p);
}

/// A value is congruent to its own remainder.
pub proof fn lemma_cong_mod(a: int, p: int)
    requires
        p > 0,
    ensures
        cong(a % p, a, p),
{
    lemma_mod_bound(a, p);
    vstd::arithmetic::div_mod::lemma_mod_twice(a, p);
}

} // verus!
