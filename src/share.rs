//! Authenticated additive shares and their algebra.
//!
//! A value `v` of F_p is split as `v = v_cb + v_ob`. Each party holds its part
//! of the value, a MAC on it (`big_m`), its own global key (`big_delta`) and a
//! key share (`delta`) with which it checks the peer's MACs:
//! `M_peer + delta_self == v_peer * Delta_self (mod p)`.
use crate::field::{
    add_mod, cong, fadd, fmul, fsub, lemma_cong_add, lemma_cong_mod, lemma_cong_mul,
    lemma_cong_sub, mul_mod, sub_mod, FieldParams,
};
use vstd::arithmetic::div_mod::lemma_mod_bound;
use vstd::prelude::*;

verus! {

/// One party's part of an authenticated value.
#[derive(Clone, Copy, Debug, PartialEq, Eq, Structural)]
pub struct Share {
    /// this party's additive part of the value
    pub value: u128,
    /// MAC on `value`, checked by the peer
    pub big_m: u128,
    /// this party's global MAC key
    pub big_delta: u128,
    /// this party's key share for the peer's MAC on the same value
    pub delta: u128,
}

/// `holder` accepts the opening `(v, m)` of the peer's part.
pub open spec fn opening_valid(holder: Share, v: int, m: int, p: int) -> bool {
    cong(m + holder.delta, v * holder.big_delta, p)
}

/// `holder` accepts the peer's honest opening of `peer`.
pub open spec fn authenticates(holder: Share, peer: Share, p: int) -> bool {
    opening_valid(holder, peer.value as int, peer.big_m as int, p)
}

/// The two parts of one authenticated value: each side's MAC checks out
/// under the other side's key.
pub open spec fn pair_valid(cb: Share, ob: Share, p: int) -> bool {
    authenticates(cb, ob, p) && authenticates(ob, cb, p)
}

/// The value that two parts reconstruct to.
pub open spec fn reconstruct(cb: Share, ob: Share, p: int) -> int {
    fadd(cb.value as int, ob.value as int, p)
}

impl Share {
    /// The all-zero share.
    pub open spec fn zero_spec() -> Share {
        Share { value: 0, big_m: 0, big_delta: 0, delta: 0 }
    }

    /// `[x] + [y]` on one side.
    pub open spec fn spec_add(self, rhs: Share, p: int) -> Share {
        Share {
            value: fadd(self.value as int, rhs.value as int, p) as u128,
            big_m: fadd(self.big_m as int, rhs.big_m as int, p) as u128,
            big_delta: self.big_delta,
            delta: fadd(self.delta as int, rhs.delta as int, p) as u128,
        }
    }

    /// `[x] - [y]` on one side.
    pub open spec fn spec_sub(self, rhs: Share, p: int) -> Share {
        Share {
            value: fsub(self.value as int, rhs.value as int, p) as u128,
            big_m: fsub(self.big_m as int, rhs.big_m as int, p) as u128,
            big_delta: self.big_delta,
            delta: fsub(self.delta as int, rhs.delta as int, p) as u128,
        }
    }

    /// `[x] + c` on the side whose value part takes the constant.
    pub open spec fn spec_add_const_ob(self, c: int, p: int) -> Share {
        Share { value: fadd(self.value as int, c, p) as u128, ..self }
    }

    /// `[x] + c` on the side whose key share absorbs `c * Delta`.
    pub open spec fn spec_add_const_cb(self, c: int, p: int) -> Share {
        Share {
            delta: fadd(self.delta as int, fmul(c, self.big_delta as int, p), p) as u128,
            ..self
        }
    }

    /// `[x] + c` on the given side.
    pub open spec fn spec_add_const(self, c: int, is_cb_side: bool, p: int) -> Share {
        if is_cb_side {
            self.spec_add_const_cb(c, p)
        } else {
            self.spec_add_const_ob(c, p)
        }
    }

    /// `c * [x]` on one side.
    pub open spec fn spec_mul_const(self, c: int, p: int) -> Share {
        Share {
            value: fmul(self.value as int, c, p) as u128,
            big_m: fmul(self.big_m as int, c, p) as u128,
            big_delta: self.big_delta,
            delta: fmul(self.delta as int, c, p) as u128,
        }
    }

    /// add share
    pub fn add_share(&self, rhs: &Share, params: FieldParams) -> (r: Share)
        requires
            params.wf(),
            self.big_delta == rhs.big_delta,
        ensures
            r == self.spec_add(*rhs, params.p as int),
    {
        let value = add_mod(self.value, rhs.value, params);
        let big_m = add_mod(self.big_m, rhs.big_m, params);
        let delta = add_mod(self.delta, rhs.delta, params);
        Share { value, big_m, big_delta: self.big_delta, delta }
    }

    /// sub share
    pub fn sub_share(&self, rhs: &Share, params: FieldParams) -> (r: Share)
        requires
            params.wf(),
            self.big_delta == rhs.big_delta,
        ensures
            r == self.spec_sub(*rhs, params.p as int),
    {
        let value = sub_mod(self.value, rhs.value, params);
        let big_m = sub_mod(self.big_m, rhs.big_m, params);
        let delta = sub_mod(self.delta, rhs.delta, params);
        Share { value, big_m, big_delta: self.big_delta, delta }
    }

    /// add const ob
    pub fn add_const_ob(&self, c: &u128, params: FieldParams) -> (r: Share)
        requires
            params.wf(),
        ensures
            r == self.spec_add_const_ob(*c as int, params.p as int),
    {
        let value = add_mod(self.value, *c, params);
        Share { value, ..*self }
    }

    /// add const cb
    pub fn add_const_cb(&self, c: &u128, params: FieldParams) -> (r: Share)
        requires
            params.wf(),
        ensures
            r == self.spec_add_const_cb(*c as int, params.p as int),
    {
        let t = mul_mod(*c, self.big_delta, params);
        let delta = add_mod(self.delta, t, params);
        Share { delta, ..*self }
    }

    /// `[x] + c` on the given side.
    pub fn add_const(&self, c: &u128, is_cb_side: bool, params: FieldParams) -> (r: Share)
        requires
            params.wf(),
        ensures
            r == self.spec_add_const(*c as int, is_cb_side, params.p as int),
    {
        if is_cb_side {
            self.add_const_cb(c, params)
        } else {
            self.add_const_ob(c, params)
        }
    }

    /// mul const
    pub fn mul_const(&self, c: &u128, params: FieldParams) -> (r: Share)
        requires
            params.wf(),
        ensures
            r == self.spec_mul_const(*c as int, params.p as int),
    {
        let value = mul_mod(self.value, *c, params);
        let big_m = mul_mod(self.big_m, *c, params);
        let delta = mul_mod(self.delta, *c, params);
        Share { value, big_m, big_delta: self.big_delta, delta }
    }

    /// What `open` hands to the peer.
    pub open spec fn open_spec(self) -> (u128, u128) {
        (self.value, self.big_m)
    }

    /// Opens (value, mac)
    pub fn open(&self) -> (r: (u128, u128))
        ensures
            r == self.open_spec(),
    {
        (self.value, self.big_m)
    }

    /// Checks the peer's opening `(open_value, open_mac)` against this side's
    /// keys, `M_peer + delta == v_peer * Delta (mod p)`, and on success
    /// returns the opened value `value + v_peer`.
    pub fn validate_open(&self, open_value: &u128, open_mac: &u128, params: FieldParams) -> (r:
        Result<u128, &'static str>)
        requires
            params.wf(),
        ensures
            r.is_ok() <==> opening_valid(*self, *open_value as int, *open_mac as int, params.p as int),
            r.is_ok() ==> r.unwrap() as int == fadd(self.value as int, *open_value as int, params.p as int),
    {
        let left = add_mod(*open_mac, self.delta, params);
        let right = mul_mod(*open_value, self.big_delta, params);
        if left != right {
            return Err("Invalid Open");
        }
        Ok(add_mod(self.value, *open_value, params))
    }

    /// CB-Input([x], y): checks the peer's opening of the mask `[x]`, and
    /// returns `[y] = [x] + (y - x)` with the public difference `d = y - x`.
    pub fn cb_input(&self, open_x: &(u128, u128), y: &u128, params: FieldParams) -> (r: Result<
        (Share, u128),
        &'static str,
    >)
        requires
            params.wf(),
        ensures
            r.is_ok() <==> opening_valid(*self, open_x.0 as int, open_x.1 as int, params.p as int),
            r.is_ok() ==> ({
                let x = fadd(self.value as int, open_x.0 as int, params.p as int);
                let d = fsub(*y as int, x, params.p as int);
                &&& r.unwrap().1 as int == d
                &&& r.unwrap().0 == self.spec_add_const_cb(d, params.p as int)
            }),
    {
        let x = match self.validate_open(&open_x.0, &open_x.1, params) {
            Ok(v) => v,
            Err(_) => return Err("Invalid Open"),
        };
        let d = sub_mod(*y, x, params);
        let beta_share = self.add_const_cb(&d, params);
        Ok((beta_share, d))
    }

    /// OB-Input([x], y): as `cb_input`, with the constant added on the value
    /// side.
    pub fn ob_input(&self, open_x: &(u128, u128), y: &u128, params: FieldParams) -> (r: Result<
        (Share, u128),
        &'static str,
    >)
        requires
            params.wf(),
        ensures
            r.is_ok() <==> opening_valid(*self, open_x.0 as int, open_x.1 as int, params.p as int),
            r.is_ok() ==> ({
                let x = fadd(self.value as int, open_x.0 as int, params.p as int);
                let d = fsub(*y as int, x, params.p as int);
                &&& r.unwrap().1 as int == d
                &&& r.unwrap().0 == self.spec_add_const_ob(d, params.p as int)
            }),
    {
        let x = match self.validate_open(&open_x.0, &open_x.1, params) {
            Ok(v) => v,
            Err(_) => return Err("Invalid Open"),
        };
        let d = sub_mod(*y, x, params);
        let beta_share = self.add_const_ob(&d, params);
        Ok((beta_share, d))
    }
}

impl Default for Share {
    fn default() -> (r: Share)
        ensures
            r == Share::zero_spec(),
    {
        Share { value: 0, big_m: 0, big_delta: 0, delta: 0 }
    }
}

/// A reduced value keeps its meaning as a `u128`.
proof fn lemma_reduced_fits(x: int, p: int)
    requires
        0 < p <= u128::MAX,
    ensures
        ((x % p) as u128) as int == x % p,
        cong(x % p, x, p),
{
    lemma_mod_bound(x, p);
    lemma_cong_mod(x, p);
}

/// The MAC equation of a sum of two authenticated parts.
proof fn lemma_mac_of_sum(m1: int, d1: int, v1: int, m2: int, d2: int, v2: int, k: int, p: int)
    requires
        0 < p <= u128::MAX,
        cong(m1 + d1, v1 * k, p),
        cong(m2 + d2, v2 * k, p),
    ensures
        cong((m1 + m2) % p + (d1 + d2) % p, ((v1 + v2) % p) * k, p),
{
    lemma_reduced_fits(m1 + m2, p);
    lemma_reduced_fits(d1 + d2, p);
    lemma_reduced_fits(v1 + v2, p);
    lemma_cong_add((m1 + m2) % p, m1 + m2, (d1 + d2) % p, d1 + d2, p);
    assert((m1 + m2) + (d1 + d2) == (m1 + d1) + (m2 + d2));
    lemma_cong_add(m1 + d1, v1 * k, m2 + d2, v2 * k, p);
    lemma_cong_mul((v1 + v2) % p, v1 + v2, k, k, p);
    assert((v1 + v2) * k == v1 * k + v2 * k) by (nonlinear_arith);
}

/// The MAC equation of a difference of two authenticated parts.
proof fn lemma_mac_of_difference(m1: int, d1: int, v1: int, m2: int, d2: int, v2: int, k: int, p: int)
    requires
        0 < p <= u128::MAX,
        cong(m1 + d1, v1 * k, p),
        cong(m2 + d2, v2 * k, p),
    ensures
        cong((m1 - m2) % p + (d1 - d2) % p, ((v1 - v2) % p) * k, p),
{
    lemma_reduced_fits(m1 - m2, p);
    lemma_reduced_fits(d1 - d2, p);
    lemma_reduced_fits(v1 - v2, p);
    lemma_cong_add((m1 - m2) % p, m1 - m2, (d1 - d2) % p, d1 - d2, p);
    assert((m1 - m2) + (d1 - d2) == (m1 + d1) - (m2 + d2));
    lemma_cong_sub(m1 + d1, v1 * k, m2 + d2, v2 * k, p);
    lemma_cong_mul((v1 - v2) % p, v1 - v2, k, k, p);
    assert((v1 - v2) * k == v1 * k - v2 * k) by (nonlinear_arith);
}

/// The MAC equation of a part scaled by a public constant.
proof fn lemma_mac_of_scaled(m: int, d: int, v: int, c: int, k: int, p: int)
    requires
        0 < p <= u128::MAX,
        cong(m + d, v * k, p),
    ensures
        cong((m * c) % p + (d * c) % p, ((v * c) % p) * k, p),
{
    lemma_reduced_fits(m * c, p);
    lemma_reduced_fits(d * c, p);
    lemma_reduced_fits(v * c, p);
    lemma_cong_add((m * c) % p, m * c, (d * c) % p, d * c, p);
    assert(m * c + d * c == (m + d) * c) by (nonlinear_arith);
    lemma_cong_mul(m + d, v * k, c, c, p);
    lemma_cong_mul((v * c) % p, v * c, k, k, p);
    assert((v * k) * c == (v * c) * k) by (nonlinear_arith);
}

/// The MAC equation after a public constant is added: the value part takes
/// `c`, the checking key share takes `c * k`.
proof fn lemma_mac_of_shifted(m: int, d: int, v: int, c: int, k: int, p: int)
    requires
        0 < p <= u128::MAX,
        cong(m + d, v * k, p),
    ensures
        cong(m + (d + (c * k) % p) % p, ((v + c) % p) * k, p),
{
    lemma_reduced_fits(c * k, p);
    lemma_reduced_fits(d + (c * k) % p, p);
    lemma_reduced_fits(v + c, p);
    lemma_cong_add(d, d, (c * k) % p, c * k, p);
    lemma_cong_add(m, m, (d + (c * k) % p) % p, d + c * k, p);
    assert(m + (d + c * k) == (m + d) + c * k);
    lemma_cong_add(m + d, v * k, c * k, c * k, p);
    lemma_cong_mul((v + c) % p, v + c, k, k, p);
    assert((v + c) * k == v * k + c * k) by (nonlinear_arith);
}

/// Adding two authenticated values part by part yields an authenticated
/// value: both MAC equations hold for the sum, and it reconstructs to the
/// sum of the two values.
pub proof fn lemma_add_keeps_mac(cb1: Share, ob1: Share, cb2: Share, ob2: Share, params: FieldParams)
    requires
        params.wf(),
        pair_valid(cb1, ob1, params.p as int),
        pair_valid(cb2, ob2, params.p as int),
        cb1.big_delta == cb2.big_delta,
        ob1.big_delta == ob2.big_delta,
    ensures
        pair_valid(cb1.spec_add(cb2, params.p as int), ob1.spec_add(ob2, params.p as int), params.p as int),
        reconstruct(cb1.spec_add(cb2, params.p as int), ob1.spec_add(ob2, params.p as int), params.p as int)
            == fadd(reconstruct(cb1, ob1, params.p as int), reconstruct(cb2, ob2, params.p as int), params.p as int),
{
    let p = params.p as int;
    lemma_mac_of_sum(ob1.big_m as int, cb1.delta as int, ob1.value as int, ob2.big_m as int,
        cb2.delta as int, ob2.value as int, cb1.big_delta as int, p);
    lemma_mac_of_sum(cb1.big_m as int, ob1.delta as int, cb1.value as int, cb2.big_m as int,
        ob2.delta as int, cb2.value as int, ob1.big_delta as int, p);
    lemma_reduced_fits(cb1.value + cb2.value, p);
    lemma_reduced_fits(ob1.value + ob2.value, p);
    lemma_reduced_fits(cb1.value + ob1.value, p);
    lemma_reduced_fits(cb2.value + ob2.value, p);
    lemma_cong_add((cb1.value + cb2.value) % p, cb1.value + cb2.value, (ob1.value + ob2.value) % p,
        ob1.value + ob2.value, p);
    lemma_cong_add((cb1.value + ob1.value) % p, cb1.value + ob1.value, (cb2.value + ob2.value) % p,
        cb2.value + ob2.value, p);
}

/// Subtracting two authenticated values part by part yields an
/// authenticated value that reconstructs to the difference.
pub proof fn lemma_sub_keeps_mac(cb1: Share, ob1: Share, cb2: Share, ob2: Share, params: FieldParams)
    requires
        params.wf(),
        pair_valid(cb1, ob1, params.p as int),
        pair_valid(cb2, ob2, params.p as int),
        cb1.big_delta == cb2.big_delta,
        ob1.big_delta == ob2.big_delta,
    ensures
        pair_valid(cb1.spec_sub(cb2, params.p as int), ob1.spec_sub(ob2, params.p as int), params.p as int),
        reconstruct(cb1.spec_sub(cb2, params.p as int), ob1.spec_sub(ob2, params.p as int), params.p as int)
            == fsub(reconstruct(cb1, ob1, params.p as int), reconstruct(cb2, ob2, params.p as int), params.p as int),
{
    let p = params.p as int;
    lemma_mac_of_difference(ob1.big_m as int, cb1.delta as int, ob1.value as int, ob2.big_m as int,
        cb2.delta as int, ob2.value as int, cb1.big_delta as int, p);
    lemma_mac_of_difference(cb1.big_m as int, ob1.delta as int, cb1.value as int, cb2.big_m as int,
        ob2.delta as int, cb2.value as int, ob1.big_delta as int, p);
    lemma_reduced_fits(cb1.value - cb2.value, p);
    lemma_reduced_fits(ob1.value - ob2.value, p);
    lemma_reduced_fits(cb1.value + ob1.value, p);
    lemma_reduced_fits(cb2.value + ob2.value, p);
    lemma_cong_add((cb1.value - cb2.value) % p, cb1.value - cb2.value, (ob1.value - ob2.value) % p,
        ob1.value - ob2.value, p);
    lemma_cong_sub((cb1.value + ob1.value) % p, cb1.value + ob1.value, (cb2.value + ob2.value) % p,
        cb2.value + ob2.value, p);
    assert((cb1.value - cb2.value) + (ob1.value - ob2.value) == (cb1.value + ob1.value) - (cb2.value
        + ob2.value));
}

/// Scaling both parts by a public constant yields an authenticated value
/// that reconstructs to the scaled value.
pub proof fn lemma_mul_const_keeps_mac(cb: Share, ob: Share, c: int, params: FieldParams)
    requires
        params.wf(),
        pair_valid(cb, ob, params.p as int),
    ensures
        pair_valid(cb.spec_mul_const(c, params.p as int), ob.spec_mul_const(c, params.p as int), params.p as int),
        reconstruct(cb.spec_mul_const(c, params.p as int), ob.spec_mul_const(c, params.p as int), params.p as int)
            == fmul(reconstruct(cb, ob, params.p as int), c, params.p as int),
{
    let p = params.p as int;
    lemma_mac_of_scaled(ob.big_m as int, cb.delta as int, ob.value as int, c, cb.big_delta as int, p);
    lemma_mac_of_scaled(cb.big_m as int, ob.delta as int, cb.value as int, c, ob.big_delta as int, p);
    lemma_reduced_fits(cb.value * c, p);
    lemma_reduced_fits(ob.value * c, p);
    lemma_reduced_fits(cb.value + ob.value, p);
    lemma_cong_add((cb.value * c) % p, cb.value * c, (ob.value * c) % p, ob.value * c, p);
    lemma_cong_mul((cb.value + ob.value) % p, cb.value + ob.value, c, c, p);
    assert(cb.value * c + ob.value * c == (cb.value + ob.value) * c) by (nonlinear_arith);
}

/// Adding a public constant, with each side doing its own half of the
/// work, yields an authenticated value that reconstructs to the shifted
/// value.
pub proof fn lemma_add_const_keeps_mac(cb: Share, ob: Share, c: int, params: FieldParams)
    requires
        params.wf(),
        pair_valid(cb, ob, params.p as int),
    ensures
        pair_valid(cb.spec_add_const_cb(c, params.p as int), ob.spec_add_const_ob(c, params.p as int), params.p as int),
        reconstruct(cb.spec_add_const_cb(c, params.p as int), ob.spec_add_const_ob(c, params.p as int), params.p as int)
            == fadd(reconstruct(cb, ob, params.p as int), c, params.p as int),
{
    let p = params.p as int;
    lemma_mac_of_shifted(ob.big_m as int, cb.delta as int, ob.value as int, c, cb.big_delta as int, p);
    lemma_reduced_fits(cb.delta + (c * cb.big_delta) % p, p);
    lemma_reduced_fits(c * cb.big_delta, p);
    lemma_reduced_fits(ob.value + c, p);
    lemma_reduced_fits(cb.value + ob.value, p);
    lemma_cong_add(cb.value as int, cb.value as int, (ob.value + c) % p, ob.value + c, p);
    lemma_cong_add((cb.value + ob.value) % p, cb.value + ob.value, c, c, p);
}

/// An honest opening of an authenticated value is accepted on both sides,
/// and both sides learn the reconstructed value.
pub proof fn lemma_open_accepted(cb: Share, ob: Share, params: FieldParams)
    requires
        params.wf(),
        pair_valid(cb, ob, params.p as int),
    ensures
        opening_valid(cb, ob.open_spec().0 as int, ob.open_spec().1 as int, params.p as int),
        opening_valid(ob, cb.open_spec().0 as int, cb.open_spec().1 as int, params.p as int),
        fadd(cb.value as int, ob.open_spec().0 as int, params.p as int) == reconstruct(cb, ob, params.p as int),
        fadd(ob.value as int, cb.open_spec().0 as int, params.p as int) == reconstruct(cb, ob, params.p as int),
{
    assert(ob.value + cb.value == cb.value + ob.value);
}

} // verus!
