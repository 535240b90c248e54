//! Secure multiplication of authenticated shares with Beaver triples, and the
//! bitness test built on it.
use crate::field::{
    fadd, fmul, fsub, lemma_cong_add, lemma_cong_mod, lemma_cong_mul, lemma_cong_sub,
    mul_mod, neg_mod, FieldParams,
};
use crate::share::{
    lemma_add_const_keeps_mac, lemma_add_keeps_mac, lemma_mul_const_keeps_mac,
    lemma_open_accepted, lemma_sub_keeps_mac, opening_valid, pair_valid, reconstruct, Share,
};
use vstd::prelude::*;

verus! {

/// Retained shares of one multiplication `[x] * [y]` between its two rounds.
#[derive(Clone, Copy, Debug, PartialEq, Eq, Structural)]
pub struct MulSharesState {
    /// x share
    pub x: Share,
    /// y share
    pub y: Share,
    /// z_hat share
    pub z_hat: Share,
    /// d share
    pub d: Share,
    /// e share
    pub e: Share,
}

/// Openings of `d = x - x_hat` and `e = y - y_hat`, sent to the peer.
#[derive(Clone, Copy, Debug, PartialEq, Eq, Structural)]
pub struct MulSharesOpen {
    /// d value
    pub d: u128,
    /// M^d value
    pub m_d: u128,
    /// e value
    pub e: u128,
    /// M^e value
    pub m_e: u128,
}

/// One party's shares of a multiplication triple `([x], [y], [z])`.
#[derive(Clone, Copy, Debug, PartialEq, Eq, Structural)]
pub struct TripleShare {
    /// [x]
    pub x: Share,
    /// [y]
    pub y: Share,
    /// [z]
    pub z: Share,
}

impl Default for MulSharesState {
    fn default() -> (r: MulSharesState)
        ensures
            r.x == Share::zero_spec() && r.y == Share::zero_spec() && r.z_hat == Share::zero_spec()
                && r.d == Share::zero_spec() && r.e == Share::zero_spec(),
    {
        let z = Share::default();
        MulSharesState { x: z, y: z, z_hat: z, d: z, e: z }
    }
}

impl Default for MulSharesOpen {
    fn default() -> (r: MulSharesOpen)
        ensures
            r == (MulSharesOpen { d: 0, m_d: 0, e: 0, m_e: 0 }),
    {
        MulSharesOpen { d: 0, m_d: 0, e: 0, m_e: 0 }
    }
}

/// The state that `multiply_shares_open` keeps.
pub open spec fn mul_open_state(x: Share, y: Share, x_hat: Share, y_hat: Share, z_hat: Share, p: int) -> MulSharesState {
    MulSharesState { x, y, z_hat, d: x.spec_sub(x_hat, p), e: y.spec_sub(y_hat, p) }
}

/// The opening that `multiply_shares_open` sends.
pub open spec fn mul_open_msg(st: MulSharesState) -> MulSharesOpen {
    MulSharesOpen { d: st.d.value, m_d: st.d.big_m, e: st.e.value, m_e: st.e.big_m }
}

/// The peer's openings of `d` and `e` are accepted by this side.
pub open spec fn mul_opens_valid(st: MulSharesState, o: MulSharesOpen, p: int) -> bool {
    opening_valid(st.d, o.d as int, o.m_d as int, p) && opening_valid(st.e, o.e as int, o.m_e as int, p)
}

/// The local output `e~ [x] + d~ [y] + [z_hat] - d~ e~` of a multiplication,
/// for the opened values `dv = d~` and `ev = e~`.
pub open spec fn mul_output_share(st: MulSharesState, dv: int, ev: int, is_cb_side: bool, p: int) -> Share {
    st.x.spec_mul_const(ev, p).spec_add(st.y.spec_mul_const(dv, p), p).spec_add(st.z_hat, p).spec_add_const(
        fsub(0, fmul(dv, ev, p), p),
        is_cb_side,
        p,
    )
}

/// What `multiply_shares_output` returns on accepted openings.
pub open spec fn mul_output(st: MulSharesState, o: MulSharesOpen, is_cb_side: bool, p: int) -> Share {
    mul_output_share(
        st,
        fadd(st.d.value as int, o.d as int, p),
        fadd(st.e.value as int, o.e as int, p),
        is_cb_side,
        p,
    )
}

/// Multiply([x], [y], [ˆx], [ˆy], [ˆz]), Shorthand [x] · [y]: first half.
/// Masks the operands with the triple and returns the state to keep and the
/// openings of `d = x - x_hat`, `e = y - y_hat` to send.
pub fn multiply_shares_open(
    x: &Share,
    y: &Share,
    x_hat: &Share,
    y_hat: &Share,
    z_hat: &Share,
    params: FieldParams,
) -> (r: (MulSharesState, MulSharesOpen))
    requires
        params.wf(),
        x.big_delta == x_hat.big_delta,
        y.big_delta == y_hat.big_delta,
    ensures
        r.0 == mul_open_state(*x, *y, *x_hat, *y_hat, *z_hat, params.p as int),
        r.1 == mul_open_msg(r.0),
{
    let d = x.sub_share(x_hat, params);
    let e = y.sub_share(y_hat, params);
    let state = MulSharesState { x: *x, y: *y, z_hat: *z_hat, d, e };
    let mul_shares_open = MulSharesOpen { d: d.value, m_d: d.big_m, e: e.value, m_e: e.big_m };
    (state, mul_shares_open)
}

/// Multiply: second half. Checks the peer's openings of `d` and `e`, then
/// computes this side's share of `x * y`.
/// is_cb_side = true if function runs on CB side
/// is_cb_side = false if function runs on OB side
pub fn multiply_shares_output(
    state: &MulSharesState,
    mul_shares_open: &MulSharesOpen,
    is_cb_side: bool,
    params: FieldParams,
) -> (r: Result<Share, &'static str>)
    requires
        params.wf(),
        state.x.big_delta == state.y.big_delta,
        state.x.big_delta == state.z_hat.big_delta,
    ensures
        r.is_ok() <==> mul_opens_valid(*state, *mul_shares_open, params.p as int),
        r.is_ok() ==> r.unwrap() == mul_output(*state, *mul_shares_open, is_cb_side, params.p as int),
{
    let d_value = match state.d.validate_open(&mul_shares_open.d, &mul_shares_open.m_d, params) {
        Ok(v) => v,
        Err(e) => return Err(e),
    };
    let e_value = match state.e.validate_open(&mul_shares_open.e, &mul_shares_open.m_e, params) {
        Ok(v) => v,
        Err(e) => return Err(e),
    };
    let d_mul_e_neg = neg_mod(mul_mod(d_value, e_value, params), params);
    let output = state.x.mul_const(&e_value, params).add_share(
        &state.y.mul_const(&d_value, params),
        params,
    ).add_share(&state.z_hat, params);
    Ok(output.add_const(&d_mul_e_neg, is_cb_side, params))
}

/// The operand `[x] - 1` that the bitness test multiplies `[x]` with.
pub open spec fn test_bit_operand(x: Share, p_const: int, is_cb_side: bool, p: int) -> Share {
    x.spec_add_const(if p_const >= 1 { p_const - 1 } else { 0 }, is_cb_side, p)
}

/// TestBit([x]) open: starts the multiplication `[x] * ([x] - 1)`, with
/// `p - 1` standing for `-1`.
/// is_cb_side = true if function runs on CB side
/// is_cb_side = false if function runs on OB side
pub fn test_bit_open(
    x: &Share,
    x_hat: &Share,
    y_hat: &Share,
    z_hat: &Share,
    is_cb_side: bool,
    p: &u128,
    params: FieldParams,
) -> (r: (MulSharesState, MulSharesOpen))
    requires
        params.wf(),
        x.big_delta == x_hat.big_delta,
        x.big_delta == y_hat.big_delta,
    ensures
        r.0 == mul_open_state(
            *x,
            test_bit_operand(*x, *p as int, is_cb_side, params.p as int),
            *x_hat,
            *y_hat,
            *z_hat,
            params.p as int,
        ),
        r.1 == mul_open_msg(r.0),
{
    let minus_one: u128 = if *p >= 1 { *p - 1 } else { 0 };
    let y = x.add_const(&minus_one, is_cb_side, params);
    multiply_shares_open(x, &y, x_hat, y_hat, z_hat, params)
}

/// TestBit([x]) output: `[b] = 1 + [x] * ([x] - 1)`, which opens to one
/// exactly when `x` is a bit.
/// is_cb_side = true if function runs on CB side
/// is_cb_side = false if function runs on OB side
pub fn test_bit_output(
    state: &MulSharesState,
    mul_shares_open: &MulSharesOpen,
    is_cb_side: bool,
    params: FieldParams,
) -> (r: Result<Share, &'static str>)
    requires
        params.wf(),
        state.x.big_delta == state.y.big_delta,
        state.x.big_delta == state.z_hat.big_delta,
    ensures
        r.is_ok() <==> mul_opens_valid(*state, *mul_shares_open, params.p as int),
        r.is_ok() ==> r.unwrap() == mul_output(*state, *mul_shares_open, is_cb_side, params.p as int).spec_add_const(
            1,
            is_cb_side,
            params.p as int,
        ),
{
    let share = match multiply_shares_output(state, mul_shares_open, is_cb_side, params) {
        Ok(s) => s,
        Err(e) => return Err(e),
    };
    Ok(share.add_const(&1u128, is_cb_side, params))
}

/// `e~ x + d~ y + z_hat - d~ e~ == x y + (z_hat - x_hat y_hat)` in F_p when
/// `d~ = x - x_hat` and `e~ = y - y_hat`.
proof fn lemma_beaver_identity(x: int, y: int, xh: int, yh: int, zh: int, p: int)
    requires
        p > 0,
    ensures
        ({
            let dv = fsub(x, xh, p);
            let ev = fsub(y, yh, p);
            fadd(fadd(fadd(fmul(x, ev, p), fmul(y, dv, p), p), zh, p), fsub(0, fmul(dv, ev, p), p), p)
                == (x * y + zh - xh * yh) % p
        }),
{
    let dv = fsub(x, xh, p);
    let ev = fsub(y, yh, p);
    lemma_cong_mod(x - xh, p);
    lemma_cong_mod(y - yh, p);
    lemma_cong_mul(x, x, ev, y - yh, p);
    lemma_cong_mul(y, y, dv, x - xh, p);
    lemma_cong_mod(x * ev, p);
    lemma_cong_mod(y * dv, p);
    lemma_cong_add(fmul(x, ev, p), x * (y - yh), fmul(y, dv, p), y * (x - xh), p);
    let s1 = fmul(x, ev, p) + fmul(y, dv, p);
    lemma_cong_mod(s1, p);
    lemma_cong_add(s1 % p, x * (y - yh) + y * (x - xh), zh, zh, p);
    let s2 = s1 % p + zh;
    lemma_cong_mod(s2, p);
    lemma_cong_mul(dv, x - xh, ev, y - yh, p);
    lemma_cong_mod(dv * ev, p);
    lemma_cong_sub(0, 0, fmul(dv, ev, p), (x - xh) * (y - yh), p);
    lemma_cong_mod(0 - fmul(dv, ev, p), p);
    lemma_cong_add(s2 % p, x * (y - yh) + y * (x - xh) + zh, fsub(0, fmul(dv, ev, p), p), 0 - (x
        - xh) * (y - yh), p);
    assert(x * (y - yh) + y * (x - xh) + zh + (0 - (x - xh) * (y - yh)) == x * y + zh - xh * yh)
        by (nonlinear_arith);
    lemma_cong_mod(s2 % p + fsub(0, fmul(dv, ev, p), p), p);
}

/// A multiplication run by both sides on authenticated operands and an
/// authenticated triple: each side accepts the other's honest openings,
/// and the two outputs again form an authenticated value.
pub proof fn lemma_multiply_keeps_mac(
    x: (Share, Share),
    y: (Share, Share),
    x_hat: (Share, Share),
    y_hat: (Share, Share),
    z_hat: (Share, Share),
    params: FieldParams,
)
    requires
        params.wf(),
        pair_valid(x.0, x.1, params.p as int),
        pair_valid(y.0, y.1, params.p as int),
        pair_valid(x_hat.0, x_hat.1, params.p as int),
        pair_valid(y_hat.0, y_hat.1, params.p as int),
        pair_valid(z_hat.0, z_hat.1, params.p as int),
        x.0.big_delta == y.0.big_delta && x.0.big_delta == x_hat.0.big_delta
            && x.0.big_delta == y_hat.0.big_delta && x.0.big_delta == z_hat.0.big_delta,
        x.1.big_delta == y.1.big_delta && x.1.big_delta == x_hat.1.big_delta
            && x.1.big_delta == y_hat.1.big_delta && x.1.big_delta == z_hat.1.big_delta,
    ensures
        ({
            let p = params.p as int;
            let st_cb = mul_open_state(x.0, y.0, x_hat.0, y_hat.0, z_hat.0, p);
            let st_ob = mul_open_state(x.1, y.1, x_hat.1, y_hat.1, z_hat.1, p);
            &&& mul_opens_valid(st_cb, mul_open_msg(st_ob), p)
            &&& mul_opens_valid(st_ob, mul_open_msg(st_cb), p)
            &&& pair_valid(
                mul_output(st_cb, mul_open_msg(st_ob), true, p),
                mul_output(st_ob, mul_open_msg(st_cb), false, p),
                p,
            )
        }),
{
    let p = params.p as int;
    let st_cb = mul_open_state(x.0, y.0, x_hat.0, y_hat.0, z_hat.0, p);
    let st_ob = mul_open_state(x.1, y.1, x_hat.1, y_hat.1, z_hat.1, p);
    lemma_sub_keeps_mac(x.0, x.1, x_hat.0, x_hat.1, params);
    lemma_sub_keeps_mac(y.0, y.1, y_hat.0, y_hat.1, params);
    lemma_open_accepted(st_cb.d, st_ob.d, params);
    lemma_open_accepted(st_cb.e, st_ob.e, params);
    let dv = reconstruct(st_cb.d, st_ob.d, p);
    let ev = reconstruct(st_cb.e, st_ob.e, p);
    assert(fadd(st_ob.d.value as int, st_cb.d.value as int, p) == dv);
    assert(fadd(st_ob.e.value as int, st_cb.e.value as int, p) == ev);
    lemma_mul_const_keeps_mac(x.0, x.1, ev, params);
    lemma_mul_const_keeps_mac(y.0, y.1, dv, params);
    let a_cb = x.0.spec_mul_const(ev, p);
    let a_ob = x.1.spec_mul_const(ev, p);
    let b_cb = y.0.spec_mul_const(dv, p);
    let b_ob = y.1.spec_mul_const(dv, p);
    lemma_add_keeps_mac(a_cb, a_ob, b_cb, b_ob, params);
    let s_cb = a_cb.spec_add(b_cb, p);
    let s_ob = a_ob.spec_add(b_ob, p);
    lemma_add_keeps_mac(s_cb, s_ob, z_hat.0, z_hat.1, params);
    let c = fsub(0, fmul(dv, ev, p), p);
    lemma_add_const_keeps_mac(s_cb.spec_add(z_hat.0, p), s_ob.spec_add(z_hat.1, p), c, params);
}

/// The outputs of a multiplication run by both sides reconstruct to
/// `x y + (z_hat - x_hat y_hat)`: the product of the operands, off by
/// exactly the error of the triple.
pub proof fn lemma_multiply_value(
    x: (Share, Share),
    y: (Share, Share),
    x_hat: (Share, Share),
    y_hat: (Share, Share),
    z_hat: (Share, Share),
    params: FieldParams,
)
    requires
        params.wf(),
        pair_valid(x.0, x.1, params.p as int),
        pair_valid(y.0, y.1, params.p as int),
        pair_valid(x_hat.0, x_hat.1, params.p as int),
        pair_valid(y_hat.0, y_hat.1, params.p as int),
        pair_valid(z_hat.0, z_hat.1, params.p as int),
        x.0.big_delta == y.0.big_delta && x.0.big_delta == x_hat.0.big_delta
            && x.0.big_delta == y_hat.0.big_delta && x.0.big_delta == z_hat.0.big_delta,
        x.1.big_delta == y.1.big_delta && x.1.big_delta == x_hat.1.big_delta
            && x.1.big_delta == y_hat.1.big_delta && x.1.big_delta == z_hat.1.big_delta,
    ensures
        ({
            let p = params.p as int;
            let st_cb = mul_open_state(x.0, y.0, x_hat.0, y_hat.0, z_hat.0, p);
            let st_ob = mul_open_state(x.1, y.1, x_hat.1, y_hat.1, z_hat.1, p);
            reconstruct(
                mul_output(st_cb, mul_open_msg(st_ob), true, p),
                mul_output(st_ob, mul_open_msg(st_cb), false, p),
                p,
            ) == (reconstruct(x.0, x.1, p) * reconstruct(y.0, y.1, p) + reconstruct(z_hat.0, z_hat.1, p)
                - reconstruct(x_hat.0, x_hat.1, p) * reconstruct(y_hat.0, y_hat.1, p)) % p
        }),
{
    let p = params.p as int;
    let st_cb = mul_open_state(x.0, y.0, x_hat.0, y_hat.0, z_hat.0, p);
    let st_ob = mul_open_state(x.1, y.1, x_hat.1, y_hat.1, z_hat.1, p);
    lemma_sub_keeps_mac(x.0, x.1, x_hat.0, x_hat.1, params);
    lemma_sub_keeps_mac(y.0, y.1, y_hat.0, y_hat.1, params);
    let dv = reconstruct(st_cb.d, st_ob.d, p);
    let ev = reconstruct(st_cb.e, st_ob.e, p);
    assert(fadd(st_ob.d.value as int, st_cb.d.value as int, p) == dv);
    assert(fadd(st_ob.e.value as int, st_cb.e.value as int, p) == ev);
    lemma_mul_const_keeps_mac(x.0, x.1, ev, params);
    lemma_mul_const_keeps_mac(y.0, y.1, dv, params);
    let a_cb = x.0.spec_mul_const(ev, p);
    let a_ob = x.1.spec_mul_const(ev, p);
    let b_cb = y.0.spec_mul_const(dv, p);
    let b_ob = y.1.spec_mul_const(dv, p);
    lemma_add_keeps_mac(a_cb, a_ob, b_cb, b_ob, params);
    let s_cb = a_cb.spec_add(b_cb, p);
    let s_ob = a_ob.spec_add(b_ob, p);
    lemma_add_keeps_mac(s_cb, s_ob, z_hat.0, z_hat.1, params);
    let c = fsub(0, fmul(dv, ev, p), p);
    lemma_add_const_keeps_mac(s_cb.spec_add(z_hat.0, p), s_ob.spec_add(z_hat.1, p), c, params);
    lemma_beaver_identity(
        reconstruct(x.0, x.1, p),
        reconstruct(y.0, y.1, p),
        reconstruct(x_hat.0, x_hat.1, p),
        reconstruct(y_hat.0, y_hat.1, p),
        reconstruct(z_hat.0, z_hat.1, p),
        p,
    );
}

/// With a correct triple (`z_hat = x_hat * y_hat`), the outputs of a
/// multiplication run by both sides reconstruct to the product of the
/// operands.
pub proof fn lemma_multiply_correct(
    x: (Share, Share),
    y: (Share, Share),
    x_hat: (Share, Share),
    y_hat: (Share, Share),
    z_hat: (Share, Share),
    params: FieldParams,
)
    requires
        params.wf(),
        pair_valid(x.0, x.1, params.p as int),
        pair_valid(y.0, y.1, params.p as int),
        pair_valid(x_hat.0, x_hat.1, params.p as int),
        pair_valid(y_hat.0, y_hat.1, params.p as int),
        pair_valid(z_hat.0, z_hat.1, params.p as int),
        x.0.big_delta == y.0.big_delta && x.0.big_delta == x_hat.0.big_delta
            && x.0.big_delta == y_hat.0.big_delta && x.0.big_delta == z_hat.0.big_delta,
        x.1.big_delta == y.1.big_delta && x.1.big_delta == x_hat.1.big_delta
            && x.1.big_delta == y_hat.1.big_delta && x.1.big_delta == z_hat.1.big_delta,
        reconstruct(z_hat.0, z_hat.1, params.p as int) == fmul(
            reconstruct(x_hat.0, x_hat.1, params.p as int),
            reconstruct(y_hat.0, y_hat.1, params.p as int),
            params.p as int,
        ),
    ensures
        ({
            let p = params.p as int;
            let st_cb = mul_open_state(x.0, y.0, x_hat.0, y_hat.0, z_hat.0, p);
            let st_ob = mul_open_state(x.1, y.1, x_hat.1, y_hat.1, z_hat.1, p);
            reconstruct(
                mul_output(st_cb, mul_open_msg(st_ob), true, p),
                mul_output(st_ob, mul_open_msg(st_cb), false, p),
                p,
            ) == fmul(reconstruct(x.0, x.1, p), reconstruct(y.0, y.1, p), p)
        }),
{
    let p = params.p as int;
    lemma_multiply_value(x, y, x_hat, y_hat, z_hat, params);
    let xv = reconstruct(x.0, x.1, p);
    let yv = reconstruct(y.0, y.1, p);
    let xh = reconstruct(x_hat.0, x_hat.1, p);
    let yh = reconstruct(y_hat.0, y_hat.1, p);
    lemma_cong_mod(xh * yh, p);
    lemma_cong_add(xv * yv, xv * yv, (xh * yh) % p, xh * yh, p);
    lemma_cong_sub(xv * yv + (xh * yh) % p, xv * yv + xh * yh, xh * yh, xh * yh, p);
    assert(xv * yv + xh * yh - xh * yh == xv * yv);
}

/// TestBit run by both sides on an authenticated `[x]` with a correct
/// triple: the outputs form an authenticated value that reconstructs to
/// `1 + x (x - 1)`, which is 1 when `x` is a bit (and, p being prime, only
/// then).
pub proof fn lemma_test_bit(
    x: (Share, Share),
    x_hat: (Share, Share),
    y_hat: (Share, Share),
    z_hat: (Share, Share),
    params: FieldParams,
)
    requires
        params.wf(),
        pair_valid(x.0, x.1, params.p as int),
        pair_valid(x_hat.0, x_hat.1, params.p as int),
        pair_valid(y_hat.0, y_hat.1, params.p as int),
        pair_valid(z_hat.0, z_hat.1, params.p as int),
        x.0.big_delta == x_hat.0.big_delta && x.0.big_delta == y_hat.0.big_delta
            && x.0.big_delta == z_hat.0.big_delta,
        x.1.big_delta == x_hat.1.big_delta && x.1.big_delta == y_hat.1.big_delta
            && x.1.big_delta == z_hat.1.big_delta,
        reconstruct(z_hat.0, z_hat.1, params.p as int) == fmul(
            reconstruct(x_hat.0, x_hat.1, params.p as int),
            reconstruct(y_hat.0, y_hat.1, params.p as int),
            params.p as int,
        ),
    ensures
        ({
            let p = params.p as int;
            let xv = reconstruct(x.0, x.1, p);
            let st_cb = mul_open_state(x.0, test_bit_operand(x.0, p, true, p), x_hat.0, y_hat.0, z_hat.0, p);
            let st_ob = mul_open_state(x.1, test_bit_operand(x.1, p, false, p), x_hat.1, y_hat.1, z_hat.1, p);
            let t_cb = mul_output(st_cb, mul_open_msg(st_ob), true, p).spec_add_const(1, true, p);
            let t_ob = mul_output(st_ob, mul_open_msg(st_cb), false, p).spec_add_const(1, false, p);
            &&& mul_opens_valid(st_cb, mul_open_msg(st_ob), p)
            &&& mul_opens_valid(st_ob, mul_open_msg(st_cb), p)
            &&& pair_valid(t_cb, t_ob, p)
            &&& reconstruct(t_cb, t_ob, p) == (1 + xv * (xv - 1)) % p
            &&& (xv == 0 || xv == 1) ==> reconstruct(t_cb, t_ob, p) == 1
        }),
{
    let p = params.p as int;
    let xv = reconstruct(x.0, x.1, p);
    lemma_add_const_keeps_mac(x.0, x.1, p - 1, params);
    let y = (x.0.spec_add_const_cb(p - 1, p), x.1.spec_add_const_ob(p - 1, p));
    lemma_multiply_keeps_mac(x, y, x_hat, y_hat, z_hat, params);
    lemma_multiply_correct(x, y, x_hat, y_hat, z_hat, params);
    let st_cb = mul_open_state(x.0, y.0, x_hat.0, y_hat.0, z_hat.0, p);
    let st_ob = mul_open_state(x.1, y.1, x_hat.1, y_hat.1, z_hat.1, p);
    let o_cb = mul_output(st_cb, mul_open_msg(st_ob), true, p);
    let o_ob = mul_output(st_ob, mul_open_msg(st_cb), false, p);
    lemma_add_const_keeps_mac(o_cb, o_ob, 1, params);
    let yv = fadd(xv, p - 1, p);
    let m = fmul(xv, yv, p);
    lemma_cong_mod(xv + (p - 1), p);
    vstd::arithmetic::div_mod::lemma_mod_multiples_vanish(1, xv - 1, p);
    assert(xv + (p - 1) == p * 1 + (xv - 1));
    lemma_cong_mul(xv, xv, yv, xv - 1, p);
    lemma_cong_mod(xv * yv, p);
    lemma_cong_add(m, xv * (xv - 1), 1, 1, p);
    lemma_cong_mod(m + 1, p);
    assert(xv * (xv - 1) + 1 == 1 + xv * (xv - 1));
    if xv == 0 || xv == 1 {
        assert(xv * (xv - 1) == 0) by (nonlinear_arith)
            requires xv == 0 || xv == 1;
        vstd::arithmetic::div_mod::lemma_small_mod(1, p as nat);
    }
}

} // verus!
