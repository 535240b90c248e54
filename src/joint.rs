//! Both parties' runs of the comparison protocol, side by side.
//!
//! Fed with authenticated bit shares of X and Y and with correct
//! authenticated triples, and each party answering with the openings the
//! other computed, the columns that the two parties hold at every level
//! are authenticated and reconstruct to the columns of the comparison
//! circuit; the final shares therefore reconstruct to `X > Y`.
use crate::beaver::{
    lemma_multiply_correct, lemma_multiply_keeps_mac, mul_open_msg, mul_open_state, mul_output,
    TripleShare,
};
use crate::circuit::{
    bits_value, indicator, is_bits, lemma_comparison_circuit, lemma_levels, t_level, t_next, z_level,
    z_next,
};
use crate::comparison::{
    init_states, init_t, init_z, level_t_out, level_t_states, level_z_out, level_z_states, opens_of,
};
use crate::field::{fadd, fmul, fsub, lemma_cong_add, lemma_cong_mod, lemma_cong_sub, FieldParams};
use crate::share::{
    lemma_add_const_keeps_mac, lemma_add_keeps_mac, lemma_mul_const_keeps_mac, lemma_sub_keeps_mac,
    pair_valid, reconstruct, Share,
};
use vstd::arithmetic::power2::{lemma2_to64, pow2};
use vstd::prelude::*;

verus! {

/// Entry `i` of the two parties' columns is authenticated under the keys
/// `kc`, `ko` and reconstructs to `v`.
pub open spec fn entry_ok(cb: Seq<Share>, ob: Seq<Share>, i: int, v: int, kc: u128, ko: u128, p: int) -> bool {
    &&& pair_valid(cb[i], ob[i], p)
    &&& reconstruct(cb[i], ob[i], p) == v
    &&& cb[i].big_delta == kc
    &&& ob[i].big_delta == ko
}

/// A level's columns: all `n` "x wins" entries and the "equal" entries
/// from 1 on match the circuit's columns `tc` and `zc`.
pub open spec fn columns_ok(
    z_cb: Seq<Share>,
    z_ob: Seq<Share>,
    t_cb: Seq<Share>,
    t_ob: Seq<Share>,
    zc: Seq<int>,
    tc: Seq<int>,
    n: int,
    kc: u128,
    ko: u128,
    p: int,
) -> bool {
    &&& z_cb.len() == n && z_ob.len() == n && t_cb.len() == n && t_ob.len() == n
    &&& forall|i: int| 0 <= i < n ==> entry_ok(t_cb, t_ob, i, tc[i], kc, ko, p)
    &&& forall|i: int| 1 <= i < n ==> entry_ok(z_cb, z_ob, i, zc[i], kc, ko, p)
}

/// The triples `a .. b` are authenticated under the keys and correct.
pub open spec fn triples_ok(tr_cb: Seq<TripleShare>, tr_ob: Seq<TripleShare>, a: int, b: int, kc: u128, ko: u128, p: int) -> bool {
    &&& 0 <= a <= b <= tr_cb.len()
    &&& tr_cb.len() == tr_ob.len()
    &&& forall|i: int|
        a <= i < b ==> {
            &&& pair_valid(#[trigger] tr_cb[i].x, tr_ob[i].x, p)
            &&& pair_valid(tr_cb[i].y, tr_ob[i].y, p)
            &&& pair_valid(tr_cb[i].z, tr_ob[i].z, p)
            &&& tr_cb[i].x.big_delta == kc && tr_cb[i].y.big_delta == kc && tr_cb[i].z.big_delta == kc
            &&& tr_ob[i].x.big_delta == ko && tr_ob[i].y.big_delta == ko && tr_ob[i].z.big_delta == ko
            &&& reconstruct(tr_cb[i].z, tr_ob[i].z, p) == fmul(
                reconstruct(tr_cb[i].x, tr_ob[i].x, p),
                reconstruct(tr_cb[i].y, tr_ob[i].y, p),
                p,
            )
        }
}

/// Every entry is 0 or 1, but perhaps the first.
pub open spec fn bits_from(s: Seq<int>, first: int) -> bool {
    forall|i: int| first <= i < s.len() ==> (#[trigger] s[i] == 0 || s[i] == 1)
}

/// One multiplication run by both sides with triple `k`.
proof fn lemma_product(
    a_cb: Share,
    a_ob: Share,
    b_cb: Share,
    b_ob: Share,
    tr_cb: Seq<TripleShare>,
    tr_ob: Seq<TripleShare>,
    k: int,
    av: int,
    bv: int,
    kc: u128,
    ko: u128,
    params: FieldParams,
)
    requires
        params.wf(),
        triples_ok(tr_cb, tr_ob, k, k + 1, kc, ko, params.p as int),
        pair_valid(a_cb, a_ob, params.p as int),
        pair_valid(b_cb, b_ob, params.p as int),
        reconstruct(a_cb, a_ob, params.p as int) == av,
        reconstruct(b_cb, b_ob, params.p as int) == bv,
        a_cb.big_delta == kc && b_cb.big_delta == kc,
        a_ob.big_delta == ko && b_ob.big_delta == ko,
        av == 0 || av == 1,
        bv == 0 || bv == 1,
    ensures
        ({
            let p = params.p as int;
            let st_cb = mul_open_state(a_cb, b_cb, tr_cb[k].x, tr_cb[k].y, tr_cb[k].z, p);
            let st_ob = mul_open_state(a_ob, b_ob, tr_ob[k].x, tr_ob[k].y, tr_ob[k].z, p);
            let o_cb = mul_output(st_cb, mul_open_msg(st_ob), true, p);
            let o_ob = mul_output(st_ob, mul_open_msg(st_cb), false, p);
            &&& pair_valid(o_cb, o_ob, p)
            &&& reconstruct(o_cb, o_ob, p) == av * bv
            &&& o_cb.big_delta == kc
            &&& o_ob.big_delta == ko
        }),
{
    let p = params.p as int;
    let x = (a_cb, a_ob);
    let y = (b_cb, b_ob);
    let xh = (tr_cb[k].x, tr_ob[k].x);
    let yh = (tr_cb[k].y, tr_ob[k].y);
    let zh = (tr_cb[k].z, tr_ob[k].z);
    assert(tr_cb[k].x.big_delta == kc);
    lemma_multiply_keeps_mac(x, y, xh, yh, zh, params);
    lemma_multiply_correct(x, y, xh, yh, zh, params);
    assert(av * bv == 0 || av * bv == 1) by (nonlinear_arith)
        requires av == 0 || av == 1, bv == 0 || bv == 1;
    vstd::arithmetic::div_mod::lemma_small_mod((av * bv) as nat, p as nat);
}

/// One tree level run by both sides: from circuit-matching columns of
/// width `2 half` to circuit-matching columns of width `half`.
proof fn lemma_level(
    z_cb: Seq<Share>,
    z_ob: Seq<Share>,
    t_cb: Seq<Share>,
    t_ob: Seq<Share>,
    zc: Seq<int>,
    tc: Seq<int>,
    tr_cb: Seq<TripleShare>,
    tr_ob: Seq<TripleShare>,
    off: int,
    half: int,
    kc: u128,
    ko: u128,
    params: FieldParams,
)
    requires
        params.wf(),
        half >= 1,
        zc.len() == 2 * half,
        tc.len() == 2 * half,
        columns_ok(z_cb, z_ob, t_cb, t_ob, zc, tc, 2 * half, kc, ko, params.p as int),
        bits_from(zc, 1),
        bits_from(tc, 0),
        bits_from(z_next(zc), 1),
        bits_from(t_next(tc, zc), 0),
        triples_ok(tr_cb, tr_ob, off, off + 2 * half - 1, kc, ko, params.p as int),
    ensures
        ({
            let p = params.p as int;
            let zs_cb = level_z_states(z_cb, tr_cb, off, half, p);
            let zs_ob = level_z_states(z_ob, tr_ob, off, half, p);
            let ts_cb = level_t_states(z_cb, t_cb, tr_cb, off + half - 1, half, p);
            let ts_ob = level_t_states(z_ob, t_ob, tr_ob, off + half - 1, half, p);
            columns_ok(
                level_z_out(zs_cb, opens_of(zs_ob), true, p),
                level_z_out(zs_ob, opens_of(zs_cb), false, p),
                level_t_out(ts_cb, opens_of(ts_ob), t_cb, true, p),
                level_t_out(ts_ob, opens_of(ts_cb), t_ob, false, p),
                z_next(zc),
                t_next(tc, zc),
                half,
                kc,
                ko,
                p,
            )
        }),
{
    let p = params.p as int;
    let zs_cb = level_z_states(z_cb, tr_cb, off, half, p);
    let zs_ob = level_z_states(z_ob, tr_ob, off, half, p);
    let ts_cb = level_t_states(z_cb, t_cb, tr_cb, off + half - 1, half, p);
    let ts_ob = level_t_states(z_ob, t_ob, tr_ob, off + half - 1, half, p);
    let nz_cb = level_z_out(zs_cb, opens_of(zs_ob), true, p);
    let nz_ob = level_z_out(zs_ob, opens_of(zs_cb), false, p);
    let nt_cb = level_t_out(ts_cb, opens_of(ts_ob), t_cb, true, p);
    let nt_ob = level_t_out(ts_ob, opens_of(ts_cb), t_ob, false, p);
    let zn = z_next(zc);
    let tn = t_next(tc, zc);
    assert forall|i: int| 0 <= i < half implies entry_ok(nt_cb, nt_ob, i, tn[i], kc, ko, p) by {
        assert(entry_ok(z_cb, z_ob, 2 * i + 1, zc[2 * i + 1], kc, ko, p));
        assert(entry_ok(t_cb, t_ob, 2 * i, tc[2 * i], kc, ko, p));
        assert(entry_ok(t_cb, t_ob, 2 * i + 1, tc[2 * i + 1], kc, ko, p));
        assert(zc[2 * i + 1] == 0 || zc[2 * i + 1] == 1);
        assert(tc[2 * i] == 0 || tc[2 * i] == 1);
        assert(tc[2 * i + 1] == 0 || tc[2 * i + 1] == 1);
        let k = off + half - 1 + i;
        lemma_product(z_cb[2 * i + 1], z_ob[2 * i + 1], t_cb[2 * i], t_ob[2 * i], tr_cb, tr_ob, k,
            zc[2 * i + 1], tc[2 * i], kc, ko, params);
        let st_cb = mul_open_state(z_cb[2 * i + 1], t_cb[2 * i], tr_cb[k].x, tr_cb[k].y, tr_cb[k].z, p);
        let st_ob = mul_open_state(z_ob[2 * i + 1], t_ob[2 * i], tr_ob[k].x, tr_ob[k].y, tr_ob[k].z, p);
        assert(ts_cb[i] == st_cb);
        assert(ts_ob[i] == st_ob);
        let o_cb = mul_output(st_cb, mul_open_msg(st_ob), true, p);
        let o_ob = mul_output(st_ob, mul_open_msg(st_cb), false, p);
        lemma_add_keeps_mac(o_cb, o_ob, t_cb[2 * i + 1], t_ob[2 * i + 1], params);
        assert(nt_cb[i] == o_cb.spec_add(t_cb[2 * i + 1], p));
        assert(nt_ob[i] == o_ob.spec_add(t_ob[2 * i + 1], p));
        assert(tn[i] == zc[2 * i + 1] * tc[2 * i] + tc[2 * i + 1]);
        assert(tn[i] == 0 || tn[i] == 1);
        vstd::arithmetic::div_mod::lemma_small_mod(tn[i] as nat, p as nat);
    }
    assert forall|i: int| 1 <= i < half implies entry_ok(nz_cb, nz_ob, i, zn[i], kc, ko, p) by {
        assert(entry_ok(z_cb, z_ob, 2 * i + 1, zc[2 * i + 1], kc, ko, p));
        assert(entry_ok(z_cb, z_ob, 2 * i, zc[2 * i], kc, ko, p));
        assert(zc[2 * i + 1] == 0 || zc[2 * i + 1] == 1);
        assert(zc[2 * i] == 0 || zc[2 * i] == 1);
        let k = off + i - 1;
        lemma_product(z_cb[2 * i + 1], z_ob[2 * i + 1], z_cb[2 * i], z_ob[2 * i], tr_cb, tr_ob, k,
            zc[2 * i + 1], zc[2 * i], kc, ko, params);
        assert(zs_cb[i - 1] == mul_open_state(z_cb[2 * (i - 1) + 3], z_cb[2 * (i - 1) + 2], tr_cb[k].x, tr_cb[k].y, tr_cb[k].z, p));
        assert(2 * (i - 1) + 3 == 2 * i + 1 && 2 * (i - 1) + 2 == 2 * i);
        assert(nz_cb[i] == mul_output(zs_cb[i - 1], opens_of(zs_ob)[i - 1], true, p));
        assert(zn[i] == zc[2 * i + 1] * zc[2 * i]);
    }
}

/// The level-0 columns run by both sides: from authenticated bits of X and
/// Y to circuit-matching columns.
proof fn lemma_init(
    x_cb: Seq<Share>,
    x_ob: Seq<Share>,
    y_cb: Seq<Share>,
    y_ob: Seq<Share>,
    xb: Seq<int>,
    yb: Seq<int>,
    tr_cb: Seq<TripleShare>,
    tr_ob: Seq<TripleShare>,
    kc: u128,
    ko: u128,
    params: FieldParams,
)
    requires
        params.wf(),
        x_cb.len() == xb.len() && x_ob.len() == xb.len() && y_cb.len() == xb.len() && y_ob.len() == xb.len(),
        yb.len() == xb.len(),
        is_bits(xb),
        is_bits(yb),
        forall|i: int| 0 <= i < xb.len() ==> entry_ok(x_cb, x_ob, i, xb[i], kc, ko, params.p as int),
        forall|i: int| 0 <= i < xb.len() ==> entry_ok(y_cb, y_ob, i, yb[i], kc, ko, params.p as int),
        triples_ok(tr_cb, tr_ob, 0, xb.len() as int, kc, ko, params.p as int),
    ensures
        ({
            let p = params.p as int;
            let st_cb = init_states(x_cb, y_cb, tr_cb, 0, p);
            let st_ob = init_states(x_ob, y_ob, tr_ob, 0, p);
            columns_ok(
                init_z(x_cb, y_cb, st_cb, opens_of(st_ob), true, p),
                init_z(x_ob, y_ob, st_ob, opens_of(st_cb), false, p),
                init_t(x_cb, st_cb, opens_of(st_ob), true, p),
                init_t(x_ob, st_ob, opens_of(st_cb), false, p),
                crate::circuit::z_init(xb, yb),
                crate::circuit::t_init(xb, yb),
                xb.len() as int,
                kc,
                ko,
                p,
            )
        }),
{
    let p = params.p as int;
    let n = xb.len() as int;
    let st_cb = init_states(x_cb, y_cb, tr_cb, 0, p);
    let st_ob = init_states(x_ob, y_ob, tr_ob, 0, p);
    let t_cb = init_t(x_cb, st_cb, opens_of(st_ob), true, p);
    let t_ob = init_t(x_ob, st_ob, opens_of(st_cb), false, p);
    let z_cb = init_z(x_cb, y_cb, st_cb, opens_of(st_ob), true, p);
    let z_ob = init_z(x_ob, y_ob, st_ob, opens_of(st_cb), false, p);
    let tc = crate::circuit::t_init(xb, yb);
    let zc = crate::circuit::z_init(xb, yb);
    assert forall|i: int| 0 <= i < n implies entry_ok(t_cb, t_ob, i, tc[i], kc, ko, p) && (i >= 1 ==> entry_ok(
        z_cb,
        z_ob,
        i,
        zc[i],
        kc,
        ko,
        p,
    )) by {
        assert(entry_ok(x_cb, x_ob, i, xb[i], kc, ko, p));
        assert(entry_ok(y_cb, y_ob, i, yb[i], kc, ko, p));
        let (xv, yv) = (xb[i], yb[i]);
        assert(xv == 0 || xv == 1);
        assert(yv == 0 || yv == 1);
        lemma_product(x_cb[i], x_ob[i], y_cb[i], y_ob[i], tr_cb, tr_ob, i, xv, yv, kc, ko, params);
        let o_cb = mul_output(st_cb[i], opens_of(st_ob)[i], true, p);
        let o_ob = mul_output(st_ob[i], opens_of(st_cb)[i], false, p);
        assert(st_cb[i] == mul_open_state(x_cb[i], y_cb[i], tr_cb[0 + i].x, tr_cb[0 + i].y, tr_cb[0 + i].z, p));
        assert(reconstruct(o_cb, o_ob, p) == xv * yv);
        // t = x - x y
        lemma_sub_keeps_mac(x_cb[i], x_ob[i], o_cb, o_ob, params);
        assert(t_cb[i] == x_cb[i].spec_sub(o_cb, p));
        assert(tc[i] == xv - xv * yv);
        assert(tc[i] == 0 || tc[i] == 1) by (nonlinear_arith)
            requires tc[i] == xv - xv * yv, xv == 0 || xv == 1, yv == 0 || yv == 1;
        vstd::arithmetic::div_mod::lemma_small_mod(tc[i] as nat, p as nat);
        if i >= 1 {
            // z = 2 x y + 1 - x - y
            lemma_mul_const_keeps_mac(o_cb, o_ob, 2, params);
            let a_cb = o_cb.spec_mul_const(2, p);
            let a_ob = o_ob.spec_mul_const(2, p);
            lemma_add_const_keeps_mac(a_cb, a_ob, 1, params);
            let b_cb = a_cb.spec_add_const_cb(1, p);
            let b_ob = a_ob.spec_add_const_ob(1, p);
            lemma_sub_keeps_mac(b_cb, b_ob, x_cb[i], x_ob[i], params);
            let c_cb = b_cb.spec_sub(x_cb[i], p);
            let c_ob = b_ob.spec_sub(x_ob[i], p);
            lemma_sub_keeps_mac(c_cb, c_ob, y_cb[i], y_ob[i], params);
            assert(z_cb[i] == c_cb.spec_sub(y_cb[i], p));
            assert(z_ob[i] == c_ob.spec_sub(y_ob[i], p));
            let v = 1 - xv - yv + 2 * (xv * yv);
            assert(zc[i] == v);
            assert(v == 0 || v == 1) by (nonlinear_arith)
                requires v == 1 - xv - yv + 2 * (xv * yv), xv == 0 || xv == 1, yv == 0 || yv == 1;
            let ra = fmul(xv * yv, 2, p);
            let rb = fadd(ra, 1, p);
            let rc = fsub(rb, xv, p);
            let rd = fsub(rc, yv, p);
            lemma_cong_mod(xv * yv * 2, p);
            lemma_cong_add(ra, xv * yv * 2, 1, 1, p);
            lemma_cong_mod(ra + 1, p);
            lemma_cong_sub(rb, xv * yv * 2 + 1, xv, xv, p);
            lemma_cong_mod(rb - xv, p);
            lemma_cong_sub(rc, xv * yv * 2 + 1 - xv, yv, yv, p);
            lemma_cong_mod(rc - yv, p);
            assert(xv * yv * 2 + 1 - xv - yv == v);
            vstd::arithmetic::div_mod::lemma_small_mod(v as nat, p as nat);
            vstd::arithmetic::div_mod::lemma_mod_bound(rc - yv, p);
            vstd::arithmetic::div_mod::lemma_small_mod(rd as nat, p as nat);
            assert(rd == v);
        }
    }
}

/// Where the triples of tree level `j` (1 to 7) start, in a comparison's
/// 375 triples: the 128 products of level 0 come first, then each level's
/// `half - 1` "equal" and `half` "x wins" products.
pub open spec fn level_off(j: nat) -> int {
    if j <= 1 {
        128
    } else if j == 2 {
        255
    } else if j == 3 {
        318
    } else if j == 4 {
        349
    } else if j == 5 {
        364
    } else if j == 6 {
        371
    } else {
        374
    }
}

/// Both parties' columns `(z_cb, z_ob, t_cb, t_ob)` after tree level `j`,
/// each party answering with the openings the other computed.
pub open spec fn joint_columns(
    x_cb: Seq<Share>,
    x_ob: Seq<Share>,
    y_cb: Seq<Share>,
    y_ob: Seq<Share>,
    tr_cb: Seq<TripleShare>,
    tr_ob: Seq<TripleShare>,
    j: nat,
    p: int,
) -> (Seq<Share>, Seq<Share>, Seq<Share>, Seq<Share>)
    decreases j,
{
    if j == 0 {
        let st_cb = init_states(x_cb, y_cb, tr_cb, 0, p);
        let st_ob = init_states(x_ob, y_ob, tr_ob, 0, p);
        (
            init_z(x_cb, y_cb, st_cb, opens_of(st_ob), true, p),
            init_z(x_ob, y_ob, st_ob, opens_of(st_cb), false, p),
            init_t(x_cb, st_cb, opens_of(st_ob), true, p),
            init_t(x_ob, st_ob, opens_of(st_cb), false, p),
        )
    } else {
        let (z_cb, z_ob, t_cb, t_ob) = joint_columns(x_cb, x_ob, y_cb, y_ob, tr_cb, tr_ob, (j - 1) as nat, p);
        let half = pow2((7 - j) as nat) as int;
        let off = level_off(j);
        let zs_cb = level_z_states(z_cb, tr_cb, off, half, p);
        let zs_ob = level_z_states(z_ob, tr_ob, off, half, p);
        let ts_cb = level_t_states(z_cb, t_cb, tr_cb, off + half - 1, half, p);
        let ts_ob = level_t_states(z_ob, t_ob, tr_ob, off + half - 1, half, p);
        (
            level_z_out(zs_cb, opens_of(zs_ob), true, p),
            level_z_out(zs_ob, opens_of(zs_cb), false, p),
            level_t_out(ts_cb, opens_of(ts_ob), t_cb, true, p),
            level_t_out(ts_ob, opens_of(ts_cb), t_ob, false, p),
        )
    }
}

/// The inputs of one comparison: authenticated bits of X and Y and 375
/// correct authenticated triples, under the keys `kc` and `ko`.
pub open spec fn comparison_inputs_ok(
    x_cb: Seq<Share>,
    x_ob: Seq<Share>,
    y_cb: Seq<Share>,
    y_ob: Seq<Share>,
    xb: Seq<int>,
    yb: Seq<int>,
    tr_cb: Seq<TripleShare>,
    tr_ob: Seq<TripleShare>,
    kc: u128,
    ko: u128,
    p: int,
) -> bool {
    &&& xb.len() == 128 && yb.len() == 128
    &&& x_cb.len() == 128 && x_ob.len() == 128 && y_cb.len() == 128 && y_ob.len() == 128
    &&& is_bits(xb)
    &&& is_bits(yb)
    &&& forall|i: int| 0 <= i < 128 ==> entry_ok(x_cb, x_ob, i, xb[i], kc, ko, p)
    &&& forall|i: int| 0 <= i < 128 ==> entry_ok(y_cb, y_ob, i, yb[i], kc, ko, p)
    &&& triples_ok(tr_cb, tr_ob, 0, 375, kc, ko, p)
}

proof fn lemma_joint_levels(
    x_cb: Seq<Share>,
    x_ob: Seq<Share>,
    y_cb: Seq<Share>,
    y_ob: Seq<Share>,
    xb: Seq<int>,
    yb: Seq<int>,
    tr_cb: Seq<TripleShare>,
    tr_ob: Seq<TripleShare>,
    kc: u128,
    ko: u128,
    params: FieldParams,
    j: nat,
)
    requires
        params.wf(),
        j <= 7,
        comparison_inputs_ok(x_cb, x_ob, y_cb, y_ob, xb, yb, tr_cb, tr_ob, kc, ko, params.p as int),
    ensures
        ({
            let c = joint_columns(x_cb, x_ob, y_cb, y_ob, tr_cb, tr_ob, j, params.p as int);
            columns_ok(c.0, c.1, c.2, c.3, z_level(xb, yb, j), t_level(xb, yb, j), pow2((7 - j) as nat) as int, kc, ko, params.p as int)
        }),
    decreases j,
{
    let p = params.p as int;
    lemma2_to64();
    lemma_levels(xb, yb, 7, j);
    if j == 0 {
        lemma_init(x_cb, x_ob, y_cb, y_ob, xb, yb, tr_cb, tr_ob, kc, ko, params);
    } else {
        let jp = (j - 1) as nat;
        lemma_joint_levels(x_cb, x_ob, y_cb, y_ob, xb, yb, tr_cb, tr_ob, kc, ko, params, jp);
        lemma_levels(xb, yb, 7, jp);
        let c = joint_columns(x_cb, x_ob, y_cb, y_ob, tr_cb, tr_ob, jp, p);
        let half = pow2((7 - j) as nat) as int;
        let zc = z_level(xb, yb, jp);
        let tc = t_level(xb, yb, jp);
        assert(pow2((7 - jp) as nat) == 2 * pow2((7 - j) as nat));
        vstd::arithmetic::power2::lemma_pow2_adds(jp, (7 - jp) as nat);
        assert(jp + ((7 - jp) as nat) == 7);
        let a = pow2(jp) as int;
        let b = pow2((7 - jp) as nat) as int;
        assert(a * tc.len() == a * b) by (nonlinear_arith)
            requires tc.len() * a == pow2(7), pow2(7) == a * b;
        vstd::arithmetic::mul::lemma_mul_equality_converse(a, tc.len() as int, b);
        assert(tc.len() == 2 * half);
        assert(bits_from(zc, 1)) by {
            assert forall|i: int| 1 <= i < zc.len() implies (#[trigger] zc[i] == 0 || zc[i] == 1) by {
                assert(tc[i] == t_level(xb, yb, jp)[i]);
                assert(zc[i] == indicator(bits_value(crate::circuit::block(xb, i, jp)) == bits_value(crate::circuit::block(yb, i, jp))));
            }
        }
        assert(bits_from(tc, 0)) by {
            assert forall|i: int| 0 <= i < tc.len() implies (#[trigger] tc[i] == 0 || tc[i] == 1) by {
                assert(tc[i] == indicator(bits_value(crate::circuit::block(xb, i, jp)) > bits_value(crate::circuit::block(yb, i, jp))));
            }
        }
        let zn = z_level(xb, yb, j);
        let tn = t_level(xb, yb, j);
        assert(bits_from(z_next(zc), 1)) by {
            assert forall|i: int| 1 <= i < zn.len() implies (#[trigger] zn[i] == 0 || zn[i] == 1) by {
                assert(tn[i] == t_level(xb, yb, j)[i]);
                assert(zn[i] == indicator(bits_value(crate::circuit::block(xb, i, j)) == bits_value(crate::circuit::block(yb, i, j))));
            }
        }
        assert(bits_from(t_next(tc, zc), 0)) by {
            assert forall|i: int| 0 <= i < tn.len() implies (#[trigger] tn[i] == 0 || tn[i] == 1) by {
                assert(tn[i] == indicator(bits_value(crate::circuit::block(xb, i, j)) > bits_value(crate::circuit::block(yb, i, j))));
            }
        }
        let off = level_off(j);
        assert(off + 2 * half - 1 <= 375);
        lemma_level(c.0, c.1, c.2, c.3, zc, tc, tr_cb, tr_ob, off, half, kc, ko, params);
    }
}

/// The comparison protocol computes `X > Y`: run by both parties on
/// authenticated bits of X and Y with 375 correct authenticated triples,
/// each party answering with the openings the other computed, the two final
/// shares form an authenticated value that reconstructs to 1 when X > Y and
/// to 0 otherwise.
pub proof fn lemma_comparison_protocol(
    x_cb: Seq<Share>,
    x_ob: Seq<Share>,
    y_cb: Seq<Share>,
    y_ob: Seq<Share>,
    xb: Seq<int>,
    yb: Seq<int>,
    tr_cb: Seq<TripleShare>,
    tr_ob: Seq<TripleShare>,
    kc: u128,
    ko: u128,
    params: FieldParams,
)
    requires
        params.wf(),
        comparison_inputs_ok(x_cb, x_ob, y_cb, y_ob, xb, yb, tr_cb, tr_ob, kc, ko, params.p as int),
    ensures
        ({
            let c = joint_columns(x_cb, x_ob, y_cb, y_ob, tr_cb, tr_ob, 7, params.p as int);
            &&& pair_valid(c.2[0], c.3[0], params.p as int)
            &&& reconstruct(c.2[0], c.3[0], params.p as int) == indicator(bits_value(xb) > bits_value(yb))
        }),
{
    lemma2_to64();
    lemma_joint_levels(x_cb, x_ob, y_cb, y_ob, xb, yb, tr_cb, tr_ob, kc, ko, params, 7);
    let c = joint_columns(x_cb, x_ob, y_cb, y_ob, tr_cb, tr_ob, 7, params.p as int);
    assert(entry_ok(c.2, c.3, 0, t_level(xb, yb, 7)[0], kc, ko, params.p as int));
    lemma_comparison_circuit(xb, yb, 7);
}

} // verus!
