//! Comparison protocol with fixed bit length l = 128.
//!
//! The two parties, CB moving first and OB second, evaluate the comparison circuit of
//! `circuit` on authenticated bit shares of X and Y, one tree level per
//! round, consuming 375 authenticated triples each. The output is a share
//! of `[c]`, where c = 1 if X > Y and 0 otherwise.
//!
//! Every level `j` multiplies, for each pair of neighbours `(2i, 2i+1)` of
//! level `j - 1`, `[z_{2i+1}] * [z_{2i}]` (for `i >= 1`; the lowest "equal"
//! entry is never needed) and `[z_{2i+1}] * [t_{2i}]`; the triples of a level
//! are taken in that order, the "equal" products first.
use crate::beaver::{
    mul_open_msg, mul_open_state, mul_opens_valid, mul_output, multiply_shares_open,
    multiply_shares_output, MulSharesOpen, MulSharesState, TripleShare,
};
use crate::errors::CompError;
use crate::field::FieldParams;
use crate::share::Share;
use vstd::prelude::*;

verus! {

/// Every share carries the key `k`.
pub open spec fn shares_keyed(s: Seq<Share>, k: u128) -> bool {
    forall|i: int| 0 <= i < s.len() ==> (#[trigger] s[i]).big_delta == k
}

/// Every share of every triple carries the key `k`.
pub open spec fn triples_keyed(s: Seq<TripleShare>, k: u128) -> bool {
    forall|i: int|
        0 <= i < s.len() ==> (#[trigger] s[i]).x.big_delta == k && s[i].y.big_delta == k
            && s[i].z.big_delta == k
}

/// Every multiplication state was formed from shares under the key `k`.
pub open spec fn states_keyed(s: Seq<MulSharesState>, k: u128) -> bool {
    forall|i: int|
        0 <= i < s.len() ==> (#[trigger] s[i]).x.big_delta == k && s[i].y.big_delta == k
            && s[i].z_hat.big_delta == k
}

/// The openings that a list of multiplication states sends.
pub open spec fn opens_of(s: Seq<MulSharesState>) -> Seq<MulSharesOpen> {
    Seq::new(s.len(), |i: int| mul_open_msg(s[i]))
}

/// Every opening of the peer is accepted.
pub open spec fn all_opens_valid(s: Seq<MulSharesState>, o: Seq<MulSharesOpen>, p: int) -> bool {
    s.len() == o.len() && forall|i: int| 0 <= i < s.len() ==> mul_opens_valid(#[trigger] s[i], o[i], p)
}

/// The products `[X_i] * [Y_i]` that open the comparison, with triples
/// `off ..` .
pub open spec fn init_states(x: Seq<Share>, y: Seq<Share>, tr: Seq<TripleShare>, off: int, p: int) -> Seq<MulSharesState> {
    Seq::new(x.len(), |i: int| mul_open_state(x[i], y[i], tr[off + i].x, tr[off + i].y, tr[off + i].z, p))
}

/// `[t_{i,0}] = [X_i] - [X_i Y_i]`.
pub open spec fn init_t(x: Seq<Share>, st: Seq<MulSharesState>, o: Seq<MulSharesOpen>, is_cb: bool, p: int) -> Seq<Share> {
    Seq::new(x.len(), |i: int| x[i].spec_sub(mul_output(st[i], o[i], is_cb, p), p))
}

/// `[z_{i,0}] = 1 - [X_i] - [Y_i] + 2 [X_i Y_i]` for `i >= 1`; entry 0 is
/// the zero share.
pub open spec fn init_z(x: Seq<Share>, y: Seq<Share>, st: Seq<MulSharesState>, o: Seq<MulSharesOpen>, is_cb: bool, p: int) -> Seq<Share> {
    Seq::new(
        x.len(),
        |i: int|
            if i == 0 {
                Share::zero_spec()
            } else {
                mul_output(st[i], o[i], is_cb, p).spec_mul_const(2, p).spec_add_const(1, is_cb, p).spec_sub(x[i], p).spec_sub(y[i], p)
            },
    )
}

/// The "equal" products of a level: `[z_{2i+1}] * [z_{2i}]` for
/// `1 <= i < half`, with triples `off ..`.
pub open spec fn level_z_states(z: Seq<Share>, tr: Seq<TripleShare>, off: int, half: int, p: int) -> Seq<MulSharesState> {
    Seq::new(
        (half - 1) as nat,
        |i: int|
            mul_open_state(z[2 * i + 3], z[2 * i + 2], tr[off + i].x, tr[off + i].y, tr[off + i].z, p),
    )
}

/// The "x wins" products of a level: `[z_{2i+1}] * [t_{2i}]` for
/// `0 <= i < half`, with triples `off ..`.
pub open spec fn level_t_states(z: Seq<Share>, t: Seq<Share>, tr: Seq<TripleShare>, off: int, half: int, p: int) -> Seq<MulSharesState> {
    Seq::new(
        half as nat,
        |i: int| mul_open_state(z[2 * i + 1], t[2 * i], tr[off + i].x, tr[off + i].y, tr[off + i].z, p),
    )
}

/// The "equal" entries of the next level; entry 0 is the zero share.
pub open spec fn level_z_out(zs: Seq<MulSharesState>, zo: Seq<MulSharesOpen>, is_cb: bool, p: int) -> Seq<Share> {
    Seq::new(
        zs.len() + 1,
        |i: int|
            if i == 0 {
                Share::zero_spec()
            } else {
                mul_output(zs[i - 1], zo[i - 1], is_cb, p)
            },
    )
}

/// The "x wins" entries of the next level: `[z_{2i+1} t_{2i}] + [t_{2i+1}]`.
pub open spec fn level_t_out(ts: Seq<MulSharesState>, to: Seq<MulSharesOpen>, t_prev: Seq<Share>, is_cb: bool, p: int) -> Seq<Share> {
    Seq::new(ts.len(), |i: int| mul_output(ts[i], to[i], is_cb, p).spec_add(t_prev[2 * i + 1], p))
}

/// The products of one level that this side has started, and the
/// openings it sends for them.
struct Started {
    zs: Vec<MulSharesState>,
    zo: Vec<MulSharesOpen>,
    ts: Vec<MulSharesState>,
    to: Vec<MulSharesOpen>,
}

/// Whether two session ids are equal.
pub fn same_session(a: &[u8; 32], b: &[u8; 32]) -> (r: bool)
    ensures
        r == (a@ == b@),
{
    let mut i: usize = 0;
    while i < 32
        invariant
            0 <= i <= 32,
            a@.len() == 32,
            b@.len() == 32,
            forall|k: int| 0 <= k < i ==> a@[k] == b@[k],
        decreases 32 - i,
    {
        if a[i] != b[i] {
            return false;
        }
        i += 1;
    }
    assert(a@ =~= b@);
    true
}

/// Starts the products `[X_i] * [Y_i]`.
fn open_init(x: &[Share], y: &[Share], tr: &[TripleShare], off: usize, k: u128, params: FieldParams) -> (r: (
    Vec<MulSharesState>,
    Vec<MulSharesOpen>,
))
    requires
        params.wf(),
        x@.len() == y@.len(),
        off + x@.len() <= tr@.len(),
        shares_keyed(x@, k),
        shares_keyed(y@, k),
        triples_keyed(tr@, k),
    ensures
        r.0@ == init_states(x@, y@, tr@, off as int, params.p as int),
        r.1@ == opens_of(r.0@),
        states_keyed(r.0@, k),
{
    let mut st: Vec<MulSharesState> = Vec::new();
    let mut op: Vec<MulSharesOpen> = Vec::new();
    let n = x.len();
    let tl = tr.len();
    let mut i: usize = 0;
    while i < n
        invariant
            params.wf(),
            n == x@.len(),
            tl == tr@.len(),
            x@.len() == y@.len(),
            off + x@.len() <= tr@.len(),
            shares_keyed(x@, k),
            shares_keyed(y@, k),
            triples_keyed(tr@, k),
            0 <= i <= n,
            st@.len() == i,
            op@.len() == i,
            forall|m: int| 0 <= m < i ==> #[trigger] st@[m] == init_states(x@, y@, tr@, off as int, params.p as int)[m],
            forall|m: int| 0 <= m < i ==> #[trigger] op@[m] == mul_open_msg(st@[m]),
        decreases n - i,
    {
        let t = &tr[off + i];
        let (s, o) = multiply_shares_open(&x[i], &y[i], &t.x, &t.y, &t.z, params);
        st.push(s);
        op.push(o);
        i += 1;
    }
    assert(st@ =~= init_states(x@, y@, tr@, off as int, params.p as int));
    assert(op@ =~= opens_of(st@));
    (st, op)
}

/// Every share but the first carries the key `k` (the lowest "equal" entry
/// of a level is a placeholder).
pub open spec fn tail_keyed(s: Seq<Share>, k: u128) -> bool {
    forall|i: int| 1 <= i < s.len() ==> (#[trigger] s[i]).big_delta == k
}

/// Finishes the products `[X_i] * [Y_i]` with the peer's openings and forms
/// the level-0 columns `[t_{i,0}]` and `[z_{i,0}]`.
fn output_init(
    x: &[Share],
    y: &[Share],
    st: &Vec<MulSharesState>,
    o: &Vec<MulSharesOpen>,
    is_cb: bool,
    k: u128,
    params: FieldParams,
) -> (r: Result<(Vec<Share>, Vec<Share>), CompError>)
    requires
        params.wf(),
        x@.len() == y@.len(),
        st@.len() == x@.len(),
        shares_keyed(x@, k),
        shares_keyed(y@, k),
        states_keyed(st@, k),
    ensures
        r.is_ok() <==> all_opens_valid(st@, o@, params.p as int),
        r matches Err(e) ==> e == CompError::InvalidOpen,
        r.is_ok() ==> {
            &&& r.unwrap().0@ == init_t(x@, st@, o@, is_cb, params.p as int)
            &&& r.unwrap().1@ == init_z(x@, y@, st@, o@, is_cb, params.p as int)
            &&& shares_keyed(r.unwrap().0@, k)
            &&& tail_keyed(r.unwrap().1@, k)
        },
{
    let n = x.len();
    if o.len() != n {
        return Err(CompError::InvalidOpen);
    }
    let ghost p = params.p as int;
    let mut t: Vec<Share> = Vec::new();
    let mut z: Vec<Share> = Vec::new();
    let mut i: usize = 0;
    while i < n
        invariant
            params.wf(),
            p == params.p as int,
            n == x@.len(),
            x@.len() == y@.len(),
            st@.len() == n,
            o@.len() == n,
            shares_keyed(x@, k),
            shares_keyed(y@, k),
            states_keyed(st@, k),
            0 <= i <= n,
            t@.len() == i,
            z@.len() == i,
            forall|m: int| 0 <= m < i ==> mul_opens_valid(#[trigger] st@[m], o@[m], p),
            forall|m: int| 0 <= m < i ==> #[trigger] t@[m] == init_t(x@, st@, o@, is_cb, p)[m],
            forall|m: int| 0 <= m < i ==> #[trigger] z@[m] == init_z(x@, y@, st@, o@, is_cb, p)[m],
            shares_keyed(t@, k),
            tail_keyed(z@, k),
        decreases n - i,
    {
        let xy = match multiply_shares_output(&st[i], &o[i], is_cb, params) {
            Ok(v) => v,
            Err(_) => return Err(CompError::InvalidOpen),
        };
        t.push(x[i].sub_share(&xy, params));
        if i > 0 {
            let zi = xy.mul_const(&2u128, params).add_const(&1u128, is_cb, params).sub_share(
                &x[i],
                params,
            ).sub_share(&y[i], params);
            z.push(zi);
        } else {
            z.push(Share::default());
        }
        i += 1;
    }
    assert(t@ =~= init_t(x@, st@, o@, is_cb, p));
    assert(z@ =~= init_z(x@, y@, st@, o@, is_cb, p));
    Ok((t, z))
}

/// Starts the products of one level: `[z_{2i+1}] * [z_{2i}]` for
/// `1 <= i < half` with triples `off ..`, then `[z_{2i+1}] * [t_{2i}]` for
/// `0 <= i < half` with the following triples.
fn open_level(
    z: &Vec<Share>,
    t: &Vec<Share>,
    tr: &[TripleShare],
    off: usize,
    half: usize,
    k: u128,
    params: FieldParams,
) -> (r: Started)
    requires
        params.wf(),
        half >= 1,
        z@.len() >= 2 * half,
        t@.len() >= 2 * half,
        off + 2 * half - 1 <= tr@.len(),
        tail_keyed(z@, k),
        shares_keyed(t@, k),
        triples_keyed(tr@, k),
    ensures
        r.zs@ == level_z_states(z@, tr@, off as int, half as int, params.p as int),
        r.zo@ == opens_of(r.zs@),
        r.ts@ == level_t_states(z@, t@, tr@, off + half - 1, half as int, params.p as int),
        r.to@ == opens_of(r.ts@),
        states_keyed(r.zs@, k),
        states_keyed(r.ts@, k),
{
    let ghost p = params.p as int;
    let tl = tr.len();
    let mut zs: Vec<MulSharesState> = Vec::new();
    let mut zo: Vec<MulSharesOpen> = Vec::new();
    let mut i: usize = 1;
    while i < half
        invariant
            params.wf(),
            p == params.p as int,
            tl == tr@.len(),
            half >= 1,
            z@.len() >= 2 * half,
            off + 2 * half - 1 <= tr@.len(),
            tail_keyed(z@, k),
            triples_keyed(tr@, k),
            1 <= i <= half,
            zs@.len() == i - 1,
            zo@.len() == i - 1,
            forall|m: int| 0 <= m < i - 1 ==> #[trigger] zs@[m] == level_z_states(z@, tr@, off as int, half as int, p)[m],
            forall|m: int| 0 <= m < i - 1 ==> #[trigger] zo@[m] == mul_open_msg(zs@[m]),
            states_keyed(zs@, k),
        decreases half - i,
    {
        let tri = &tr[off + i - 1];
        let (s, o) = multiply_shares_open(&z[i * 2 + 1], &z[i * 2], &tri.x, &tri.y, &tri.z, params);
        zs.push(s);
        zo.push(o);
        i += 1;
    }
    assert(zs@ =~= level_z_states(z@, tr@, off as int, half as int, p));
    assert(zo@ =~= opens_of(zs@));
    let off_t = off + half - 1;
    let mut ts: Vec<MulSharesState> = Vec::new();
    let mut to: Vec<MulSharesOpen> = Vec::new();
    let mut i: usize = 0;
    while i < half
        invariant
            params.wf(),
            p == params.p as int,
            tl == tr@.len(),
            off_t == off + half - 1,
            half >= 1,
            z@.len() >= 2 * half,
            t@.len() >= 2 * half,
            off + 2 * half - 1 <= tr@.len(),
            tail_keyed(z@, k),
            shares_keyed(t@, k),
            triples_keyed(tr@, k),
            0 <= i <= half,
            ts@.len() == i,
            to@.len() == i,
            forall|m: int| 0 <= m < i ==> #[trigger] ts@[m] == level_t_states(z@, t@, tr@, off_t as int, half as int, p)[m],
            forall|m: int| 0 <= m < i ==> #[trigger] to@[m] == mul_open_msg(ts@[m]),
            states_keyed(ts@, k),
        decreases half - i,
    {
        let tri = &tr[off_t + i];
        let (s, o) = multiply_shares_open(&z[i * 2 + 1], &t[i * 2], &tri.x, &tri.y, &tri.z, params);
        ts.push(s);
        to.push(o);
        i += 1;
    }
    assert(ts@ =~= level_t_states(z@, t@, tr@, off_t as int, half as int, p));
    assert(to@ =~= opens_of(ts@));
    Started { zs, zo, ts, to }
}

/// Finishes the products of one level with the peer's openings and forms
/// the next level's columns.
fn output_level(
    zs: &Vec<MulSharesState>,
    zo: &Vec<MulSharesOpen>,
    ts: &Vec<MulSharesState>,
    to: &Vec<MulSharesOpen>,
    t_prev: &Vec<Share>,
    is_cb: bool,
    k: u128,
    params: FieldParams,
) -> (r: Result<(Vec<Share>, Vec<Share>), CompError>)
    requires
        params.wf(),
        t_prev@.len() >= 2 * ts@.len(),
        states_keyed(zs@, k),
        states_keyed(ts@, k),
        shares_keyed(t_prev@, k),
    ensures
        r.is_ok() <==> (all_opens_valid(zs@, zo@, params.p as int) && all_opens_valid(ts@, to@, params.p as int)),
        r matches Err(e) ==> e == CompError::InvalidOpen,
        r.is_ok() ==> {
            &&& r.unwrap().0@ == level_z_out(zs@, zo@, is_cb, params.p as int)
            &&& r.unwrap().1@ == level_t_out(ts@, to@, t_prev@, is_cb, params.p as int)
            &&& tail_keyed(r.unwrap().0@, k)
            &&& shares_keyed(r.unwrap().1@, k)
        },
{
    if zo.len() != zs.len() || to.len() != ts.len() {
        return Err(CompError::InvalidOpen);
    }
    let ghost p = params.p as int;
    let mut z: Vec<Share> = Vec::new();
    z.push(Share::default());
    let mut i: usize = 0;
    while i < zs.len()
        invariant
            params.wf(),
            p == params.p as int,
            zo@.len() == zs@.len(),
            states_keyed(zs@, k),
            0 <= i <= zs@.len(),
            z@.len() == i + 1,
            forall|m: int| 0 <= m < i ==> mul_opens_valid(#[trigger] zs@[m], zo@[m], p),
            forall|m: int| 0 <= m <= i ==> #[trigger] z@[m] == level_z_out(zs@, zo@, is_cb, p)[m],
            tail_keyed(z@, k),
        decreases zs@.len() - i,
    {
        let v = match multiply_shares_output(&zs[i], &zo[i], is_cb, params) {
            Ok(v) => v,
            Err(_) => return Err(CompError::InvalidOpen),
        };
        z.push(v);
        i += 1;
    }
    assert(z@ =~= level_z_out(zs@, zo@, is_cb, p));
    let mut t: Vec<Share> = Vec::new();
    let tpl = t_prev.len();
    let mut i: usize = 0;
    while i < ts.len()
        invariant
            params.wf(),
            tpl == t_prev@.len(),
            p == params.p as int,
            to@.len() == ts@.len(),
            t_prev@.len() >= 2 * ts@.len(),
            states_keyed(ts@, k),
            shares_keyed(t_prev@, k),
            all_opens_valid(zs@, zo@, p),
            0 <= i <= ts@.len(),
            t@.len() == i,
            forall|m: int| 0 <= m < i ==> mul_opens_valid(#[trigger] ts@[m], to@[m], p),
            forall|m: int| 0 <= m < i ==> #[trigger] t@[m] == level_t_out(ts@, to@, t_prev@, is_cb, p)[m],
            shares_keyed(t@, k),
        decreases ts@.len() - i,
    {
        let v = match multiply_shares_output(&ts[i], &to[i], is_cb, params) {
            Ok(v) => v,
            Err(_) => return Err(CompError::InvalidOpen),
        };
        t.push(v.add_share(&t_prev[i * 2 + 1], params));
        i += 1;
    }
    assert(t@ =~= level_t_out(ts@, to@, t_prev@, is_cb, p));
    Ok((z, t))
}

/// Ends a level whose products this side started earlier, runs the next
/// level (open and output in one go, the peer's openings being at hand),
/// and starts the level after that: the outcome, as
/// `(t2, zs2, ts2, zs3, ts3)`, where `t2` is the "x wins" column of the
/// middle level and `zs3`, `ts3` the started products.
pub open spec fn advance_spec(
    zs1: Seq<MulSharesState>,
    zo1: Seq<MulSharesOpen>,
    ts1: Seq<MulSharesState>,
    to1: Seq<MulSharesOpen>,
    t_prev: Seq<Share>,
    zo2: Seq<MulSharesOpen>,
    to2: Seq<MulSharesOpen>,
    tr: Seq<TripleShare>,
    h2: int,
    is_cb: bool,
    p: int,
) -> (Seq<Share>, Seq<MulSharesState>, Seq<MulSharesState>, Seq<MulSharesState>, Seq<MulSharesState>) {
    let z1 = level_z_out(zs1, zo1, is_cb, p);
    let t1 = level_t_out(ts1, to1, t_prev, is_cb, p);
    let zs2 = level_z_states(z1, tr, 0, h2, p);
    let ts2 = level_t_states(z1, t1, tr, h2 - 1, h2, p);
    let z2 = level_z_out(zs2, zo2, is_cb, p);
    let t2 = level_t_out(ts2, to2, t1, is_cb, p);
    let h3 = h2 / 2;
    let zs3 = level_z_states(z2, tr, 2 * h2 - 1, h3, p);
    let ts3 = level_t_states(z2, t2, tr, 2 * h2 - 1 + h3 - 1, h3, p);
    (t2, zs2, ts2, zs3, ts3)
}

/// Every peer opening that `advance_spec` consumes is accepted.
pub open spec fn advance_ok(
    zs1: Seq<MulSharesState>,
    zo1: Seq<MulSharesOpen>,
    ts1: Seq<MulSharesState>,
    to1: Seq<MulSharesOpen>,
    t_prev: Seq<Share>,
    zo2: Seq<MulSharesOpen>,
    to2: Seq<MulSharesOpen>,
    tr: Seq<TripleShare>,
    h2: int,
    is_cb: bool,
    p: int,
) -> bool {
    let o = advance_spec(zs1, zo1, ts1, to1, t_prev, zo2, to2, tr, h2, is_cb, p);
    &&& all_opens_valid(zs1, zo1, p)
    &&& all_opens_valid(ts1, to1, p)
    &&& all_opens_valid(o.1, zo2, p)
    &&& all_opens_valid(o.2, to2, p)
}

/// The exec side of `advance_spec`: returns the products of the middle
/// level, those of the started level, and the middle "x wins" column.
fn advance(
    zs1: &Vec<MulSharesState>,
    zo1: &Vec<MulSharesOpen>,
    ts1: &Vec<MulSharesState>,
    to1: &Vec<MulSharesOpen>,
    t_prev: &Vec<Share>,
    zo2: &Vec<MulSharesOpen>,
    to2: &Vec<MulSharesOpen>,
    tr: &[TripleShare],
    h2: usize,
    is_cb: bool,
    k: u128,
    params: FieldParams,
) -> (r: Result<(Started, Started, Vec<Share>), CompError>)
    requires
        params.wf(),
        2 <= h2 <= 64,
        zs1@.len() == 2 * h2 - 1,
        ts1@.len() == 2 * h2,
        t_prev@.len() == 4 * h2,
        2 * h2 - 1 + h2 - 1 <= tr@.len(),
        states_keyed(zs1@, k),
        states_keyed(ts1@, k),
        shares_keyed(t_prev@, k),
        triples_keyed(tr@, k),
    ensures
        r.is_ok() <==> advance_ok(zs1@, zo1@, ts1@, to1@, t_prev@, zo2@, to2@, tr@, h2 as int, is_cb, params.p as int),
        r matches Err(e) ==> e == CompError::InvalidOpen,
        r.is_ok() ==> {
            let o = advance_spec(zs1@, zo1@, ts1@, to1@, t_prev@, zo2@, to2@, tr@, h2 as int, is_cb, params.p as int);
            let (a, b, t2) = r.unwrap();
            &&& a.zs@ == o.1
            &&& a.ts@ == o.2
            &&& a.zo@ == opens_of(o.1)
            &&& a.to@ == opens_of(o.2)
            &&& b.zs@ == o.3
            &&& b.ts@ == o.4
            &&& b.zo@ == opens_of(o.3)
            &&& b.to@ == opens_of(o.4)
            &&& t2@ == o.0
            &&& states_keyed(o.3, k)
            &&& states_keyed(o.4, k)
            &&& shares_keyed(o.0, k)
            &&& o.0.len() == h2
        },
{
    let (z1, t1) = match output_level(zs1, zo1, ts1, to1, t_prev, is_cb, k, params) {
        Ok(v) => v,
        Err(e) => return Err(e),
    };
    let a = open_level(&z1, &t1, tr, 0, h2, k, params);
    let (z2, t2) = match output_level(&a.zs, zo2, &a.ts, to2, &t1, is_cb, k, params) {
        Ok(v) => v,
        Err(e) => return Err(e),
    };
    let h3 = h2 / 2;
    let b = open_level(&z2, &t2, tr, 2 * h2 - 1, h3, k, params);
    Ok((a, b, t2))
}

/// CompMsg1
#[derive(Clone, Debug)]
pub struct CompMsg1 {
    /// session id
    pub session_id: [u8; 32],
    /// mul_open: 128 openings of `[X_i] * [Y_i]`
    pub mul_open: Vec<MulSharesOpen>,
}

/// CompMsg2
#[derive(Clone, Debug)]
pub struct CompMsg2 {
    /// session id
    pub session_id: [u8; 32],
    /// mul_open: 128 openings of `[X_i] * [Y_i]`
    pub mul_open: Vec<MulSharesOpen>,
    /// mul_open_t_r1: 64 openings
    pub mul_open_t_r1: Vec<MulSharesOpen>,
    /// mul_open_z_r1: 63 openings
    pub mul_open_z_r1: Vec<MulSharesOpen>,
}

/// CompMsg3
#[derive(Clone, Debug)]
pub struct CompMsg3 {
    /// session id
    pub session_id: [u8; 32],
    /// mul_open_t_r1: 64 openings
    pub mul_open_t_r1: Vec<MulSharesOpen>,
    /// mul_open_z_r1: 63 openings
    pub mul_open_z_r1: Vec<MulSharesOpen>,
    /// mul_open_t_r2: 32 openings
    pub mul_open_t_r2: Vec<MulSharesOpen>,
    /// mul_open_z_r2: 31 openings
    pub mul_open_z_r2: Vec<MulSharesOpen>,
}

/// CompMsg4
#[derive(Clone, Debug)]
pub struct CompMsg4 {
    /// session id
    pub session_id: [u8; 32],
    /// mul_open_t_r2: 32 openings
    pub mul_open_t_r2: Vec<MulSharesOpen>,
    /// mul_open_z_r2: 31 openings
    pub mul_open_z_r2: Vec<MulSharesOpen>,
    /// mul_open_t_r3: 16 openings
    pub mul_open_t_r3: Vec<MulSharesOpen>,
    /// mul_open_z_r3: 15 openings
    pub mul_open_z_r3: Vec<MulSharesOpen>,
}

/// CompMsg5
#[derive(Clone, Debug)]
pub struct CompMsg5 {
    /// session id
    pub session_id: [u8; 32],
    /// mul_open_t_r3: 16 openings
    pub mul_open_t_r3: Vec<MulSharesOpen>,
    /// mul_open_z_r3: 15 openings
    pub mul_open_z_r3: Vec<MulSharesOpen>,
    /// mul_open_t_r4: 8 openings
    pub mul_open_t_r4: Vec<MulSharesOpen>,
    /// mul_open_z_r4: 7 openings
    pub mul_open_z_r4: Vec<MulSharesOpen>,
}

/// CompMsg6
#[derive(Clone, Debug)]
pub struct CompMsg6 {
    /// session id
    pub session_id: [u8; 32],
    /// mul_open_t_r4: 8 openings
    pub mul_open_t_r4: Vec<MulSharesOpen>,
    /// mul_open_z_r4: 7 openings
    pub mul_open_z_r4: Vec<MulSharesOpen>,
    /// mul_open_t_r5: 4 openings
    pub mul_open_t_r5: Vec<MulSharesOpen>,
    /// mul_open_z_r5: 3 openings
    pub mul_open_z_r5: Vec<MulSharesOpen>,
}

/// CompMsg7
#[derive(Clone, Debug)]
pub struct CompMsg7 {
    /// session id
    pub session_id: [u8; 32],
    /// mul_open_t_r5: 4 openings
    pub mul_open_t_r5: Vec<MulSharesOpen>,
    /// mul_open_z_r5: 3 openings
    pub mul_open_z_r5: Vec<MulSharesOpen>,
    /// mul_open_t_r6: 2 openings
    pub mul_open_t_r6: Vec<MulSharesOpen>,
    /// mul_open_z_r6: 1 openings
    pub mul_open_z_r6: Vec<MulSharesOpen>,
}

/// CompMsg8
#[derive(Clone, Debug)]
pub struct CompMsg8 {
    /// session id
    pub session_id: [u8; 32],
    /// mul_open_t_r6: 2 openings
    pub mul_open_t_r6: Vec<MulSharesOpen>,
    /// mul_open_z_r6: 1 openings
    pub mul_open_z_r6: Vec<MulSharesOpen>,
    /// mul_open_t_r7: 1 opening
    pub mul_open_t_r7: Vec<MulSharesOpen>,
}

/// CompMsg9
#[derive(Clone, Debug)]
pub struct CompMsg9 {
    /// session id
    pub session_id: [u8; 32],
    /// mul_open_t_r7: 1 opening
    pub mul_open_t_r7: Vec<MulSharesOpen>,
}

/// Comparison state of CB after round 0
#[derive(Clone, Debug)]
pub struct CompStateP1R0 {
    /// session id
    pub session_id: [u8; 32],
    /// p
    pub p: u128,
    /// mul_state: the 128 products `[X_i] * [Y_i]`
    pub mul_state: Vec<MulSharesState>,
}

impl CompStateP1R0 {
    /// The key under which this side's shares are authenticated.
    pub open spec fn key(&self) -> u128 {
        self.mul_state@[0].x.big_delta
    }

    /// Well-formed: an odd modulus and 128 products under one key.
    pub open spec fn wf(&self) -> bool {
        &&& self.p % 2 == 1
        &&& self.p > 1
        &&& self.mul_state@.len() == 128
        &&& states_keyed(self.mul_state@, self.key())
    }
}

/// Comparison state of OB after round 1
#[derive(Clone, Debug)]
pub struct CompStateP2R1 {
    /// session id
    pub session_id: [u8; 32],
    /// p
    pub p: u128,
    /// mul_state_t_r1: 64 products
    pub mul_state_t_r1: Vec<MulSharesState>,
    /// mul_state_z_r1: 63 products
    pub mul_state_z_r1: Vec<MulSharesState>,
    /// t_shares: 128 shares of the previous level
    pub t_shares: Vec<Share>,
}

impl CompStateP2R1 {
    /// The key under which this side's shares are authenticated.
    pub open spec fn key(&self) -> u128 {
        self.t_shares@[0].big_delta
    }

    /// Well-formed: an odd modulus, and products and shares of the
    /// expected counts under one key.
    pub open spec fn wf(&self) -> bool {
        &&& self.p % 2 == 1
        &&& self.p > 1
        &&& self.mul_state_t_r1@.len() == 64
        &&& states_keyed(self.mul_state_t_r1@, self.key())
        &&& self.mul_state_z_r1@.len() == 63
        &&& states_keyed(self.mul_state_z_r1@, self.key())
        &&& self.t_shares@.len() == 128
        &&& shares_keyed(self.t_shares@, self.key())
    }
}

/// Comparison state of CB after round 2
#[derive(Clone, Debug)]
pub struct CompStateP1R2 {
    /// session id
    pub session_id: [u8; 32],
    /// p
    pub p: u128,
    /// mul_state_t_r2: 32 products
    pub mul_state_t_r2: Vec<MulSharesState>,
    /// mul_state_z_r2: 31 products
    pub mul_state_z_r2: Vec<MulSharesState>,
    /// t_shares: 64 shares of the previous level
    pub t_shares: Vec<Share>,
}

impl CompStateP1R2 {
    /// The key under which this side's shares are authenticated.
    pub open spec fn key(&self) -> u128 {
        self.t_shares@[0].big_delta
    }

    /// Well-formed: an odd modulus, and products and shares of the
    /// expected counts under one key.
    pub open spec fn wf(&self) -> bool {
        &&& self.p % 2 == 1
        &&& self.p > 1
        &&& self.mul_state_t_r2@.len() == 32
        &&& states_keyed(self.mul_state_t_r2@, self.key())
        &&& self.mul_state_z_r2@.len() == 31
        &&& states_keyed(self.mul_state_z_r2@, self.key())
        &&& self.t_shares@.len() == 64
        &&& shares_keyed(self.t_shares@, self.key())
    }
}

/// Comparison state of OB after round 3
#[derive(Clone, Debug)]
pub struct CompStateP2R3 {
    /// session id
    pub session_id: [u8; 32],
    /// p
    pub p: u128,
    /// mul_state_t_r3: 16 products
    pub mul_state_t_r3: Vec<MulSharesState>,
    /// mul_state_z_r3: 15 products
    pub mul_state_z_r3: Vec<MulSharesState>,
    /// t_shares: 32 shares of the previous level
    pub t_shares: Vec<Share>,
}

impl CompStateP2R3 {
    /// The key under which this side's shares are authenticated.
    pub open spec fn key(&self) -> u128 {
        self.t_shares@[0].big_delta
    }

    /// Well-formed: an odd modulus, and products and shares of the
    /// expected counts under one key.
    pub open spec fn wf(&self) -> bool {
        &&& self.p % 2 == 1
        &&& self.p > 1
        &&& self.mul_state_t_r3@.len() == 16
        &&& states_keyed(self.mul_state_t_r3@, self.key())
        &&& self.mul_state_z_r3@.len() == 15
        &&& states_keyed(self.mul_state_z_r3@, self.key())
        &&& self.t_shares@.len() == 32
        &&& shares_keyed(self.t_shares@, self.key())
    }
}

/// Comparison state of CB after round 4
#[derive(Clone, Debug)]
pub struct CompStateP1R4 {
    /// session id
    pub session_id: [u8; 32],
    /// p
    pub p: u128,
    /// mul_state_t_r4: 8 products
    pub mul_state_t_r4: Vec<MulSharesState>,
    /// mul_state_z_r4: 7 products
    pub mul_state_z_r4: Vec<MulSharesState>,
    /// t_shares: 16 shares of the previous level
    pub t_shares: Vec<Share>,
}

impl CompStateP1R4 {
    /// The key under which this side's shares are authenticated.
    pub open spec fn key(&self) -> u128 {
        self.t_shares@[0].big_delta
    }

    /// Well-formed: an odd modulus, and products and shares of the
    /// expected counts under one key.
    pub open spec fn wf(&self) -> bool {
        &&& self.p % 2 == 1
        &&& self.p > 1
        &&& self.mul_state_t_r4@.len() == 8
        &&& states_keyed(self.mul_state_t_r4@, self.key())
        &&& self.mul_state_z_r4@.len() == 7
        &&& states_keyed(self.mul_state_z_r4@, self.key())
        &&& self.t_shares@.len() == 16
        &&& shares_keyed(self.t_shares@, self.key())
    }
}

/// Comparison state of OB after round 5
#[derive(Clone, Debug)]
pub struct CompStateP2R5 {
    /// session id
    pub session_id: [u8; 32],
    /// p
    pub p: u128,
    /// mul_state_t_r5: 4 products
    pub mul_state_t_r5: Vec<MulSharesState>,
    /// mul_state_z_r5: 3 products
    pub mul_state_z_r5: Vec<MulSharesState>,
    /// t_shares: 8 shares of the previous level
    pub t_shares: Vec<Share>,
}

impl CompStateP2R5 {
    /// The key under which this side's shares are authenticated.
    pub open spec fn key(&self) -> u128 {
        self.t_shares@[0].big_delta
    }

    /// Well-formed: an odd modulus, and products and shares of the
    /// expected counts under one key.
    pub open spec fn wf(&self) -> bool {
        &&& self.p % 2 == 1
        &&& self.p > 1
        &&& self.mul_state_t_r5@.len() == 4
        &&& states_keyed(self.mul_state_t_r5@, self.key())
        &&& self.mul_state_z_r5@.len() == 3
        &&& states_keyed(self.mul_state_z_r5@, self.key())
        &&& self.t_shares@.len() == 8
        &&& shares_keyed(self.t_shares@, self.key())
    }
}

/// Comparison state of CB after round 6
#[derive(Clone, Debug)]
pub struct CompStateP1R6 {
    /// session id
    pub session_id: [u8; 32],
    /// p
    pub p: u128,
    /// mul_state_t_r6: 2 products
    pub mul_state_t_r6: Vec<MulSharesState>,
    /// mul_state_z_r6: 1 products
    pub mul_state_z_r6: Vec<MulSharesState>,
    /// t_shares: 4 shares of the previous level
    pub t_shares: Vec<Share>,
}

impl CompStateP1R6 {
    /// The key under which this side's shares are authenticated.
    pub open spec fn key(&self) -> u128 {
        self.t_shares@[0].big_delta
    }

    /// Well-formed: an odd modulus, and products and shares of the
    /// expected counts under one key.
    pub open spec fn wf(&self) -> bool {
        &&& self.p % 2 == 1
        &&& self.p > 1
        &&& self.mul_state_t_r6@.len() == 2
        &&& states_keyed(self.mul_state_t_r6@, self.key())
        &&& self.mul_state_z_r6@.len() == 1
        &&& states_keyed(self.mul_state_z_r6@, self.key())
        &&& self.t_shares@.len() == 4
        &&& shares_keyed(self.t_shares@, self.key())
    }
}

/// Comparison state of OB after round 7
#[derive(Clone, Debug)]
pub struct CompStateP2R7 {
    /// session id
    pub session_id: [u8; 32],
    /// p
    pub p: u128,
    /// mul_state_t_r7: 1 products
    pub mul_state_t_r7: Vec<MulSharesState>,
    /// t_shares: 2 shares of the previous level
    pub t_shares: Vec<Share>,
}

impl CompStateP2R7 {
    /// The key under which this side's shares are authenticated.
    pub open spec fn key(&self) -> u128 {
        self.t_shares@[0].big_delta
    }

    /// Well-formed: an odd modulus, and products and shares of the
    /// expected counts under one key.
    pub open spec fn wf(&self) -> bool {
        &&& self.p % 2 == 1
        &&& self.p > 1
        &&& self.mul_state_t_r7@.len() == 1
        &&& states_keyed(self.mul_state_t_r7@, self.key())
        &&& self.t_shares@.len() == 2
        &&& shares_keyed(self.t_shares@, self.key())
    }
}

/// OB's first round succeeds: the session matches and CB's openings of
/// `[X_i] * [Y_i]` are accepted.
pub open spec fn comp_msg1_ok(session_id: [u8; 32], x: Seq<Share>, y: Seq<Share>, tr: Seq<TripleShare>, p: int, msg1: CompMsg1) -> bool {
    &&& session_id@ == msg1.session_id@
    &&& all_opens_valid(init_states(x, y, tr, 0, p), msg1.mul_open@, p)
}

/// What OB's first round returns when it succeeds.
pub open spec fn comp_msg1_result(
    session_id: [u8; 32],
    x: Seq<Share>,
    y: Seq<Share>,
    tr: Seq<TripleShare>,
    p: int,
    msg1: CompMsg1,
    st: CompStateP2R1,
    m: CompMsg2,
) -> bool {
    let st0 = init_states(x, y, tr, 0, p);
    let t0 = init_t(x, st0, msg1.mul_open@, false, p);
    let z0 = init_z(x, y, st0, msg1.mul_open@, false, p);
    &&& st.session_id == session_id
    &&& m.session_id == session_id
    &&& st.p == p
    &&& st.t_shares@ == t0
    &&& st.mul_state_z_r1@ == level_z_states(z0, tr, 128, 64, p)
    &&& st.mul_state_t_r1@ == level_t_states(z0, t0, tr, 191, 64, p)
    &&& m.mul_open@ == opens_of(st0)
    &&& m.mul_open_z_r1@ == opens_of(st.mul_state_z_r1@)
    &&& m.mul_open_t_r1@ == opens_of(st.mul_state_t_r1@)
}

/// CB's second round succeeds: the session matches and every opening of
/// OB is accepted.
pub open spec fn comp_msg2_ok(state: CompStateP1R0, x: Seq<Share>, y: Seq<Share>, tr: Seq<TripleShare>, msg2: CompMsg2) -> bool {
    let p = state.p as int;
    let t0 = init_t(x, state.mul_state@, msg2.mul_open@, true, p);
    let z0 = init_z(x, y, state.mul_state@, msg2.mul_open@, true, p);
    &&& state.session_id@ == msg2.session_id@
    &&& all_opens_valid(state.mul_state@, msg2.mul_open@, p)
    &&& all_opens_valid(level_z_states(z0, tr, 0, 64, p), msg2.mul_open_z_r1@, p)
    &&& all_opens_valid(level_t_states(z0, t0, tr, 63, 64, p), msg2.mul_open_t_r1@, p)
}

/// Round 3 of the comparison succeeds: the session matches and every
/// opening of the peer is accepted.
pub open spec fn comp_msg3_ok(state: CompStateP2R1, tr: Seq<TripleShare>, msg3: CompMsg3) -> bool {
    &&& state.session_id@ == msg3.session_id@
    &&& advance_ok(
        state.mul_state_z_r1@,
        msg3.mul_open_z_r1@,
        state.mul_state_t_r1@,
        msg3.mul_open_t_r1@,
        state.t_shares@,
        msg3.mul_open_z_r2@,
        msg3.mul_open_t_r2@,
        tr,
        32,
        false,
        state.p as int,
    )
}

/// Round 4 of the comparison succeeds: the session matches and every
/// opening of the peer is accepted.
pub open spec fn comp_msg4_ok(state: CompStateP1R2, tr: Seq<TripleShare>, msg4: CompMsg4) -> bool {
    &&& state.session_id@ == msg4.session_id@
    &&& advance_ok(
        state.mul_state_z_r2@,
        msg4.mul_open_z_r2@,
        state.mul_state_t_r2@,
        msg4.mul_open_t_r2@,
        state.t_shares@,
        msg4.mul_open_z_r3@,
        msg4.mul_open_t_r3@,
        tr,
        16,
        true,
        state.p as int,
    )
}

/// Round 5 of the comparison succeeds: the session matches and every
/// opening of the peer is accepted.
pub open spec fn comp_msg5_ok(state: CompStateP2R3, tr: Seq<TripleShare>, msg5: CompMsg5) -> bool {
    &&& state.session_id@ == msg5.session_id@
    &&& advance_ok(
        state.mul_state_z_r3@,
        msg5.mul_open_z_r3@,
        state.mul_state_t_r3@,
        msg5.mul_open_t_r3@,
        state.t_shares@,
        msg5.mul_open_z_r4@,
        msg5.mul_open_t_r4@,
        tr,
        8,
        false,
        state.p as int,
    )
}

/// Round 6 of the comparison succeeds: the session matches and every
/// opening of the peer is accepted.
pub open spec fn comp_msg6_ok(state: CompStateP1R4, tr: Seq<TripleShare>, msg6: CompMsg6) -> bool {
    &&& state.session_id@ == msg6.session_id@
    &&& advance_ok(
        state.mul_state_z_r4@,
        msg6.mul_open_z_r4@,
        state.mul_state_t_r4@,
        msg6.mul_open_t_r4@,
        state.t_shares@,
        msg6.mul_open_z_r5@,
        msg6.mul_open_t_r5@,
        tr,
        4,
        true,
        state.p as int,
    )
}

/// Round 7 of the comparison succeeds: the session matches and every
/// opening of the peer is accepted.
pub open spec fn comp_msg7_ok(state: CompStateP2R5, tr: Seq<TripleShare>, msg7: CompMsg7) -> bool {
    &&& state.session_id@ == msg7.session_id@
    &&& advance_ok(
        state.mul_state_z_r5@,
        msg7.mul_open_z_r5@,
        state.mul_state_t_r5@,
        msg7.mul_open_t_r5@,
        state.t_shares@,
        msg7.mul_open_z_r6@,
        msg7.mul_open_t_r6@,
        tr,
        2,
        false,
        state.p as int,
    )
}

/// CB's last round succeeds: the session matches and every opening of OB
/// is accepted.
pub open spec fn comp_msg8_ok(state: CompStateP1R6, tr: Seq<TripleShare>, msg8: CompMsg8) -> bool {
    let p = state.p as int;
    let z6 = level_z_out(state.mul_state_z_r6@, msg8.mul_open_z_r6@, true, p);
    let t6 = level_t_out(state.mul_state_t_r6@, msg8.mul_open_t_r6@, state.t_shares@, true, p);
    &&& state.session_id@ == msg8.session_id@
    &&& all_opens_valid(state.mul_state_z_r6@, msg8.mul_open_z_r6@, p)
    &&& all_opens_valid(state.mul_state_t_r6@, msg8.mul_open_t_r6@, p)
    &&& all_opens_valid(level_t_states(z6, t6, tr, 0, 1, p), msg8.mul_open_t_r7@, p)
}

/// OB's last round succeeds: the session matches and CB's openings are
/// accepted.
pub open spec fn comp_msg9_ok(state: CompStateP2R7, msg9: CompMsg9) -> bool {
    &&& state.session_id@ == msg9.session_id@
    &&& all_opens_valid(state.mul_state_t_r7@, msg9.mul_open_t_r7@, state.p as int)
}

/// The bit shares and triples of one side all carry the key of `x[0]`.
pub open spec fn inputs_keyed(x: Seq<Share>, y: Seq<Share>, tr: Seq<TripleShare>) -> bool {
    &&& x.len() > 0
    &&& shares_keyed(x, x[0].big_delta)
    &&& shares_keyed(y, x[0].big_delta)
    &&& triples_keyed(tr, x[0].big_delta)
}

/// CB creates CompMsg1 for OB: starts the 128 products `[X_i] * [Y_i]`
/// with the triples `auth_triples[0..128]`.
pub fn comp_create_msg1(
    session_id: &[u8; 32],
    x: &[Share],
    y: &[Share],
    auth_triples: &[TripleShare],
    p: u128,
) -> (r: (CompStateP1R0, CompMsg1))
    requires
        p % 2 == 1,
        p > 1,
        x@.len() == 128,
        y@.len() == 128,
        auth_triples@.len() >= 128,
        inputs_keyed(x@, y@, auth_triples@),
    ensures
        r.0.session_id == *session_id,
        r.1.session_id == *session_id,
        r.0.p == p,
        r.0.mul_state@ == init_states(x@, y@, auth_triples@, 0, p as int),
        r.1.mul_open@ == opens_of(r.0.mul_state@),
        r.0.wf(),
        r.0.key() == x@[0].big_delta,
{
    let params = FieldParams { p };
    let k = x[0].big_delta;
    let (mul_state, mul_open) = open_init(x, y, auth_triples, 0, k, params);
    let state = CompStateP1R0 { session_id: *session_id, p, mul_state };
    let msg1 = CompMsg1 { session_id: *session_id, mul_open };
    (state, msg1)
}

/// OB processes CompMsg1 from CB: finishes `[X_i] * [Y_i]` (triples
/// `0..128`), forms level 0 and starts level 1 (triples `128..255`).
pub fn comp_process_msg1(
    session_id: &[u8; 32],
    x: &[Share],
    y: &[Share],
    auth_triples: &[TripleShare],
    p: u128,
    msg1: &CompMsg1,
) -> (r: Result<(CompStateP2R1, CompMsg2), CompError>)
    requires
        p % 2 == 1,
        p > 1,
        x@.len() == 128,
        y@.len() == 128,
        auth_triples@.len() >= 255,
        inputs_keyed(x@, y@, auth_triples@),
    ensures
        r matches Ok((st, m)) ==> comp_msg1_result(*session_id, x@, y@, auth_triples@, p as int, *msg1, st, m),
        r.is_ok() <==> comp_msg1_ok(*session_id, x@, y@, auth_triples@, p as int, *msg1),
        (r matches Err(e) && e == CompError::InvalidSessionID) <==> session_id@ != msg1.session_id@,
        session_id@ == msg1.session_id@ ==> (r.is_ok() <==> all_opens_valid(
            init_states(x@, y@, auth_triples@, 0, p as int),
            msg1.mul_open@,
            p as int,
        )),
        r matches Err(e) ==> e == CompError::InvalidSessionID || e == CompError::InvalidOpen,
        r matches Ok((st, m)) ==> {
            let p = p as int;
            let st0 = init_states(x@, y@, auth_triples@, 0, p);
            let t0 = init_t(x@, st0, msg1.mul_open@, false, p);
            let z0 = init_z(x@, y@, st0, msg1.mul_open@, false, p);
            &&& st.session_id == *session_id
            &&& m.session_id == *session_id
            &&& st.p == p
            &&& st.t_shares@ == t0
            &&& st.mul_state_z_r1@ == level_z_states(z0, auth_triples@, 128, 64, p)
            &&& st.mul_state_t_r1@ == level_t_states(z0, t0, auth_triples@, 191, 64, p)
            &&& m.mul_open@ == opens_of(st0)
            &&& m.mul_open_z_r1@ == opens_of(st.mul_state_z_r1@)
            &&& m.mul_open_t_r1@ == opens_of(st.mul_state_t_r1@)
            &&& st.wf()
            &&& st.key() == x@[0].big_delta
        },
{
    if !same_session(session_id, &msg1.session_id) {
        return Err(CompError::InvalidSessionID);
    }
    let params = FieldParams { p };
    let k = x[0].big_delta;
    let (st0, op0) = open_init(x, y, auth_triples, 0, k, params);
    let (t0, z0) = match output_init(x, y, &st0, &msg1.mul_open, false, k, params) {
        Ok(v) => v,
        Err(e) => return Err(e),
    };
    let a = open_level(&z0, &t0, auth_triples, 128, 64, k, params);
    let state = CompStateP2R1 {
        session_id: *session_id,
        p,
        mul_state_t_r1: a.ts,
        mul_state_z_r1: a.zs,
        t_shares: t0,
    };
    let msg2 = CompMsg2 {
        session_id: *session_id,
        mul_open: op0,
        mul_open_t_r1: a.to,
        mul_open_z_r1: a.zo,
    };
    Ok((state, msg2))
}

/// CB processes CompMsg2 from OB: finishes `[X_i] * [Y_i]`, runs level 1
/// (triples `0..127`) and starts level 2 (triples `127..190`).
pub fn comp_process_msg2(
    state: &CompStateP1R0,
    x: &[Share],
    y: &[Share],
    auth_triples: &[TripleShare],
    msg2: &CompMsg2,
) -> (r: Result<(CompStateP1R2, CompMsg3), CompError>)
    requires
        state.wf(),
        x@.len() == 128,
        y@.len() == 128,
        auth_triples@.len() >= 190,
        shares_keyed(x@, state.key()),
        shares_keyed(y@, state.key()),
        triples_keyed(auth_triples@, state.key()),
    ensures
        r.is_ok() <==> comp_msg2_ok(*state, x@, y@, auth_triples@, *msg2),
        (r matches Err(e) && e == CompError::InvalidSessionID) <==> state.session_id@ != msg2.session_id@,
        r matches Err(e) ==> e == CompError::InvalidSessionID || e == CompError::InvalidOpen,
        ({
            let p = state.p as int;
            let t0 = init_t(x@, state.mul_state@, msg2.mul_open@, true, p);
            let z0 = init_z(x@, y@, state.mul_state@, msg2.mul_open@, true, p);
            let zs1 = level_z_states(z0, auth_triples@, 0, 64, p);
            let ts1 = level_t_states(z0, t0, auth_triples@, 63, 64, p);
            let z1 = level_z_out(zs1, msg2.mul_open_z_r1@, true, p);
            let t1 = level_t_out(ts1, msg2.mul_open_t_r1@, t0, true, p);
            &&& state.session_id@ == msg2.session_id@ ==> (r.is_ok() <==> (all_opens_valid(
                state.mul_state@,
                msg2.mul_open@,
                p,
            ) && all_opens_valid(zs1, msg2.mul_open_z_r1@, p) && all_opens_valid(ts1, msg2.mul_open_t_r1@, p)))
            &&& r matches Ok((st, m)) ==> {
                &&& st.session_id == state.session_id
                &&& m.session_id == state.session_id
                &&& st.p == state.p
                &&& st.t_shares@ == t1
                &&& st.mul_state_z_r2@ == level_z_states(z1, auth_triples@, 127, 32, p)
                &&& st.mul_state_t_r2@ == level_t_states(z1, t1, auth_triples@, 158, 32, p)
                &&& m.mul_open_z_r1@ == opens_of(zs1)
                &&& m.mul_open_t_r1@ == opens_of(ts1)
                &&& m.mul_open_z_r2@ == opens_of(st.mul_state_z_r2@)
                &&& m.mul_open_t_r2@ == opens_of(st.mul_state_t_r2@)
                &&& st.wf()
                &&& st.key() == state.key()
            }
        }),
{
    if !same_session(&state.session_id, &msg2.session_id) {
        return Err(CompError::InvalidSessionID);
    }
    let params = FieldParams { p: state.p };
    let k = state.mul_state[0].x.big_delta;
    let (t0, z0) = match output_init(x, y, &state.mul_state, &msg2.mul_open, true, k, params) {
        Ok(v) => v,
        Err(e) => return Err(e),
    };
    let a = open_level(&z0, &t0, auth_triples, 0, 64, k, params);
    let (z1, t1) = match output_level(&a.zs, &msg2.mul_open_z_r1, &a.ts, &msg2.mul_open_t_r1, &t0, true, k, params) {
        Ok(v) => v,
        Err(e) => return Err(e),
    };
    let b = open_level(&z1, &t1, auth_triples, 127, 32, k, params);
    let next_state = CompStateP1R2 {
        session_id: state.session_id,
        p: state.p,
        mul_state_t_r2: b.ts,
        mul_state_z_r2: b.zs,
        t_shares: t1,
    };
    let msg3 = CompMsg3 {
        session_id: state.session_id,
        mul_open_t_r1: a.to,
        mul_open_z_r1: a.zo,
        mul_open_t_r2: b.to,
        mul_open_z_r2: b.zo,
    };
    Ok((next_state, msg3))
}

/// OB processes CompMsg3: finishes level 1, runs level 2 (triples
/// `0..63`) and starts level 3 (triples `63..94`).
pub fn comp_process_msg3(
    state: &CompStateP2R1,
    auth_triples: &[TripleShare],
    msg3: &CompMsg3,
) -> (r: Result<(CompStateP2R3, CompMsg4), CompError>)
    requires
        state.wf(),
        auth_triples@.len() >= 94,
        triples_keyed(auth_triples@, state.key()),
    ensures
        r.is_ok() <==> comp_msg3_ok(*state, auth_triples@, *msg3),
        (r matches Err(e) && e == CompError::InvalidSessionID) <==> state.session_id@ != msg3.session_id@,
        r matches Err(e) ==> e == CompError::InvalidSessionID || e == CompError::InvalidOpen,
        state.session_id@ == msg3.session_id@ ==> (r.is_ok() <==> advance_ok(
            state.mul_state_z_r1@,
            msg3.mul_open_z_r1@,
            state.mul_state_t_r1@,
            msg3.mul_open_t_r1@,
            state.t_shares@,
            msg3.mul_open_z_r2@,
            msg3.mul_open_t_r2@,
            auth_triples@,
            32,
            false,
            state.p as int,
        )),
        r matches Ok((st, m)) ==> {
            let o = advance_spec(
                state.mul_state_z_r1@,
                msg3.mul_open_z_r1@,
                state.mul_state_t_r1@,
                msg3.mul_open_t_r1@,
                state.t_shares@,
                msg3.mul_open_z_r2@,
                msg3.mul_open_t_r2@,
                auth_triples@,
                32,
                false,
                state.p as int,
            );
            &&& st.session_id == state.session_id
            &&& m.session_id == state.session_id
            &&& st.p == state.p
            &&& st.t_shares@ == o.0
                &&& st.mul_state_z_r3@ == o.3
            &&& st.mul_state_t_r3@ == o.4
            &&& m.mul_open_z_r2@ == opens_of(o.1)
            &&& m.mul_open_t_r2@ == opens_of(o.2)
                &&& m.mul_open_z_r3@ == opens_of(o.3)
            &&& m.mul_open_t_r3@ == opens_of(o.4)
            &&& st.wf()
            &&& st.key() == state.key()
        },
{
    if !same_session(&state.session_id, &msg3.session_id) {
        return Err(CompError::InvalidSessionID);
    }
    let params = FieldParams { p: state.p };
    let k = state.t_shares[0].big_delta;
    let (a, b, t2) = match advance(
        &state.mul_state_z_r1,
        &msg3.mul_open_z_r1,
        &state.mul_state_t_r1,
        &msg3.mul_open_t_r1,
        &state.t_shares,
        &msg3.mul_open_z_r2,
        &msg3.mul_open_t_r2,
        auth_triples,
        32,
        false,
        k,
        params,
    ) {
        Ok(v) => v,
        Err(e) => return Err(e),
    };
    let next_state = CompStateP2R3 {
        session_id: state.session_id,
        p: state.p,
        mul_state_t_r3: b.ts,
        mul_state_z_r3: b.zs,
        t_shares: t2,
    };
    let msg4 = CompMsg4 {
        session_id: state.session_id,
        mul_open_t_r2: a.to,
        mul_open_z_r2: a.zo,
        mul_open_t_r3: b.to,
        mul_open_z_r3: b.zo,
    };
    Ok((next_state, msg4))
}

/// CB processes CompMsg4: finishes level 2, runs level 3 (triples
/// `0..31`) and starts level 4 (triples `31..46`).
pub fn comp_process_msg4(
    state: &CompStateP1R2,
    auth_triples: &[TripleShare],
    msg4: &CompMsg4,
) -> (r: Result<(CompStateP1R4, CompMsg5), CompError>)
    requires
        state.wf(),
        auth_triples@.len() >= 46,
        triples_keyed(auth_triples@, state.key()),
    ensures
        r.is_ok() <==> comp_msg4_ok(*state, auth_triples@, *msg4),
        (r matches Err(e) && e == CompError::InvalidSessionID) <==> state.session_id@ != msg4.session_id@,
        r matches Err(e) ==> e == CompError::InvalidSessionID || e == CompError::InvalidOpen,
        state.session_id@ == msg4.session_id@ ==> (r.is_ok() <==> advance_ok(
            state.mul_state_z_r2@,
            msg4.mul_open_z_r2@,
            state.mul_state_t_r2@,
            msg4.mul_open_t_r2@,
            state.t_shares@,
            msg4.mul_open_z_r3@,
            msg4.mul_open_t_r3@,
            auth_triples@,
            16,
            true,
            state.p as int,
        )),
        r matches Ok((st, m)) ==> {
            let o = advance_spec(
                state.mul_state_z_r2@,
                msg4.mul_open_z_r2@,
                state.mul_state_t_r2@,
                msg4.mul_open_t_r2@,
                state.t_shares@,
                msg4.mul_open_z_r3@,
                msg4.mul_open_t_r3@,
                auth_triples@,
                16,
                true,
                state.p as int,
            );
            &&& st.session_id == state.session_id
            &&& m.session_id == state.session_id
            &&& st.p == state.p
            &&& st.t_shares@ == o.0
                &&& st.mul_state_z_r4@ == o.3
            &&& st.mul_state_t_r4@ == o.4
            &&& m.mul_open_z_r3@ == opens_of(o.1)
            &&& m.mul_open_t_r3@ == opens_of(o.2)
                &&& m.mul_open_z_r4@ == opens_of(o.3)
            &&& m.mul_open_t_r4@ == opens_of(o.4)
            &&& st.wf()
            &&& st.key() == state.key()
        },
{
    if !same_session(&state.session_id, &msg4.session_id) {
        return Err(CompError::InvalidSessionID);
    }
    let params = FieldParams { p: state.p };
    let k = state.t_shares[0].big_delta;
    let (a, b, t2) = match advance(
        &state.mul_state_z_r2,
        &msg4.mul_open_z_r2,
        &state.mul_state_t_r2,
        &msg4.mul_open_t_r2,
        &state.t_shares,
        &msg4.mul_open_z_r3,
        &msg4.mul_open_t_r3,
        auth_triples,
        16,
        true,
        k,
        params,
    ) {
        Ok(v) => v,
        Err(e) => return Err(e),
    };
    let next_state = CompStateP1R4 {
        session_id: state.session_id,
        p: state.p,
        mul_state_t_r4: b.ts,
        mul_state_z_r4: b.zs,
        t_shares: t2,
    };
    let msg5 = CompMsg5 {
        session_id: state.session_id,
        mul_open_t_r3: a.to,
        mul_open_z_r3: a.zo,
        mul_open_t_r4: b.to,
        mul_open_z_r4: b.zo,
    };
    Ok((next_state, msg5))
}

/// OB processes CompMsg5: finishes level 3, runs level 4 (triples
/// `0..15`) and starts level 5 (triples `15..22`).
pub fn comp_process_msg5(
    state: &CompStateP2R3,
    auth_triples: &[TripleShare],
    msg5: &CompMsg5,
) -> (r: Result<(CompStateP2R5, CompMsg6), CompError>)
    requires
        state.wf(),
        auth_triples@.len() >= 22,
        triples_keyed(auth_triples@, state.key()),
    ensures
        r.is_ok() <==> comp_msg5_ok(*state, auth_triples@, *msg5),
        (r matches Err(e) && e == CompError::InvalidSessionID) <==> state.session_id@ != msg5.session_id@,
        r matches Err(e) ==> e == CompError::InvalidSessionID || e == CompError::InvalidOpen,
        state.session_id@ == msg5.session_id@ ==> (r.is_ok() <==> advance_ok(
            state.mul_state_z_r3@,
            msg5.mul_open_z_r3@,
            state.mul_state_t_r3@,
            msg5.mul_open_t_r3@,
            state.t_shares@,
            msg5.mul_open_z_r4@,
            msg5.mul_open_t_r4@,
            auth_triples@,
            8,
            false,
            state.p as int,
        )),
        r matches Ok((st, m)) ==> {
            let o = advance_spec(
                state.mul_state_z_r3@,
                msg5.mul_open_z_r3@,
                state.mul_state_t_r3@,
                msg5.mul_open_t_r3@,
                state.t_shares@,
                msg5.mul_open_z_r4@,
                msg5.mul_open_t_r4@,
                auth_triples@,
                8,
                false,
                state.p as int,
            );
            &&& st.session_id == state.session_id
            &&& m.session_id == state.session_id
            &&& st.p == state.p
            &&& st.t_shares@ == o.0
                &&& st.mul_state_z_r5@ == o.3
            &&& st.mul_state_t_r5@ == o.4
            &&& m.mul_open_z_r4@ == opens_of(o.1)
            &&& m.mul_open_t_r4@ == opens_of(o.2)
                &&& m.mul_open_z_r5@ == opens_of(o.3)
            &&& m.mul_open_t_r5@ == opens_of(o.4)
            &&& st.wf()
            &&& st.key() == state.key()
        },
{
    if !same_session(&state.session_id, &msg5.session_id) {
        return Err(CompError::InvalidSessionID);
    }
    let params = FieldParams { p: state.p };
    let k = state.t_shares[0].big_delta;
    let (a, b, t2) = match advance(
        &state.mul_state_z_r3,
        &msg5.mul_open_z_r3,
        &state.mul_state_t_r3,
        &msg5.mul_open_t_r3,
        &state.t_shares,
        &msg5.mul_open_z_r4,
        &msg5.mul_open_t_r4,
        auth_triples,
        8,
        false,
        k,
        params,
    ) {
        Ok(v) => v,
        Err(e) => return Err(e),
    };
    let next_state = CompStateP2R5 {
        session_id: state.session_id,
        p: state.p,
        mul_state_t_r5: b.ts,
        mul_state_z_r5: b.zs,
        t_shares: t2,
    };
    let msg6 = CompMsg6 {
        session_id: state.session_id,
        mul_open_t_r4: a.to,
        mul_open_z_r4: a.zo,
        mul_open_t_r5: b.to,
        mul_open_z_r5: b.zo,
    };
    Ok((next_state, msg6))
}

/// CB processes CompMsg6: finishes level 4, runs level 5 (triples
/// `0..7`) and starts level 6 (triples `7..10`).
pub fn comp_process_msg6(
    state: &CompStateP1R4,
    auth_triples: &[TripleShare],
    msg6: &CompMsg6,
) -> (r: Result<(CompStateP1R6, CompMsg7), CompError>)
    requires
        state.wf(),
        auth_triples@.len() >= 10,
        triples_keyed(auth_triples@, state.key()),
    ensures
        r.is_ok() <==> comp_msg6_ok(*state, auth_triples@, *msg6),
        (r matches Err(e) && e == CompError::InvalidSessionID) <==> state.session_id@ != msg6.session_id@,
        r matches Err(e) ==> e == CompError::InvalidSessionID || e == CompError::InvalidOpen,
        state.session_id@ == msg6.session_id@ ==> (r.is_ok() <==> advance_ok(
            state.mul_state_z_r4@,
            msg6.mul_open_z_r4@,
            state.mul_state_t_r4@,
            msg6.mul_open_t_r4@,
            state.t_shares@,
            msg6.mul_open_z_r5@,
            msg6.mul_open_t_r5@,
            auth_triples@,
            4,
            true,
            state.p as int,
        )),
        r matches Ok((st, m)) ==> {
            let o = advance_spec(
                state.mul_state_z_r4@,
                msg6.mul_open_z_r4@,
                state.mul_state_t_r4@,
                msg6.mul_open_t_r4@,
                state.t_shares@,
                msg6.mul_open_z_r5@,
                msg6.mul_open_t_r5@,
                auth_triples@,
                4,
                true,
                state.p as int,
            );
            &&& st.session_id == state.session_id
            &&& m.session_id == state.session_id
            &&& st.p == state.p
            &&& st.t_shares@ == o.0
                &&& st.mul_state_z_r6@ == o.3
            &&& st.mul_state_t_r6@ == o.4
            &&& m.mul_open_z_r5@ == opens_of(o.1)
            &&& m.mul_open_t_r5@ == opens_of(o.2)
                &&& m.mul_open_z_r6@ == opens_of(o.3)
            &&& m.mul_open_t_r6@ == opens_of(o.4)
            &&& st.wf()
            &&& st.key() == state.key()
        },
{
    if !same_session(&state.session_id, &msg6.session_id) {
        return Err(CompError::InvalidSessionID);
    }
    let params = FieldParams { p: state.p };
    let k = state.t_shares[0].big_delta;
    let (a, b, t2) = match advance(
        &state.mul_state_z_r4,
        &msg6.mul_open_z_r4,
        &state.mul_state_t_r4,
        &msg6.mul_open_t_r4,
        &state.t_shares,
        &msg6.mul_open_z_r5,
        &msg6.mul_open_t_r5,
        auth_triples,
        4,
        true,
        k,
        params,
    ) {
        Ok(v) => v,
        Err(e) => return Err(e),
    };
    let next_state = CompStateP1R6 {
        session_id: state.session_id,
        p: state.p,
        mul_state_t_r6: b.ts,
        mul_state_z_r6: b.zs,
        t_shares: t2,
    };
    let msg7 = CompMsg7 {
        session_id: state.session_id,
        mul_open_t_r5: a.to,
        mul_open_z_r5: a.zo,
        mul_open_t_r6: b.to,
        mul_open_z_r6: b.zo,
    };
    Ok((next_state, msg7))
}

/// OB processes CompMsg7: finishes level 5, runs level 6 (triples
/// `0..3`) and starts level 7 (triples `3..4`).
pub fn comp_process_msg7(
    state: &CompStateP2R5,
    auth_triples: &[TripleShare],
    msg7: &CompMsg7,
) -> (r: Result<(CompStateP2R7, CompMsg8), CompError>)
    requires
        state.wf(),
        auth_triples@.len() >= 4,
        triples_keyed(auth_triples@, state.key()),
    ensures
        r.is_ok() <==> comp_msg7_ok(*state, auth_triples@, *msg7),
        (r matches Err(e) && e == CompError::InvalidSessionID) <==> state.session_id@ != msg7.session_id@,
        r matches Err(e) ==> e == CompError::InvalidSessionID || e == CompError::InvalidOpen,
        state.session_id@ == msg7.session_id@ ==> (r.is_ok() <==> advance_ok(
            state.mul_state_z_r5@,
            msg7.mul_open_z_r5@,
            state.mul_state_t_r5@,
            msg7.mul_open_t_r5@,
            state.t_shares@,
            msg7.mul_open_z_r6@,
            msg7.mul_open_t_r6@,
            auth_triples@,
            2,
            false,
            state.p as int,
        )),
        r matches Ok((st, m)) ==> {
            let o = advance_spec(
                state.mul_state_z_r5@,
                msg7.mul_open_z_r5@,
                state.mul_state_t_r5@,
                msg7.mul_open_t_r5@,
                state.t_shares@,
                msg7.mul_open_z_r6@,
                msg7.mul_open_t_r6@,
                auth_triples@,
                2,
                false,
                state.p as int,
            );
            &&& st.session_id == state.session_id
            &&& m.session_id == state.session_id
            &&& st.p == state.p
            &&& st.t_shares@ == o.0
            &&& st.mul_state_t_r7@ == o.4
            &&& m.mul_open_z_r6@ == opens_of(o.1)
            &&& m.mul_open_t_r6@ == opens_of(o.2)
            &&& m.mul_open_t_r7@ == opens_of(o.4)
            &&& st.wf()
            &&& st.key() == state.key()
        },
{
    if !same_session(&state.session_id, &msg7.session_id) {
        return Err(CompError::InvalidSessionID);
    }
    let params = FieldParams { p: state.p };
    let k = state.t_shares[0].big_delta;
    let (a, b, t2) = match advance(
        &state.mul_state_z_r5,
        &msg7.mul_open_z_r5,
        &state.mul_state_t_r5,
        &msg7.mul_open_t_r5,
        &state.t_shares,
        &msg7.mul_open_z_r6,
        &msg7.mul_open_t_r6,
        auth_triples,
        2,
        false,
        k,
        params,
    ) {
        Ok(v) => v,
        Err(e) => return Err(e),
    };
    let next_state = CompStateP2R7 {
        session_id: state.session_id,
        p: state.p,
        mul_state_t_r7: b.ts,
        t_shares: t2,
    };
    let msg8 = CompMsg8 {
        session_id: state.session_id,
        mul_open_t_r6: a.to,
        mul_open_z_r6: a.zo,
        mul_open_t_r7: b.to,
    };
    Ok((next_state, msg8))
}

/// The share of `[c]` that CB ends with: level 6 finished with the peer's
/// openings, then the single product of level 7 run with triple 0.
pub open spec fn final_share_cb(state: CompStateP1R6, tr: Seq<TripleShare>, msg8: CompMsg8) -> Share {
    let p = state.p as int;
    let z6 = level_z_out(state.mul_state_z_r6@, msg8.mul_open_z_r6@, true, p);
    let t6 = level_t_out(state.mul_state_t_r6@, msg8.mul_open_t_r6@, state.t_shares@, true, p);
    let ts7 = level_t_states(z6, t6, tr, 0, 1, p);
    level_t_out(ts7, msg8.mul_open_t_r7@, t6, true, p)[0]
}

/// CB processes CompMsg8 from OB: finishes level 6, runs level 7 (triple 0)
/// and returns CB's share of `[c]`.
pub fn comp_process_msg8(
    state: &CompStateP1R6,
    auth_triples: &[TripleShare],
    msg8: &CompMsg8,
) -> (r: Result<(Share, CompMsg9), CompError>)
    requires
        state.wf(),
        auth_triples@.len() >= 1,
        triples_keyed(auth_triples@, state.key()),
    ensures
        r.is_ok() <==> comp_msg8_ok(*state, auth_triples@, *msg8),
        (r matches Err(e) && e == CompError::InvalidSessionID) <==> state.session_id@ != msg8.session_id@,
        r matches Err(e) ==> e == CompError::InvalidSessionID || e == CompError::InvalidOpen,
        ({
            let p = state.p as int;
            let z6 = level_z_out(state.mul_state_z_r6@, msg8.mul_open_z_r6@, true, p);
            let t6 = level_t_out(state.mul_state_t_r6@, msg8.mul_open_t_r6@, state.t_shares@, true, p);
            let ts7 = level_t_states(z6, t6, auth_triples@, 0, 1, p);
            &&& state.session_id@ == msg8.session_id@ ==> (r.is_ok() <==> (all_opens_valid(
                state.mul_state_z_r6@,
                msg8.mul_open_z_r6@,
                p,
            ) && all_opens_valid(state.mul_state_t_r6@, msg8.mul_open_t_r6@, p) && all_opens_valid(
                ts7,
                msg8.mul_open_t_r7@,
                p,
            )))
            &&& r matches Ok((c, m)) ==> {
                &&& c == final_share_cb(*state, auth_triples@, *msg8)
                &&& c.big_delta == state.key()
                &&& m.session_id == state.session_id
                &&& m.mul_open_t_r7@ == opens_of(ts7)
            }
        }),
{
    if !same_session(&state.session_id, &msg8.session_id) {
        return Err(CompError::InvalidSessionID);
    }
    let params = FieldParams { p: state.p };
    let k = state.t_shares[0].big_delta;
    let (z6, t6) = match output_level(
        &state.mul_state_z_r6,
        &msg8.mul_open_z_r6,
        &state.mul_state_t_r6,
        &msg8.mul_open_t_r6,
        &state.t_shares,
        true,
        k,
        params,
    ) {
        Ok(v) => v,
        Err(e) => return Err(e),
    };
    let a = open_level(&z6, &t6, auth_triples, 0, 1, k, params);
    let no_opens: Vec<MulSharesOpen> = Vec::new();
    let (_z7, t7) = match output_level(&a.zs, &no_opens, &a.ts, &msg8.mul_open_t_r7, &t6, true, k, params) {
        Ok(v) => v,
        Err(e) => return Err(e),
    };
    let share = t7[0];
    let msg9 = CompMsg9 { session_id: state.session_id, mul_open_t_r7: a.to };
    Ok((share, msg9))
}

/// The share of `[c]` that OB ends with: level 7 finished with the peer's
/// openings.
pub open spec fn final_share_ob(state: CompStateP2R7, msg9: CompMsg9) -> Share {
    level_t_out(state.mul_state_t_r7@, msg9.mul_open_t_r7@, state.t_shares@, false, state.p as int)[0]
}

/// OB processes CompMsg9 from CB: finishes level 7 and returns OB's share of
/// `[c]`.
pub fn comp_process_msg9(state: &CompStateP2R7, msg9: &CompMsg9) -> (r: Result<Share, CompError>)
    requires
        state.wf(),
    ensures
        r.is_ok() <==> comp_msg9_ok(*state, *msg9),
        (r matches Err(e) && e == CompError::InvalidSessionID) <==> state.session_id@ != msg9.session_id@,
        r matches Err(e) ==> e == CompError::InvalidSessionID || e == CompError::InvalidOpen,
        state.session_id@ == msg9.session_id@ ==> (r.is_ok() <==> all_opens_valid(
            state.mul_state_t_r7@,
            msg9.mul_open_t_r7@,
            state.p as int,
        )),
        r matches Ok(c) ==> c == final_share_ob(*state, *msg9) && c.big_delta == state.key(),
{
    if !same_session(&state.session_id, &msg9.session_id) {
        return Err(CompError::InvalidSessionID);
    }
    let params = FieldParams { p: state.p };
    let k = state.t_shares[0].big_delta;
    let no_states: Vec<MulSharesState> = Vec::new();
    let no_opens: Vec<MulSharesOpen> = Vec::new();
    let (_z, t) = match output_level(
        &no_states,
        &no_opens,
        &state.mul_state_t_r7,
        &msg9.mul_open_t_r7,
        &state.t_shares,
        false,
        k,
        params,
    ) {
        Ok(v) => v,
        Err(e) => return Err(e),
    };
    Ok(t[0])
}

} // verus!
