//! The consistency check that closes the authenticated Beaver triple
//! protocol.
//!
//! Twice as many candidate triples are made as are kept. For a public
//! random `rho`, triple `i` is multiplied out with the scaled partner
//! `(rho x', rho y', rho^2 z')` of triple `eta_m + i`, and `z_i - z_hat_i`
//! must open to zero on both sides; the partners are then discarded. The
//! opened difference is `(z - x y) - rho^2 (z' - x' y')`, so a triple that
//! passes against a correct partner is correct.
use crate::beaver::{
    lemma_multiply_keeps_mac, lemma_multiply_value, mul_open_msg, mul_open_state,
    mul_opens_valid, mul_output, multiply_shares_open, multiply_shares_output, MulSharesOpen,
    MulSharesState, TripleShare,
};
use crate::comparison::{opens_of, same_session, triples_keyed};
use crate::errors::{ABTCBError, ABTOBError};
use crate::field::{
    add_mod, cong, fadd, fmul, lemma_cong_add, lemma_cong_mod, lemma_cong_mul, lemma_cong_sub, mul_mod,
    sub_mod, FieldParams,
};
use crate::share::{lemma_mul_const_keeps_mac, lemma_sub_keeps_mac, opening_valid, pair_valid, reconstruct, Share};
use vstd::prelude::*;

verus! {

/// The check multiplication for triple `t` with its partner `t2`.
pub open spec fn check_state(t: TripleShare, t2: TripleShare, rho: int, p: int) -> MulSharesState {
    mul_open_state(
        t.x,
        t.y,
        t2.x.spec_mul_const(rho, p),
        t2.y.spec_mul_const(rho, p),
        t2.z.spec_mul_const(rho, p).spec_mul_const(rho, p),
        p,
    )
}

/// The check multiplications for the first `eta_m` triples.
pub open spec fn check_states(tr: Seq<TripleShare>, eta_m: int, rho: int, p: int) -> Seq<MulSharesState> {
    Seq::new(eta_m as nat, |i: int| check_state(tr[i], tr[eta_m + i], rho, p))
}

/// `[z_i] - [z_hat_i]`, the difference that must open to zero.
pub open spec fn z_diff(t: TripleShare, st: MulSharesState, o: MulSharesOpen, is_cb: bool, p: int) -> Share {
    t.z.spec_sub(mul_output(st, o, is_cb, p), p)
}

/// Starts the check multiplications of the first `eta_m` triples against
/// their partners `eta_m .. 2 eta_m`.
pub fn abt_check_open(tr: &[TripleShare], eta_m: usize, rho: u128, params: FieldParams) -> (r: (
    Vec<MulSharesState>,
    Vec<MulSharesOpen>,
))
    requires
        params.wf(),
        tr@.len() == 2 * eta_m,
        tr@.len() > 0,
        triples_keyed(tr@, tr@[0].x.big_delta),
    ensures
        r.0@ == check_states(tr@, eta_m as int, rho as int, params.p as int),
        r.1@ == opens_of(r.0@),
{
    let ghost k = tr@[0].x.big_delta;
    let mut st: Vec<MulSharesState> = Vec::new();
    let mut op: Vec<MulSharesOpen> = Vec::new();
    let mut i: usize = 0;
    while i < eta_m
        invariant
            params.wf(),
            tr@.len() == 2 * eta_m,
            triples_keyed(tr@, k),
            0 <= i <= eta_m,
            st@.len() == i,
            op@.len() == i,
            forall|m: int| 0 <= m < i ==> #[trigger] st@[m] == check_states(tr@, eta_m as int, rho as int, params.p as int)[m],
            forall|m: int| 0 <= m < i ==> #[trigger] op@[m] == mul_open_msg(st@[m]),
        decreases eta_m - i,
    {
        let t = &tr[i];
        let t2 = &tr[eta_m + i];
        let xh = t2.x.mul_const(&rho, params);
        let yh = t2.y.mul_const(&rho, params);
        let zh = t2.z.mul_const(&rho, params).mul_const(&rho, params);
        let (s, o) = multiply_shares_open(&t.x, &t.y, &xh, &yh, &zh, params);
        st.push(s);
        op.push(o);
        i += 1;
    }
    assert(st@ =~= check_states(tr@, eta_m as int, rho as int, params.p as int));
    assert(op@ =~= opens_of(st@));
    (st, op)
}

/// Finishes the check multiplications with the peer's openings and forms
/// the differences `[z_i] - [z_hat_i]` and their openings.
fn check_differences(
    tr: &[TripleShare],
    st: &Vec<MulSharesState>,
    peer: &Vec<MulSharesOpen>,
    is_cb: bool,
    params: FieldParams,
) -> (r: Option<(Vec<Share>, Vec<(u128, u128)>)>)
    requires
        params.wf(),
        st@.len() <= tr@.len(),
        tr@.len() > 0,
        triples_keyed(tr@, tr@[0].x.big_delta),
        crate::comparison::states_keyed(st@, tr@[0].x.big_delta),
    ensures
        r.is_some() <==> crate::comparison::all_opens_valid(st@, peer@, params.p as int),
        r matches Some((d, o)) ==> {
            &&& d@.len() == st@.len()
            &&& o@.len() == st@.len()
            &&& forall|i: int|
                0 <= i < st@.len() ==> #[trigger] d@[i] == z_diff(tr@[i], st@[i], peer@[i], is_cb, params.p as int)
                    && o@[i] == d@[i].open_spec()
        },
{
    if peer.len() != st.len() {
        return None;
    }
    let ghost k = tr@[0].x.big_delta;
    let mut d: Vec<Share> = Vec::new();
    let mut o: Vec<(u128, u128)> = Vec::new();
    let mut i: usize = 0;
    while i < st.len()
        invariant
            params.wf(),
            st@.len() <= tr@.len(),
            peer@.len() == st@.len(),
            triples_keyed(tr@, k),
            crate::comparison::states_keyed(st@, k),
            0 <= i <= st@.len(),
            d@.len() == i,
            o@.len() == i,
            forall|m: int| 0 <= m < i ==> mul_opens_valid(#[trigger] st@[m], peer@[m], params.p as int),
            forall|m: int|
                0 <= m < i ==> #[trigger] d@[m] == z_diff(tr@[m], st@[m], peer@[m], is_cb, params.p as int)
                    && o@[m] == d@[m].open_spec(),
        decreases st@.len() - i,
    {
        let z_hat = match multiply_shares_output(&st[i], &peer[i], is_cb, params) {
            Ok(v) => v,
            Err(_) => return None,
        };
        let di = tr[i].z.sub_share(&z_hat, params);
        d.push(di);
        o.push(di.open());
        i += 1;
    }
    Some((d, o))
}

/// OB's half of the check, after CB's openings arrived: starts its own
/// check multiplications, finishes them with CB's openings, and returns its
/// openings, its differences and their openings.
pub fn abt_check_respond(
    tr: &[TripleShare],
    eta_m: usize,
    rho: u128,
    peer: &Vec<MulSharesOpen>,
    params: FieldParams,
) -> (r: Result<(Vec<MulSharesOpen>, Vec<Share>, Vec<(u128, u128)>), ABTOBError>)
    requires
        params.wf(),
        tr@.len() == 2 * eta_m,
        tr@.len() > 0,
        triples_keyed(tr@, tr@[0].x.big_delta),
    ensures
        r.is_ok() <==> crate::comparison::all_opens_valid(
            check_states(tr@, eta_m as int, rho as int, params.p as int),
            peer@,
            params.p as int,
        ),
        r matches Err(e) ==> e == ABTOBError::InvalidOpen,
        r matches Ok((op, d, o)) ==> {
            let st = check_states(tr@, eta_m as int, rho as int, params.p as int);
            &&& op@ == opens_of(st)
            &&& d@.len() == eta_m
            &&& o@.len() == eta_m
            &&& forall|i: int|
                0 <= i < eta_m ==> #[trigger] d@[i] == z_diff(tr@[i], st[i], peer@[i], false, params.p as int)
                    && o@[i] == d@[i].open_spec()
        },
{
    let (st, op) = abt_check_open(tr, eta_m, rho, params);
    match check_differences(tr, &st, peer, false, params) {
        Some((d, o)) => Ok((op, d, o)),
        None => Err(ABTOBError::InvalidOpen),
    }
}

/// Every opening of the differences is accepted and opens to zero.
pub open spec fn zero_opens(d: Seq<Share>, o: Seq<(u128, u128)>, p: int) -> bool {
    &&& o.len() == d.len()
    &&& forall|i: int|
        0 <= i < d.len() ==> opening_valid(#[trigger] d[i], o[i].0 as int, o[i].1 as int, p)
            && fadd(d[i].value as int, o[i].0 as int, p) == 0
}

/// Every opening of the differences passes its MAC check.
pub open spec fn macs_accepted(d: Seq<Share>, o: Seq<(u128, u128)>, p: int) -> bool {
    forall|i: int| 0 <= i < d.len() ==> opening_valid(#[trigger] d[i], o[i].0 as int, o[i].1 as int, p)
}

/// Every opening that passes its MAC check opens to zero.
pub open spec fn accepted_are_zero(d: Seq<Share>, o: Seq<(u128, u128)>, p: int) -> bool {
    forall|i: int|
        0 <= i < d.len() && opening_valid(#[trigger] d[i], o[i].0 as int, o[i].1 as int, p)
            ==> fadd(d[i].value as int, o[i].0 as int, p) == 0
}

/// CB's differences `[z_i] - [z_hat_i]` after finishing its check
/// multiplications with OB's openings.
pub open spec fn cb_diffs(state_cb: ABTStateCBR2, tr: Seq<TripleShare>, msg4: ABTMsg4) -> Seq<Share> {
    Seq::new(
        state_cb.eta_m as nat,
        |i: int| z_diff(tr[i], state_cb.mul_shares_state@[i], msg4.mul_shares_open@[i], true, state_cb.p as int),
    )
}

/// How the peer's openings of the differences fare: all accepted and zero,
/// one refused by its MAC, or one accepted but not zero.
enum ZeroCheck {
    /// every opening accepted and zero
    Zero,
    /// an opening refused by its MAC
    BadMac,
    /// an opening accepted but not zero
    NonZero,
}

/// Checks the peer's openings of the differences: each must be accepted
/// and open to zero.
fn check_zero(d: &Vec<Share>, opens: &Vec<(u128, u128)>, params: FieldParams) -> (r: ZeroCheck)
    requires
        params.wf(),
        opens@.len() == d@.len(),
    ensures
        (r is Zero) <==> forall|i: int|
            0 <= i < d@.len() ==> opening_valid(#[trigger] d@[i], opens@[i].0 as int, opens@[i].1 as int, params.p as int)
                && fadd(d@[i].value as int, opens@[i].0 as int, params.p as int) == 0,
        (r is NonZero) ==> exists|i: int|
            0 <= i < d@.len() && opening_valid(#[trigger] d@[i], opens@[i].0 as int, opens@[i].1 as int, params.p as int)
                && fadd(d@[i].value as int, opens@[i].0 as int, params.p as int) != 0,
        (r is BadMac) ==> exists|i: int|
            0 <= i < d@.len() && !opening_valid(#[trigger] d@[i], opens@[i].0 as int, opens@[i].1 as int, params.p as int),
        (r is Zero) <==> zero_opens(d@, opens@, params.p as int),
        macs_accepted(d@, opens@, params.p as int) && !zero_opens(d@, opens@, params.p as int) ==> (r is NonZero),
        accepted_are_zero(d@, opens@, params.p as int) && !zero_opens(d@, opens@, params.p as int) ==> (r is BadMac),
{
    let mut i: usize = 0;
    while i < d.len()
        invariant
            params.wf(),
            opens@.len() == d@.len(),
            0 <= i <= d@.len(),
            forall|m: int|
                0 <= m < i ==> opening_valid(#[trigger] d@[m], opens@[m].0 as int, opens@[m].1 as int, params.p as int)
                    && fadd(d@[m].value as int, opens@[m].0 as int, params.p as int) == 0,
        decreases d@.len() - i,
    {
        let v = match d[i].validate_open(&opens[i].0, &opens[i].1, params) {
            Ok(v) => v,
            Err(_) => return ZeroCheck::BadMac,
        };
        if v != 0 {
            return ZeroCheck::NonZero;
        }
        i += 1;
    }
    ZeroCheck::Zero
}

/// ABTMsg4
#[derive(Debug)]
pub struct ABTMsg4 {
    /// session id
    pub session_id: [u8; 32],
    /// OB's openings of the check multiplications, eta_m entries
    pub mul_shares_open: Vec<MulSharesOpen>,
    /// Open(z_i - z_hat_i), eta_m entries
    pub open_z: Vec<(u128, u128)>,
}

/// ABTMsg5
#[derive(Debug)]
pub struct ABTMsg5 {
    /// session id
    pub session_id: [u8; 32],
    /// Open(z_i - z_hat_i), eta_m entries
    pub open_z: Vec<(u128, u128)>,
}

/// Authenticated Beaver Triples State for CB round2
#[derive(Clone, Debug)]
pub struct ABTStateCBR2 {
    /// session id
    pub session_id: [u8; 32],
    /// p
    pub p: u128,
    /// eta_m
    pub eta_m: usize,
    /// the check multiplications, eta_m entries
    pub mul_shares_state: Vec<MulSharesState>,
}

/// Authenticated Beaver Triples State for OB round 2
#[derive(Clone, Debug)]
pub struct ABTStateOBR2 {
    /// session id
    pub session_id: [u8; 32],
    /// p
    pub p: u128,
    /// eta_m
    pub eta_m: usize,
    /// z_diff, eta_m entries
    pub z_diff: Vec<Share>,
}

/// CB processes ABTMsg4 from OB: finishes its check multiplications with
/// OB's openings, and requires every difference `z_i - z_hat_i` to open to
/// zero with OB's openings (a refused MAC is `InvalidOpen`, a non-zero
/// difference `AbortProtocolAndBanOtherParty`). `mul_shares_cb` are the
/// kept triples.
pub fn abt_process_msg4(state_cb: &ABTStateCBR2, mul_shares_cb: &[TripleShare], msg4: &ABTMsg4) -> (r: Result<
    ABTMsg5,
    ABTCBError,
>)
    requires
        state_cb.p % 2 == 1,
        state_cb.p > 1,
        mul_shares_cb@.len() > 0,
        triples_keyed(mul_shares_cb@, mul_shares_cb@[0].x.big_delta),
        crate::comparison::states_keyed(state_cb.mul_shares_state@, mul_shares_cb@[0].x.big_delta),
    ensures
        (r matches Err(e) && e == ABTCBError::InvalidSessionID) <==> state_cb.session_id@ != msg4.session_id@,
        ({
            let p = state_cb.p as int;
            let n = state_cb.eta_m as int;
            let lens_state = state_cb.mul_shares_state@.len() == n && mul_shares_cb@.len() == n;
            let lens_msg = msg4.mul_shares_open@.len() == n && msg4.open_z@.len() == n;
            let opens_ok = crate::comparison::all_opens_valid(state_cb.mul_shares_state@, msg4.mul_shares_open@, p);
            let d = cb_diffs(*state_cb, mul_shares_cb@, *msg4);
            state_cb.session_id@ == msg4.session_id@ ==> {
                &&& !lens_state <==> (r matches Err(e) && e == ABTCBError::InvalidState)
                &&& lens_state ==> (!lens_msg <==> (r matches Err(e) && e == ABTCBError::InvalidMessage))
                &&& lens_state && lens_msg ==> (r.is_ok() <==> opens_ok && zero_opens(d, msg4.open_z@, p))
                &&& lens_state && lens_msg && !opens_ok ==> (r matches Err(e) && e == ABTCBError::InvalidOpen)
                &&& lens_state && lens_msg && opens_ok && macs_accepted(d, msg4.open_z@, p) && !zero_opens(d, msg4.open_z@, p)
                    ==> (r matches Err(e) && e == ABTCBError::AbortProtocolAndBanOtherParty)
                &&& lens_state && lens_msg && opens_ok && accepted_are_zero(d, msg4.open_z@, p) && !zero_opens(d, msg4.open_z@, p)
                    ==> (r matches Err(e) && e == ABTCBError::InvalidOpen)
            }
        }),
        r matches Err(e) ==> e == ABTCBError::InvalidSessionID || e == ABTCBError::InvalidState
            || e == ABTCBError::InvalidMessage || e == ABTCBError::InvalidOpen
            || e == ABTCBError::AbortProtocolAndBanOtherParty,
        r matches Ok(m) ==> {
            let p = state_cb.p as int;
            let n = state_cb.eta_m as int;
            &&& state_cb.mul_shares_state@.len() == n
            &&& mul_shares_cb@.len() == n
            &&& crate::comparison::all_opens_valid(state_cb.mul_shares_state@, msg4.mul_shares_open@, p)
            &&& msg4.open_z@.len() == n
            &&& m.open_z@.len() == n
            &&& m.session_id == state_cb.session_id
            &&& forall|i: int|
                0 <= i < n ==> {
                    let d = #[trigger] z_diff(mul_shares_cb@[i], state_cb.mul_shares_state@[i], msg4.mul_shares_open@[i], true, p);
                    &&& opening_valid(d, msg4.open_z@[i].0 as int, msg4.open_z@[i].1 as int, p)
                    &&& fadd(d.value as int, msg4.open_z@[i].0 as int, p) == 0
                    &&& m.open_z@[i] == d.open_spec()
                }
        },
{
    if !same_session(&state_cb.session_id, &msg4.session_id) {
        return Err(ABTCBError::InvalidSessionID);
    }
    let eta_m = state_cb.eta_m;
    if state_cb.mul_shares_state.len() != eta_m || mul_shares_cb.len() != eta_m {
        return Err(ABTCBError::InvalidState);
    }
    if msg4.mul_shares_open.len() != eta_m || msg4.open_z.len() != eta_m {
        return Err(ABTCBError::InvalidMessage);
    }
    let params = FieldParams { p: state_cb.p };
    let (d, open_z) = match check_differences(mul_shares_cb, &state_cb.mul_shares_state, &msg4.mul_shares_open, true, params) {
        Some(v) => v,
        None => return Err(ABTCBError::InvalidOpen),
    };
    assert(d@ =~= cb_diffs(*state_cb, mul_shares_cb@, *msg4));
    match check_zero(&d, &msg4.open_z, params) {
        ZeroCheck::Zero => {},
        ZeroCheck::BadMac => return Err(ABTCBError::InvalidOpen),
        ZeroCheck::NonZero => return Err(ABTCBError::AbortProtocolAndBanOtherParty),
    }
    assert forall|i: int| 0 <= i < eta_m implies {
        let dd = #[trigger] z_diff(mul_shares_cb@[i], state_cb.mul_shares_state@[i], msg4.mul_shares_open@[i], true, state_cb.p as int);
        &&& opening_valid(dd, msg4.open_z@[i].0 as int, msg4.open_z@[i].1 as int, state_cb.p as int)
        &&& fadd(dd.value as int, msg4.open_z@[i].0 as int, state_cb.p as int) == 0
        &&& open_z@[i] == dd.open_spec()
    } by {
        assert(d@[i] == z_diff(mul_shares_cb@[i], state_cb.mul_shares_state@[i], msg4.mul_shares_open@[i], true, state_cb.p as int));
    }
    Ok(ABTMsg5 { session_id: state_cb.session_id, open_z })
}

/// OB processes ABTMsg5 from CB: requires every difference to open to zero
/// with CB's openings (a refused MAC is `InvalidOpen`, a non-zero difference
/// `AbortProtocolAndBanOtherParty`).
pub fn abt_process_msg5(state_ob: &ABTStateOBR2, msg5: &ABTMsg5) -> (r: Result<(), ABTOBError>)
    requires
        state_ob.p % 2 == 1,
        state_ob.p > 1,
    ensures
        (r matches Err(e) && e == ABTOBError::InvalidSessionID) <==> state_ob.session_id@ != msg5.session_id@,
        r matches Err(e) ==> e == ABTOBError::InvalidSessionID || e == ABTOBError::InvalidState
            || e == ABTOBError::InvalidMessage || e == ABTOBError::InvalidOpen
            || e == ABTOBError::AbortProtocolAndBanOtherParty,
        state_ob.session_id@ == msg5.session_id@ ==> {
            let p = state_ob.p as int;
            let n = state_ob.eta_m as int;
            let d = state_ob.z_diff@;
            &&& d.len() != n <==> (r matches Err(e) && e == ABTOBError::InvalidState)
            &&& d.len() == n ==> (msg5.open_z@.len() != n <==> (r matches Err(e) && e == ABTOBError::InvalidMessage))
            &&& d.len() == n && msg5.open_z@.len() == n && macs_accepted(d, msg5.open_z@, p) && !zero_opens(d, msg5.open_z@, p)
                ==> (r matches Err(e) && e == ABTOBError::AbortProtocolAndBanOtherParty)
            &&& d.len() == n && msg5.open_z@.len() == n && accepted_are_zero(d, msg5.open_z@, p) && !zero_opens(d, msg5.open_z@, p)
                ==> (r matches Err(e) && e == ABTOBError::InvalidOpen)
        },
        state_ob.session_id@ == msg5.session_id@ ==> (r.is_ok() <==> {
            let p = state_ob.p as int;
            let n = state_ob.eta_m as int;
            &&& state_ob.z_diff@.len() == n
            &&& msg5.open_z@.len() == n
            &&& forall|i: int|
                0 <= i < n ==> opening_valid(#[trigger] state_ob.z_diff@[i], msg5.open_z@[i].0 as int, msg5.open_z@[i].1 as int, p)
                    && fadd(state_ob.z_diff@[i].value as int, msg5.open_z@[i].0 as int, p) == 0
        }),
{
    if !same_session(&state_ob.session_id, &msg5.session_id) {
        return Err(ABTOBError::InvalidSessionID);
    }
    let eta_m = state_ob.eta_m;
    if state_ob.z_diff.len() != eta_m {
        return Err(ABTOBError::InvalidState);
    }
    if msg5.open_z.len() != eta_m {
        return Err(ABTOBError::InvalidMessage);
    }
    let params = FieldParams { p: state_ob.p };
    match check_zero(&state_ob.z_diff, &msg5.open_z, params) {
        ZeroCheck::Zero => {},
        ZeroCheck::BadMac => return Err(ABTOBError::InvalidOpen),
        ZeroCheck::NonZero => return Err(ABTOBError::AbortProtocolAndBanOtherParty),
    }
    Ok(())
}

/// Both parts of a triple, and of its partner, are authenticated under the
/// two parties' keys.
pub open spec fn triple_pair_valid(t: (TripleShare, TripleShare), kc: u128, ko: u128, p: int) -> bool {
    &&& pair_valid(t.0.x, t.1.x, p)
    &&& pair_valid(t.0.y, t.1.y, p)
    &&& pair_valid(t.0.z, t.1.z, p)
    &&& t.0.x.big_delta == kc && t.0.y.big_delta == kc && t.0.z.big_delta == kc
    &&& t.1.x.big_delta == ko && t.1.y.big_delta == ko && t.1.z.big_delta == ko
}

/// The check of a triple against its partner, run honestly by both sides:
/// each side accepts the other's openings, the differences form an
/// authenticated value, and that value is
/// `(z - x y) - rho^2 (z' - x' y')` for the reconstructed triple
/// `(x, y, z)` and partner `(x', y', z')`. So the difference opens to zero
/// when both triples are correct, and a triple that passes against a
/// correct partner is itself correct.
pub proof fn lemma_triple_check(
    t: (TripleShare, TripleShare),
    t2: (TripleShare, TripleShare),
    rho: int,
    kc: u128,
    ko: u128,
    params: FieldParams,
)
    requires
        params.wf(),
        triple_pair_valid(t, kc, ko, params.p as int),
        triple_pair_valid(t2, kc, ko, params.p as int),
    ensures
        ({
            let p = params.p as int;
            let st_cb = check_state(t.0, t2.0, rho, p);
            let st_ob = check_state(t.1, t2.1, rho, p);
            let d_cb = z_diff(t.0, st_cb, mul_open_msg(st_ob), true, p);
            let d_ob = z_diff(t.1, st_ob, mul_open_msg(st_cb), false, p);
            let x = reconstruct(t.0.x, t.1.x, p);
            let y = reconstruct(t.0.y, t.1.y, p);
            let z = reconstruct(t.0.z, t.1.z, p);
            let x2 = reconstruct(t2.0.x, t2.1.x, p);
            let y2 = reconstruct(t2.0.y, t2.1.y, p);
            let z2 = reconstruct(t2.0.z, t2.1.z, p);
            &&& mul_opens_valid(st_cb, mul_open_msg(st_ob), p)
            &&& mul_opens_valid(st_ob, mul_open_msg(st_cb), p)
            &&& pair_valid(d_cb, d_ob, p)
            &&& cong(reconstruct(d_cb, d_ob, p), (z - x * y) - rho * rho * (z2 - x2 * y2), p)
        }),
{
    let p = params.p as int;
    lemma_mul_const_keeps_mac(t2.0.x, t2.1.x, rho, params);
    lemma_mul_const_keeps_mac(t2.0.y, t2.1.y, rho, params);
    lemma_mul_const_keeps_mac(t2.0.z, t2.1.z, rho, params);
    let zr_cb = t2.0.z.spec_mul_const(rho, p);
    let zr_ob = t2.1.z.spec_mul_const(rho, p);
    lemma_mul_const_keeps_mac(zr_cb, zr_ob, rho, params);
    let xh = (t2.0.x.spec_mul_const(rho, p), t2.1.x.spec_mul_const(rho, p));
    let yh = (t2.0.y.spec_mul_const(rho, p), t2.1.y.spec_mul_const(rho, p));
    let zh = (zr_cb.spec_mul_const(rho, p), zr_ob.spec_mul_const(rho, p));
    let xs = (t.0.x, t.1.x);
    let ys = (t.0.y, t.1.y);
    lemma_multiply_keeps_mac(xs, ys, xh, yh, zh, params);
    lemma_multiply_value(xs, ys, xh, yh, zh, params);
    let st_cb = check_state(t.0, t2.0, rho, p);
    let st_ob = check_state(t.1, t2.1, rho, p);
    let out_cb = mul_output(st_cb, mul_open_msg(st_ob), true, p);
    let out_ob = mul_output(st_ob, mul_open_msg(st_cb), false, p);
    lemma_sub_keeps_mac(t.0.z, t.1.z, out_cb, out_ob, params);
    let x = reconstruct(t.0.x, t.1.x, p);
    let y = reconstruct(t.0.y, t.1.y, p);
    let z = reconstruct(t.0.z, t.1.z, p);
    let x2 = reconstruct(t2.0.x, t2.1.x, p);
    let y2 = reconstruct(t2.0.y, t2.1.y, p);
    let z2 = reconstruct(t2.0.z, t2.1.z, p);
    let xhv = fmul(x2, rho, p);
    let yhv = fmul(y2, rho, p);
    let zhv = fmul(fmul(z2, rho, p), rho, p);
    let o = reconstruct(out_cb, out_ob, p);
    assert(o == (x * y + zhv - xhv * yhv) % p);
    // o is congruent to x y + rho^2 z2 - (rho x2)(rho y2)
    lemma_cong_mod(x2 * rho, p);
    lemma_cong_mod(y2 * rho, p);
    lemma_cong_mod(z2 * rho, p);
    lemma_cong_mul(xhv, x2 * rho, yhv, y2 * rho, p);
    lemma_cong_mul(fmul(z2, rho, p), z2 * rho, rho, rho, p);
    lemma_cong_mod(fmul(z2, rho, p) * rho, p);
    lemma_cong_sub(zhv, z2 * rho * rho, xhv * yhv, (x2 * rho) * (y2 * rho), p);
    lemma_cong_add(x * y, x * y, zhv - xhv * yhv, z2 * rho * rho - (x2 * rho) * (y2 * rho), p);
    assert(x * y + zhv - xhv * yhv == x * y + (zhv - xhv * yhv));
    lemma_cong_mod(x * y + zhv - xhv * yhv, p);
    // the difference
    lemma_cong_sub(z, z, o, x * y + (z2 * rho * rho - (x2 * rho) * (y2 * rho)), p);
    lemma_cong_mod(z - o, p);
    assert(z - (x * y + (z2 * rho * rho - (x2 * rho) * (y2 * rho))) == (z - x * y) - rho * rho * (z2 - x2 * y2))
        by (nonlinear_arith);
}

/// The value of OB's `k`-th authenticated item, from its VOLE inputs:
/// `x_i` at `i`, `y_i` at `2 eta_m + i`, `z_i` at `4 eta_m + i` (for
/// `i < 2 eta_m`) and input mask `j` at `6 eta_m + j`.
pub open spec fn ob_value(a0: Seq<u128>, s0: Seq<u128>, inputs: Seq<u128>, eta_m: int, k: int, p: int) -> int {
    if k < 2 * eta_m {
        a0[2 * eta_m + k] as int
    } else if k < 4 * eta_m {
        a0[k - 2 * eta_m] as int
    } else if k < 6 * eta_m {
        let i = k - 4 * eta_m;
        fadd(fadd(s0[i] as int, s0[2 * eta_m + i] as int, p), fmul(a0[i] as int, a0[2 * eta_m + i] as int, p), p)
    } else {
        inputs[k - 6 * eta_m] as int
    }
}

/// The value of CB's `k`-th authenticated item, laid out as OB's.
pub open spec fn cb_value(b0: Seq<u128>, r0: Seq<u128>, inputs: Seq<u128>, eta_m: int, k: int, p: int) -> int {
    if k < 2 * eta_m {
        b0[k] as int
    } else if k < 4 * eta_m {
        b0[k] as int
    } else if k < 6 * eta_m {
        let i = k - 4 * eta_m;
        fadd(fadd(r0[i] as int, r0[2 * eta_m + i] as int, p), fmul(b0[i] as int, b0[2 * eta_m + i] as int, p), p)
    } else {
        inputs[k - 6 * eta_m] as int
    }
}

/// The triple made of items `i`, `2 eta_m + i` and `4 eta_m + i`.
pub open spec fn triple_of(items: Seq<Share>, eta_m: int, i: int) -> TripleShare {
    TripleShare { x: items[i], y: items[2 * eta_m + i], z: items[4 * eta_m + i] }
}

/// The value of an item as a `u128` (a reduced product for the z items, a
/// VOLE input otherwise).
fn item_value(v0: &Vec<u128>, sh0: &Vec<u128>, inputs: &Vec<u128>, eta_m: usize, k: usize, is_cb: bool, params: FieldParams) -> (r: u128)
    requires
        params.wf(),
        v0@.len() == 4 * eta_m,
        sh0@.len() == 4 * eta_m,
        k < 6 * eta_m + inputs@.len(),
        6 * eta_m + inputs@.len() <= usize::MAX,
    ensures
        !is_cb ==> r as int == ob_value(v0@, sh0@, inputs@, eta_m as int, k as int, params.p as int),
        is_cb ==> r as int == cb_value(v0@, sh0@, inputs@, eta_m as int, k as int, params.p as int),
{
    if k < 2 * eta_m {
        if is_cb { v0[k] } else { v0[2 * eta_m + k] }
    } else if k < 4 * eta_m {
        if is_cb { v0[k] } else { v0[k - 2 * eta_m] }
    } else if k < 6 * eta_m {
        let i = k - 4 * eta_m;
        add_mod(add_mod(sh0[i], sh0[2 * eta_m + i], params), mul_mod(v0[i], v0[2 * eta_m + i], params), params)
    } else {
        inputs[k - 6 * eta_m]
    }
}

/// OB's authenticated items before its keys are known: OB is the sender of
/// the `4 eta_m` single VOLEs (`vole_0`, its inputs `alpha` and its shares)
/// and of the wide VOLE whose receiver holds CB's key (`vole_1`). Returns
/// the input masks, the `2 eta_m` candidate triples, and `gamma_ob`, the
/// differences between each item's value and its VOLE input.
pub fn abt_ob_shares(
    p: u128,
    eta_i: usize,
    eta_m: usize,
    vole_0_alpha: &Vec<u128>,
    vole_0_shares: &Vec<u128>,
    vole_1_alpha: &Vec<u128>,
    vole_1_shares: &Vec<u128>,
    input_values: &Vec<u128>,
) -> (r: (Vec<Share>, Vec<TripleShare>, Vec<u128>))
    requires
        p % 2 == 1,
        p > 1,
        vole_0_alpha@.len() == 4 * eta_m,
        vole_0_shares@.len() == 4 * eta_m,
        vole_1_alpha@.len() == 6 * eta_m + eta_i,
        vole_1_shares@.len() == 6 * eta_m + eta_i,
        input_values@.len() == eta_i,
    ensures
        ({
            let (inputs, triples, gamma) = r;
            let n = 6 * eta_m + eta_i;
            let items = Seq::new(n as nat, |k: int| Share {
                value: ob_value(vole_0_alpha@, vole_0_shares@, input_values@, eta_m as int, k, p as int) as u128,
                big_m: vole_1_shares@[k],
                big_delta: 0,
                delta: 0,
            });
            &&& gamma@.len() == n
            &&& forall|k: int| 0 <= k < n ==> #[trigger] gamma@[k] as int == crate::field::fsub(
                ob_value(vole_0_alpha@, vole_0_shares@, input_values@, eta_m as int, k, p as int),
                vole_1_alpha@[k] as int,
                p as int,
            )
            &&& triples@.len() == 2 * eta_m
            &&& forall|i: int| 0 <= i < 2 * eta_m ==> #[trigger] triples@[i] == triple_of(items, eta_m as int, i)
            &&& inputs@.len() == eta_i
            &&& forall|j: int| 0 <= j < eta_i ==> #[trigger] inputs@[j] == items[6 * eta_m + j]
        }),
{
    let params = FieldParams { p };
    let n = vole_1_alpha.len();
    let ghost items = Seq::new(n as nat, |k: int| Share {
        value: ob_value(vole_0_alpha@, vole_0_shares@, input_values@, eta_m as int, k, p as int) as u128,
        big_m: vole_1_shares@[k],
        big_delta: 0,
        delta: 0,
    });
    let mut all: Vec<Share> = Vec::new();
    let mut gamma: Vec<u128> = Vec::new();
    let mut k: usize = 0;
    while k < n
        invariant
            params.wf(),
            params.p == p,
            n == 6 * eta_m + eta_i,
            vole_0_alpha@.len() == 4 * eta_m,
            vole_0_shares@.len() == 4 * eta_m,
            vole_1_alpha@.len() == n,
            vole_1_shares@.len() == n,
            input_values@.len() == eta_i,
            0 <= k <= n,
            all@.len() == k,
            gamma@.len() == k,
            items.len() == n,
            forall|m: int| 0 <= m < n ==> #[trigger] items[m] == (Share {
                value: ob_value(vole_0_alpha@, vole_0_shares@, input_values@, eta_m as int, m, p as int) as u128,
                big_m: vole_1_shares@[m],
                big_delta: 0,
                delta: 0,
            }),
            forall|m: int| 0 <= m < k ==> #[trigger] all@[m] == items[m],
            forall|m: int| 0 <= m < k ==> #[trigger] gamma@[m] as int == crate::field::fsub(
                ob_value(vole_0_alpha@, vole_0_shares@, input_values@, eta_m as int, m, p as int),
                vole_1_alpha@[m] as int,
                p as int,
            ),
        decreases n - k,
    {
        let v = item_value(vole_0_alpha, vole_0_shares, input_values, eta_m, k, false, params);
        all.push(Share { value: v, big_m: vole_1_shares[k], big_delta: 0, delta: 0 });
        gamma.push(sub_mod(v, vole_1_alpha[k], params));
        k += 1;
    }
    let (inputs, triples) = split_items(&all, eta_i, eta_m);
    (inputs, triples, gamma)
}

/// The input masks and candidate triples of a list of items.
fn split_items(all: &Vec<Share>, eta_i: usize, eta_m: usize) -> (r: (Vec<Share>, Vec<TripleShare>))
    requires
        all@.len() == 6 * eta_m + eta_i,
        6 * eta_m + eta_i <= usize::MAX,
    ensures
        r.1@.len() == 2 * eta_m,
        forall|i: int| 0 <= i < 2 * eta_m ==> #[trigger] r.1@[i] == triple_of(all@, eta_m as int, i),
        r.0@.len() == eta_i,
        forall|j: int| 0 <= j < eta_i ==> #[trigger] r.0@[j] == all@[6 * eta_m + j],
{
    let mut triples: Vec<TripleShare> = Vec::new();
    let mut i: usize = 0;
    while i < 2 * eta_m
        invariant
            all@.len() == 6 * eta_m + eta_i,
            6 * eta_m + eta_i <= usize::MAX,
            0 <= i <= 2 * eta_m,
            triples@.len() == i,
            forall|m: int| 0 <= m < i ==> #[trigger] triples@[m] == triple_of(all@, eta_m as int, m),
        decreases 2 * eta_m - i,
    {
        triples.push(TripleShare { x: all[i], y: all[2 * eta_m + i], z: all[4 * eta_m + i] });
        i += 1;
    }
    let mut inputs: Vec<Share> = Vec::new();
    let mut j: usize = 0;
    while j < eta_i
        invariant
            all@.len() == 6 * eta_m + eta_i,
            6 * eta_m + eta_i <= usize::MAX,
            0 <= j <= eta_i,
            inputs@.len() == j,
            forall|m: int| 0 <= m < j ==> #[trigger] inputs@[m] == all@[6 * eta_m + m],
        decreases eta_i - j,
    {
        inputs.push(all[6 * eta_m + j]);
        j += 1;
    }
    (inputs, triples)
}

/// An item with its keys: the holder's global key and its key share
/// `r + key * gamma` for the peer's MAC.
pub open spec fn keyed(s: Share, key: u128, r: u128, gamma: u128, p: int) -> Share {
    Share { big_delta: key, delta: fadd(r as int, fmul(key as int, gamma as int, p), p) as u128, ..s }
}

/// CB's `k`-th authenticated item.
pub open spec fn cb_item(
    b0: Seq<u128>,
    r0: Seq<u128>,
    inputs: Seq<u128>,
    eta_m: int,
    delta_cb: u128,
    r1: Seq<u128>,
    s2: Seq<u128>,
    gamma_ob: Seq<u128>,
    k: int,
    p: int,
) -> Share {
    keyed(
        Share { value: cb_value(b0, r0, inputs, eta_m, k, p) as u128, big_m: s2[k], big_delta: 0, delta: 0 },
        delta_cb,
        r1[k],
        gamma_ob[k],
        p,
    )
}

/// CB's authenticated items: CB is the receiver of the `4 eta_m` single
/// VOLEs (`vole_0`, its choices `beta` and its shares), the receiver of the
/// wide VOLE keyed with its global key `delta_cb` (`vole_1_shares`), and
/// the sender of the wide VOLE whose receiver holds OB's key (`vole_2`).
/// `gamma_ob` is OB's message. Returns the input masks, the `2 eta_m`
/// candidate triples, and `gamma_cb` for OB.
pub fn abt_cb_shares(
    p: u128,
    eta_i: usize,
    eta_m: usize,
    vole_0_beta: &Vec<u128>,
    vole_0_shares: &Vec<u128>,
    delta_cb: u128,
    vole_1_shares: &Vec<u128>,
    vole_2_alpha: &Vec<u128>,
    vole_2_shares: &Vec<u128>,
    input_values: &Vec<u128>,
    gamma_ob: &Vec<u128>,
) -> (r: (Vec<Share>, Vec<TripleShare>, Vec<u128>))
    requires
        p % 2 == 1,
        p > 1,
        vole_0_beta@.len() == 4 * eta_m,
        vole_0_shares@.len() == 4 * eta_m,
        vole_1_shares@.len() == 6 * eta_m + eta_i,
        vole_2_alpha@.len() == 6 * eta_m + eta_i,
        vole_2_shares@.len() == 6 * eta_m + eta_i,
        gamma_ob@.len() == 6 * eta_m + eta_i,
        input_values@.len() == eta_i,
    ensures
        ({
            let (inputs, triples, gamma) = r;
            let n = 6 * eta_m + eta_i;
            let items = Seq::new(n as nat, |k: int| cb_item(vole_0_beta@, vole_0_shares@, input_values@, eta_m as int,
                delta_cb, vole_1_shares@, vole_2_shares@, gamma_ob@, k, p as int));
            &&& gamma@.len() == n
            &&& forall|k: int| 0 <= k < n ==> #[trigger] gamma@[k] as int == crate::field::fsub(
                cb_value(vole_0_beta@, vole_0_shares@, input_values@, eta_m as int, k, p as int),
                vole_2_alpha@[k] as int,
                p as int,
            )
            &&& triples@.len() == 2 * eta_m
            &&& forall|i: int| 0 <= i < 2 * eta_m ==> #[trigger] triples@[i] == triple_of(items, eta_m as int, i)
            &&& inputs@.len() == eta_i
            &&& forall|j: int| 0 <= j < eta_i ==> #[trigger] inputs@[j] == items[6 * eta_m + j]
        }),
{
    let params = FieldParams { p };
    let n = vole_2_alpha.len();
    let ghost items = Seq::new(n as nat, |k: int| cb_item(vole_0_beta@, vole_0_shares@, input_values@, eta_m as int,
        delta_cb, vole_1_shares@, vole_2_shares@, gamma_ob@, k, p as int));
    let mut all: Vec<Share> = Vec::new();
    let mut gamma: Vec<u128> = Vec::new();
    let mut k: usize = 0;
    while k < n
        invariant
            params.wf(),
            params.p == p,
            n == 6 * eta_m + eta_i,
            vole_0_beta@.len() == 4 * eta_m,
            vole_0_shares@.len() == 4 * eta_m,
            vole_1_shares@.len() == n,
            vole_2_alpha@.len() == n,
            vole_2_shares@.len() == n,
            gamma_ob@.len() == n,
            input_values@.len() == eta_i,
            0 <= k <= n,
            all@.len() == k,
            gamma@.len() == k,
            items.len() == n,
            forall|m: int| 0 <= m < n ==> #[trigger] items[m] == cb_item(vole_0_beta@, vole_0_shares@, input_values@,
                eta_m as int, delta_cb, vole_1_shares@, vole_2_shares@, gamma_ob@, m, p as int),
            forall|m: int| 0 <= m < k ==> #[trigger] all@[m] == items[m],
            forall|m: int| 0 <= m < k ==> #[trigger] gamma@[m] as int == crate::field::fsub(
                cb_value(vole_0_beta@, vole_0_shares@, input_values@, eta_m as int, m, p as int),
                vole_2_alpha@[m] as int,
                p as int,
            ),
        decreases n - k,
    {
        let v = item_value(vole_0_beta, vole_0_shares, input_values, eta_m, k, true, params);
        let d = add_mod(vole_1_shares[k], mul_mod(delta_cb, gamma_ob[k], params), params);
        all.push(Share { value: v, big_m: vole_2_shares[k], big_delta: delta_cb, delta: d });
        gamma.push(sub_mod(v, vole_2_alpha[k], params));
        k += 1;
    }
    let (inputs, triples) = split_items(&all, eta_i, eta_m);
    (inputs, triples, gamma)
}

/// OB's items once its key is known: OB is the receiver of the wide VOLE
/// keyed with its global key `delta_ob` (`vole_2_shares`), and `gamma_cb`
/// is CB's message.
pub fn abt_ob_keys(
    p: u128,
    eta_i: usize,
    eta_m: usize,
    inputs: &Vec<Share>,
    triples: &Vec<TripleShare>,
    delta_ob: u128,
    vole_2_shares: &Vec<u128>,
    gamma_cb: &Vec<u128>,
) -> (r: (Vec<Share>, Vec<TripleShare>))
    requires
        p % 2 == 1,
        p > 1,
        inputs@.len() == eta_i,
        triples@.len() == 2 * eta_m,
        vole_2_shares@.len() == 6 * eta_m + eta_i,
        gamma_cb@.len() == 6 * eta_m + eta_i,
    ensures
        r.0@.len() == eta_i,
        r.1@.len() == 2 * eta_m,
        forall|j: int| 0 <= j < eta_i ==> #[trigger] r.0@[j] == keyed(inputs@[j], delta_ob,
            vole_2_shares@[6 * eta_m + j], gamma_cb@[6 * eta_m + j], p as int),
        forall|i: int| 0 <= i < 2 * eta_m ==> #[trigger] r.1@[i] == (TripleShare {
            x: keyed(triples@[i].x, delta_ob, vole_2_shares@[i], gamma_cb@[i], p as int),
            y: keyed(triples@[i].y, delta_ob, vole_2_shares@[2 * eta_m + i], gamma_cb@[2 * eta_m + i], p as int),
            z: keyed(triples@[i].z, delta_ob, vole_2_shares@[4 * eta_m + i], gamma_cb@[4 * eta_m + i], p as int),
        }),
{
    let params = FieldParams { p };
    let n = vole_2_shares.len();
    let mut out_t: Vec<TripleShare> = Vec::new();
    let mut i: usize = 0;
    while i < 2 * eta_m
        invariant
            params.wf(),
            params.p == p,
            n == 6 * eta_m + eta_i,
            triples@.len() == 2 * eta_m,
            vole_2_shares@.len() == n,
            gamma_cb@.len() == n,
            0 <= i <= 2 * eta_m,
            out_t@.len() == i,
            forall|m: int| 0 <= m < i ==> #[trigger] out_t@[m] == (TripleShare {
                x: keyed(triples@[m].x, delta_ob, vole_2_shares@[m], gamma_cb@[m], p as int),
                y: keyed(triples@[m].y, delta_ob, vole_2_shares@[2 * eta_m + m], gamma_cb@[2 * eta_m + m], p as int),
                z: keyed(triples@[m].z, delta_ob, vole_2_shares@[4 * eta_m + m], gamma_cb@[4 * eta_m + m], p as int),
            }),
        decreases 2 * eta_m - i,
    {
        let t = triples[i];
        let dx = add_mod(vole_2_shares[i], mul_mod(delta_ob, gamma_cb[i], params), params);
        let dy = add_mod(vole_2_shares[2 * eta_m + i], mul_mod(delta_ob, gamma_cb[2 * eta_m + i], params), params);
        let dz = add_mod(vole_2_shares[4 * eta_m + i], mul_mod(delta_ob, gamma_cb[4 * eta_m + i], params), params);
        out_t.push(TripleShare {
            x: Share { big_delta: delta_ob, delta: dx, ..t.x },
            y: Share { big_delta: delta_ob, delta: dy, ..t.y },
            z: Share { big_delta: delta_ob, delta: dz, ..t.z },
        });
        i += 1;
    }
    let mut out_i: Vec<Share> = Vec::new();
    let mut j: usize = 0;
    while j < eta_i
        invariant
            params.wf(),
            params.p == p,
            n == 6 * eta_m + eta_i,
            inputs@.len() == eta_i,
            vole_2_shares@.len() == n,
            gamma_cb@.len() == n,
            0 <= j <= eta_i,
            out_i@.len() == j,
            forall|m: int| 0 <= m < j ==> #[trigger] out_i@[m] == keyed(inputs@[m], delta_ob,
                vole_2_shares@[6 * eta_m + m], gamma_cb@[6 * eta_m + m], p as int),
        decreases eta_i - j,
    {
        let s = inputs[j];
        let d = add_mod(vole_2_shares[6 * eta_m + j], mul_mod(delta_ob, gamma_cb[6 * eta_m + j], params), params);
        out_i.push(Share { big_delta: delta_ob, delta: d, ..s });
        j += 1;
    }
    (out_i, out_t)
}

/// OB's `k`-th authenticated item, once its keys are known.
pub open spec fn ob_item(
    a0: Seq<u128>,
    s0: Seq<u128>,
    inputs: Seq<u128>,
    eta_m: int,
    s1: Seq<u128>,
    delta_ob: u128,
    r2: Seq<u128>,
    gamma_cb: Seq<u128>,
    k: int,
    p: int,
) -> Share {
    keyed(
        Share { value: ob_value(a0, s0, inputs, eta_m, k, p) as u128, big_m: s1[k], big_delta: 0, delta: 0 },
        delta_ob,
        r2[k],
        gamma_cb[k],
        p,
    )
}

/// The VOLE correlation: the two parties' shares add up to `alpha * beta`.
pub open spec fn vole_correlated(sender: Seq<u128>, receiver: Seq<u128>, alpha: Seq<u128>, beta: Seq<u128>, n: int, p: int) -> bool {
    forall|k: int| 0 <= k < n ==> cong(#[trigger] sender[k] + receiver[k], alpha[k] * beta[k], p)
}

/// A key share built from a VOLE output checks the peer's MAC: from
/// `m + r == a beta` and `g == v - a` follows
/// `m + (r + beta g) == v beta`.
proof fn lemma_vole_mac(m: int, r: int, a: int, beta: int, v: int, g: int, p: int)
    requires
        p > 0,
        cong(m + r, a * beta, p),
        g == (v - a) % p,
    ensures
        cong(m + (r + (beta * g) % p) % p, v * beta, p),
{
    lemma_cong_mod(v - a, p);
    lemma_cong_mul(beta, beta, g, v - a, p);
    lemma_cong_mod(beta * g, p);
    lemma_cong_add(r, r, (beta * g) % p, beta * (v - a), p);
    lemma_cong_mod(r + (beta * g) % p, p);
    lemma_cong_add(m, m, (r + (beta * g) % p) % p, r + beta * (v - a), p);
    assert(m + (r + beta * (v - a)) == (m + r) + beta * (v - a));
    lemma_cong_add(m + r, a * beta, beta * (v - a), beta * (v - a), p);
    assert(a * beta + beta * (v - a) == v * beta) by (nonlinear_arith);
}

/// Candidate triple `i` reconstructs to `z = x y`.
pub open spec fn candidate_correct(
    a0: Seq<u128>,
    b0: Seq<u128>,
    s0: Seq<u128>,
    r0: Seq<u128>,
    r1: Seq<u128>,
    s1: Seq<u128>,
    s2: Seq<u128>,
    r2: Seq<u128>,
    delta_cb: u128,
    delta_ob: u128,
    inputs_ob: Seq<u128>,
    inputs_cb: Seq<u128>,
    gamma_ob: Seq<u128>,
    gamma_cb: Seq<u128>,
    eta_m: int,
    i: int,
    p: int,
) -> bool {
    let cz = cb_item(b0, r0, inputs_cb, eta_m, delta_cb, r1, s2, gamma_ob, 4 * eta_m + i, p);
    let oz = ob_item(a0, s0, inputs_ob, eta_m, s1, delta_ob, r2, gamma_cb, 4 * eta_m + i, p);
    let cx = cb_item(b0, r0, inputs_cb, eta_m, delta_cb, r1, s2, gamma_ob, i, p);
    let ox = ob_item(a0, s0, inputs_ob, eta_m, s1, delta_ob, r2, gamma_cb, i, p);
    let cy = cb_item(b0, r0, inputs_cb, eta_m, delta_cb, r1, s2, gamma_ob, 2 * eta_m + i, p);
    let oy = ob_item(a0, s0, inputs_ob, eta_m, s1, delta_ob, r2, gamma_cb, 2 * eta_m + i, p);
    reconstruct(cz, oz, p) == fmul(reconstruct(cx, ox, p), reconstruct(cy, oy, p), p)
}

/// The items that the triple assembly outputs are authenticated and the
/// triples are correct: given the three VOLE correlations (single VOLEs
/// `s0 + r0 == a0 b0`, the wide VOLE under CB's key
/// `s1 + r1 == a1 delta_cb`, and under OB's key `s2 + r2 == a2 delta_ob`)
/// and the exchanged `gamma` messages, every pair of CB's and OB's items is
/// authenticated both ways, and every candidate triple reconstructs to
/// `z = x y`.
pub proof fn lemma_abt_triples(
    a0: Seq<u128>,
    b0: Seq<u128>,
    s0: Seq<u128>,
    r0: Seq<u128>,
    a1: Seq<u128>,
    s1: Seq<u128>,
    r1: Seq<u128>,
    a2: Seq<u128>,
    s2: Seq<u128>,
    r2: Seq<u128>,
    delta_cb: u128,
    delta_ob: u128,
    inputs_ob: Seq<u128>,
    inputs_cb: Seq<u128>,
    gamma_ob: Seq<u128>,
    gamma_cb: Seq<u128>,
    eta_m: int,
    eta_i: int,
    params: FieldParams,
)
    requires
        params.wf(),
        eta_m >= 0,
        eta_i >= 0,
        a0.len() == 4 * eta_m && b0.len() == 4 * eta_m && s0.len() == 4 * eta_m && r0.len() == 4 * eta_m,
        inputs_ob.len() == eta_i && inputs_cb.len() == eta_i,
        vole_correlated(s0, r0, a0, b0, 4 * eta_m, params.p as int),
        forall|k: int| 0 <= k < 6 * eta_m + eta_i ==> cong(#[trigger] s1[k] + r1[k], a1[k] * delta_cb, params.p as int),
        forall|k: int| 0 <= k < 6 * eta_m + eta_i ==> cong(#[trigger] s2[k] + r2[k], a2[k] * delta_ob, params.p as int),
        forall|k: int| 0 <= k < 6 * eta_m + eta_i ==> #[trigger] gamma_ob[k] as int == crate::field::fsub(
            ob_value(a0, s0, inputs_ob, eta_m, k, params.p as int), a1[k] as int, params.p as int),
        forall|k: int| 0 <= k < 6 * eta_m + eta_i ==> #[trigger] gamma_cb[k] as int == crate::field::fsub(
            cb_value(b0, r0, inputs_cb, eta_m, k, params.p as int), a2[k] as int, params.p as int),
    ensures
        forall|k: int| 0 <= k < 6 * eta_m + eta_i ==> pair_valid(
            #[trigger] cb_item(b0, r0, inputs_cb, eta_m, delta_cb, r1, s2, gamma_ob, k, params.p as int),
            ob_item(a0, s0, inputs_ob, eta_m, s1, delta_ob, r2, gamma_cb, k, params.p as int),
            params.p as int,
        ),
        forall|i: int| 0 <= i < 2 * eta_m ==> #[trigger] candidate_correct(a0, b0, s0, r0, r1, s1, s2, r2, delta_cb,
            delta_ob, inputs_ob, inputs_cb, gamma_ob, gamma_cb, eta_m, i, params.p as int),
{
    let p = params.p as int;
    assert forall|k: int| 0 <= k < 6 * eta_m + eta_i implies pair_valid(
        #[trigger] cb_item(b0, r0, inputs_cb, eta_m, delta_cb, r1, s2, gamma_ob, k, p),
        ob_item(a0, s0, inputs_ob, eta_m, s1, delta_ob, r2, gamma_cb, k, p),
        p,
    ) by {
        let ov = ob_value(a0, s0, inputs_ob, eta_m, k, p);
        let cv = cb_value(b0, r0, inputs_cb, eta_m, k, p);
        lemma_value_in_range(a0, s0, inputs_ob, b0, r0, inputs_cb, eta_m, k, p);
        lemma_vole_mac(s1[k] as int, r1[k] as int, a1[k] as int, delta_cb as int, ov, gamma_ob[k] as int, p);
        lemma_vole_mac(s2[k] as int, r2[k] as int, a2[k] as int, delta_ob as int, cv, gamma_cb[k] as int, p);
        vstd::arithmetic::div_mod::lemma_mod_bound(r1[k] + (delta_cb * gamma_ob[k]) % p, p);
        vstd::arithmetic::div_mod::lemma_mod_bound(r2[k] + (delta_ob * gamma_cb[k]) % p, p);
        assert(delta_cb as int * gamma_ob[k] as int == delta_cb * gamma_ob[k]);
    }
    assert forall|i: int| 0 <= i < 2 * eta_m implies #[trigger] candidate_correct(a0, b0, s0, r0, r1, s1, s2, r2,
        delta_cb, delta_ob, inputs_ob, inputs_cb, gamma_ob, gamma_cb, eta_m, i, p) by {
        let j = 2 * eta_m + i;
        lemma_value_in_range(a0, s0, inputs_ob, b0, r0, inputs_cb, eta_m, 4 * eta_m + i, p);
        let zc = cb_value(b0, r0, inputs_cb, eta_m, 4 * eta_m + i, p);
        let zo = ob_value(a0, s0, inputs_ob, eta_m, 4 * eta_m + i, p);
        let (ai, aj, bi, bj) = (a0[i] as int, a0[j] as int, b0[i] as int, b0[j] as int);
        let (si, sj, ri, rj) = (s0[i] as int, s0[j] as int, r0[i] as int, r0[j] as int);
        assert(cong(si + ri, ai * bi, p));
        assert(cong(sj + rj, aj * bj, p));
        // z_cb + z_ob is congruent to (b_i + a_j)(b_j + a_i)
        lemma_cong_mod(ri + rj, p);
        lemma_cong_mod(bi * bj, p);
        lemma_cong_add((ri + rj) % p, ri + rj, (bi * bj) % p, bi * bj, p);
        lemma_cong_mod((ri + rj) % p + (bi * bj) % p, p);
        lemma_cong_mod(si + sj, p);
        lemma_cong_mod(ai * aj, p);
        lemma_cong_add((si + sj) % p, si + sj, (ai * aj) % p, ai * aj, p);
        lemma_cong_mod((si + sj) % p + (ai * aj) % p, p);
        lemma_cong_add(zc, ri + rj + bi * bj, zo, si + sj + ai * aj, p);
        lemma_cong_add(si + ri, ai * bi, sj + rj, aj * bj, p);
        lemma_cong_add((si + ri) + (sj + rj), ai * bi + aj * bj, bi * bj + ai * aj, bi * bj + ai * aj, p);
        assert(ri + rj + bi * bj + (si + sj + ai * aj) == (si + ri) + (sj + rj) + (bi * bj + ai * aj));
        assert(ai * bi + aj * bj + (bi * bj + ai * aj) == (bi + aj) * (bj + ai)) by (nonlinear_arith);
        lemma_cong_mod(zc + zo, p);
        lemma_cong_mod(bi + aj, p);
        lemma_cong_mod(bj + ai, p);
        lemma_cong_mul((bi + aj) % p, bi + aj, (bj + ai) % p, bj + ai, p);
    }
}

/// Item values fit a `u128`.
proof fn lemma_value_in_range(
    a0: Seq<u128>,
    s0: Seq<u128>,
    inputs_ob: Seq<u128>,
    b0: Seq<u128>,
    r0: Seq<u128>,
    inputs_cb: Seq<u128>,
    eta_m: int,
    k: int,
    p: int,
)
    requires
        0 < p <= u128::MAX,
        eta_m >= 0,
        0 <= k,
        a0.len() == 4 * eta_m && b0.len() == 4 * eta_m && s0.len() == 4 * eta_m && r0.len() == 4 * eta_m,
        k < 6 * eta_m + inputs_ob.len(),
        inputs_ob.len() == inputs_cb.len(),
    ensures
        0 <= ob_value(a0, s0, inputs_ob, eta_m, k, p) <= u128::MAX,
        0 <= cb_value(b0, r0, inputs_cb, eta_m, k, p) <= u128::MAX,
        (4 * eta_m <= k < 6 * eta_m) ==> ob_value(a0, s0, inputs_ob, eta_m, k, p) < p && cb_value(b0, r0, inputs_cb, eta_m, k, p) < p,
{
    if 4 * eta_m <= k < 6 * eta_m {
        let i = k - 4 * eta_m;
        vstd::arithmetic::div_mod::lemma_mod_bound(
            fadd(s0[i] as int, s0[2 * eta_m + i] as int, p) + fmul(a0[i] as int, a0[2 * eta_m + i] as int, p), p);
        vstd::arithmetic::div_mod::lemma_mod_bound(
            fadd(r0[i] as int, r0[2 * eta_m + i] as int, p) + fmul(b0[i] as int, b0[2 * eta_m + i] as int, p), p);
    }
}

} // verus!
