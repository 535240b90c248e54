//! The CFM online protocol (18 rounds).
//!
//! OB holds X and, after the set-membership step, `Z_Y^OB` and `M_Y`; CB
//! holds `Z_CB`, `W = Z_CB + L` and the MAC keys `alpha`, `beta`. Rounds 1
//! to 5: both commit to these bit by bit with pre-shared masks, prove every
//! committed bit to be a bit (TestBit opens to one), and prove that the bit
//! decompositions add up (`V = U - X - Z_Y^OB` and `T = W - Z_CB - L` open
//! to zero). Rounds 5 to 14: two comparisons run side by side,
//! `[c] = Z_CB > Z_Y^OB` and `[b] = W > U`. Rounds 12 to 18: the MAC on
//! `Z_Y^OB` is checked through `[z] = alpha Z_Y^OB + beta - M_Y`,
//! `[f] = (1 - (1 - [c])(1 - [z])) [r]` must open to zero, and `[b]` is
//! opened as the answer. The set-membership exchange (`psi`) and the random
//! draws are handed in by the caller.
use crate::beaver::{
    mul_open_msg, mul_open_state, mul_opens_valid, mul_output, multiply_shares_open,
    multiply_shares_output, test_bit_open, test_bit_operand, test_bit_output, MulSharesOpen,
    MulSharesState, TripleShare,
};
use crate::comparison::{
    comp_create_msg1, comp_process_msg1, comp_process_msg2, comp_process_msg3, comp_process_msg4,
    comp_process_msg5, comp_process_msg6, comp_process_msg7, comp_process_msg8, comp_process_msg9,
    shares_keyed, triples_keyed, CompMsg1, CompMsg2, CompMsg3, CompMsg4, CompMsg5, CompMsg6, CompMsg7,
    CompMsg8, CompMsg9, CompStateP1R0, CompStateP1R2, CompStateP1R4, CompStateP1R6, CompStateP2R1,
    CompStateP2R3, CompStateP2R5, CompStateP2R7,
};
use crate::transcript::{transcript_append, transcript_challenge, transcript_new};
use crate::utils::CFM_LABEL;
use crate::errors::CFMError;
use crate::field::{add_mod, fadd, fsub, sub_mod, FieldParams};
use crate::share::{opening_valid, Share};
use vstd::prelude::*;

verus! {

/// Bit length of the compared values.
pub const L: usize = 128;

/// Bit length of the transaction amount and of the threshold.
pub const B_PARAMETER: usize = 47;

/// Number of authenticated input masks that one query consumes.
pub const NUMBER_OF_SHARES: usize = 564;

/// Number of masks that are bit commitments (all but the five scalars).
pub const NUMBER_OF_BITS: usize = 559;

/// Offset of the first triple of the comparisons.
pub const AUTH_TRIPLES_OFFSET: usize = 559;

/// Number of authenticated triples that one query consumes.
pub const NUMBER_OF_AUTH_BEAVER_TRIPLES: usize = 1312;

/// `2^B`: the bound on X and L.
pub const TWO_POW_B: u64 = 0x8000_0000_0000;

/// `2^(l-1) + 2^(B+1)`: p must exceed it.
pub const MIN_PRIME: u128 = 0x8000_0000_0000_0000_0001_0000_0000_0000;

/// Bit `i` of `v`.
pub open spec fn bit_of(v: u128, i: int) -> u128 {
    (v >> (i as u128)) & 1u128
}

/// The share that `cb_input` / `ob_input` yields for the mask `x`, the
/// peer's opening `o` of it and the input `y`.
pub open spec fn input_share(x: Share, o: (u128, u128), y: int, is_cb: bool, p: int) -> Share {
    x.spec_add_const(fsub(y, fadd(x.value as int, o.0 as int, p), p), is_cb, p)
}

/// The public difference that `cb_input` / `ob_input` sends.
pub open spec fn input_d(x: Share, o: (u128, u128), y: int, p: int) -> int {
    fsub(y, fadd(x.value as int, o.0 as int, p), p)
}

/// The parameters of a query are in range: an odd modulus above
/// `2^(l-1) + 2^(B+1)` and a threshold below `2^B`.
pub open spec fn params_ok(p: u128, big_l: u64) -> bool {
    p % 2 == 1 && p > MIN_PRIME && big_l < TWO_POW_B
}

/// The opens `(value, mac)` of `x[base .. base + n]`.
fn open_range(x: &[Share], base: usize, n: usize) -> (r: Vec<(u128, u128)>)
    requires
        base + n <= x@.len(),
    ensures
        r@.len() == n,
        forall|i: int| 0 <= i < n ==> #[trigger] r@[i] == x@[base + i].open_spec(),
{
    let mut r: Vec<(u128, u128)> = Vec::new();
    let xl = x.len();
    let mut i: usize = 0;
    while i < n
        invariant
            xl == x@.len(),
            base + n <= x@.len(),
            0 <= i <= n,
            r@.len() == i,
            forall|k: int| 0 <= k < i ==> #[trigger] r@[k] == x@[base + k].open_spec(),
        decreases n - i,
    {
        r.push(x[base + i].open());
        i += 1;
    }
    r
}

/// Inputs the bits `0 .. n` of `v` through the masks `x[base ..]`, with
/// the peer's openings of the masks.
fn input_bits(
    x: &[Share],
    base: usize,
    n: usize,
    opens: &Vec<(u128, u128)>,
    v: u128,
    is_cb: bool,
    params: FieldParams,
) -> (r: Result<(Vec<Share>, Vec<u128>), CFMError>)
    requires
        params.wf(),
        base + n <= x@.len(),
        n <= 128,
    ensures
        r.is_ok() <==> (opens@.len() == n && forall|i: int|
            0 <= i < n ==> opening_valid(
                #[trigger] x@[base + i],
                opens@[i].0 as int,
                opens@[i].1 as int,
                params.p as int,
            )),
        r matches Err(e) ==> e == CFMError::InvalidOpen,
        r matches Ok((s, d)) ==> {
            &&& s@.len() == n
            &&& d@.len() == n
            &&& forall|i: int|
                0 <= i < n ==> #[trigger] s@[i] == input_share(
                    x@[base + i],
                    opens@[i],
                    bit_of(v, i) as int,
                    is_cb,
                    params.p as int,
                ) && d@[i] as int == input_d(x@[base + i], opens@[i], bit_of(v, i) as int, params.p as int)
        },
{
    if opens.len() != n {
        return Err(CFMError::InvalidOpen);
    }
    let xl = x.len();
    let mut s: Vec<Share> = Vec::new();
    let mut d: Vec<u128> = Vec::new();
    let mut i: usize = 0;
    while i < n
        invariant
            params.wf(),
            xl == x@.len(),
            base + n <= x@.len(),
            n <= 128,
            opens@.len() == n,
            0 <= i <= n,
            s@.len() == i,
            d@.len() == i,
            forall|k: int|
                0 <= k < i ==> opening_valid(
                    #[trigger] x@[base + k],
                    opens@[k].0 as int,
                    opens@[k].1 as int,
                    params.p as int,
                ),
            forall|k: int|
                0 <= k < i ==> #[trigger] s@[k] == input_share(
                    x@[base + k],
                    opens@[k],
                    bit_of(v, k) as int,
                    is_cb,
                    params.p as int,
                ) && d@[k] as int == input_d(x@[base + k], opens@[k], bit_of(v, k) as int, params.p as int),
        decreases n - i,
    {
        let y: u128 = (v >> (i as u128)) & 1u128;
        let r = if is_cb {
            x[base + i].cb_input(&opens[i], &y, params)
        } else {
            x[base + i].ob_input(&opens[i], &y, params)
        };
        let (si, di) = match r {
            Ok(v) => v,
            Err(_) => return Err(CFMError::InvalidOpen),
        };
        s.push(si);
        d.push(di);
        i += 1;
    }
    Ok((s, d))
}

/// The peer's side of an input: the masks `x[base .. base + n]` shifted by
/// the received differences.
fn apply_inputs(x: &[Share], base: usize, n: usize, ds: &Vec<u128>, is_cb: bool, params: FieldParams) -> (r: Result<Vec<Share>, CFMError>)
    requires
        params.wf(),
        base + n <= x@.len(),
    ensures
        r.is_ok() <==> ds@.len() == n,
        r matches Err(e) ==> e == CFMError::InvalidMessage,
        r matches Ok(s) ==> {
            &&& s@.len() == n
            &&& forall|i: int|
                0 <= i < n ==> #[trigger] s@[i] == x@[base + i].spec_add_const(ds@[i] as int, is_cb, params.p as int)
        },
{
    if ds.len() != n {
        return Err(CFMError::InvalidMessage);
    }
    let xl = x.len();
    let mut s: Vec<Share> = Vec::new();
    let mut i: usize = 0;
    while i < n
        invariant
            params.wf(),
            xl == x@.len(),
            base + n <= x@.len(),
            ds@.len() == n,
            0 <= i <= n,
            s@.len() == i,
            forall|k: int|
                0 <= k < i ==> #[trigger] s@[k] == x@[base + k].spec_add_const(ds@[k] as int, is_cb, params.p as int),
        decreases n - i,
    {
        s.push(x[base + i].add_const(&ds[i], is_cb, params));
        i += 1;
    }
    Ok(s)
}

/// The peer's openings `opens` of the masks `x[base .. base + n]` are all
/// accepted.
pub open spec fn masks_open_ok(x: Seq<Share>, base: int, n: int, opens: Seq<(u128, u128)>, p: int) -> bool {
    &&& opens.len() == n
    &&& forall|i: int| 0 <= i < n ==> opening_valid(#[trigger] x[base + i], opens[i].0 as int, opens[i].1 as int, p)
}

/// The masks `x[base .. base + n]` shifted by the received differences.
pub open spec fn applied(x: Seq<Share>, base: int, n: int, ds: Seq<u128>, is_cb: bool, p: int) -> Seq<Share> {
    Seq::new(n as nat, |i: int| x[base + i].spec_add_const(ds[i] as int, is_cb, p))
}

/// Every opening of a TestBit output is accepted and opens to one.
pub open spec fn bits_open_to_one(t: Seq<Share>, opens: Seq<(u128, u128)>, p: int) -> bool {
    &&& opens.len() == t.len()
    &&& forall|i: int|
        0 <= i < t.len() ==> opening_valid(#[trigger] t[i], opens[i].0 as int, opens[i].1 as int, p)
            && fadd(t[i].value as int, opens[i].0 as int, p) == 1
}

/// Every opening of a TestBit output passes its MAC check.
pub open spec fn bits_macs_accepted(t: Seq<Share>, opens: Seq<(u128, u128)>, p: int) -> bool {
    forall|i: int| 0 <= i < t.len() ==> opening_valid(#[trigger] t[i], opens[i].0 as int, opens[i].1 as int, p)
}

/// Every opening of a TestBit output that passes its MAC check opens to
/// one.
pub open spec fn accepted_are_one(t: Seq<Share>, opens: Seq<(u128, u128)>, p: int) -> bool {
    forall|i: int|
        0 <= i < t.len() && opening_valid(#[trigger] t[i], opens[i].0 as int, opens[i].1 as int, p)
            ==> fadd(t[i].value as int, opens[i].0 as int, p) == 1
}

/// An opening of `s` is accepted and opens to zero.
pub open spec fn opens_to_zero(s: Share, o: (u128, u128), p: int) -> bool {
    opening_valid(s, o.0 as int, o.1 as int, p) && fadd(s.value as int, o.0 as int, p) == 0
}

/// OB creates CFMMsg1 for CB: opens the masks of CB's bit inputs and of
/// CB's scalars `alpha`, `beta`, `r_CB`.
pub fn cfm_create_msg1(
    session_id: &[u8; 32],
    p: u128,
    big_l: u64,
    big_x: u64,
    x_shares: &[Share],
) -> (r: Result<(CFMStateOBR1, CFMMsg1), CFMError>)
    ensures
        r.is_ok() <==> (params_ok(p, big_l) && big_x < TWO_POW_B && x_shares@.len() == NUMBER_OF_SHARES),
        r matches Err(e) ==> e == CFMError::BadParameters,
        r matches Ok((st, m)) ==> {
            &&& st.session_id == *session_id
            &&& st.p == p
            &&& st.big_l == big_l
            &&& st.big_x == big_x
            &&& m.session_id == *session_id
            &&& m.open_0@.len() == L
            &&& m.open_1@.len() == L
            &&& forall|i: int| 0 <= i < L ==> #[trigger] m.open_0@[i] == x_shares@[i].open_spec()
            &&& forall|i: int| 0 <= i < L ==> #[trigger] m.open_1@[i] == x_shares@[L + i].open_spec()
            &&& m.open_2 == x_shares@[559].open_spec()
            &&& m.open_3 == x_shares@[560].open_spec()
            &&& m.open_4 == x_shares@[562].open_spec()
        },
{
    if !(p % 2 == 1 && p > MIN_PRIME && big_l < TWO_POW_B && big_x < TWO_POW_B && x_shares.len()
        == NUMBER_OF_SHARES) {
        return Err(CFMError::BadParameters);
    }
    let open_0 = open_range(x_shares, 0, L);
    let open_1 = open_range(x_shares, L, L);
    let state = CFMStateOBR1 { session_id: *session_id, p, big_l, big_x };
    let msg1 = CFMMsg1 {
        session_id: *session_id,
        open_0,
        open_1,
        open_2: x_shares[559].open(),
        open_3: x_shares[560].open(),
        open_4: x_shares[562].open(),
    };
    Ok((state, msg1))
}

/// What CB hands to the set-membership step for its `k`-th customer: the
/// flow masked with `Z_CB`, and its MAC `alpha * Z_OB + beta`.
pub open spec fn psit_payload(z_cb: u128, flow: u64, alpha: u128, beta: u128, p: int) -> (int, int) {
    let z_ob = fadd(z_cb as int, flow as int, p);
    (z_ob, fadd(crate::field::fmul(alpha as int, z_ob, p), beta as int, p))
}

/// CB's payloads for the set-membership step: for each flow `Z_k`,
/// `Z_OB,k = Z_CB + Z_k` and `M_k = alpha * Z_OB,k + beta`.
pub fn cfm_psit_payloads(p: u128, big_z_cb: u128, big_z: &Vec<u64>, alpha: u128, beta: u128) -> (r: (
    Vec<u128>,
    Vec<u128>,
))
    requires
        p % 2 == 1,
        p > 1,
    ensures
        r.0@.len() == big_z@.len(),
        r.1@.len() == big_z@.len(),
        forall|k: int|
            0 <= k < big_z@.len() ==> (#[trigger] r.0@[k] as int, r.1@[k] as int) == psit_payload(
                big_z_cb,
                big_z@[k],
                alpha,
                beta,
                p as int,
            ),
{
    let params = FieldParams { p };
    let mut z_ob: Vec<u128> = Vec::new();
    let mut macs: Vec<u128> = Vec::new();
    let mut k: usize = 0;
    while k < big_z.len()
        invariant
            params.wf(),
            params.p == p,
            z_ob@.len() == k,
            macs@.len() == k,
            0 <= k <= big_z@.len(),
            forall|m: int|
                0 <= m < k ==> (#[trigger] z_ob@[m] as int, macs@[m] as int) == psit_payload(
                    big_z_cb,
                    big_z@[m],
                    alpha,
                    beta,
                    p as int,
                ),
        decreases big_z@.len() - k,
    {
        let zk = add_mod(big_z_cb, big_z[k] as u128, params);
        let mk = add_mod(crate::field::mul_mod(alpha, zk, params), beta, params);
        z_ob.push(zk);
        macs.push(mk);
        k += 1;
    }
    (z_ob, macs)
}

/// CB processes CFMMsg1 from OB: inputs the bits of `Z_CB` and of
/// `W = Z_CB + L`, and the scalars `alpha`, `beta`, `r_CB`; opens the masks
/// of OB's inputs and `[Z_{l-1}^CB]`, which must open to zero.
/// `big_z_cb` (below `2^(l-1)`), `alpha`, `beta` and `r_cb` are CB's fresh
/// random draws.
#[verifier::spinoff_prover]
pub fn cfm_process_msg1(
    session_id: &[u8; 32],
    p: u128,
    big_l: u64,
    x_shares: &[Share],
    msg1: &CFMMsg1,
    big_z_cb: u128,
    alpha: u128,
    beta: u128,
    r_cb: u128,
) -> (r: Result<(CFMStateCBR1, CFMMsg2), CFMError>)
    requires
        big_z_cb < 0x8000_0000_0000_0000_0000_0000_0000_0000u128,
    ensures
        params_ok(p, big_l) && x_shares@.len() == NUMBER_OF_SHARES && session_id@ == msg1.session_id@ && r.is_err()
            ==> (r matches Err(e) && e == CFMError::InvalidOpen),
        params_ok(p, big_l) && x_shares@.len() == NUMBER_OF_SHARES && session_id@ == msg1.session_id@ ==> (r.is_ok() <==> {
            &&& masks_open_ok(x_shares@, 0, L as int, msg1.open_0@, p as int)
            &&& masks_open_ok(x_shares@, L as int, L as int, msg1.open_1@, p as int)
            &&& opening_valid(x_shares@[559], msg1.open_2.0 as int, msg1.open_2.1 as int, p as int)
            &&& opening_valid(x_shares@[560], msg1.open_3.0 as int, msg1.open_3.1 as int, p as int)
            &&& opening_valid(x_shares@[562], msg1.open_4.0 as int, msg1.open_4.1 as int, p as int)
        }),
        !(params_ok(p, big_l) && x_shares@.len() == NUMBER_OF_SHARES) ==> r == Err::<(CFMStateCBR1, CFMMsg2), CFMError>(CFMError::BadParameters),
        params_ok(p, big_l) && x_shares@.len() == NUMBER_OF_SHARES ==> ((r matches Err(e) && e == CFMError::InvalidSessionID) <==> session_id@ != msg1.session_id@),
        r matches Err(e) ==> e == CFMError::BadParameters || e == CFMError::InvalidSessionID || e == CFMError::InvalidOpen,
        r matches Ok((st, m)) ==> {
            let p = p as int;
            let big_w = fadd(big_z_cb as int, big_l as int, p) as u128;
            &&& st.session_id == *session_id
            &&& m.session_id == *session_id
            &&& st.p == p
            &&& st.big_l == big_l
            &&& st.z_i_cb_shares@.len() == L
            &&& st.w_i_shares@.len() == L
            &&& forall|i: int|
                0 <= i < L ==> #[trigger] st.z_i_cb_shares@[i] == input_share(x_shares@[i], msg1.open_0@[i], bit_of(big_z_cb, i) as int, true, p)
                    && m.d_0@[i] as int == input_d(x_shares@[i], msg1.open_0@[i], bit_of(big_z_cb, i) as int, p)
            &&& forall|i: int|
                0 <= i < L ==> #[trigger] st.w_i_shares@[i] == input_share(x_shares@[L + i], msg1.open_1@[i], bit_of(big_w, i) as int, true, p)
                    && m.d_1@[i] as int == input_d(x_shares@[L + i], msg1.open_1@[i], bit_of(big_w, i) as int, p)
            &&& st.alpha_share == input_share(x_shares@[559], msg1.open_2, alpha as int, true, p)
            &&& st.beta_share == input_share(x_shares@[560], msg1.open_3, beta as int, true, p)
            &&& st.r_cb_share == input_share(x_shares@[562], msg1.open_4, r_cb as int, true, p)
            &&& m.d_2 as int == input_d(x_shares@[559], msg1.open_2, alpha as int, p)
            &&& m.d_3 as int == input_d(x_shares@[560], msg1.open_3, beta as int, p)
            &&& m.d_4 as int == input_d(x_shares@[562], msg1.open_4, r_cb as int, p)
            &&& m.open_0 == x_shares@[561].open_spec()
            &&& m.open_4 == x_shares@[563].open_spec()
            &&& m.open_1@.len() == L && m.open_3@.len() == L && m.open_2@.len() == B_PARAMETER
            &&& forall|i: int| 0 <= i < L ==> #[trigger] m.open_1@[i] == x_shares@[2 * L + i].open_spec()
            &&& forall|i: int| 0 <= i < B_PARAMETER ==> #[trigger] m.open_2@[i] == x_shares@[3 * L + i].open_spec()
            &&& forall|i: int| 0 <= i < L ==> #[trigger] m.open_3@[i] == x_shares@[3 * L + B_PARAMETER + i].open_spec()
            &&& m.open_z_l_minus_1 == st.z_i_cb_shares@[L - 1].open_spec()
        },
{
    if !(p % 2 == 1 && p > MIN_PRIME && big_l < TWO_POW_B && x_shares.len() == NUMBER_OF_SHARES) {
        return Err(CFMError::BadParameters);
    }
    if !crate::comparison::same_session(session_id, &msg1.session_id) {
        return Err(CFMError::InvalidSessionID);
    }
    let params = FieldParams { p };
    let big_w = add_mod(big_z_cb, big_l as u128, params);
    let (z_i_cb_shares, d_0) = match input_bits(x_shares, 0, L, &msg1.open_0, big_z_cb, true, params) {
        Ok(v) => v,
        Err(e) => return Err(e),
    };
    let (w_i_shares, d_1) = match input_bits(x_shares, L, L, &msg1.open_1, big_w, true, params) {
        Ok(v) => v,
        Err(e) => return Err(e),
    };
    let (alpha_share, d_2) = match x_shares[559].cb_input(&msg1.open_2, &alpha, params) {
        Ok(v) => v,
        Err(_) => return Err(CFMError::InvalidOpen),
    };
    let (beta_share, d_3) = match x_shares[560].cb_input(&msg1.open_3, &beta, params) {
        Ok(v) => v,
        Err(_) => return Err(CFMError::InvalidOpen),
    };
    let (r_cb_share, d_4) = match x_shares[562].cb_input(&msg1.open_4, &r_cb, params) {
        Ok(v) => v,
        Err(_) => return Err(CFMError::InvalidOpen),
    };
    let open_z_l_minus_1 = z_i_cb_shares[L - 1].open();
    let state = CFMStateCBR1 {
        session_id: *session_id,
        p,
        big_l,
        z_i_cb_shares,
        w_i_shares,
        alpha_share,
        beta_share,
        r_cb_share,
    };
    let msg2 = CFMMsg2 {
        session_id: *session_id,
        d_0,
        d_1,
        d_2,
        d_3,
        d_4,
        open_0: x_shares[561].open(),
        open_1: open_range(x_shares, 2 * L, L),
        open_2: open_range(x_shares, 3 * L, B_PARAMETER),
        open_3: open_range(x_shares, 3 * L + B_PARAMETER, L),
        open_4: x_shares[563].open(),
        open_z_l_minus_1,
    };
    Ok((state, msg2))
}

/// CFMMsg1
#[derive(Debug)]
pub struct CFMMsg1 {
    /// session id
    pub session_id: [u8; 32],
    /// Open for CB-Input([x_i], Z_i^CB), l entries
    pub open_0: Vec<(u128, u128)>,
    /// Open for CB-Input([x_{l+i}], W_i^CB), l entries
    pub open_1: Vec<(u128, u128)>,
    /// Open for CB-Input([gamma_0], alpha)
    pub open_2: (u128, u128),
    /// Open for CB-Input([gamma_1], beta)
    pub open_3: (u128, u128),
    /// Open for CB-Input([gamma_3], r_CB)
    pub open_4: (u128, u128),
}

/// CFMMsg2
#[derive(Debug)]
pub struct CFMMsg2 {
    /// session id
    pub session_id: [u8; 32],
    /// d from CB-Input([x_i], Z_i^CB), l entries
    pub d_0: Vec<u128>,
    /// d from CB-Input([x_{l+i}], W_i^CB), l entries
    pub d_1: Vec<u128>,
    /// d from CB-Input([gamma_0], alpha)
    pub d_2: u128,
    /// d from CB-Input([gamma_1], beta)
    pub d_3: u128,
    /// d from CB-Input([gamma_3], r_CB)
    pub d_4: u128,
    /// Open for OB-Input([gamma_2], M_Y)
    pub open_0: (u128, u128),
    /// Open for OB-Input([x_{2l+i}], Z_{Y,i}^OB), l entries
    pub open_1: Vec<(u128, u128)>,
    /// Open for OB-Input([x_{3l+i}], X_i), B entries
    pub open_2: Vec<(u128, u128)>,
    /// Open for OB-Input([x_{3l+B+i}], U_i), l entries
    pub open_3: Vec<(u128, u128)>,
    /// Open for OB-Input([gamma_4], r_OB)
    pub open_4: (u128, u128),
    /// Open Z_{l-1}^CB
    pub open_z_l_minus_1: (u128, u128),
}

/// CFM State for OB round1
#[derive(Clone, Debug)]
pub struct CFMStateOBR1 {
    /// session id
    pub session_id: [u8; 32],
    /// p
    pub p: u128,
    /// L
    pub big_l: u64,
    /// X
    pub big_x: u64,
}

/// CFM State for CB round1
#[derive(Clone, Debug)]
pub struct CFMStateCBR1 {
    /// session id
    pub session_id: [u8; 32],
    /// p
    pub p: u128,
    /// L
    pub big_l: u64,
    /// z_i_cb shares, l entries
    pub z_i_cb_shares: Vec<Share>,
    /// w_i shares, l entries
    pub w_i_shares: Vec<Share>,
    /// alpha share
    pub alpha_share: Share,
    /// beta share
    pub beta_share: Share,
    /// r_cb share
    pub r_cb_share: Share,
}

/// The TestBit products of `shares`, with triples `off ..`.
pub open spec fn test_bit_states(shares: Seq<Share>, tr: Seq<TripleShare>, off: int, is_cb: bool, pc: int, p: int) -> Seq<MulSharesState> {
    Seq::new(
        shares.len(),
        |i: int|
            mul_open_state(
                shares[i],
                test_bit_operand(shares[i], pc, is_cb, p),
                tr[off + i].x,
                tr[off + i].y,
                tr[off + i].z,
                p,
            ),
    )
}

/// Starts TestBit on each of `shares` with the triples `off ..`, appending
/// the states and openings to `st` and `op`.
fn test_bits_open(
    shares: &Vec<Share>,
    tr: &[TripleShare],
    off: usize,
    is_cb: bool,
    pc: u128,
    k: u128,
    params: FieldParams,
    st: &mut Vec<MulSharesState>,
    op: &mut Vec<MulSharesOpen>,
)
    requires
        params.wf(),
        off + shares@.len() <= tr@.len(),
        shares_keyed(shares@, k),
        triples_keyed(tr@, k),
    ensures
        final(st)@ == old(st)@ + test_bit_states(shares@, tr@, off as int, is_cb, pc as int, params.p as int),
        final(op)@ == old(op)@ + crate::comparison::opens_of(
            test_bit_states(shares@, tr@, off as int, is_cb, pc as int, params.p as int),
        ),
{
    let ghost st0 = st@;
    let ghost op0 = op@;
    let ghost want = test_bit_states(shares@, tr@, off as int, is_cb, pc as int, params.p as int);
    let tl = tr.len();
    let mut i: usize = 0;
    while i < shares.len()
        invariant
            params.wf(),
            tl == tr@.len(),
            off + shares@.len() <= tr@.len(),
            shares_keyed(shares@, k),
            triples_keyed(tr@, k),
            want == test_bit_states(shares@, tr@, off as int, is_cb, pc as int, params.p as int),
            0 <= i <= shares@.len(),
            st@ == st0 + want.subrange(0, i as int),
            op@ == op0 + crate::comparison::opens_of(want).subrange(0, i as int),
        decreases shares@.len() - i,
    {
        let t = &tr[off + i];
        let (s, o) = test_bit_open(&shares[i], &t.x, &t.y, &t.z, is_cb, &pc, params);
        st.push(s);
        op.push(o);
        proof {
            assert(want.subrange(0, i + 1) =~= want.subrange(0, i as int).push(want[i as int]));
            assert(crate::comparison::opens_of(want).subrange(0, i + 1) =~= crate::comparison::opens_of(
                want,
            ).subrange(0, i as int).push(mul_open_msg(want[i as int])));
        }
        i += 1;
    }
    assert(want.subrange(0, shares@.len() as int) =~= want);
    assert(crate::comparison::opens_of(want).subrange(0, shares@.len() as int) =~= crate::comparison::opens_of(want));
}

/// The mask pool and the triples of one side all carry the key of the
/// first mask.
pub open spec fn pool_keyed(x: Seq<Share>, tr: Seq<TripleShare>) -> bool {
    &&& x.len() > 0
    &&& shares_keyed(x, x[0].big_delta)
    &&& triples_keyed(tr, x[0].big_delta)
}

/// What OB learns from the set-membership step: `Some((Z_Y^OB, M_Y))` when
/// its customer is on CB's list, and otherwise the stand-in `(0, m)` for a
/// fresh random `m`, so that the rest of the run does not reveal the miss.
pub open spec fn psit_values(outcome: Option<(u128, u128)>, fallback_m_y: u128) -> (u128, u128) {
    match outcome {
        Some(v) => v,
        None => (0, fallback_m_y),
    }
}

/// OB processes CFMMsg2 from CB: takes CB's inputs, checks that
/// `Z_{l-1}^CB` opens to zero, inputs `M_Y`, `r_OB` and the bits of
/// `Z_Y^OB`, X and `U = X + Z_Y^OB`, and starts TestBit on all 559 bit
/// commitments (triples `0 .. 559`). `psit_outcome` is the result of the
/// set-membership step; `fallback_m_y` and `r_ob` are fresh random draws.
#[verifier::spinoff_prover]
#[verifier::rlimit(60)]
pub fn cfm_process_msg2(
    state: &CFMStateOBR1,
    x_shares: &[Share],
    auth_triples: &[TripleShare],
    msg2: &CFMMsg2,
    psit_outcome: Option<(u128, u128)>,
    fallback_m_y: u128,
    r_ob: u128,
) -> (r: Result<(CFMStateOBR2, CFMMsg3), CFMError>)
    requires
        params_ok(state.p, state.big_l),
        state.big_x < TWO_POW_B,
        pool_keyed(x_shares@, auth_triples@),
    ensures
        ({
            let p = state.p as int;
            let zl = x_shares@[L - 1].spec_add_const(msg2.d_0@[L - 1] as int, false, p);
            let lens = x_shares@.len() == NUMBER_OF_SHARES && auth_triples@.len() >= NUMBER_OF_BITS && state.session_id@ == msg2.session_id@;
            let ds = msg2.d_0@.len() == L && msg2.d_1@.len() == L;
            &&& lens && !ds ==> (r matches Err(e) && e == CFMError::InvalidMessage)
            &&& lens && ds && !opening_valid(zl, msg2.open_z_l_minus_1.0 as int, msg2.open_z_l_minus_1.1 as int, p)
                ==> (r matches Err(e) && e == CFMError::InvalidOpen)
            &&& lens && ds && opening_valid(zl, msg2.open_z_l_minus_1.0 as int, msg2.open_z_l_minus_1.1 as int, p)
                && fadd(zl.value as int, msg2.open_z_l_minus_1.0 as int, p) != 0 ==> (r matches Err(e) && e == CFMError::AbortProtocol)
            &&& lens && ds && opens_to_zero(zl, msg2.open_z_l_minus_1, p) && r.is_err() ==> (r matches Err(e) && e == CFMError::InvalidOpen)
        }),
        x_shares@.len() == NUMBER_OF_SHARES && auth_triples@.len() >= NUMBER_OF_BITS && state.session_id@ == msg2.session_id@ ==> (r.is_ok() <==> {
            let p = state.p as int;
            &&& msg2.d_0@.len() == L
            &&& msg2.d_1@.len() == L
            &&& opens_to_zero(x_shares@[L - 1].spec_add_const(msg2.d_0@[L - 1] as int, false, p), msg2.open_z_l_minus_1, p)
            &&& opening_valid(x_shares@[561], msg2.open_0.0 as int, msg2.open_0.1 as int, p)
            &&& opening_valid(x_shares@[563], msg2.open_4.0 as int, msg2.open_4.1 as int, p)
            &&& masks_open_ok(x_shares@, 2 * L, L as int, msg2.open_1@, p)
            &&& masks_open_ok(x_shares@, 3 * L, B_PARAMETER as int, msg2.open_2@, p)
            &&& masks_open_ok(x_shares@, 3 * L + B_PARAMETER, L as int, msg2.open_3@, p)
        }),
        !(x_shares@.len() == NUMBER_OF_SHARES && auth_triples@.len() >= NUMBER_OF_BITS) ==> r == Err::<(CFMStateOBR2, CFMMsg3), CFMError>(CFMError::BadParameters),
        x_shares@.len() == NUMBER_OF_SHARES && auth_triples@.len() >= NUMBER_OF_BITS ==> ((r matches Err(e) && e == CFMError::InvalidSessionID) <==> state.session_id@ != msg2.session_id@),
        r matches Err(e) ==> e == CFMError::BadParameters || e == CFMError::InvalidSessionID || e == CFMError::InvalidMessage
            || e == CFMError::InvalidOpen || e == CFMError::AbortProtocol,
        r matches Ok((st, m)) ==> {
            let p = state.p as int;
            let zl = x_shares@[L - 1].spec_add_const(msg2.d_0@[L - 1] as int, false, p);
            let (z_y_ob, m_y) = psit_values(psit_outcome, fallback_m_y);
            let big_u = fadd(state.big_x as int, z_y_ob as int, p) as u128;
            &&& opening_valid(zl, msg2.open_z_l_minus_1.0 as int, msg2.open_z_l_minus_1.1 as int, p)
            &&& fadd(zl.value as int, msg2.open_z_l_minus_1.0 as int, p) == 0
            &&& st.session_id == state.session_id
            &&& m.session_id == state.session_id
            &&& st.p == state.p
            &&& st.big_l == state.big_l
            &&& st.alpha_share == x_shares@[559].spec_add_const_ob(msg2.d_2 as int, p)
            &&& st.beta_share == x_shares@[560].spec_add_const_ob(msg2.d_3 as int, p)
            &&& st.big_m_y_share == input_share(x_shares@[561], msg2.open_0, m_y as int, false, p)
            &&& m.d_0 as int == input_d(x_shares@[561], msg2.open_0, m_y as int, p)
            &&& m.d_4 as int == input_d(x_shares@[563], msg2.open_4, r_ob as int, p)
            &&& st.r_share == x_shares@[562].spec_add_const_ob(msg2.d_4 as int, p).spec_add(
                input_share(x_shares@[563], msg2.open_4, r_ob as int, false, p),
                p,
            )
            &&& st.z_i_cb_shares@.len() == L && st.w_i_shares@.len() == L
            &&& st.z_y_i_ob_shares@.len() == L && st.x_i_shares@.len() == B_PARAMETER && st.u_i_shares@.len() == L
            &&& forall|i: int| 0 <= i < L ==> #[trigger] st.z_i_cb_shares@[i] == x_shares@[i].spec_add_const_ob(msg2.d_0@[i] as int, p)
            &&& forall|i: int| 0 <= i < L ==> #[trigger] st.w_i_shares@[i] == x_shares@[L + i].spec_add_const_ob(msg2.d_1@[i] as int, p)
            &&& forall|i: int|
                0 <= i < L ==> #[trigger] st.z_y_i_ob_shares@[i] == input_share(x_shares@[2 * L + i], msg2.open_1@[i], bit_of(z_y_ob, i) as int, false, p)
                    && m.d_1@[i] as int == input_d(x_shares@[2 * L + i], msg2.open_1@[i], bit_of(z_y_ob, i) as int, p)
            &&& forall|i: int|
                0 <= i < B_PARAMETER ==> #[trigger] st.x_i_shares@[i] == input_share(x_shares@[3 * L + i], msg2.open_2@[i], bit_of(state.big_x as u128, i) as int, false, p)
                    && m.d_2@[i] as int == input_d(x_shares@[3 * L + i], msg2.open_2@[i], bit_of(state.big_x as u128, i) as int, p)
            &&& forall|i: int|
                0 <= i < L ==> #[trigger] st.u_i_shares@[i] == input_share(x_shares@[3 * L + B_PARAMETER + i], msg2.open_3@[i], bit_of(big_u, i) as int, false, p)
                    && m.d_3@[i] as int == input_d(x_shares@[3 * L + B_PARAMETER + i], msg2.open_3@[i], bit_of(big_u, i) as int, p)
            &&& st.mul_state_test_bit@ == test_bit_states(st.bit_shares(), auth_triples@, 0, false, state.p as int, p)
            &&& m.mul_open_test_bit@ == crate::comparison::opens_of(st.mul_state_test_bit@)
        },
{
    if !(x_shares.len() == NUMBER_OF_SHARES && auth_triples.len() >= NUMBER_OF_BITS) {
        return Err(CFMError::BadParameters);
    }
    if !crate::comparison::same_session(&state.session_id, &msg2.session_id) {
        return Err(CFMError::InvalidSessionID);
    }
    let params = FieldParams { p: state.p };
    let k = x_shares[0].big_delta;
    let z_i_cb_shares = match apply_inputs(x_shares, 0, L, &msg2.d_0, false, params) {
        Ok(v) => v,
        Err(e) => return Err(e),
    };
    let w_i_shares = match apply_inputs(x_shares, L, L, &msg2.d_1, false, params) {
        Ok(v) => v,
        Err(e) => return Err(e),
    };
    // check that Z_{l-1}^CB = 0
    let z_l_minus_1_value = match z_i_cb_shares[L - 1].validate_open(
        &msg2.open_z_l_minus_1.0,
        &msg2.open_z_l_minus_1.1,
        params,
    ) {
        Ok(v) => v,
        Err(_) => return Err(CFMError::InvalidOpen),
    };
    if z_l_minus_1_value != 0 {
        return Err(CFMError::AbortProtocol);
    }
    let alpha_share = x_shares[559].add_const_ob(&msg2.d_2, params);
    let beta_share = x_shares[560].add_const_ob(&msg2.d_3, params);
    let r_cb_share = x_shares[562].add_const_ob(&msg2.d_4, params);
    let (z_y_ob, big_m_y) = match psit_outcome {
        Some(v) => v,
        None => (0u128, fallback_m_y),
    };
    let big_u = add_mod(state.big_x as u128, z_y_ob, params);
    let (big_m_y_share, d_0) = match x_shares[561].ob_input(&msg2.open_0, &big_m_y, params) {
        Ok(v) => v,
        Err(_) => return Err(CFMError::InvalidOpen),
    };
    let (r_ob_share, d_4) = match x_shares[563].ob_input(&msg2.open_4, &r_ob, params) {
        Ok(v) => v,
        Err(_) => return Err(CFMError::InvalidOpen),
    };
    let r_share = r_cb_share.add_share(&r_ob_share, params);
    let (z_y_i_ob_shares, d_1) = match input_bits(x_shares, 2 * L, L, &msg2.open_1, z_y_ob, false, params) {
        Ok(v) => v,
        Err(e) => return Err(e),
    };
    let (x_i_shares, d_2) = match input_bits(x_shares, 3 * L, B_PARAMETER, &msg2.open_2, state.big_x as u128, false, params) {
        Ok(v) => v,
        Err(e) => return Err(e),
    };
    let (u_i_shares, d_3) = match input_bits(x_shares, 3 * L + B_PARAMETER, L, &msg2.open_3, big_u, false, params) {
        Ok(v) => v,
        Err(e) => return Err(e),
    };
    let mut mul_state_test_bit: Vec<MulSharesState> = Vec::new();
    let mut mul_open_test_bit: Vec<MulSharesOpen> = Vec::new();
    test_bits_open(&z_i_cb_shares, auth_triples, 0, false, state.p, k, params, &mut mul_state_test_bit, &mut mul_open_test_bit);
    test_bits_open(&w_i_shares, auth_triples, L, false, state.p, k, params, &mut mul_state_test_bit, &mut mul_open_test_bit);
    test_bits_open(&z_y_i_ob_shares, auth_triples, 2 * L, false, state.p, k, params, &mut mul_state_test_bit, &mut mul_open_test_bit);
    test_bits_open(&x_i_shares, auth_triples, 3 * L, false, state.p, k, params, &mut mul_state_test_bit, &mut mul_open_test_bit);
    test_bits_open(&u_i_shares, auth_triples, 3 * L + B_PARAMETER, false, state.p, k, params, &mut mul_state_test_bit, &mut mul_open_test_bit);
    let next = CFMStateOBR2 {
        session_id: state.session_id,
        p: state.p,
        big_l: state.big_l,
        r_share,
        alpha_share,
        beta_share,
        big_m_y_share,
        z_i_cb_shares,
        w_i_shares,
        z_y_i_ob_shares,
        x_i_shares,
        u_i_shares,
        mul_state_test_bit,
    };
    proof {
        lemma_test_bit_concat(next.z_i_cb_shares@, next.w_i_shares@, next.z_y_i_ob_shares@, next.x_i_shares@, next.u_i_shares@, auth_triples@, false, state.p as int, params.p as int);
    }
    let msg3 = CFMMsg3 {
        session_id: state.session_id,
        d_0,
        d_1,
        d_2,
        d_3,
        d_4,
        mul_open_test_bit,
    };
    Ok((next, msg3))
}

/// TestBit on the five groups one after the other equals TestBit on their
/// concatenation.
proof fn lemma_test_bit_concat(
    a: Seq<Share>,
    b: Seq<Share>,
    c: Seq<Share>,
    d: Seq<Share>,
    e: Seq<Share>,
    tr: Seq<TripleShare>,
    is_cb: bool,
    pc: int,
    p: int,
)
    requires
        a.len() == L && b.len() == L && c.len() == L && d.len() == B_PARAMETER && e.len() == L,
    ensures
        Seq::<MulSharesState>::empty() + test_bit_states(a, tr, 0, is_cb, pc, p) + test_bit_states(b, tr, L as int, is_cb, pc, p)
            + test_bit_states(c, tr, 2 * L, is_cb, pc, p) + test_bit_states(d, tr, 3 * L, is_cb, pc, p)
            + test_bit_states(e, tr, 3 * L + B_PARAMETER, is_cb, pc, p) == test_bit_states(a + b + c + d + e, tr, 0, is_cb, pc, p),
{
    assert(Seq::<MulSharesState>::empty() + test_bit_states(a, tr, 0, is_cb, pc, p) + test_bit_states(b, tr, L as int, is_cb, pc, p)
            + test_bit_states(c, tr, 2 * L, is_cb, pc, p) + test_bit_states(d, tr, 3 * L, is_cb, pc, p)
            + test_bit_states(e, tr, 3 * L + B_PARAMETER, is_cb, pc, p) =~= test_bit_states(a + b + c + d + e, tr, 0, is_cb, pc, p));
}

/// CFMMsg3
#[derive(Debug)]
pub struct CFMMsg3 {
    /// session id
    pub session_id: [u8; 32],
    /// d from OB-Input([gamma_2], M_Y)
    pub d_0: u128,
    /// d from OB-Input([x_{2l+i}], Z_{Y,i}^OB), l entries
    pub d_1: Vec<u128>,
    /// d from OB-Input([x_{3l+i}], X_i), B entries
    pub d_2: Vec<u128>,
    /// d from OB-Input([x_{3l+B+i}], U_i), l entries
    pub d_3: Vec<u128>,
    /// d from OB-Input([gamma_4], r_OB)
    pub d_4: u128,
    /// mul_open for TestBit of every bit commitment, 559 entries
    pub mul_open_test_bit: Vec<MulSharesOpen>,
}

/// CFM State for OB round2
#[derive(Clone, Debug)]
pub struct CFMStateOBR2 {
    /// session id
    pub session_id: [u8; 32],
    /// p
    pub p: u128,
    /// L
    pub big_l: u64,
    /// r share
    pub r_share: Share,
    /// alpha share
    pub alpha_share: Share,
    /// beta share
    pub beta_share: Share,
    /// M_Y share
    pub big_m_y_share: Share,
    /// z_i_cb shares, l entries
    pub z_i_cb_shares: Vec<Share>,
    /// w_i shares, l entries
    pub w_i_shares: Vec<Share>,
    /// z_y_i_ob shares, l entries
    pub z_y_i_ob_shares: Vec<Share>,
    /// x_i shares, B entries
    pub x_i_shares: Vec<Share>,
    /// u_i shares, l entries
    pub u_i_shares: Vec<Share>,
    /// TestBit states, 559 entries
    pub mul_state_test_bit: Vec<MulSharesState>,
}

impl CFMStateOBR2 {
    /// All bit commitments in TestBit order.
    pub open spec fn bit_shares(&self) -> Seq<Share> {
        self.z_i_cb_shares@ + self.w_i_shares@ + self.z_y_i_ob_shares@ + self.x_i_shares@ + self.u_i_shares@
    }
}

/// The outputs `[t_i] = 1 + [x_i]([x_i] - 1)` of TestBit.
pub open spec fn test_bit_outputs(st: Seq<MulSharesState>, o: Seq<MulSharesOpen>, is_cb: bool, p: int) -> Seq<Share> {
    Seq::new(st.len(), |i: int| mul_output(st[i], o[i], is_cb, p).spec_add_const(1, is_cb, p))
}

/// Finishes TestBit on every state with the peer's openings.
fn test_bits_output(st: &Vec<MulSharesState>, o: &Vec<MulSharesOpen>, is_cb: bool, k: u128, params: FieldParams) -> (r: Result<Vec<Share>, CFMError>)
    requires
        params.wf(),
        crate::comparison::states_keyed(st@, k),
    ensures
        r.is_ok() <==> crate::comparison::all_opens_valid(st@, o@, params.p as int),
        r matches Err(e) ==> e == CFMError::InvalidOpen,
        r matches Ok(t) ==> t@ == test_bit_outputs(st@, o@, is_cb, params.p as int),
{
    if o.len() != st.len() {
        return Err(CFMError::InvalidOpen);
    }
    let mut t: Vec<Share> = Vec::new();
    let mut i: usize = 0;
    while i < st.len()
        invariant
            params.wf(),
            crate::comparison::states_keyed(st@, k),
            o@.len() == st@.len(),
            0 <= i <= st@.len(),
            t@.len() == i,
            forall|m: int| 0 <= m < i ==> mul_opens_valid(#[trigger] st@[m], o@[m], params.p as int),
            forall|m: int| 0 <= m < i ==> #[trigger] t@[m] == test_bit_outputs(st@, o@, is_cb, params.p as int)[m],
        decreases st@.len() - i,
    {
        let v = match test_bit_output(&st[i], &o[i], is_cb, params) {
            Ok(v) => v,
            Err(_) => return Err(CFMError::InvalidOpen),
        };
        t.push(v);
        i += 1;
    }
    assert(t@ =~= test_bit_outputs(st@, o@, is_cb, params.p as int));
    Ok(t)
}

/// The opens of a list of shares.
fn open_all(s: &Vec<Share>) -> (r: Vec<(u128, u128)>)
    ensures
        r@.len() == s@.len(),
        forall|i: int| 0 <= i < s@.len() ==> #[trigger] r@[i] == s@[i].open_spec(),
{
    open_range(s.as_slice(), 0, s.len())
}

/// CB processes CFMMsg3 from OB: takes OB's inputs, runs TestBit on all
/// 559 bit commitments (triples `0 .. 559`) with OB's openings, and opens
/// the resulting `[t_i]`.
#[verifier::spinoff_prover]
pub fn cfm_process_msg3(
    state: &CFMStateCBR1,
    x_shares: &[Share],
    auth_triples: &[TripleShare],
    msg3: &CFMMsg3,
) -> (r: Result<(CFMStateCBR2, CFMMsg4), CFMError>)
    requires
        params_ok(state.p, state.big_l),
        pool_keyed(x_shares@, auth_triples@),
        state.z_i_cb_shares@.len() == L,
        state.w_i_shares@.len() == L,
        shares_keyed(state.z_i_cb_shares@, x_shares@[0].big_delta),
        shares_keyed(state.w_i_shares@, x_shares@[0].big_delta),
        state.r_cb_share.big_delta == x_shares@[0].big_delta,
    ensures
        x_shares@.len() == NUMBER_OF_SHARES && auth_triples@.len() >= NUMBER_OF_BITS && state.session_id@ == msg3.session_id@ ==> (r.is_ok() <==> {
            let p = state.p as int;
            let bits = state.z_i_cb_shares@ + state.w_i_shares@ + applied(x_shares@, 2 * L, L as int, msg3.d_1@, true, p)
                + applied(x_shares@, 3 * L, B_PARAMETER as int, msg3.d_2@, true, p)
                + applied(x_shares@, 3 * L + B_PARAMETER, L as int, msg3.d_3@, true, p);
            &&& msg3.d_1@.len() == L
            &&& msg3.d_2@.len() == B_PARAMETER
            &&& msg3.d_3@.len() == L
            &&& crate::comparison::all_opens_valid(test_bit_states(bits, auth_triples@, 0, true, state.p as int, p), msg3.mul_open_test_bit@, p)
        }),
        !(x_shares@.len() == NUMBER_OF_SHARES && auth_triples@.len() >= NUMBER_OF_BITS) ==> r == Err::<(CFMStateCBR2, CFMMsg4), CFMError>(CFMError::BadParameters),
        x_shares@.len() == NUMBER_OF_SHARES && auth_triples@.len() >= NUMBER_OF_BITS ==> ((r matches Err(e) && e == CFMError::InvalidSessionID) <==> state.session_id@ != msg3.session_id@),
        r matches Err(e) ==> e == CFMError::BadParameters || e == CFMError::InvalidSessionID || e == CFMError::InvalidMessage
            || e == CFMError::InvalidOpen,
        r matches Ok((st, m)) ==> {
            let p = state.p as int;
            &&& st.session_id == state.session_id
            &&& m.session_id == state.session_id
            &&& st.p == state.p
            &&& st.big_l == state.big_l
            &&& st.alpha_share == state.alpha_share
            &&& st.beta_share == state.beta_share
            &&& st.z_i_cb_shares@ == state.z_i_cb_shares@
            &&& st.w_i_shares@ == state.w_i_shares@
            &&& st.big_m_y_share == x_shares@[561].spec_add_const_cb(msg3.d_0 as int, p)
            &&& st.r_share == state.r_cb_share.spec_add(x_shares@[563].spec_add_const_cb(msg3.d_4 as int, p), p)
            &&& st.z_y_i_ob_shares@.len() == L && st.x_i_shares@.len() == B_PARAMETER && st.u_i_shares@.len() == L
            &&& forall|i: int| 0 <= i < L ==> #[trigger] st.z_y_i_ob_shares@[i] == x_shares@[2 * L + i].spec_add_const_cb(msg3.d_1@[i] as int, p)
            &&& forall|i: int| 0 <= i < B_PARAMETER ==> #[trigger] st.x_i_shares@[i] == x_shares@[3 * L + i].spec_add_const_cb(msg3.d_2@[i] as int, p)
            &&& forall|i: int| 0 <= i < L ==> #[trigger] st.u_i_shares@[i] == x_shares@[3 * L + B_PARAMETER + i].spec_add_const_cb(msg3.d_3@[i] as int, p)
            &&& crate::comparison::all_opens_valid(test_bit_states(st.bit_shares(), auth_triples@, 0, true, state.p as int, p), msg3.mul_open_test_bit@, p)
            &&& st.t_i_shares@ == test_bit_outputs(test_bit_states(st.bit_shares(), auth_triples@, 0, true, state.p as int, p), msg3.mul_open_test_bit@, true, p)
            &&& m.mul_open_test_bit@ == crate::comparison::opens_of(test_bit_states(st.bit_shares(), auth_triples@, 0, true, state.p as int, p))
            &&& m.open_t_i@.len() == st.t_i_shares@.len()
            &&& forall|i: int| 0 <= i < m.open_t_i@.len() ==> #[trigger] m.open_t_i@[i] == st.t_i_shares@[i].open_spec()
        },
{
    if !(x_shares.len() == NUMBER_OF_SHARES && auth_triples.len() >= NUMBER_OF_BITS) {
        return Err(CFMError::BadParameters);
    }
    if !crate::comparison::same_session(&state.session_id, &msg3.session_id) {
        return Err(CFMError::InvalidSessionID);
    }
    let params = FieldParams { p: state.p };
    let k = x_shares[0].big_delta;
    let big_m_y_share = x_shares[561].add_const_cb(&msg3.d_0, params);
    let r_ob_share = x_shares[563].add_const_cb(&msg3.d_4, params);
    let r_share = state.r_cb_share.add_share(&r_ob_share, params);
    let z_y_i_ob_shares = match apply_inputs(x_shares, 2 * L, L, &msg3.d_1, true, params) {
        Ok(v) => v,
        Err(e) => return Err(e),
    };
    let x_i_shares = match apply_inputs(x_shares, 3 * L, B_PARAMETER, &msg3.d_2, true, params) {
        Ok(v) => v,
        Err(e) => return Err(e),
    };
    let u_i_shares = match apply_inputs(x_shares, 3 * L + B_PARAMETER, L, &msg3.d_3, true, params) {
        Ok(v) => v,
        Err(e) => return Err(e),
    };
    assert(z_y_i_ob_shares@ =~= applied(x_shares@, 2 * L, L as int, msg3.d_1@, true, params.p as int));
    assert(x_i_shares@ =~= applied(x_shares@, 3 * L, B_PARAMETER as int, msg3.d_2@, true, params.p as int));
    assert(u_i_shares@ =~= applied(x_shares@, 3 * L + B_PARAMETER, L as int, msg3.d_3@, true, params.p as int));
    let mut mul_state: Vec<MulSharesState> = Vec::new();
    let mut mul_open_test_bit: Vec<MulSharesOpen> = Vec::new();
    test_bits_open(&state.z_i_cb_shares, auth_triples, 0, true, state.p, k, params, &mut mul_state, &mut mul_open_test_bit);
    test_bits_open(&state.w_i_shares, auth_triples, L, true, state.p, k, params, &mut mul_state, &mut mul_open_test_bit);
    test_bits_open(&z_y_i_ob_shares, auth_triples, 2 * L, true, state.p, k, params, &mut mul_state, &mut mul_open_test_bit);
    test_bits_open(&x_i_shares, auth_triples, 3 * L, true, state.p, k, params, &mut mul_state, &mut mul_open_test_bit);
    test_bits_open(&u_i_shares, auth_triples, 3 * L + B_PARAMETER, true, state.p, k, params, &mut mul_state, &mut mul_open_test_bit);
    proof {
        lemma_test_bit_concat(state.z_i_cb_shares@, state.w_i_shares@, z_y_i_ob_shares@, x_i_shares@, u_i_shares@, auth_triples@, true, state.p as int, params.p as int);
    }
    let t_i_shares = match test_bits_output(&mul_state, &msg3.mul_open_test_bit, true, k, params) {
        Ok(v) => v,
        Err(e) => return Err(e),
    };
    let open_t_i = open_all(&t_i_shares);
    let z_i_cb_shares = state.z_i_cb_shares.clone();
    let w_i_shares = state.w_i_shares.clone();
    assert(z_i_cb_shares@ =~= state.z_i_cb_shares@);
    assert(w_i_shares@ =~= state.w_i_shares@);
    let next = CFMStateCBR2 {
        session_id: state.session_id,
        p: state.p,
        big_l: state.big_l,
        r_share,
        alpha_share: state.alpha_share,
        beta_share: state.beta_share,
        big_m_y_share,
        z_i_cb_shares,
        w_i_shares,
        z_y_i_ob_shares,
        x_i_shares,
        u_i_shares,
        t_i_shares,
    };
    let msg4 = CFMMsg4 { session_id: state.session_id, mul_open_test_bit, open_t_i };
    Ok((next, msg4))
}

/// CFMMsg4
#[derive(Debug)]
pub struct CFMMsg4 {
    /// session id
    pub session_id: [u8; 32],
    /// mul_open for TestBit of every bit commitment, 559 entries
    pub mul_open_test_bit: Vec<MulSharesOpen>,
    /// Open([t_i]), 559 entries
    pub open_t_i: Vec<(u128, u128)>,
}

/// CFM State for CB round2
#[derive(Clone, Debug)]
pub struct CFMStateCBR2 {
    /// session id
    pub session_id: [u8; 32],
    /// p
    pub p: u128,
    /// L
    pub big_l: u64,
    /// r share
    pub r_share: Share,
    /// alpha share
    pub alpha_share: Share,
    /// beta share
    pub beta_share: Share,
    /// M_Y share
    pub big_m_y_share: Share,
    /// z_i_cb shares, l entries
    pub z_i_cb_shares: Vec<Share>,
    /// w_i shares, l entries
    pub w_i_shares: Vec<Share>,
    /// z_y_i_ob shares, l entries
    pub z_y_i_ob_shares: Vec<Share>,
    /// x_i shares, B entries
    pub x_i_shares: Vec<Share>,
    /// u_i shares, l entries
    pub u_i_shares: Vec<Share>,
    /// TestBit outputs, 559 entries
    pub t_i_shares: Vec<Share>,
}

impl CFMStateCBR2 {
    /// All bit commitments in TestBit order.
    pub open spec fn bit_shares(&self) -> Seq<Share> {
        self.z_i_cb_shares@ + self.w_i_shares@ + self.z_y_i_ob_shares@ + self.x_i_shares@ + self.u_i_shares@
    }
}

/// `sum_{i < n} 2^i [s_i]`: the value that a list of bit commitments
/// stands for.
pub open spec fn compose(s: Seq<Share>, n: nat, p: int) -> Share
    decreases n,
{
    if n <= 1 {
        s[0]
    } else {
        compose(s, (n - 1) as nat, p).spec_add(
            s[n - 1].spec_mul_const((1u128 << ((n - 1) as u128)) as int, p),
            p,
        )
    }
}

/// The exec side of `compose`.
fn compose_bits(s: &Vec<Share>, k: u128, params: FieldParams) -> (r: Share)
    requires
        params.wf(),
        1 <= s@.len() <= 128,
        shares_keyed(s@, k),
    ensures
        r == compose(s@, s@.len(), params.p as int),
        r.big_delta == k,
{
    let mut acc = s[0];
    let mut i: usize = 1;
    while i < s.len()
        invariant
            params.wf(),
            1 <= s@.len() <= 128,
            shares_keyed(s@, k),
            1 <= i <= s@.len(),
            acc == compose(s@, i as nat, params.p as int),
            acc.big_delta == k,
        decreases s@.len() - i,
    {
        let power_of_two: u128 = 1u128 << (i as u128);
        acc = acc.add_share(&s[i].mul_const(&power_of_two, params), params);
        i += 1;
    }
    acc
}

/// Checks the peer's openings of the TestBit outputs: each must be
/// accepted and open to one.
fn check_bits(t: &Vec<Share>, opens: &Vec<(u128, u128)>, params: FieldParams) -> (r: Result<(), CFMError>)
    requires
        params.wf(),
    ensures
        r.is_ok() <==> (opens@.len() == t@.len() && forall|i: int|
            0 <= i < t@.len() ==> opening_valid(#[trigger] t@[i], opens@[i].0 as int, opens@[i].1 as int, params.p as int)
                && fadd(t@[i].value as int, opens@[i].0 as int, params.p as int) == 1),
        r matches Err(e) ==> e == CFMError::InvalidMessage || e == CFMError::InvalidOpen || e == CFMError::AbortProtocol,
        opens@.len() != t@.len() <==> (r matches Err(e) && e == CFMError::InvalidMessage),
        opens@.len() == t@.len() && bits_macs_accepted(t@, opens@, params.p as int) && !bits_open_to_one(t@, opens@, params.p as int)
            ==> (r matches Err(e) && e == CFMError::AbortProtocol),
        opens@.len() == t@.len() && accepted_are_one(t@, opens@, params.p as int) && !bits_open_to_one(t@, opens@, params.p as int)
            ==> (r matches Err(e) && e == CFMError::InvalidOpen),
{
    if opens.len() != t.len() {
        return Err(CFMError::InvalidMessage);
    }
    let mut i: usize = 0;
    while i < t.len()
        invariant
            params.wf(),
            opens@.len() == t@.len(),
            0 <= i <= t@.len(),
            forall|m: int|
                0 <= m < i ==> opening_valid(#[trigger] t@[m], opens@[m].0 as int, opens@[m].1 as int, params.p as int)
                    && fadd(t@[m].value as int, opens@[m].0 as int, params.p as int) == 1,
        decreases t@.len() - i,
    {
        let v = match t[i].validate_open(&opens[i].0, &opens[i].1, params) {
            Ok(v) => v,
            Err(_) => {
                assert(!opening_valid(t@[i as int], opens@[i as int].0 as int, opens@[i as int].1 as int, params.p as int));
                return Err(CFMError::InvalidOpen);
            },
        };
        if v != 1 {
            assert(opening_valid(t@[i as int], opens@[i as int].0 as int, opens@[i as int].1 as int, params.p as int));
            return Err(CFMError::AbortProtocol);
        }
        i += 1;
    }
    Ok(())
}

/// `[V] = [U] - [X] - [Z_Y^OB]`, from the bit commitments.
pub open spec fn big_v_spec(u: Seq<Share>, x: Seq<Share>, z_y: Seq<Share>, p: int) -> Share {
    compose(u, L as nat, p).spec_sub(compose(x, B_PARAMETER as nat, p), p).spec_sub(compose(z_y, L as nat, p), p)
}

/// `[T] = [W] - ([Z_CB] + L)`, from the bit commitments.
pub open spec fn big_t_spec(w: Seq<Share>, z_cb: Seq<Share>, big_l: u64, is_cb: bool, p: int) -> Share {
    compose(w, L as nat, p).spec_sub(compose(z_cb, L as nat, p).spec_add_const(big_l as int, is_cb, p), p)
}

/// OB processes CFMMsg4 from CB: finishes TestBit, checks that every
/// `[t_i]` opens to one, and opens `[V]` and `[T]`.
#[verifier::spinoff_prover]
pub fn cfm_process_msg4(state: &CFMStateOBR2, msg4: &CFMMsg4) -> (r: Result<(CFMStateOBR3, CFMMsg5), CFMError>)
    requires
        params_ok(state.p, state.big_l),
        state.z_i_cb_shares@.len() == L,
        state.w_i_shares@.len() == L,
        state.z_y_i_ob_shares@.len() == L,
        state.x_i_shares@.len() == B_PARAMETER,
        state.u_i_shares@.len() == L,
        shares_keyed(state.bit_shares(), state.r_share.big_delta),
        crate::comparison::states_keyed(state.mul_state_test_bit@, state.r_share.big_delta),
    ensures
        ({
            let p = state.p as int;
            let opens_ok = crate::comparison::all_opens_valid(state.mul_state_test_bit@, msg4.mul_open_test_bit@, p);
            let t = test_bit_outputs(state.mul_state_test_bit@, msg4.mul_open_test_bit@, false, p);
            state.session_id@ == msg4.session_id@ ==> {
                &&& !opens_ok ==> (r matches Err(e) && e == CFMError::InvalidOpen)
                &&& opens_ok ==> (msg4.open_t_i@.len() != t.len() <==> (r matches Err(e) && e == CFMError::InvalidMessage))
                &&& opens_ok && msg4.open_t_i@.len() == t.len() && bits_macs_accepted(t, msg4.open_t_i@, p)
                    && !bits_open_to_one(t, msg4.open_t_i@, p) ==> (r matches Err(e) && e == CFMError::AbortProtocol)
                &&& opens_ok && msg4.open_t_i@.len() == t.len() && accepted_are_one(t, msg4.open_t_i@, p)
                    && !bits_open_to_one(t, msg4.open_t_i@, p) ==> (r matches Err(e) && e == CFMError::InvalidOpen)
            }
        }),
        state.session_id@ == msg4.session_id@ ==> (r.is_ok() <==> {
            let p = state.p as int;
            &&& crate::comparison::all_opens_valid(state.mul_state_test_bit@, msg4.mul_open_test_bit@, p)
            &&& bits_open_to_one(test_bit_outputs(state.mul_state_test_bit@, msg4.mul_open_test_bit@, false, p), msg4.open_t_i@, p)
        }),
        (r matches Err(e) && e == CFMError::InvalidSessionID) <==> state.session_id@ != msg4.session_id@,
        r matches Err(e) ==> e == CFMError::InvalidSessionID || e == CFMError::InvalidMessage || e == CFMError::InvalidOpen
            || e == CFMError::AbortProtocol,
        r matches Ok((st, m)) ==> {
            let p = state.p as int;
            let t = test_bit_outputs(state.mul_state_test_bit@, msg4.mul_open_test_bit@, false, p);
            &&& crate::comparison::all_opens_valid(state.mul_state_test_bit@, msg4.mul_open_test_bit@, p)
            &&& msg4.open_t_i@.len() == t.len()
            &&& forall|i: int|
                0 <= i < t.len() ==> opening_valid(#[trigger] t[i], msg4.open_t_i@[i].0 as int, msg4.open_t_i@[i].1 as int, p)
                    && fadd(t[i].value as int, msg4.open_t_i@[i].0 as int, p) == 1
            &&& m.session_id == state.session_id
            &&& m.open_t_i@.len() == t.len()
            &&& forall|i: int| 0 <= i < t.len() ==> #[trigger] m.open_t_i@[i] == t[i].open_spec()
            &&& st.big_v == big_v_spec(state.u_i_shares@, state.x_i_shares@, state.z_y_i_ob_shares@, p)
            &&& st.big_t == big_t_spec(state.w_i_shares@, state.z_i_cb_shares@, state.big_l, false, p)
            &&& m.open_v == st.big_v.open_spec()
            &&& m.open_t == st.big_t.open_spec()
            &&& st.big_z_y_ob_share == compose(state.z_y_i_ob_shares@, L as nat, p)
            &&& st.session_id == state.session_id
            &&& st.p == state.p
            &&& st.r_share == state.r_share
            &&& st.alpha_share == state.alpha_share
            &&& st.beta_share == state.beta_share
            &&& st.big_m_y_share == state.big_m_y_share
            &&& st.z_i_cb_shares@ == state.z_i_cb_shares@
            &&& st.w_i_shares@ == state.w_i_shares@
            &&& st.z_y_i_ob_shares@ == state.z_y_i_ob_shares@
            &&& st.u_i_shares@ == state.u_i_shares@
        },
{
    if !crate::comparison::same_session(&state.session_id, &msg4.session_id) {
        return Err(CFMError::InvalidSessionID);
    }
    let params = FieldParams { p: state.p };
    let k = state.r_share.big_delta;
    let t_i_shares = match test_bits_output(&state.mul_state_test_bit, &msg4.mul_open_test_bit, false, k, params) {
        Ok(v) => v,
        Err(e) => return Err(e),
    };
    let open_t_i = open_all(&t_i_shares);
    match check_bits(&t_i_shares, &msg4.open_t_i, params) {
        Ok(()) => {},
        Err(e) => return Err(e),
    }
    proof {
        let b = state.bit_shares();
        assert forall|i: int| 0 <= i < L implies (#[trigger] state.z_i_cb_shares@[i]).big_delta == k by {
            assert(b[i] == state.z_i_cb_shares@[i]);
        }
        assert forall|i: int| 0 <= i < L implies (#[trigger] state.w_i_shares@[i]).big_delta == k by {
            assert(b[L + i] == state.w_i_shares@[i]);
        }
        assert forall|i: int| 0 <= i < L implies (#[trigger] state.z_y_i_ob_shares@[i]).big_delta == k by {
            assert(b[2 * L + i] == state.z_y_i_ob_shares@[i]);
        }
        assert forall|i: int| 0 <= i < B_PARAMETER implies (#[trigger] state.x_i_shares@[i]).big_delta == k by {
            assert(b[3 * L + i] == state.x_i_shares@[i]);
        }
        assert forall|i: int| 0 <= i < L implies (#[trigger] state.u_i_shares@[i]).big_delta == k by {
            assert(b[3 * L + B_PARAMETER + i] == state.u_i_shares@[i]);
        }
    }
    let big_z_cb_share = compose_bits(&state.z_i_cb_shares, k, params);
    let big_w_share = compose_bits(&state.w_i_shares, k, params);
    let big_z_y_ob_share = compose_bits(&state.z_y_i_ob_shares, k, params);
    let big_x_share = compose_bits(&state.x_i_shares, k, params);
    let big_u_share = compose_bits(&state.u_i_shares, k, params);
    let big_v = big_u_share.sub_share(&big_x_share, params).sub_share(&big_z_y_ob_share, params);
    let share_w = big_z_cb_share.add_const_ob(&(state.big_l as u128), params);
    let big_t = big_w_share.sub_share(&share_w, params);
    let (sid_0, sid_1) = comparison_session_ids(&state.session_id);
    let next = CFMStateOBR3 {
        session_id: state.session_id,
        p: state.p,
        r_share: state.r_share,
        alpha_share: state.alpha_share,
        beta_share: state.beta_share,
        big_m_y_share: state.big_m_y_share,
        big_z_y_ob_share,
        z_i_cb_shares: clone_shares(&state.z_i_cb_shares),
        w_i_shares: clone_shares(&state.w_i_shares),
        z_y_i_ob_shares: clone_shares(&state.z_y_i_ob_shares),
        u_i_shares: clone_shares(&state.u_i_shares),
        big_v,
        big_t,
        comparison_session_id_0: sid_0,
        comparison_session_id_1: sid_1,
    };
    let msg5 = CFMMsg5 { session_id: state.session_id, open_t_i, open_v: big_v.open(), open_t: big_t.open() };
    Ok((next, msg5))
}

/// A copy of a list of shares.
fn clone_shares(s: &Vec<Share>) -> (r: Vec<Share>)
    ensures
        r@ == s@,
{
    let r = s.clone();
    assert(r@ =~= s@);
    r
}

/// CFMMsg5
#[derive(Debug)]
pub struct CFMMsg5 {
    /// session id
    pub session_id: [u8; 32],
    /// Open([t_i]), 559 entries
    pub open_t_i: Vec<(u128, u128)>,
    /// Open([V])
    pub open_v: (u128, u128),
    /// Open([T])
    pub open_t: (u128, u128),
}

/// CFM State for OB round3
#[derive(Clone, Debug)]
pub struct CFMStateOBR3 {
    /// session id
    pub session_id: [u8; 32],
    /// p
    pub p: u128,
    /// r share
    pub r_share: Share,
    /// alpha share
    pub alpha_share: Share,
    /// beta share
    pub beta_share: Share,
    /// M_Y share
    pub big_m_y_share: Share,
    /// Z_Y^OB share
    pub big_z_y_ob_share: Share,
    /// z_i_cb shares, l entries
    pub z_i_cb_shares: Vec<Share>,
    /// w_i shares, l entries
    pub w_i_shares: Vec<Share>,
    /// z_y_i_ob shares, l entries
    pub z_y_i_ob_shares: Vec<Share>,
    /// u_i shares, l entries
    pub u_i_shares: Vec<Share>,
    /// V share
    pub big_v: Share,
    /// T share
    pub big_t: Share,
    /// sub-session id of the comparison Z_CB > Z_Y^OB
    pub comparison_session_id_0: [u8; 32],
    /// sub-session id of the comparison W > U
    pub comparison_session_id_1: [u8; 32],
}

/// A run of triples keeps the key of the whole pool.
proof fn lemma_triples_keyed_subrange(tr: Seq<TripleShare>, a: int, b: int, k: u128)
    requires
        0 <= a <= b <= tr.len(),
        triples_keyed(tr, k),
    ensures
        triples_keyed(tr.subrange(a, b), k),
{
    assert forall|i: int| 0 <= i < b - a implies (#[trigger] tr.subrange(a, b)[i]).x.big_delta == k
        && tr.subrange(a, b)[i].y.big_delta == k && tr.subrange(a, b)[i].z.big_delta == k by {
        assert(tr.subrange(a, b)[i] == tr[a + i]);
    }
}

/// The triples `a .. b` of the pool, keyed as the pool is.
fn triples_range(tr: &[TripleShare], a: usize, b: usize, Ghost(k): Ghost<u128>) -> (r: &[TripleShare])
    requires
        a <= b <= tr@.len(),
        triples_keyed(tr@, k),
    ensures
        r@ == tr@.subrange(a as int, b as int),
        triples_keyed(r@, k),
{
    proof {
        lemma_triples_keyed_subrange(tr@, a as int, b as int, k);
    }
    vstd::slice::slice_subrange(tr, a, b)
}

/// The sub-session ids of the two comparisons, derived from the session id.
pub fn comparison_session_ids(session_id: &[u8; 32]) -> (r: ([u8; 32], [u8; 32])) {
    let mut t = transcript_new(CFM_LABEL);
    transcript_append(&mut t, "session-id", session_id.as_slice());
    let c0 = transcript_challenge(&mut t, "comparison-session-id-0");
    let c1 = transcript_challenge(&mut t, "comparison-session-id-1");
    (c0, c1)
}

/// The sub-session id of the set-membership step, derived from the session
/// id.
pub fn psit_session_id(session_id: &[u8; 32]) -> (r: [u8; 32]) {
    let mut t = transcript_new(CFM_LABEL);
    transcript_append(&mut t, "session-id", session_id.as_slice());
    transcript_challenge(&mut t, "psit-session-id")
}

/// The two started comparisons of a CFM state are well-formed under `k`.
pub open spec fn bits_keyed(s: Seq<Share>, n: nat, k: u128) -> bool {
    s.len() == n && shares_keyed(s, k)
}

/// CB processes CFMMsg5 from OB: checks that every `[t_i]` opens to one and
/// that `[V]` and `[T]` open to zero, then starts the two comparisons
/// `Z_CB > Z_Y^OB` (triples `559 .. 687`) and `W > U` (triples
/// `934 .. 1062`).
#[verifier::spinoff_prover]
pub fn cfm_process_msg5(
    state: &CFMStateCBR2,
    auth_triples: &[TripleShare],
    msg5: &CFMMsg5,
) -> (r: Result<(CFMStateCBR3, CFMMsg6), CFMError>)
    requires
        params_ok(state.p, state.big_l),
        bits_keyed(state.z_i_cb_shares@, L as nat, state.r_share.big_delta),
        bits_keyed(state.w_i_shares@, L as nat, state.r_share.big_delta),
        bits_keyed(state.z_y_i_ob_shares@, L as nat, state.r_share.big_delta),
        bits_keyed(state.x_i_shares@, B_PARAMETER as nat, state.r_share.big_delta),
        bits_keyed(state.u_i_shares@, L as nat, state.r_share.big_delta),
        auth_triples@.len() == NUMBER_OF_AUTH_BEAVER_TRIPLES,
        triples_keyed(auth_triples@, state.r_share.big_delta),
        state.alpha_share.big_delta == state.r_share.big_delta,
        state.beta_share.big_delta == state.r_share.big_delta,
        state.big_m_y_share.big_delta == state.r_share.big_delta,
    ensures
        ({
            let p = state.p as int;
            let t = state.t_i_shares@;
            let v = big_v_spec(state.u_i_shares@, state.x_i_shares@, state.z_y_i_ob_shares@, p);
            let tt = big_t_spec(state.w_i_shares@, state.z_i_cb_shares@, state.big_l, true, p);
            let macs_vt = opening_valid(v, msg5.open_v.0 as int, msg5.open_v.1 as int, p)
                && opening_valid(tt, msg5.open_t.0 as int, msg5.open_t.1 as int, p);
            state.session_id@ == msg5.session_id@ ==> {
                &&& msg5.open_t_i@.len() != t.len() <==> (r matches Err(e) && e == CFMError::InvalidMessage)
                &&& msg5.open_t_i@.len() == t.len() && bits_macs_accepted(t, msg5.open_t_i@, p)
                    && !bits_open_to_one(t, msg5.open_t_i@, p) ==> (r matches Err(e) && e == CFMError::AbortProtocol)
                &&& msg5.open_t_i@.len() == t.len() && accepted_are_one(t, msg5.open_t_i@, p)
                    && !bits_open_to_one(t, msg5.open_t_i@, p) ==> (r matches Err(e) && e == CFMError::InvalidOpen)
                &&& bits_open_to_one(t, msg5.open_t_i@, p) && !macs_vt ==> (r matches Err(e) && e == CFMError::InvalidOpen)
                &&& bits_open_to_one(t, msg5.open_t_i@, p) && macs_vt && !(opens_to_zero(v, msg5.open_v, p) && opens_to_zero(tt, msg5.open_t, p))
                    ==> (r matches Err(e) && e == CFMError::AbortProtocol)
            }
        }),
        state.session_id@ == msg5.session_id@ ==> (r.is_ok() <==> {
            let p = state.p as int;
            &&& bits_open_to_one(state.t_i_shares@, msg5.open_t_i@, p)
            &&& opens_to_zero(big_v_spec(state.u_i_shares@, state.x_i_shares@, state.z_y_i_ob_shares@, p), msg5.open_v, p)
            &&& opens_to_zero(big_t_spec(state.w_i_shares@, state.z_i_cb_shares@, state.big_l, true, p), msg5.open_t, p)
        }),
        (r matches Err(e) && e == CFMError::InvalidSessionID) <==> state.session_id@ != msg5.session_id@,
        r matches Err(e) ==> e == CFMError::InvalidSessionID || e == CFMError::InvalidMessage || e == CFMError::InvalidOpen
            || e == CFMError::AbortProtocol,
        r matches Ok((st, m)) ==> {
            let p = state.p as int;
            let big_v = big_v_spec(state.u_i_shares@, state.x_i_shares@, state.z_y_i_ob_shares@, p);
            let big_t = big_t_spec(state.w_i_shares@, state.z_i_cb_shares@, state.big_l, true, p);
            &&& msg5.open_t_i@.len() == state.t_i_shares@.len()
            &&& forall|i: int|
                0 <= i < state.t_i_shares@.len() ==> opening_valid(#[trigger] state.t_i_shares@[i], msg5.open_t_i@[i].0 as int, msg5.open_t_i@[i].1 as int, p)
                    && fadd(state.t_i_shares@[i].value as int, msg5.open_t_i@[i].0 as int, p) == 1
            &&& opening_valid(big_v, msg5.open_v.0 as int, msg5.open_v.1 as int, p)
            &&& fadd(big_v.value as int, msg5.open_v.0 as int, p) == 0
            &&& opening_valid(big_t, msg5.open_t.0 as int, msg5.open_t.1 as int, p)
            &&& fadd(big_t.value as int, msg5.open_t.0 as int, p) == 0
            &&& m.open_v == big_v.open_spec()
            &&& m.open_t == big_t.open_spec()
            &&& m.session_id == state.session_id
            &&& st.session_id == state.session_id
            &&& st.p == state.p
            &&& st.big_z_y_ob_share == compose(state.z_y_i_ob_shares@, L as nat, p)
            &&& st.wf()
            &&& st.r_share == state.r_share
        },
{
    if !crate::comparison::same_session(&state.session_id, &msg5.session_id) {
        return Err(CFMError::InvalidSessionID);
    }
    let params = FieldParams { p: state.p };
    let k = state.r_share.big_delta;
    match check_bits(&state.t_i_shares, &msg5.open_t_i, params) {
        Ok(()) => {},
        Err(e) => return Err(e),
    }
    let big_z_cb_share = compose_bits(&state.z_i_cb_shares, k, params);
    let big_w_share = compose_bits(&state.w_i_shares, k, params);
    let big_z_y_ob_share = compose_bits(&state.z_y_i_ob_shares, k, params);
    let big_x_share = compose_bits(&state.x_i_shares, k, params);
    let big_u_share = compose_bits(&state.u_i_shares, k, params);
    let big_v = big_u_share.sub_share(&big_x_share, params).sub_share(&big_z_y_ob_share, params);
    let share_w = big_z_cb_share.add_const_cb(&(state.big_l as u128), params);
    let big_t = big_w_share.sub_share(&share_w, params);
    let big_v_value = match big_v.validate_open(&msg5.open_v.0, &msg5.open_v.1, params) {
        Ok(v) => v,
        Err(_) => return Err(CFMError::InvalidOpen),
    };
    let big_t_value = match big_t.validate_open(&msg5.open_t.0, &msg5.open_t.1, params) {
        Ok(v) => v,
        Err(_) => return Err(CFMError::InvalidOpen),
    };
    if big_v_value != 0 {
        return Err(CFMError::AbortProtocol);
    }
    if big_t_value != 0 {
        return Err(CFMError::AbortProtocol);
    }
    let (sid_0, sid_1) = comparison_session_ids(&state.session_id);
    let tr_0 = triples_range(auth_triples, AUTH_TRIPLES_OFFSET, AUTH_TRIPLES_OFFSET + 128, Ghost(k));
    let (comp_0_state_cb_r0, comp_msg1_c) = comp_create_msg1(
        &sid_0,
        state.z_i_cb_shares.as_slice(),
        state.z_y_i_ob_shares.as_slice(),
        tr_0,
        state.p,
    );
    let tr_1 = triples_range(auth_triples, AUTH_TRIPLES_OFFSET + 375, AUTH_TRIPLES_OFFSET + 503, Ghost(k));
    let (comp_1_state_cb_r0, comp_msg1_b) = comp_create_msg1(
        &sid_1,
        state.w_i_shares.as_slice(),
        state.u_i_shares.as_slice(),
        tr_1,
        state.p,
    );
    let next = CFMStateCBR3 {
        session_id: state.session_id,
        p: state.p,
        r_share: state.r_share,
        alpha_share: state.alpha_share,
        beta_share: state.beta_share,
        big_m_y_share: state.big_m_y_share,
        big_z_y_ob_share,
        comp_0_state_cb_r0,
        comp_1_state_cb_r0,
        z_i_cb_shares: clone_shares(&state.z_i_cb_shares),
        w_i_shares: clone_shares(&state.w_i_shares),
        z_y_i_ob_shares: clone_shares(&state.z_y_i_ob_shares),
        u_i_shares: clone_shares(&state.u_i_shares),
    };
    let msg6 = CFMMsg6 {
        session_id: state.session_id,
        open_v: big_v.open(),
        open_t: big_t.open(),
        comp_msg1_c,
        comp_msg1_b,
    };
    Ok((next, msg6))
}

/// CFMMsg6
#[derive(Debug)]
pub struct CFMMsg6 {
    /// session id
    pub session_id: [u8; 32],
    /// Open([V])
    pub open_v: (u128, u128),
    /// Open([T])
    pub open_t: (u128, u128),
    /// CompMsg1 of the comparison Z_CB > Z_Y^OB
    pub comp_msg1_c: CompMsg1,
    /// CompMsg1 of the comparison W > U
    pub comp_msg1_b: CompMsg1,
}

/// CFM State for CB round3
#[derive(Clone, Debug)]
pub struct CFMStateCBR3 {
    /// session id
    pub session_id: [u8; 32],
    /// p
    pub p: u128,
    /// r share
    pub r_share: Share,
    /// alpha share
    pub alpha_share: Share,
    /// beta share
    pub beta_share: Share,
    /// M_Y share
    pub big_m_y_share: Share,
    /// Z_Y^OB share
    pub big_z_y_ob_share: Share,
    /// comparison Z_CB > Z_Y^OB
    pub comp_0_state_cb_r0: CompStateP1R0,
    /// comparison W > U
    pub comp_1_state_cb_r0: CompStateP1R0,
    /// z_i_cb shares, l entries
    pub z_i_cb_shares: Vec<Share>,
    /// w_i shares, l entries
    pub w_i_shares: Vec<Share>,
    /// z_y_i_ob shares, l entries
    pub z_y_i_ob_shares: Vec<Share>,
    /// u_i shares, l entries
    pub u_i_shares: Vec<Share>,
}

impl CFMStateCBR3 {
    /// The key under which CB's shares are authenticated.
    pub open spec fn key(&self) -> u128 {
        self.r_share.big_delta
    }

    /// Well-formed: the comparisons started under the key, and the bit
    /// commitments they continue with.
    pub open spec fn wf(&self) -> bool {
        &&& params_ok(self.p, 0)
        &&& self.comp_0_state_cb_r0.wf() && self.comp_0_state_cb_r0.key() == self.key()
        &&& self.comp_1_state_cb_r0.wf() && self.comp_1_state_cb_r0.key() == self.key()
        &&& self.comp_0_state_cb_r0.p == self.p && self.comp_1_state_cb_r0.p == self.p
        &&& bits_keyed(self.z_i_cb_shares@, L as nat, self.key())
        &&& bits_keyed(self.w_i_shares@, L as nat, self.key())
        &&& bits_keyed(self.z_y_i_ob_shares@, L as nat, self.key())
        &&& bits_keyed(self.u_i_shares@, L as nat, self.key())
        &&& self.alpha_share.big_delta == self.key()
        &&& self.beta_share.big_delta == self.key()
        &&& self.big_m_y_share.big_delta == self.key()
        &&& self.big_z_y_ob_share.big_delta == self.key()
    }
}


impl CFMStateOBR3 {
    /// The key under which OB's shares are authenticated.
    pub open spec fn key(&self) -> u128 {
        self.r_share.big_delta
    }

    /// Well-formed: the bit commitments and scalars under one key.
    pub open spec fn wf(&self) -> bool {
        &&& params_ok(self.p, 0)
        &&& bits_keyed(self.z_i_cb_shares@, L as nat, self.key())
        &&& bits_keyed(self.w_i_shares@, L as nat, self.key())
        &&& bits_keyed(self.z_y_i_ob_shares@, L as nat, self.key())
        &&& bits_keyed(self.u_i_shares@, L as nat, self.key())
        &&& self.alpha_share.big_delta == self.key()
        &&& self.beta_share.big_delta == self.key()
        &&& self.big_m_y_share.big_delta == self.key()
        &&& self.big_z_y_ob_share.big_delta == self.key()
    }
}

/// OB processes CFMMsg6 from CB: checks that `[V]` and `[T]` open to zero
/// and answers the first round of both comparisons (triples `559 .. 814`
/// and `934 .. 1189`).
pub fn cfm_process_msg6(
    state: &CFMStateOBR3,
    auth_triples: &[TripleShare],
    msg6: &CFMMsg6,
) -> (r: Result<(CFMStateOBR4, CFMMsg7), CFMError>)
    requires
        state.wf(),
        auth_triples@.len() == NUMBER_OF_AUTH_BEAVER_TRIPLES,
        triples_keyed(auth_triples@, state.key()),
    ensures
        ({
            let p = state.p as int;
            let v_ok = opens_to_zero(state.big_v, msg6.open_v, p);
            let t_ok = opens_to_zero(state.big_t, msg6.open_t, p);
            let macs = opening_valid(state.big_v, msg6.open_v.0 as int, msg6.open_v.1 as int, p)
                && opening_valid(state.big_t, msg6.open_t.0 as int, msg6.open_t.1 as int, p);
            let tr_0 = auth_triples@.subrange(559, 814);
            let tr_1 = auth_triples@.subrange(934, 1189);
            let c_ok = crate::comparison::comp_msg1_ok(state.comparison_session_id_0, state.z_i_cb_shares@, state.z_y_i_ob_shares@, tr_0, p, msg6.comp_msg1_c);
            let b_ok = crate::comparison::comp_msg1_ok(state.comparison_session_id_1, state.w_i_shares@, state.u_i_shares@, tr_1, p, msg6.comp_msg1_b);
            &&& state.session_id@ == msg6.session_id@ ==> (r.is_ok() <==> v_ok && t_ok && c_ok && b_ok)
            &&& state.session_id@ == msg6.session_id@ && !macs ==> (r matches Err(e) && e == CFMError::InvalidOpen)
            &&& state.session_id@ == msg6.session_id@ && macs && !(v_ok && t_ok) ==> (r matches Err(e) && e == CFMError::AbortProtocol)
            &&& state.session_id@ == msg6.session_id@ && v_ok && t_ok && !(c_ok && b_ok) ==> (r matches Err(e) && e == CFMError::Comparison)
            &&& r matches Ok((st, m)) ==> {
                &&& crate::comparison::comp_msg1_result(state.comparison_session_id_0, state.z_i_cb_shares@, state.z_y_i_ob_shares@, tr_0, p, msg6.comp_msg1_c, st.comp_0_state, m.comp_msg_c)
                &&& crate::comparison::comp_msg1_result(state.comparison_session_id_1, state.w_i_shares@, state.u_i_shares@, tr_1, p, msg6.comp_msg1_b, st.comp_1_state, m.comp_msg_b)
            }
        }),
        (r matches Err(e) && e == CFMError::InvalidSessionID) <==> state.session_id@ != msg6.session_id@,
        r matches Err(e) ==> e == CFMError::InvalidSessionID || e == CFMError::InvalidOpen || e == CFMError::AbortProtocol
            || e == CFMError::Comparison,
        r matches Ok((st, m)) ==> {
            let p = state.p as int;
            &&& opening_valid(state.big_v, msg6.open_v.0 as int, msg6.open_v.1 as int, p)
            &&& fadd(state.big_v.value as int, msg6.open_v.0 as int, p) == 0
            &&& opening_valid(state.big_t, msg6.open_t.0 as int, msg6.open_t.1 as int, p)
            &&& fadd(state.big_t.value as int, msg6.open_t.0 as int, p) == 0
            &&& st.session_id == state.session_id
            &&& m.session_id == state.session_id
            &&& st.p == state.p
            &&& st.r_share == state.r_share
            &&& st.alpha_share == state.alpha_share
            &&& st.beta_share == state.beta_share
            &&& st.big_m_y_share == state.big_m_y_share
            &&& st.big_z_y_ob_share == state.big_z_y_ob_share
            &&& st.wf()
        },
{
    if !crate::comparison::same_session(&state.session_id, &msg6.session_id) {
        return Err(CFMError::InvalidSessionID);
    }
    let params = FieldParams { p: state.p };
    let k = state.r_share.big_delta;
    let big_v_value = match state.big_v.validate_open(&msg6.open_v.0, &msg6.open_v.1, params) {
        Ok(v) => v,
        Err(_) => return Err(CFMError::InvalidOpen),
    };
    let big_t_value = match state.big_t.validate_open(&msg6.open_t.0, &msg6.open_t.1, params) {
        Ok(v) => v,
        Err(_) => return Err(CFMError::InvalidOpen),
    };
    if big_v_value != 0 {
        return Err(CFMError::AbortProtocol);
    }
    if big_t_value != 0 {
        return Err(CFMError::AbortProtocol);
    }
    let sid_0 = state.comparison_session_id_0;
    let sid_1 = state.comparison_session_id_1;
    let tr_0 = triples_range(auth_triples, AUTH_TRIPLES_OFFSET, AUTH_TRIPLES_OFFSET + 255, Ghost(k));
    let (comp_0_state_ob_r1, comp_msg2_c) = match comp_process_msg1(
        &sid_0,
        state.z_i_cb_shares.as_slice(),
        state.z_y_i_ob_shares.as_slice(),
        tr_0,
        state.p,
        &msg6.comp_msg1_c,
    ) {
        Ok(v) => v,
        Err(_) => return Err(CFMError::Comparison),
    };
    let tr_1 = triples_range(auth_triples, AUTH_TRIPLES_OFFSET + 375, AUTH_TRIPLES_OFFSET + 630, Ghost(k));
    let (comp_1_state_ob_r1, comp_msg2_b) = match comp_process_msg1(
        &sid_1,
        state.w_i_shares.as_slice(),
        state.u_i_shares.as_slice(),
        tr_1,
        state.p,
        &msg6.comp_msg1_b,
    ) {
        Ok(v) => v,
        Err(_) => return Err(CFMError::Comparison),
    };
    let next = CFMStateOBR4 {
        session_id: state.session_id,
        p: state.p,
        r_share: state.r_share,
        alpha_share: state.alpha_share,
        beta_share: state.beta_share,
        big_m_y_share: state.big_m_y_share,
        big_z_y_ob_share: state.big_z_y_ob_share,
        comp_0_state: comp_0_state_ob_r1,
        comp_1_state: comp_1_state_ob_r1,
    };
    let msg7 = CFMMsg7 { session_id: state.session_id, comp_msg_c: comp_msg2_c, comp_msg_b: comp_msg2_b };
    Ok((next, msg7))
}

/// CFM State for OB round4 with both comparisons under way
#[derive(Clone, Debug)]
pub struct CFMStateOBR4 {
    /// session id
    pub session_id: [u8; 32],
    /// p
    pub p: u128,
    /// r share
    pub r_share: Share,
    /// alpha share
    pub alpha_share: Share,
    /// beta share
    pub beta_share: Share,
    /// M_Y share
    pub big_m_y_share: Share,
    /// Z_Y^OB share
    pub big_z_y_ob_share: Share,
    /// comparison Z_CB > Z_Y^OB
    pub comp_0_state: CompStateP2R1,
    /// comparison W > U
    pub comp_1_state: CompStateP2R1,
}

impl CFMStateOBR4 {
    /// The key under which this side's shares are authenticated.
    pub open spec fn key(&self) -> u128 {
        self.r_share.big_delta
    }

    /// Well-formed: both comparisons under the key.
    pub open spec fn wf(&self) -> bool {
        &&& params_ok(self.p, 0)
        &&& self.comp_0_state.wf() && self.comp_0_state.key() == self.key() && self.comp_0_state.p == self.p
        &&& self.comp_1_state.wf() && self.comp_1_state.key() == self.key() && self.comp_1_state.p == self.p
        &&& self.alpha_share.big_delta == self.key()
        &&& self.beta_share.big_delta == self.key()
        &&& self.big_m_y_share.big_delta == self.key()
        &&& self.big_z_y_ob_share.big_delta == self.key()
    }
}

/// CFM State for CB round4 with both comparisons under way
#[derive(Clone, Debug)]
pub struct CFMStateCBR4 {
    /// session id
    pub session_id: [u8; 32],
    /// p
    pub p: u128,
    /// r share
    pub r_share: Share,
    /// alpha share
    pub alpha_share: Share,
    /// beta share
    pub beta_share: Share,
    /// M_Y share
    pub big_m_y_share: Share,
    /// Z_Y^OB share
    pub big_z_y_ob_share: Share,
    /// comparison Z_CB > Z_Y^OB
    pub comp_0_state: CompStateP1R2,
    /// comparison W > U
    pub comp_1_state: CompStateP1R2,
}

impl CFMStateCBR4 {
    /// The key under which this side's shares are authenticated.
    pub open spec fn key(&self) -> u128 {
        self.r_share.big_delta
    }

    /// Well-formed: both comparisons under the key.
    pub open spec fn wf(&self) -> bool {
        &&& params_ok(self.p, 0)
        &&& self.comp_0_state.wf() && self.comp_0_state.key() == self.key() && self.comp_0_state.p == self.p
        &&& self.comp_1_state.wf() && self.comp_1_state.key() == self.key() && self.comp_1_state.p == self.p
        &&& self.alpha_share.big_delta == self.key()
        &&& self.beta_share.big_delta == self.key()
        &&& self.big_m_y_share.big_delta == self.key()
        &&& self.big_z_y_ob_share.big_delta == self.key()
    }
}

/// CFM State for OB round5 with both comparisons under way
#[derive(Clone, Debug)]
pub struct CFMStateOBR5 {
    /// session id
    pub session_id: [u8; 32],
    /// p
    pub p: u128,
    /// r share
    pub r_share: Share,
    /// alpha share
    pub alpha_share: Share,
    /// beta share
    pub beta_share: Share,
    /// M_Y share
    pub big_m_y_share: Share,
    /// Z_Y^OB share
    pub big_z_y_ob_share: Share,
    /// comparison Z_CB > Z_Y^OB
    pub comp_0_state: CompStateP2R3,
    /// comparison W > U
    pub comp_1_state: CompStateP2R3,
}

impl CFMStateOBR5 {
    /// The key under which this side's shares are authenticated.
    pub open spec fn key(&self) -> u128 {
        self.r_share.big_delta
    }

    /// Well-formed: both comparisons under the key.
    pub open spec fn wf(&self) -> bool {
        &&& params_ok(self.p, 0)
        &&& self.comp_0_state.wf() && self.comp_0_state.key() == self.key() && self.comp_0_state.p == self.p
        &&& self.comp_1_state.wf() && self.comp_1_state.key() == self.key() && self.comp_1_state.p == self.p
        &&& self.alpha_share.big_delta == self.key()
        &&& self.beta_share.big_delta == self.key()
        &&& self.big_m_y_share.big_delta == self.key()
        &&& self.big_z_y_ob_share.big_delta == self.key()
    }
}

/// CFM State for CB round5 with both comparisons under way
#[derive(Clone, Debug)]
pub struct CFMStateCBR5 {
    /// session id
    pub session_id: [u8; 32],
    /// p
    pub p: u128,
    /// r share
    pub r_share: Share,
    /// alpha share
    pub alpha_share: Share,
    /// beta share
    pub beta_share: Share,
    /// M_Y share
    pub big_m_y_share: Share,
    /// Z_Y^OB share
    pub big_z_y_ob_share: Share,
    /// comparison Z_CB > Z_Y^OB
    pub comp_0_state: CompStateP1R4,
    /// comparison W > U
    pub comp_1_state: CompStateP1R4,
}

impl CFMStateCBR5 {
    /// The key under which this side's shares are authenticated.
    pub open spec fn key(&self) -> u128 {
        self.r_share.big_delta
    }

    /// Well-formed: both comparisons under the key.
    pub open spec fn wf(&self) -> bool {
        &&& params_ok(self.p, 0)
        &&& self.comp_0_state.wf() && self.comp_0_state.key() == self.key() && self.comp_0_state.p == self.p
        &&& self.comp_1_state.wf() && self.comp_1_state.key() == self.key() && self.comp_1_state.p == self.p
        &&& self.alpha_share.big_delta == self.key()
        &&& self.beta_share.big_delta == self.key()
        &&& self.big_m_y_share.big_delta == self.key()
        &&& self.big_z_y_ob_share.big_delta == self.key()
    }
}

/// CFM State for OB round6 with both comparisons under way
#[derive(Clone, Debug)]
pub struct CFMStateOBR6 {
    /// session id
    pub session_id: [u8; 32],
    /// p
    pub p: u128,
    /// r share
    pub r_share: Share,
    /// alpha share
    pub alpha_share: Share,
    /// beta share
    pub beta_share: Share,
    /// M_Y share
    pub big_m_y_share: Share,
    /// Z_Y^OB share
    pub big_z_y_ob_share: Share,
    /// comparison Z_CB > Z_Y^OB
    pub comp_0_state: CompStateP2R5,
    /// comparison W > U
    pub comp_1_state: CompStateP2R5,
}

impl CFMStateOBR6 {
    /// The key under which this side's shares are authenticated.
    pub open spec fn key(&self) -> u128 {
        self.r_share.big_delta
    }

    /// Well-formed: both comparisons under the key.
    pub open spec fn wf(&self) -> bool {
        &&& params_ok(self.p, 0)
        &&& self.comp_0_state.wf() && self.comp_0_state.key() == self.key() && self.comp_0_state.p == self.p
        &&& self.comp_1_state.wf() && self.comp_1_state.key() == self.key() && self.comp_1_state.p == self.p
        &&& self.alpha_share.big_delta == self.key()
        &&& self.beta_share.big_delta == self.key()
        &&& self.big_m_y_share.big_delta == self.key()
        &&& self.big_z_y_ob_share.big_delta == self.key()
    }
}

/// CFM State for CB round6 with both comparisons under way
#[derive(Clone, Debug)]
pub struct CFMStateCBR6 {
    /// session id
    pub session_id: [u8; 32],
    /// p
    pub p: u128,
    /// r share
    pub r_share: Share,
    /// alpha share
    pub alpha_share: Share,
    /// beta share
    pub beta_share: Share,
    /// M_Y share
    pub big_m_y_share: Share,
    /// Z_Y^OB share
    pub big_z_y_ob_share: Share,
    /// comparison Z_CB > Z_Y^OB
    pub comp_0_state: CompStateP1R6,
    /// comparison W > U
    pub comp_1_state: CompStateP1R6,
}

impl CFMStateCBR6 {
    /// The key under which this side's shares are authenticated.
    pub open spec fn key(&self) -> u128 {
        self.r_share.big_delta
    }

    /// Well-formed: both comparisons under the key.
    pub open spec fn wf(&self) -> bool {
        &&& params_ok(self.p, 0)
        &&& self.comp_0_state.wf() && self.comp_0_state.key() == self.key() && self.comp_0_state.p == self.p
        &&& self.comp_1_state.wf() && self.comp_1_state.key() == self.key() && self.comp_1_state.p == self.p
        &&& self.alpha_share.big_delta == self.key()
        &&& self.beta_share.big_delta == self.key()
        &&& self.big_m_y_share.big_delta == self.key()
        &&& self.big_z_y_ob_share.big_delta == self.key()
    }
}

/// CFMMsg7
#[derive(Clone, Debug)]
pub struct CFMMsg7 {
    /// session id
    pub session_id: [u8; 32],
    /// message of the comparison Z_CB > Z_Y^OB
    pub comp_msg_c: CompMsg2,
    /// message of the comparison W > U
    pub comp_msg_b: CompMsg2,
}

/// CFMMsg8
#[derive(Clone, Debug)]
pub struct CFMMsg8 {
    /// session id
    pub session_id: [u8; 32],
    /// message of the comparison Z_CB > Z_Y^OB
    pub comp_msg_c: CompMsg3,
    /// message of the comparison W > U
    pub comp_msg_b: CompMsg3,
}

/// CFMMsg9
#[derive(Clone, Debug)]
pub struct CFMMsg9 {
    /// session id
    pub session_id: [u8; 32],
    /// message of the comparison Z_CB > Z_Y^OB
    pub comp_msg_c: CompMsg4,
    /// message of the comparison W > U
    pub comp_msg_b: CompMsg4,
}

/// CFMMsg10
#[derive(Clone, Debug)]
pub struct CFMMsg10 {
    /// session id
    pub session_id: [u8; 32],
    /// message of the comparison Z_CB > Z_Y^OB
    pub comp_msg_c: CompMsg5,
    /// message of the comparison W > U
    pub comp_msg_b: CompMsg5,
}

/// CFMMsg11
#[derive(Clone, Debug)]
pub struct CFMMsg11 {
    /// session id
    pub session_id: [u8; 32],
    /// message of the comparison Z_CB > Z_Y^OB
    pub comp_msg_c: CompMsg6,
    /// message of the comparison W > U
    pub comp_msg_b: CompMsg6,
}

/// CFMMsg12
#[derive(Clone, Debug)]
pub struct CFMMsg12 {
    /// session id
    pub session_id: [u8; 32],
    /// message of the comparison Z_CB > Z_Y^OB
    pub comp_msg_c: CompMsg7,
    /// message of the comparison W > U
    pub comp_msg_b: CompMsg7,
}

/// CB processes CFMMsg7: one more round of both comparisons (triples
/// `687 .. 877` and `1062 .. 1252`).
pub fn cfm_process_msg7(
    state: &CFMStateCBR3,
    auth_triples: &[TripleShare],
    msg7: &CFMMsg7,
) -> (r: Result<(CFMStateCBR4, CFMMsg8), CFMError>)
    requires
        state.wf(),
        auth_triples@.len() == NUMBER_OF_AUTH_BEAVER_TRIPLES,
        triples_keyed(auth_triples@, state.key()),
    ensures
        state.session_id@ == msg7.session_id@ ==> (r.is_ok() <==> (crate::comparison::comp_msg2_ok(
            state.comp_0_state_cb_r0,
            state.z_i_cb_shares@,
            state.z_y_i_ob_shares@,
            auth_triples@.subrange(687, 877),
            msg7.comp_msg_c,
        ) && crate::comparison::comp_msg2_ok(
            state.comp_1_state_cb_r0,
            state.w_i_shares@,
            state.u_i_shares@,
            auth_triples@.subrange(1062, 1252),
            msg7.comp_msg_b,
        ))),
        (r matches Err(e) && e == CFMError::InvalidSessionID) <==> state.session_id@ != msg7.session_id@,
        r matches Err(e) ==> e == CFMError::InvalidSessionID || e == CFMError::Comparison,
        r matches Ok((st, m)) ==> {
            &&& st.session_id == state.session_id
            &&& m.session_id == state.session_id
            &&& st.p == state.p
            &&& st.r_share == state.r_share
            &&& st.alpha_share == state.alpha_share
            &&& st.beta_share == state.beta_share
            &&& st.big_m_y_share == state.big_m_y_share
            &&& st.big_z_y_ob_share == state.big_z_y_ob_share
            &&& st.wf()
        },
{
    if !crate::comparison::same_session(&state.session_id, &msg7.session_id) {
        return Err(CFMError::InvalidSessionID);
    }
    let k = state.r_share.big_delta;
    let tr_0 = triples_range(auth_triples, AUTH_TRIPLES_OFFSET + 128, AUTH_TRIPLES_OFFSET + 318, Ghost(k));
    let (comp_0_state, comp_msg_c) = match comp_process_msg2(
        &state.comp_0_state_cb_r0,
        state.z_i_cb_shares.as_slice(),
        state.z_y_i_ob_shares.as_slice(),
        tr_0,
        &msg7.comp_msg_c,
    ) {
        Ok(v) => v,
        Err(_) => return Err(CFMError::Comparison),
    };
    let tr_1 = triples_range(auth_triples, AUTH_TRIPLES_OFFSET + 503, AUTH_TRIPLES_OFFSET + 693, Ghost(k));
    let (comp_1_state, comp_msg_b) = match comp_process_msg2(
        &state.comp_1_state_cb_r0,
        state.w_i_shares.as_slice(),
        state.u_i_shares.as_slice(),
        tr_1,
        &msg7.comp_msg_b,
    ) {
        Ok(v) => v,
        Err(_) => return Err(CFMError::Comparison),
    };
    let next = CFMStateCBR4 {
        session_id: state.session_id,
        p: state.p,
        r_share: state.r_share,
        alpha_share: state.alpha_share,
        beta_share: state.beta_share,
        big_m_y_share: state.big_m_y_share,
        big_z_y_ob_share: state.big_z_y_ob_share,
        comp_0_state,
        comp_1_state,
    };
    let msg8 = CFMMsg8 { session_id: state.session_id, comp_msg_c, comp_msg_b };
    Ok((next, msg8))
}

/// OB processes CFMMsg8: one more round of both comparisons (triples
/// `814 .. 908` and `1189 .. 1283`).
pub fn cfm_process_msg8(
    state: &CFMStateOBR4,
    auth_triples: &[TripleShare],
    msg8: &CFMMsg8,
) -> (r: Result<(CFMStateOBR5, CFMMsg9), CFMError>)
    requires
        state.wf(),
        auth_triples@.len() == NUMBER_OF_AUTH_BEAVER_TRIPLES,
        triples_keyed(auth_triples@, state.key()),
    ensures
        state.session_id@ == msg8.session_id@ ==> (r.is_ok() <==> (crate::comparison::comp_msg3_ok(
            state.comp_0_state,
            auth_triples@.subrange(814, 908),
            msg8.comp_msg_c,
        ) && crate::comparison::comp_msg3_ok(
            state.comp_1_state,
            auth_triples@.subrange(1189, 1283),
            msg8.comp_msg_b,
        ))),
        (r matches Err(e) && e == CFMError::InvalidSessionID) <==> state.session_id@ != msg8.session_id@,
        r matches Err(e) ==> e == CFMError::InvalidSessionID || e == CFMError::Comparison,
        r matches Ok((st, m)) ==> {
            &&& st.session_id == state.session_id
            &&& m.session_id == state.session_id
            &&& st.p == state.p
            &&& st.r_share == state.r_share
            &&& st.alpha_share == state.alpha_share
            &&& st.beta_share == state.beta_share
            &&& st.big_m_y_share == state.big_m_y_share
            &&& st.big_z_y_ob_share == state.big_z_y_ob_share
            &&& st.wf()
        },
{
    if !crate::comparison::same_session(&state.session_id, &msg8.session_id) {
        return Err(CFMError::InvalidSessionID);
    }
    let k = state.r_share.big_delta;
    let tr_0 = triples_range(auth_triples, AUTH_TRIPLES_OFFSET + 255, AUTH_TRIPLES_OFFSET + 349, Ghost(k));
    let (comp_0_state, comp_msg_c) = match comp_process_msg3(&state.comp_0_state, tr_0, &msg8.comp_msg_c) {
        Ok(v) => v,
        Err(_) => return Err(CFMError::Comparison),
    };
    let tr_1 = triples_range(auth_triples, AUTH_TRIPLES_OFFSET + 630, AUTH_TRIPLES_OFFSET + 724, Ghost(k));
    let (comp_1_state, comp_msg_b) = match comp_process_msg3(&state.comp_1_state, tr_1, &msg8.comp_msg_b) {
        Ok(v) => v,
        Err(_) => return Err(CFMError::Comparison),
    };
    let next = CFMStateOBR5 {
        session_id: state.session_id,
        p: state.p,
        r_share: state.r_share,
        alpha_share: state.alpha_share,
        beta_share: state.beta_share,
        big_m_y_share: state.big_m_y_share,
        big_z_y_ob_share: state.big_z_y_ob_share,
        comp_0_state,
        comp_1_state,
    };
    let msg9 = CFMMsg9 { session_id: state.session_id, comp_msg_c, comp_msg_b };
    Ok((next, msg9))
}

/// CB processes CFMMsg9: one more round of both comparisons (triples
/// `877 .. 923` and `1252 .. 1298`).
pub fn cfm_process_msg9(
    state: &CFMStateCBR4,
    auth_triples: &[TripleShare],
    msg9: &CFMMsg9,
) -> (r: Result<(CFMStateCBR5, CFMMsg10), CFMError>)
    requires
        state.wf(),
        auth_triples@.len() == NUMBER_OF_AUTH_BEAVER_TRIPLES,
        triples_keyed(auth_triples@, state.key()),
    ensures
        state.session_id@ == msg9.session_id@ ==> (r.is_ok() <==> (crate::comparison::comp_msg4_ok(
            state.comp_0_state,
            auth_triples@.subrange(877, 923),
            msg9.comp_msg_c,
        ) && crate::comparison::comp_msg4_ok(
            state.comp_1_state,
            auth_triples@.subrange(1252, 1298),
            msg9.comp_msg_b,
        ))),
        (r matches Err(e) && e == CFMError::InvalidSessionID) <==> state.session_id@ != msg9.session_id@,
        r matches Err(e) ==> e == CFMError::InvalidSessionID || e == CFMError::Comparison,
        r matches Ok((st, m)) ==> {
            &&& st.session_id == state.session_id
            &&& m.session_id == state.session_id
            &&& st.p == state.p
            &&& st.r_share == state.r_share
            &&& st.alpha_share == state.alpha_share
            &&& st.beta_share == state.beta_share
            &&& st.big_m_y_share == state.big_m_y_share
            &&& st.big_z_y_ob_share == state.big_z_y_ob_share
            &&& st.wf()
        },
{
    if !crate::comparison::same_session(&state.session_id, &msg9.session_id) {
        return Err(CFMError::InvalidSessionID);
    }
    let k = state.r_share.big_delta;
    let tr_0 = triples_range(auth_triples, AUTH_TRIPLES_OFFSET + 318, AUTH_TRIPLES_OFFSET + 364, Ghost(k));
    let (comp_0_state, comp_msg_c) = match comp_process_msg4(&state.comp_0_state, tr_0, &msg9.comp_msg_c) {
        Ok(v) => v,
        Err(_) => return Err(CFMError::Comparison),
    };
    let tr_1 = triples_range(auth_triples, AUTH_TRIPLES_OFFSET + 693, AUTH_TRIPLES_OFFSET + 739, Ghost(k));
    let (comp_1_state, comp_msg_b) = match comp_process_msg4(&state.comp_1_state, tr_1, &msg9.comp_msg_b) {
        Ok(v) => v,
        Err(_) => return Err(CFMError::Comparison),
    };
    let next = CFMStateCBR5 {
        session_id: state.session_id,
        p: state.p,
        r_share: state.r_share,
        alpha_share: state.alpha_share,
        beta_share: state.beta_share,
        big_m_y_share: state.big_m_y_share,
        big_z_y_ob_share: state.big_z_y_ob_share,
        comp_0_state,
        comp_1_state,
    };
    let msg10 = CFMMsg10 { session_id: state.session_id, comp_msg_c, comp_msg_b };
    Ok((next, msg10))
}

/// OB processes CFMMsg10: one more round of both comparisons (triples
/// `908 .. 930` and `1283 .. 1305`).
pub fn cfm_process_msg10(
    state: &CFMStateOBR5,
    auth_triples: &[TripleShare],
    msg10: &CFMMsg10,
) -> (r: Result<(CFMStateOBR6, CFMMsg11), CFMError>)
    requires
        state.wf(),
        auth_triples@.len() == NUMBER_OF_AUTH_BEAVER_TRIPLES,
        triples_keyed(auth_triples@, state.key()),
    ensures
        state.session_id@ == msg10.session_id@ ==> (r.is_ok() <==> (crate::comparison::comp_msg5_ok(
            state.comp_0_state,
            auth_triples@.subrange(908, 930),
            msg10.comp_msg_c,
        ) && crate::comparison::comp_msg5_ok(
            state.comp_1_state,
            auth_triples@.subrange(1283, 1305),
            msg10.comp_msg_b,
        ))),
        (r matches Err(e) && e == CFMError::InvalidSessionID) <==> state.session_id@ != msg10.session_id@,
        r matches Err(e) ==> e == CFMError::InvalidSessionID || e == CFMError::Comparison,
        r matches Ok((st, m)) ==> {
            &&& st.session_id == state.session_id
            &&& m.session_id == state.session_id
            &&& st.p == state.p
            &&& st.r_share == state.r_share
            &&& st.alpha_share == state.alpha_share
            &&& st.beta_share == state.beta_share
            &&& st.big_m_y_share == state.big_m_y_share
            &&& st.big_z_y_ob_share == state.big_z_y_ob_share
            &&& st.wf()
        },
{
    if !crate::comparison::same_session(&state.session_id, &msg10.session_id) {
        return Err(CFMError::InvalidSessionID);
    }
    let k = state.r_share.big_delta;
    let tr_0 = triples_range(auth_triples, AUTH_TRIPLES_OFFSET + 349, AUTH_TRIPLES_OFFSET + 371, Ghost(k));
    let (comp_0_state, comp_msg_c) = match comp_process_msg5(&state.comp_0_state, tr_0, &msg10.comp_msg_c) {
        Ok(v) => v,
        Err(_) => return Err(CFMError::Comparison),
    };
    let tr_1 = triples_range(auth_triples, AUTH_TRIPLES_OFFSET + 724, AUTH_TRIPLES_OFFSET + 746, Ghost(k));
    let (comp_1_state, comp_msg_b) = match comp_process_msg5(&state.comp_1_state, tr_1, &msg10.comp_msg_b) {
        Ok(v) => v,
        Err(_) => return Err(CFMError::Comparison),
    };
    let next = CFMStateOBR6 {
        session_id: state.session_id,
        p: state.p,
        r_share: state.r_share,
        alpha_share: state.alpha_share,
        beta_share: state.beta_share,
        big_m_y_share: state.big_m_y_share,
        big_z_y_ob_share: state.big_z_y_ob_share,
        comp_0_state,
        comp_1_state,
    };
    let msg11 = CFMMsg11 { session_id: state.session_id, comp_msg_c, comp_msg_b };
    Ok((next, msg11))
}

/// CB processes CFMMsg11: one more round of both comparisons (triples
/// `923 .. 933` and `1298 .. 1308`).
pub fn cfm_process_msg11(
    state: &CFMStateCBR5,
    auth_triples: &[TripleShare],
    msg11: &CFMMsg11,
) -> (r: Result<(CFMStateCBR6, CFMMsg12), CFMError>)
    requires
        state.wf(),
        auth_triples@.len() == NUMBER_OF_AUTH_BEAVER_TRIPLES,
        triples_keyed(auth_triples@, state.key()),
    ensures
        state.session_id@ == msg11.session_id@ ==> (r.is_ok() <==> (crate::comparison::comp_msg6_ok(
            state.comp_0_state,
            auth_triples@.subrange(923, 933),
            msg11.comp_msg_c,
        ) && crate::comparison::comp_msg6_ok(
            state.comp_1_state,
            auth_triples@.subrange(1298, 1308),
            msg11.comp_msg_b,
        ))),
        (r matches Err(e) && e == CFMError::InvalidSessionID) <==> state.session_id@ != msg11.session_id@,
        r matches Err(e) ==> e == CFMError::InvalidSessionID || e == CFMError::Comparison,
        r matches Ok((st, m)) ==> {
            &&& st.session_id == state.session_id
            &&& m.session_id == state.session_id
            &&& st.p == state.p
            &&& st.r_share == state.r_share
            &&& st.alpha_share == state.alpha_share
            &&& st.beta_share == state.beta_share
            &&& st.big_m_y_share == state.big_m_y_share
            &&& st.big_z_y_ob_share == state.big_z_y_ob_share
            &&& st.wf()
        },
{
    if !crate::comparison::same_session(&state.session_id, &msg11.session_id) {
        return Err(CFMError::InvalidSessionID);
    }
    let k = state.r_share.big_delta;
    let tr_0 = triples_range(auth_triples, AUTH_TRIPLES_OFFSET + 364, AUTH_TRIPLES_OFFSET + 374, Ghost(k));
    let (comp_0_state, comp_msg_c) = match comp_process_msg6(&state.comp_0_state, tr_0, &msg11.comp_msg_c) {
        Ok(v) => v,
        Err(_) => return Err(CFMError::Comparison),
    };
    let tr_1 = triples_range(auth_triples, AUTH_TRIPLES_OFFSET + 739, AUTH_TRIPLES_OFFSET + 749, Ghost(k));
    let (comp_1_state, comp_msg_b) = match comp_process_msg6(&state.comp_1_state, tr_1, &msg11.comp_msg_b) {
        Ok(v) => v,
        Err(_) => return Err(CFMError::Comparison),
    };
    let next = CFMStateCBR6 {
        session_id: state.session_id,
        p: state.p,
        r_share: state.r_share,
        alpha_share: state.alpha_share,
        beta_share: state.beta_share,
        big_m_y_share: state.big_m_y_share,
        big_z_y_ob_share: state.big_z_y_ob_share,
        comp_0_state,
        comp_1_state,
    };
    let msg12 = CFMMsg12 { session_id: state.session_id, comp_msg_c, comp_msg_b };
    Ok((next, msg12))
}

/// Index of the triple for `[a] = [alpha] * [Z_Y^OB]`.
pub const TRIPLE_A: usize = 1309;

/// Index of the triple for `[f1] = ([c] - 1) * ([z] - 1)`.
pub const TRIPLE_F1: usize = 1310;

/// Index of the triple for `[f] = (1 - [f1]) * [r]`.
pub const TRIPLE_F: usize = 1311;

/// OB processes CFMMsg12 from CB: the comparisons' seventh round, and the
/// start of `[a] = [alpha] * [Z_Y^OB]` (triple 1309).
pub fn cfm_process_msg12(
    state: &CFMStateOBR6,
    auth_triples: &[TripleShare],
    msg12: &CFMMsg12,
) -> (r: Result<(CFMStateOBR7, CFMMsg13), CFMError>)
    requires
        state.wf(),
        auth_triples@.len() == NUMBER_OF_AUTH_BEAVER_TRIPLES,
        triples_keyed(auth_triples@, state.key()),
    ensures
        state.session_id@ == msg12.session_id@ ==> (r.is_ok() <==> (crate::comparison::comp_msg7_ok(
            state.comp_0_state,
            auth_triples@.subrange(930, 934),
            msg12.comp_msg_c,
        ) && crate::comparison::comp_msg7_ok(
            state.comp_1_state,
            auth_triples@.subrange(1305, 1309),
            msg12.comp_msg_b,
        ))),
        (r matches Err(e) && e == CFMError::InvalidSessionID) <==> state.session_id@ != msg12.session_id@,
        r matches Err(e) ==> e == CFMError::InvalidSessionID || e == CFMError::Comparison,
        r matches Ok((st, m)) ==> {
            let t = auth_triples@[TRIPLE_A as int];
            &&& st.mul_state_a == mul_open_state(state.alpha_share, state.big_z_y_ob_share, t.x, t.y, t.z, state.p as int)
            &&& m.mul_open_a == mul_open_msg(st.mul_state_a)
            &&& st.auth_triple_2 == auth_triples@[TRIPLE_F1 as int]
            &&& st.auth_triple_3 == auth_triples@[TRIPLE_F as int]
            &&& st.session_id == state.session_id
            &&& m.session_id == state.session_id
            &&& st.p == state.p
            &&& st.r_share == state.r_share
            &&& st.beta_share == state.beta_share
            &&& st.big_m_y_share == state.big_m_y_share
            &&& st.wf()
        },
{
    if !crate::comparison::same_session(&state.session_id, &msg12.session_id) {
        return Err(CFMError::InvalidSessionID);
    }
    let params = FieldParams { p: state.p };
    let k = state.r_share.big_delta;
    let tr_0 = triples_range(auth_triples, AUTH_TRIPLES_OFFSET + 371, AUTH_TRIPLES_OFFSET + 375, Ghost(k));
    let (comp_0_state, comp_msg_c) = match comp_process_msg7(&state.comp_0_state, tr_0, &msg12.comp_msg_c) {
        Ok(v) => v,
        Err(_) => return Err(CFMError::Comparison),
    };
    let tr_1 = triples_range(auth_triples, AUTH_TRIPLES_OFFSET + 746, AUTH_TRIPLES_OFFSET + 750, Ghost(k));
    let (comp_1_state, comp_msg_b) = match comp_process_msg7(&state.comp_1_state, tr_1, &msg12.comp_msg_b) {
        Ok(v) => v,
        Err(_) => return Err(CFMError::Comparison),
    };
    let t1 = &auth_triples[TRIPLE_A];
    let (mul_state_a, mul_open_a) = multiply_shares_open(&state.alpha_share, &state.big_z_y_ob_share, &t1.x, &t1.y, &t1.z, params);
    let next = CFMStateOBR7 {
        session_id: state.session_id,
        p: state.p,
        r_share: state.r_share,
        beta_share: state.beta_share,
        big_m_y_share: state.big_m_y_share,
        comp_0_state,
        comp_1_state,
        mul_state_a,
        auth_triple_2: auth_triples[TRIPLE_F1],
        auth_triple_3: auth_triples[TRIPLE_F],
    };
    let msg13 = CFMMsg13 { session_id: state.session_id, comp_msg_c, comp_msg_b, mul_open_a };
    Ok((next, msg13))
}

/// `[z] = [a] + [beta] - [M_Y]`: zero exactly when `M_Y` is CB's MAC on
/// `Z_Y^OB`.
pub open spec fn z_spec(a: Share, beta: Share, m_y: Share, p: int) -> Share {
    a.spec_add(beta, p).spec_sub(m_y, p)
}

/// `[c] - 1` and `[z] - 1`, the operands of `[f1]`, on one side.
pub open spec fn minus_one_spec(s: Share, is_cb: bool, p: int) -> Share {
    s.spec_add_const(fsub(0, 1, p), is_cb, p)
}

/// `[f2] = 1 - [f1]` on one side.
pub open spec fn f2_spec(f1: Share, is_cb: bool, p: int) -> Share {
    f1.spec_mul_const(fsub(0, 1, p), p).spec_add_const(1, is_cb, p)
}

/// CB processes CFMMsg13 from OB: finishes both comparisons (`[c]`, `[b]`),
/// computes `[a]` and `[z] = [a] + [beta] - [M_Y]`, and starts
/// `[f1] = ([c] - 1)([z] - 1)` (triple 1310).
#[verifier::spinoff_prover]
pub fn cfm_process_msg13(
    state: &CFMStateCBR6,
    auth_triples: &[TripleShare],
    msg13: &CFMMsg13,
) -> (r: Result<(CFMStateCBR7, CFMMsg14), CFMError>)
    requires
        state.wf(),
        auth_triples@.len() == NUMBER_OF_AUTH_BEAVER_TRIPLES,
        triples_keyed(auth_triples@, state.key()),
    ensures
        state.session_id@ == msg13.session_id@ ==> (r.is_ok() <==> {
            let ta = auth_triples@[TRIPLE_A as int];
            &&& crate::comparison::comp_msg8_ok(state.comp_0_state, auth_triples@.subrange(933, 934), msg13.comp_msg_c)
            &&& crate::comparison::comp_msg8_ok(state.comp_1_state, auth_triples@.subrange(1308, 1309), msg13.comp_msg_b)
            &&& mul_opens_valid(
                mul_open_state(state.alpha_share, state.big_z_y_ob_share, ta.x, ta.y, ta.z, state.p as int),
                msg13.mul_open_a,
                state.p as int,
            )
        }),
        (r matches Err(e) && e == CFMError::InvalidSessionID) <==> state.session_id@ != msg13.session_id@,
        r matches Err(e) ==> e == CFMError::InvalidSessionID || e == CFMError::Comparison || e == CFMError::InvalidOpen,
        r matches Ok((st, m)) ==> {
            let p = state.p as int;
            let ta = auth_triples@[TRIPLE_A as int];
            let tf1 = auth_triples@[TRIPLE_F1 as int];
            let st_a = mul_open_state(state.alpha_share, state.big_z_y_ob_share, ta.x, ta.y, ta.z, p);
            let a = mul_output(st_a, msg13.mul_open_a, true, p);
            let z = z_spec(a, state.beta_share, state.big_m_y_share, p);
            &&& mul_opens_valid(st_a, msg13.mul_open_a, p)
            &&& m.mul_open_a == mul_open_msg(st_a)
            &&& st.c_share == crate::comparison::final_share_cb(state.comp_0_state, auth_triples@.subrange(933, 934), msg13.comp_msg_c)
            &&& st.b_share == crate::comparison::final_share_cb(state.comp_1_state, auth_triples@.subrange(1308, 1309), msg13.comp_msg_b)
            &&& st.mul_state_f1 == mul_open_state(minus_one_spec(st.c_share, true, p), minus_one_spec(z, true, p), tf1.x, tf1.y, tf1.z, p)
            &&& m.mul_open_f1 == mul_open_msg(st.mul_state_f1)
            &&& st.auth_triple_3 == auth_triples@[TRIPLE_F as int]
            &&& st.session_id == state.session_id
            &&& m.session_id == state.session_id
            &&& st.p == state.p
            &&& st.r_share == state.r_share
            &&& st.wf()
        },
{
    if !crate::comparison::same_session(&state.session_id, &msg13.session_id) {
        return Err(CFMError::InvalidSessionID);
    }
    let params = FieldParams { p: state.p };
    let k = state.r_share.big_delta;
    let tr_0 = triples_range(auth_triples, AUTH_TRIPLES_OFFSET + 374, AUTH_TRIPLES_OFFSET + 375, Ghost(k));
    let (c_share, comp_msg_c) = match comp_process_msg8(&state.comp_0_state, tr_0, &msg13.comp_msg_c) {
        Ok(v) => v,
        Err(_) => return Err(CFMError::Comparison),
    };
    let tr_1 = triples_range(auth_triples, AUTH_TRIPLES_OFFSET + 749, AUTH_TRIPLES_OFFSET + 750, Ghost(k));
    let (b_share, comp_msg_b) = match comp_process_msg8(&state.comp_1_state, tr_1, &msg13.comp_msg_b) {
        Ok(v) => v,
        Err(_) => return Err(CFMError::Comparison),
    };
    let t1 = &auth_triples[TRIPLE_A];
    let (mul_state_a, mul_open_a) = multiply_shares_open(&state.alpha_share, &state.big_z_y_ob_share, &t1.x, &t1.y, &t1.z, params);
    let a_share = match multiply_shares_output(&mul_state_a, &msg13.mul_open_a, true, params) {
        Ok(v) => v,
        Err(_) => return Err(CFMError::InvalidOpen),
    };
    let z_share = a_share.add_share(&state.beta_share, params).sub_share(&state.big_m_y_share, params);
    let minus_one = sub_mod(0, 1, params);
    let t2 = &auth_triples[TRIPLE_F1];
    let (mul_state_f1, mul_open_f1) = multiply_shares_open(
        &c_share.add_const_cb(&minus_one, params),
        &z_share.add_const_cb(&minus_one, params),
        &t2.x,
        &t2.y,
        &t2.z,
        params,
    );
    let next = CFMStateCBR7 {
        session_id: state.session_id,
        p: state.p,
        r_share: state.r_share,
        c_share,
        b_share,
        mul_state_f1,
        auth_triple_3: auth_triples[TRIPLE_F],
    };
    let msg14 = CFMMsg14 { session_id: state.session_id, comp_msg_c, comp_msg_b, mul_open_a, mul_open_f1 };
    Ok((next, msg14))
}

/// OB processes CFMMsg14 from CB: finishes both comparisons, `[a]` and
/// `[f1]`, and starts `[f] = (1 - [f1]) [r]` (triple 1311).
#[verifier::spinoff_prover]
pub fn cfm_process_msg14(state: &CFMStateOBR7, msg14: &CFMMsg14) -> (r: Result<(CFMStateOBR8, CFMMsg15), CFMError>)
    requires
        state.wf(),
    ensures
        state.session_id@ == msg14.session_id@ ==> (r.is_ok() <==> {
            let p = state.p as int;
            let c = crate::comparison::final_share_ob(state.comp_0_state, msg14.comp_msg_c);
            let a = mul_output(state.mul_state_a, msg14.mul_open_a, false, p);
            let z = z_spec(a, state.beta_share, state.big_m_y_share, p);
            let t2 = state.auth_triple_2;
            let st_f1 = mul_open_state(minus_one_spec(c, false, p), minus_one_spec(z, false, p), t2.x, t2.y, t2.z, p);
            &&& crate::comparison::comp_msg9_ok(state.comp_0_state, msg14.comp_msg_c)
            &&& crate::comparison::comp_msg9_ok(state.comp_1_state, msg14.comp_msg_b)
            &&& mul_opens_valid(state.mul_state_a, msg14.mul_open_a, p)
            &&& mul_opens_valid(st_f1, msg14.mul_open_f1, p)
        }),
        (r matches Err(e) && e == CFMError::InvalidSessionID) <==> state.session_id@ != msg14.session_id@,
        r matches Err(e) ==> e == CFMError::InvalidSessionID || e == CFMError::Comparison || e == CFMError::InvalidOpen,
        r matches Ok((st, m)) ==> {
            let p = state.p as int;
            let c = crate::comparison::final_share_ob(state.comp_0_state, msg14.comp_msg_c);
            let a = mul_output(state.mul_state_a, msg14.mul_open_a, false, p);
            let z = z_spec(a, state.beta_share, state.big_m_y_share, p);
            let t2 = state.auth_triple_2;
            let t3 = state.auth_triple_3;
            let st_f1 = mul_open_state(minus_one_spec(c, false, p), minus_one_spec(z, false, p), t2.x, t2.y, t2.z, p);
            let f1 = mul_output(st_f1, msg14.mul_open_f1, false, p);
            &&& mul_opens_valid(state.mul_state_a, msg14.mul_open_a, p)
            &&& mul_opens_valid(st_f1, msg14.mul_open_f1, p)
            &&& st.b_share == crate::comparison::final_share_ob(state.comp_1_state, msg14.comp_msg_b)
            &&& st.mul_state_f == mul_open_state(f2_spec(f1, false, p), state.r_share, t3.x, t3.y, t3.z, p)
            &&& m.mul_open_f1 == mul_open_msg(st_f1)
            &&& m.mul_open_f == mul_open_msg(st.mul_state_f)
            &&& st.session_id == state.session_id
            &&& m.session_id == state.session_id
            &&& st.p == state.p
            &&& st.wf()
        },
{
    if !crate::comparison::same_session(&state.session_id, &msg14.session_id) {
        return Err(CFMError::InvalidSessionID);
    }
    let params = FieldParams { p: state.p };
    let c_share = match comp_process_msg9(&state.comp_0_state, &msg14.comp_msg_c) {
        Ok(v) => v,
        Err(_) => return Err(CFMError::Comparison),
    };
    let b_share = match comp_process_msg9(&state.comp_1_state, &msg14.comp_msg_b) {
        Ok(v) => v,
        Err(_) => return Err(CFMError::Comparison),
    };
    let a_share = match multiply_shares_output(&state.mul_state_a, &msg14.mul_open_a, false, params) {
        Ok(v) => v,
        Err(_) => return Err(CFMError::InvalidOpen),
    };
    let z_share = a_share.add_share(&state.beta_share, params).sub_share(&state.big_m_y_share, params);
    let minus_one = sub_mod(0, 1, params);
    let t2 = &state.auth_triple_2;
    let (mul_state_f1, mul_open_f1) = multiply_shares_open(
        &c_share.add_const_ob(&minus_one, params),
        &z_share.add_const_ob(&minus_one, params),
        &t2.x,
        &t2.y,
        &t2.z,
        params,
    );
    let f1_share = match multiply_shares_output(&mul_state_f1, &msg14.mul_open_f1, false, params) {
        Ok(v) => v,
        Err(_) => return Err(CFMError::InvalidOpen),
    };
    let f2_share = f1_share.mul_const(&minus_one, params).add_const_ob(&1u128, params);
    let t3 = &state.auth_triple_3;
    let (mul_state_f, mul_open_f) = multiply_shares_open(&f2_share, &state.r_share, &t3.x, &t3.y, &t3.z, params);
    let next = CFMStateOBR8 { session_id: state.session_id, p: state.p, b_share, mul_state_f };
    let msg15 = CFMMsg15 { session_id: state.session_id, mul_open_f1, mul_open_f };
    Ok((next, msg15))
}

/// CB processes CFMMsg15 from OB: finishes `[f1]`, runs
/// `[f] = (1 - [f1]) [r]` and opens `[f]`.
pub fn cfm_process_msg15(state: &CFMStateCBR7, msg15: &CFMMsg15) -> (r: Result<(CFMStateCBR8, CFMMsg16), CFMError>)
    requires
        state.wf(),
    ensures
        state.session_id@ == msg15.session_id@ ==> (r.is_ok() <==> {
            let p = state.p as int;
            let f1 = mul_output(state.mul_state_f1, msg15.mul_open_f1, true, p);
            let t3 = state.auth_triple_3;
            let st_f = mul_open_state(f2_spec(f1, true, p), state.r_share, t3.x, t3.y, t3.z, p);
            &&& mul_opens_valid(state.mul_state_f1, msg15.mul_open_f1, p)
            &&& mul_opens_valid(st_f, msg15.mul_open_f, p)
        }),
        (r matches Err(e) && e == CFMError::InvalidSessionID) <==> state.session_id@ != msg15.session_id@,
        r matches Err(e) ==> e == CFMError::InvalidSessionID || e == CFMError::InvalidOpen,
        r matches Ok((st, m)) ==> {
            let p = state.p as int;
            let f1 = mul_output(state.mul_state_f1, msg15.mul_open_f1, true, p);
            let t3 = state.auth_triple_3;
            let st_f = mul_open_state(f2_spec(f1, true, p), state.r_share, t3.x, t3.y, t3.z, p);
            &&& mul_opens_valid(state.mul_state_f1, msg15.mul_open_f1, p)
            &&& mul_opens_valid(st_f, msg15.mul_open_f, p)
            &&& st.f_share == mul_output(st_f, msg15.mul_open_f, true, p)
            &&& m.mul_open_f == mul_open_msg(st_f)
            &&& m.open_f == st.f_share.open_spec()
            &&& st.b_share == state.b_share
            &&& st.session_id == state.session_id
            &&& m.session_id == state.session_id
            &&& st.p == state.p
        },
{
    if !crate::comparison::same_session(&state.session_id, &msg15.session_id) {
        return Err(CFMError::InvalidSessionID);
    }
    let params = FieldParams { p: state.p };
    let f1_share = match multiply_shares_output(&state.mul_state_f1, &msg15.mul_open_f1, true, params) {
        Ok(v) => v,
        Err(_) => return Err(CFMError::InvalidOpen),
    };
    let minus_one = sub_mod(0, 1, params);
    let f2_share = f1_share.mul_const(&minus_one, params).add_const_cb(&1u128, params);
    let t3 = &state.auth_triple_3;
    assert(seq![state.auth_triple_3][0] == state.auth_triple_3);
    let (mul_state_f, mul_open_f) = multiply_shares_open(&f2_share, &state.r_share, &t3.x, &t3.y, &t3.z, params);
    let f_share = match multiply_shares_output(&mul_state_f, &msg15.mul_open_f, true, params) {
        Ok(v) => v,
        Err(_) => return Err(CFMError::InvalidOpen),
    };
    let next = CFMStateCBR8 { session_id: state.session_id, p: state.p, b_share: state.b_share, f_share };
    let msg16 = CFMMsg16 { session_id: state.session_id, mul_open_f, open_f: f_share.open() };
    Ok((next, msg16))
}

/// OB processes CFMMsg16 from CB: finishes `[f]`, checks that it opens to
/// zero, and opens `[f]` and `[b]`.
pub fn cfm_process_msg16(state: &CFMStateOBR8, msg16: &CFMMsg16) -> (r: Result<(CFMStateOBR9, CFMMsg17), CFMError>)
    requires
        state.wf(),
    ensures
        ({
            let p = state.p as int;
            let f = mul_output(state.mul_state_f, msg16.mul_open_f, false, p);
            state.session_id@ == msg16.session_id@ ==> {
                &&& !mul_opens_valid(state.mul_state_f, msg16.mul_open_f, p) ==> (r matches Err(e) && e == CFMError::InvalidOpen)
                &&& mul_opens_valid(state.mul_state_f, msg16.mul_open_f, p) && !opening_valid(f, msg16.open_f.0 as int, msg16.open_f.1 as int, p)
                    ==> (r matches Err(e) && e == CFMError::InvalidOpen)
                &&& mul_opens_valid(state.mul_state_f, msg16.mul_open_f, p) && opening_valid(f, msg16.open_f.0 as int, msg16.open_f.1 as int, p)
                    && fadd(f.value as int, msg16.open_f.0 as int, p) != 0 ==> (r matches Err(e) && e == CFMError::AbortProtocol)
            }
        }),
        (r matches Err(e) && e == CFMError::InvalidSessionID) <==> state.session_id@ != msg16.session_id@,
        r matches Err(e) ==> e == CFMError::InvalidSessionID || e == CFMError::InvalidOpen || e == CFMError::AbortProtocol,
        state.session_id@ == msg16.session_id@ ==> (r.is_ok() <==> {
            let p = state.p as int;
            let f = mul_output(state.mul_state_f, msg16.mul_open_f, false, p);
            &&& mul_opens_valid(state.mul_state_f, msg16.mul_open_f, p)
            &&& opening_valid(f, msg16.open_f.0 as int, msg16.open_f.1 as int, p)
            &&& fadd(f.value as int, msg16.open_f.0 as int, p) == 0
        }),
        r matches Ok((st, m)) ==> {
            let f = mul_output(state.mul_state_f, msg16.mul_open_f, false, state.p as int);
            &&& m.open_f == f.open_spec()
            &&& m.open_b == state.b_share.open_spec()
            &&& st.b_share == state.b_share
            &&& st.session_id == state.session_id
            &&& m.session_id == state.session_id
            &&& st.p == state.p
        },
{
    if !crate::comparison::same_session(&state.session_id, &msg16.session_id) {
        return Err(CFMError::InvalidSessionID);
    }
    let params = FieldParams { p: state.p };
    let f_share = match multiply_shares_output(&state.mul_state_f, &msg16.mul_open_f, false, params) {
        Ok(v) => v,
        Err(_) => return Err(CFMError::InvalidOpen),
    };
    let f_value = match f_share.validate_open(&msg16.open_f.0, &msg16.open_f.1, params) {
        Ok(v) => v,
        Err(_) => return Err(CFMError::InvalidOpen),
    };
    if f_value != 0 {
        return Err(CFMError::AbortProtocol);
    }
    let next = CFMStateOBR9 { session_id: state.session_id, p: state.p, b_share: state.b_share };
    let msg17 = CFMMsg17 { session_id: state.session_id, open_f: f_share.open(), open_b: state.b_share.open() };
    Ok((next, msg17))
}

/// CB processes CFMMsg17 from OB: checks that `[f]` opens to zero, and
/// returns the opened `b` (true when it opens to one) with CB's opening of
/// `[b]` for OB.
pub fn cfm_process_msg17(state: &CFMStateCBR8, msg17: &CFMMsg17) -> (r: Result<(bool, CFMMsg18), CFMError>)
    requires
        params_ok(state.p, 0),
    ensures
        ({
            let p = state.p as int;
            let f_ok = opening_valid(state.f_share, msg17.open_f.0 as int, msg17.open_f.1 as int, p);
            state.session_id@ == msg17.session_id@ ==> {
                &&& !f_ok ==> (r matches Err(e) && e == CFMError::InvalidOpen)
                &&& f_ok && fadd(state.f_share.value as int, msg17.open_f.0 as int, p) != 0 ==> (r matches Err(e) && e == CFMError::AbortProtocol)
                &&& opens_to_zero(state.f_share, msg17.open_f, p) && !opening_valid(state.b_share, msg17.open_b.0 as int, msg17.open_b.1 as int, p)
                    ==> (r matches Err(e) && e == CFMError::InvalidOpen)
            }
        }),
        (r matches Err(e) && e == CFMError::InvalidSessionID) <==> state.session_id@ != msg17.session_id@,
        r matches Err(e) ==> e == CFMError::InvalidSessionID || e == CFMError::InvalidOpen || e == CFMError::AbortProtocol,
        state.session_id@ == msg17.session_id@ ==> (r.is_ok() <==> {
            let p = state.p as int;
            &&& opening_valid(state.f_share, msg17.open_f.0 as int, msg17.open_f.1 as int, p)
            &&& fadd(state.f_share.value as int, msg17.open_f.0 as int, p) == 0
            &&& opening_valid(state.b_share, msg17.open_b.0 as int, msg17.open_b.1 as int, p)
        }),
        r matches Ok((b, m)) ==> {
            &&& b == (fadd(state.b_share.value as int, msg17.open_b.0 as int, state.p as int) == 1)
            &&& m.open_b == state.b_share.open_spec()
            &&& m.session_id == state.session_id
        },
{
    if !crate::comparison::same_session(&state.session_id, &msg17.session_id) {
        return Err(CFMError::InvalidSessionID);
    }
    let params = FieldParams { p: state.p };
    let f_value = match state.f_share.validate_open(&msg17.open_f.0, &msg17.open_f.1, params) {
        Ok(v) => v,
        Err(_) => return Err(CFMError::InvalidOpen),
    };
    if f_value != 0 {
        return Err(CFMError::AbortProtocol);
    }
    let b_value = match state.b_share.validate_open(&msg17.open_b.0, &msg17.open_b.1, params) {
        Ok(v) => v,
        Err(_) => return Err(CFMError::InvalidOpen),
    };
    let msg18 = CFMMsg18 { session_id: state.session_id, open_b: state.b_share.open() };
    Ok((b_value == 1, msg18))
}

/// OB processes CFMMsg18 from CB: returns the opened `b` (true when it
/// opens to one).
pub fn cfm_process_msg18(state: &CFMStateOBR9, msg18: &CFMMsg18) -> (r: Result<bool, CFMError>)
    requires
        params_ok(state.p, 0),
    ensures
        (r matches Err(e) && e == CFMError::InvalidSessionID) <==> state.session_id@ != msg18.session_id@,
        r matches Err(e) ==> e == CFMError::InvalidSessionID || e == CFMError::InvalidOpen,
        state.session_id@ == msg18.session_id@ ==> (r.is_ok() <==> opening_valid(
            state.b_share,
            msg18.open_b.0 as int,
            msg18.open_b.1 as int,
            state.p as int,
        )),
        r matches Ok(b) ==> b == (fadd(state.b_share.value as int, msg18.open_b.0 as int, state.p as int) == 1),
{
    if !crate::comparison::same_session(&state.session_id, &msg18.session_id) {
        return Err(CFMError::InvalidSessionID);
    }
    let params = FieldParams { p: state.p };
    let b_value = match state.b_share.validate_open(&msg18.open_b.0, &msg18.open_b.1, params) {
        Ok(v) => v,
        Err(_) => return Err(CFMError::InvalidOpen),
    };
    Ok(b_value == 1)
}

/// CFMMsg13
#[derive(Clone, Debug)]
pub struct CFMMsg13 {
    /// session id
    pub session_id: [u8; 32],
    /// message of the comparison Z_CB > Z_Y^OB
    pub comp_msg_c: CompMsg8,
    /// message of the comparison W > U
    pub comp_msg_b: CompMsg8,
    /// OB's opening for [a] = [alpha] * [Z_Y^OB]
    pub mul_open_a: MulSharesOpen,
}

/// CFMMsg14
#[derive(Clone, Debug)]
pub struct CFMMsg14 {
    /// session id
    pub session_id: [u8; 32],
    /// message of the comparison Z_CB > Z_Y^OB
    pub comp_msg_c: CompMsg9,
    /// message of the comparison W > U
    pub comp_msg_b: CompMsg9,
    /// CB's opening for [a]
    pub mul_open_a: MulSharesOpen,
    /// CB's opening for [f1]
    pub mul_open_f1: MulSharesOpen,
}

/// CFMMsg15
#[derive(Clone, Copy, Debug)]
pub struct CFMMsg15 {
    /// session id
    pub session_id: [u8; 32],
    /// OB's opening for [f1]
    pub mul_open_f1: MulSharesOpen,
    /// OB's opening for [f]
    pub mul_open_f: MulSharesOpen,
}

/// CFMMsg16
#[derive(Debug)]
pub struct CFMMsg16 {
    /// session id
    pub session_id: [u8; 32],
    /// CB's opening for [f]
    pub mul_open_f: MulSharesOpen,
    /// Open([f])
    pub open_f: (u128, u128),
}

/// CFMMsg17
#[derive(Debug)]
pub struct CFMMsg17 {
    /// session id
    pub session_id: [u8; 32],
    /// Open([f])
    pub open_f: (u128, u128),
    /// Open([b])
    pub open_b: (u128, u128),
}

/// CFMMsg18
#[derive(Debug)]
pub struct CFMMsg18 {
    /// session id
    pub session_id: [u8; 32],
    /// Open([b])
    pub open_b: (u128, u128),
}

/// CFM State for OB round7
#[derive(Clone, Debug)]
pub struct CFMStateOBR7 {
    /// session id
    pub session_id: [u8; 32],
    /// p
    pub p: u128,
    /// r share
    pub r_share: Share,
    /// beta share
    pub beta_share: Share,
    /// M_Y share
    pub big_m_y_share: Share,
    /// comparison Z_CB > Z_Y^OB
    pub comp_0_state: CompStateP2R7,
    /// comparison W > U
    pub comp_1_state: CompStateP2R7,
    /// [a] = [alpha] * [Z_Y^OB] under way
    pub mul_state_a: MulSharesState,
    /// triple for [f1]
    pub auth_triple_2: TripleShare,
    /// triple for [f]
    pub auth_triple_3: TripleShare,
}

impl CFMStateOBR7 {
    /// The key under which OB's shares are authenticated.
    pub open spec fn key(&self) -> u128 {
        self.r_share.big_delta
    }

    /// Well-formed: everything under the key.
    pub open spec fn wf(&self) -> bool {
        &&& params_ok(self.p, 0)
        &&& self.comp_0_state.wf() && self.comp_0_state.key() == self.key() && self.comp_0_state.p == self.p
        &&& self.comp_1_state.wf() && self.comp_1_state.key() == self.key() && self.comp_1_state.p == self.p
        &&& self.beta_share.big_delta == self.key()
        &&& self.big_m_y_share.big_delta == self.key()
        &&& self.mul_state_a.x.big_delta == self.key()
        &&& self.mul_state_a.y.big_delta == self.key()
        &&& self.mul_state_a.z_hat.big_delta == self.key()
        &&& triples_keyed(seq![self.auth_triple_2, self.auth_triple_3], self.key())
    }
}

/// CFM State for CB round7
#[derive(Clone, Copy, Debug)]
pub struct CFMStateCBR7 {
    /// session id
    pub session_id: [u8; 32],
    /// p
    pub p: u128,
    /// r share
    pub r_share: Share,
    /// c share
    pub c_share: Share,
    /// b share
    pub b_share: Share,
    /// [f1] under way
    pub mul_state_f1: MulSharesState,
    /// triple for [f]
    pub auth_triple_3: TripleShare,
}

impl CFMStateCBR7 {
    /// The key under which CB's shares are authenticated.
    pub open spec fn key(&self) -> u128 {
        self.r_share.big_delta
    }

    /// Well-formed: everything under the key.
    pub open spec fn wf(&self) -> bool {
        &&& params_ok(self.p, 0)
        &&& self.mul_state_f1.x.big_delta == self.key()
        &&& self.mul_state_f1.y.big_delta == self.key()
        &&& self.mul_state_f1.z_hat.big_delta == self.key()
        &&& triples_keyed(seq![self.auth_triple_3], self.key())
    }
}

/// CFM State for OB round8
#[derive(Clone, Copy, Debug)]
pub struct CFMStateOBR8 {
    /// session id
    pub session_id: [u8; 32],
    /// p
    pub p: u128,
    /// b share
    pub b_share: Share,
    /// [f] under way
    pub mul_state_f: MulSharesState,
}

impl CFMStateOBR8 {
    /// Well-formed: an admissible modulus and `[f]` under one key.
    pub open spec fn wf(&self) -> bool {
        &&& params_ok(self.p, 0)
        &&& self.mul_state_f.x.big_delta == self.mul_state_f.y.big_delta
        &&& self.mul_state_f.x.big_delta == self.mul_state_f.z_hat.big_delta
    }
}

/// CFM State for CB round8
#[derive(Clone, Copy, Debug)]
pub struct CFMStateCBR8 {
    /// session id
    pub session_id: [u8; 32],
    /// p
    pub p: u128,
    /// b share
    pub b_share: Share,
    /// f share
    pub f_share: Share,
}

/// CFM State for OB round9
#[derive(Clone, Copy, Debug)]
pub struct CFMStateOBR9 {
    /// session id
    pub session_id: [u8; 32],
    /// p
    pub p: u128,
    /// b share
    pub b_share: Share,
}

} // verus!
