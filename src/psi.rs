//! Private set membership (PSC) and private set intersection with transfer
//! (PSI-T) over the Ristretto group.
//!
//! OB blinds the hash-to-group image of its element with a secret `r`; CB
//! raises it to its key `k`, proves knowledge of `k`, and sends, in an
//! order of its choosing, a hash of `H1(y)^k` for each of its elements `y`
//! (and, in PSI-T, a payload masked with another hash of the same point).
//! OB unblinds `A^k` with `1/r` and looks its own hash up. Random draws are
//! handed in as bytes, and CB's order as the sequence of swaps that
//! shuffles it.
use crate::comparison::same_session;
use crate::dlog::DLogProof;
use crate::errors::{PSCBBError, PSCOBError, PSITCBError, PSITOBError};
use crate::group::{
    decode_point, encode_point, point_from_uniform_bytes, point_mul, scalar_from_bytes_mod_order,
    scalar_invert,
};
use crate::transcript::{transcript_append, transcript_challenge, transcript_challenge_wide, transcript_new};
use crate::utils::{u128_from_be_bytes, u128_to_be_bytes, xor_array, H1_RO_LABEL, H2_RO_LABEL};
use curve25519_dalek::ristretto::RistrettoPoint;
use curve25519_dalek::scalar::Scalar;
use vstd::prelude::*;

verus! {

/// Size of a compressed Ristretto point.
pub const POINT_BYTES: usize = 32;

/// H1: an element to a group point.
fn h1_function(session_id: &[u8; 32], x: &[u8; 32]) -> (r: RistrettoPoint) {
    let mut t = transcript_new(H1_RO_LABEL);
    transcript_append(&mut t, "session-id", session_id.as_slice());
    transcript_append(&mut t, "x", x.as_slice());
    let output = transcript_challenge_wide(&mut t, "h1-ro-bytes");
    point_from_uniform_bytes(&output)
}

/// H2: two points to 32 bytes.
fn h2_function(session_id: &[u8; 32], point1: &RistrettoPoint, point2: &RistrettoPoint) -> (r: [u8; 32]) {
    let mut t = transcript_new(H2_RO_LABEL);
    transcript_append(&mut t, "session-id", session_id.as_slice());
    transcript_append(&mut t, "point1", encode_point(point1).as_slice());
    transcript_append(&mut t, "point2", encode_point(point2).as_slice());
    transcript_challenge(&mut t, "h2-ro-bytes")
}

/// H3: two points to the 32-byte mask of a payload.
fn h3_function(session_id: &[u8; 32], point1: &RistrettoPoint, point2: &RistrettoPoint) -> (r: [u8; 32]) {
    let mut t = transcript_new(H2_RO_LABEL);
    transcript_append(&mut t, "session-id", session_id.as_slice());
    transcript_append(&mut t, "point1", encode_point(point1).as_slice());
    transcript_append(&mut t, "point2", encode_point(point2).as_slice());
    transcript_challenge(&mut t, "h2-ro-bytes")
}

/// `swaps` is a sequence of swap partners for a list of `n` entries.
pub open spec fn swaps_ok(swaps: Seq<usize>, n: int) -> bool {
    swaps.len() == n && forall|i: int| 0 <= i < n ==> (#[trigger] swaps[i]) < n
}

/// Swaps entry `i` with entry `swaps[i]`, for `i` from 0 on.
fn shuffle_by<T: Copy>(v: &mut Vec<T>, swaps: &Vec<usize>)
    requires
        swaps_ok(swaps@, old(v)@.len() as int),
    ensures
        final(v)@.len() == old(v)@.len(),
{
    let n = v.len();
    let mut i: usize = 0;
    while i < n
        invariant
            n == v@.len(),
            swaps_ok(swaps@, n as int),
            0 <= i <= n,
        decreases n - i,
    {
        let j = swaps[i];
        let a = v[i];
        let b = v[j];
        v.set(i, b);
        v.set(j, a);
        i += 1;
    }
}

/// PSCMsg1
#[derive(Clone, Copy, Debug, PartialEq, Eq)]
pub struct PSCMsg1 {
    /// session id
    pub session_id: [u8; 32],
    /// point A
    pub big_a: [u8; POINT_BYTES],
}

/// PSCMsg2
#[derive(Clone, Debug)]
pub struct PSCMsg2 {
    /// session id
    pub session_id: [u8; 32],
    /// hat(Y)
    pub hat_big_y: Vec<[u8; 32]>,
    /// point B
    pub big_b: [u8; POINT_BYTES],
    /// DLog proof
    pub dlog_proof: DLogProof,
}

/// PSC State for OB
#[derive(Debug)]
pub struct PSCStateOB {
    /// session id
    pub session_id: [u8; 32],
    /// h1(x)
    pub h1_x: RistrettoPoint,
    /// Scalar r
    pub r: Scalar,
    /// Point A
    pub big_a: RistrettoPoint,
}

/// OB creates PSCMsg1 for BB: blinds `H1(x)` with `r`, drawn from the 32
/// random bytes `r_bytes`.
pub fn psc_create_msg1(session_id: &[u8; 32], x: &[u8; 32], r_bytes: [u8; 32]) -> (r: (PSCStateOB, PSCMsg1))
    ensures
        r.0.session_id == *session_id,
        r.1.session_id == *session_id,
{
    let r = scalar_from_bytes_mod_order(r_bytes);
    let h1_x = h1_function(session_id, x);
    let big_a = point_mul(&h1_x, &r);
    let state = PSCStateOB { session_id: *session_id, h1_x, r, big_a };
    let msg1 = PSCMsg1 { session_id: *session_id, big_a: encode_point(&big_a) };
    (state, msg1)
}

/// The keyed hashes `H2(H1(y), H1(y)^k)` of a list of elements.
fn keyed_hashes(session_id: &[u8; 32], ys: &Vec<[u8; 32]>, k: &Scalar) -> (r: Vec<[u8; 32]>)
    ensures
        r@.len() == ys@.len(),
{
    let mut out: Vec<[u8; 32]> = Vec::new();
    let mut i: usize = 0;
    while i < ys.len()
        invariant
            0 <= i <= ys@.len(),
            out@.len() == i,
        decreases ys@.len() - i,
    {
        let h1 = h1_function(session_id, &ys[i]);
        out.push(h2_function(session_id, &h1, &point_mul(&h1, k)));
        i += 1;
    }
    out
}

/// BB processes PSCMsg1 from OB: `k_bytes` and `nonce` are 32 fresh random
/// bytes each, `swaps` the shuffle of its list.
pub fn psc_process_msg1(
    session_id: &[u8; 32],
    big_y: Vec<[u8; 32]>,
    msg1: &PSCMsg1,
    k_bytes: [u8; 32],
    nonce: [u8; 32],
    swaps: &Vec<usize>,
) -> (r: Result<PSCMsg2, PSCBBError>)
    requires
        swaps_ok(swaps@, big_y@.len() as int),
    ensures
        (r matches Err(e) && e == PSCBBError::InvalidSessionID) <==> session_id@ != msg1.session_id@,
        r matches Ok(m) ==> m.session_id == *session_id && m.hat_big_y@.len() == big_y@.len(),
{
    if !same_session(session_id, &msg1.session_id) {
        return Err(PSCBBError::InvalidSessionID);
    }
    let big_a = match decode_point(&msg1.big_a) {
        None => return Err(PSCBBError::InvalidMessage),
        Some(v) => v,
    };
    let k = scalar_from_bytes_mod_order(k_bytes);
    let big_b = point_mul(&big_a, &k);
    let dlog_proof = DLogProof::prove(&k, &big_a, session_id.as_slice(), nonce);
    let mut shuffled = big_y;
    shuffle_by(&mut shuffled, swaps);
    let hat_big_y = keyed_hashes(session_id, &shuffled, &k);
    Ok(PSCMsg2 { session_id: *session_id, hat_big_y, big_b: encode_point(&big_b), dlog_proof })
}

/// Whether `x` is among `list`.
fn contains_hash(list: &Vec<[u8; 32]>, x: &[u8; 32]) -> (r: Option<usize>)
    ensures
        r matches Some(i) ==> i < list@.len() && list@[i as int]@ == x@,
        r is None ==> forall|i: int| 0 <= i < list@.len() ==> #[trigger] list@[i]@ != x@,
{
    let mut i: usize = 0;
    while i < list.len()
        invariant
            0 <= i <= list@.len(),
            forall|k: int| 0 <= k < i ==> #[trigger] list@[k]@ != x@,
        decreases list@.len() - i,
    {
        if same_session(&list[i], x) {
            return Some(i);
        }
        i += 1;
    }
    None
}


/// Half `lo .. lo + 16` of a masked payload, unmasked.
pub open spec fn unmasked(c: Seq<u8>, mask: Seq<u8>, lo: int) -> Seq<u8> {
    Seq::new(16, |j: int| c[lo + j] ^ mask[lo + j])
}

/// Whether `x` occurs in `list`.
pub open spec fn occurs(list: Seq<[u8; 32]>, x: [u8; 32]) -> bool {
    exists|i: int| 0 <= i < list.len() && (#[trigger] list[i])@ == x@
}

/// OB's lookup in PSC: whether its unblinded hash `x_hat` is in CB's list.
pub fn psc_lookup(hat_big_y: &Vec<[u8; 32]>, x_hat: &[u8; 32]) -> (r: bool)
    ensures
        r == occurs(hat_big_y@, *x_hat),
{
    match contains_hash(hat_big_y, x_hat) {
        Some(i) => {
            assert(hat_big_y@[i as int]@ == x_hat@);
            true
        },
        None => false,
    }
}

/// OB's lookup in PSI-T: the payload `(Z, M)` stored with its unblinded
/// hash `x_hat`, unmasked with `mask`; `NotInList` when the hash is not in
/// CB's list, `InvalidMessage` when its payload is missing.
pub fn psit_lookup(hat_big_y: &Vec<[u8; 32]>, hat_big_z: &Vec<[u8; 32]>, x_hat: &[u8; 32], mask: &[u8; 32]) -> (r: Result<
    (u128, u128),
    PSITOBError,
>)
    ensures
        (r matches Err(e) && e == PSITOBError::NotInList) <==> !occurs(hat_big_y@, *x_hat),
        r matches Err(e) ==> e == PSITOBError::NotInList || e == PSITOBError::InvalidMessage,
        occurs(hat_big_y@, *x_hat) && hat_big_z@.len() >= hat_big_y@.len() ==> r.is_ok(),
        r matches Ok((z, m)) ==> exists|i: int|
            0 <= i < hat_big_y@.len() && i < hat_big_z@.len() && (#[trigger] hat_big_y@[i])@ == x_hat@
                && z as int == crate::utils::be_value(unmasked(hat_big_z@[i]@, mask@, 0))
                && m as int == crate::utils::be_value(unmasked(hat_big_z@[i]@, mask@, 16)),
{
    let index = match contains_hash(hat_big_y, x_hat) {
        Some(i) => i,
        None => return Err(PSITOBError::NotInList),
    };
    if index >= hat_big_z.len() {
        return Err(PSITOBError::InvalidMessage);
    }
    let z = xor_array(hat_big_z[index], *mask);
    let mut z_y = [0u8; 16];
    let mut m_y = [0u8; 16];
    let mut i: usize = 0;
    while i < 16
        invariant
            0 <= i <= 16,
            z@.len() == 32,
            z_y@.len() == 16,
            m_y@.len() == 16,
            forall|j: int| 0 <= j < 32 ==> #[trigger] z@[j] == hat_big_z@[index as int]@[j] ^ mask@[j],
            forall|j: int| 0 <= j < i ==> #[trigger] z_y@[j] == z@[j],
            forall|j: int| 0 <= j < i ==> #[trigger] m_y@[j] == z@[16 + j],
        decreases 16 - i,
    {
        z_y[i] = z[i];
        m_y[i] = z[16 + i];
        i += 1;
    }
    assert(z_y@ =~= unmasked(hat_big_z@[index as int]@, mask@, 0));
    assert(m_y@ =~= unmasked(hat_big_z@[index as int]@, mask@, 16));
    Ok((u128_from_be_bytes(z_y), u128_from_be_bytes(m_y)))
}

/// OB processes PSCMsg2 from BB: checks BB's proof and looks its own
/// unblinded hash up in BB's list.
pub fn psc_process_msg2(state: &PSCStateOB, msg2: &PSCMsg2) -> (r: Result<bool, PSCOBError>)
    ensures
        (r matches Err(e) && e == PSCOBError::InvalidSessionID) <==> state.session_id@ != msg2.session_id@,
        r matches Ok(b) ==> exists|x_hat: [u8; 32]| b == occurs(msg2.hat_big_y@, x_hat),
{
    if !same_session(&state.session_id, &msg2.session_id) {
        return Err(PSCOBError::InvalidSessionID);
    }
    let big_b = match decode_point(&msg2.big_b) {
        None => return Err(PSCOBError::InvalidMessage),
        Some(v) => v,
    };
    if !msg2.dlog_proof.verify(&big_b, &state.big_a, state.session_id.as_slice()) {
        return Err(PSCOBError::InvalidDLogProof);
    }
    let r_inv = scalar_invert(&state.r);
    let x_hat = h2_function(&state.session_id, &state.h1_x, &point_mul(&big_b, &r_inv));
    Ok(psc_lookup(&msg2.hat_big_y, &x_hat))
}

/// PSITMsg1
#[derive(Clone, Copy, Debug, PartialEq, Eq)]
pub struct PSITMsg1 {
    /// session id
    pub session_id: [u8; 32],
    /// point A
    pub big_a: [u8; POINT_BYTES],
}

/// PSITMsg2
#[derive(Clone, Debug)]
pub struct PSITMsg2 {
    /// session id
    pub session_id: [u8; 32],
    /// hat(Y)
    pub hat_big_y: Vec<[u8; 32]>,
    /// masked payloads `Z || M`
    pub hat_big_z: Vec<[u8; 32]>,
    /// point B
    pub big_b: [u8; POINT_BYTES],
    /// DLog proof
    pub dlog_proof: DLogProof,
}

/// PSIT State for OB
#[derive(Debug)]
pub struct PSITStateOB {
    /// session id
    pub session_id: [u8; 32],
    /// h1(y)
    pub h1_y: RistrettoPoint,
    /// Scalar r
    pub r: Scalar,
    /// Point A
    pub big_a: RistrettoPoint,
}

/// OB creates PSITMsg1 for CB: blinds `H1(y)` with `r`, drawn from the 32
/// random bytes `r_bytes`.
pub fn psit_create_msg1(session_id: &[u8; 32], y: &[u8; 32], r_bytes: [u8; 32]) -> (r: (PSITStateOB, PSITMsg1))
    ensures
        r.0.session_id == *session_id,
        r.1.session_id == *session_id,
{
    let r = scalar_from_bytes_mod_order(r_bytes);
    let h1_y = h1_function(session_id, y);
    let big_a = point_mul(&h1_y, &r);
    let state = PSITStateOB { session_id: *session_id, h1_y, r, big_a };
    let msg1 = PSITMsg1 { session_id: *session_id, big_a: encode_point(&big_a) };
    (state, msg1)
}

/// The 16 big-endian bytes of `v`.
pub open spec fn be_bytes_of(v: u128) -> Seq<u8> {
    Seq::new(16, |i: int| ((v >> (8 * (15 - i)) as u128) & 0xff) as u8)
}

/// The payload `Z || M` as 32 big-endian bytes, masked with `mask`: its two
/// halves unmask to the bytes of `z` and of `m`.
pub fn psit_masked_payload(mask: [u8; 32], z: u128, m: u128) -> (r: [u8; 32])
    ensures
        r@.len() == 32,
        forall|j: int| 0 <= j < 16 ==> #[trigger] r@[j] == mask@[j] ^ be_bytes_of(z)[j],
        forall|j: int| 0 <= j < 16 ==> #[trigger] r@[16 + j] == mask@[16 + j] ^ be_bytes_of(m)[j],
{
    let zb = u128_to_be_bytes(z);
    let mb = u128_to_be_bytes(m);
    let mut out = [0u8; 32];
    let mut i: usize = 0;
    while i < 16
        invariant
            0 <= i <= 16,
            out@.len() == 32,
            mask@.len() == 32,
            forall|j: int| 0 <= j < 16 ==> #[trigger] zb@[j] == be_bytes_of(z)[j],
            forall|j: int| 0 <= j < 16 ==> #[trigger] mb@[j] == be_bytes_of(m)[j],
            forall|j: int| 0 <= j < i ==> #[trigger] out@[j] == mask@[j] ^ be_bytes_of(z)[j],
            forall|j: int| 0 <= j < i ==> #[trigger] out@[16 + j] == mask@[16 + j] ^ be_bytes_of(m)[j],
        decreases 16 - i,
    {
        out[i] = mask[i] ^ zb[i];
        out[16 + i] = mask[16 + i] ^ mb[i];
        i += 1;
    }
    out
}

/// CB processes PSITMsg1 from OB: for each of its elements `Y_k` (taken in
/// the shuffled order) it sends `H2(H1(Y_k), H1(Y_k)^k)` and the payload
/// `Z_k || M_k` masked with `H3` of the same points. `k_bytes` and `nonce`
/// are 32 fresh random bytes each, `swaps` the shuffle of its list.
pub fn psit_process_msg1(
    session_id: &[u8; 32],
    big_y: Vec<[u8; 32]>,
    big_z: Vec<u128>,
    big_m: Vec<u128>,
    msg1: &PSITMsg1,
    k_bytes: [u8; 32],
    nonce: [u8; 32],
    swaps: &Vec<usize>,
) -> (r: Result<PSITMsg2, PSITCBError>)
    requires
        big_z@.len() == big_y@.len(),
        big_m@.len() == big_y@.len(),
        swaps_ok(swaps@, big_y@.len() as int),
    ensures
        (r matches Err(e) && e == PSITCBError::InvalidSessionID) <==> session_id@ != msg1.session_id@,
        r matches Ok(m) ==> m.session_id == *session_id && m.hat_big_y@.len() == big_y@.len()
            && m.hat_big_z@.len() == big_y@.len(),
{
    if !same_session(session_id, &msg1.session_id) {
        return Err(PSITCBError::InvalidSessionID);
    }
    let big_a = match decode_point(&msg1.big_a) {
        None => return Err(PSITCBError::InvalidMessage),
        Some(v) => v,
    };
    let k = scalar_from_bytes_mod_order(k_bytes);
    let big_b = point_mul(&big_a, &k);
    let dlog_proof = DLogProof::prove(&k, &big_a, session_id.as_slice(), nonce);
    let mut shuffled_big_y = big_y;
    shuffle_by(&mut shuffled_big_y, swaps);
    let mut shuffled_big_z = big_z;
    shuffle_by(&mut shuffled_big_z, swaps);
    let mut shuffled_big_m = big_m;
    shuffle_by(&mut shuffled_big_m, swaps);
    let hat_big_y = keyed_hashes(session_id, &shuffled_big_y, &k);
    let mut hat_big_z: Vec<[u8; 32]> = Vec::new();
    let mut i: usize = 0;
    while i < shuffled_big_y.len()
        invariant
            shuffled_big_z@.len() == shuffled_big_y@.len(),
            shuffled_big_m@.len() == shuffled_big_y@.len(),
            0 <= i <= shuffled_big_y@.len(),
            hat_big_z@.len() == i,
        decreases shuffled_big_y@.len() - i,
    {
        let h1 = h1_function(session_id, &shuffled_big_y[i]);
        let h3 = h3_function(session_id, &h1, &point_mul(&h1, &k));
        hat_big_z.push(psit_masked_payload(h3, shuffled_big_z[i], shuffled_big_m[i]));
        i += 1;
    }
    Ok(PSITMsg2 {
        session_id: *session_id,
        hat_big_y,
        hat_big_z,
        big_b: encode_point(&big_b),
        dlog_proof,
    })
}

/// OB processes PSITMsg2 from CB: checks CB's proof, looks its unblinded
/// hash up, and unmasks the payload `(Z_Y^OB, M_Y)` found with it;
/// `NotInList` when its element is not on CB's list.
pub fn psit_process_msg2(state: &PSITStateOB, msg2: &PSITMsg2) -> (r: Result<(u128, u128), PSITOBError>)
    ensures
        (r matches Err(e) && e == PSITOBError::InvalidSessionID) <==> state.session_id@ != msg2.session_id@,
        r matches Ok((z, m)) ==> exists|i: int, mask: [u8; 32]|
            0 <= i < msg2.hat_big_z@.len() && z as int == crate::utils::be_value(#[trigger] unmasked(msg2.hat_big_z@[i]@, mask@, 0))
                && m as int == crate::utils::be_value(unmasked(msg2.hat_big_z@[i]@, mask@, 16)),
{
    if !same_session(&state.session_id, &msg2.session_id) {
        return Err(PSITOBError::InvalidSessionID);
    }
    let big_b = match decode_point(&msg2.big_b) {
        None => return Err(PSITOBError::InvalidMessage),
        Some(v) => v,
    };
    if !msg2.dlog_proof.verify(&big_b, &state.big_a, state.session_id.as_slice()) {
        return Err(PSITOBError::InvalidDLogProof);
    }
    let r_inv = scalar_invert(&state.r);
    let unblinded = point_mul(&big_b, &r_inv);
    let x_hat = h2_function(&state.session_id, &state.h1_y, &unblinded);
    let mask = h3_function(&state.session_id, &state.h1_y, &unblinded);
    psit_lookup(&msg2.hat_big_y, &msg2.hat_big_z, &x_hat, &mask)
}

proof fn lemma_be_prefix(v: u128, n: nat)
    requires
        n <= 16,
    ensures
        crate::utils::be_value(be_bytes_of(v).subrange(0, n as int)) == (v >> (8 * (16 - n)) as u128) as int,
    decreases n,
{
    if n == 0 {
        assert(be_bytes_of(v).subrange(0, 0).len() == 0);
        assert((v >> 128u128) == 0) by (bit_vector);
    } else {
        let m = (n - 1) as nat;
        lemma_be_prefix(v, m);
        let pre = be_bytes_of(v).subrange(0, n as int);
        assert(pre.drop_last() =~= be_bytes_of(v).subrange(0, m as int));
        let sh = (8 * (16 - n)) as u128;
        assert(pre.last() == be_bytes_of(v)[m as int]);
        assert((8 * (15 - m)) as u128 == sh);
        assert(sh + 8 == (8 * (16 - m)) as u128);
        assert(sh <= 120);
        let a = v >> (sh + 8);
        let b = (v >> sh) & 0xff;
        assert(b < 256 && a < 0x1000000000000000000000000000000 && (a << 8u128) | b == v >> sh && (a << 8u128) | b == (a << 8u128) + b) by (bit_vector)
            requires a == v >> (sh + 8), b == (v >> sh) & 0xff, sh <= 120;
        assert((a << 8u128) == a * 256) by (bit_vector)
            requires a < 0x1000000000000000000000000000000;
        assert(pre.last() == b as u8);
    }
}

/// Unmasking a masked payload gives its two values back: what CB stores
/// for an element is exactly what OB recovers with the same mask.
pub proof fn lemma_payload_round_trip(mask: [u8; 32], z: u128, m: u128, c: [u8; 32])
    requires
        forall|j: int| 0 <= j < 16 ==> #[trigger] c@[j] == mask@[j] ^ be_bytes_of(z)[j],
        forall|j: int| 0 <= j < 16 ==> #[trigger] c@[16 + j] == mask@[16 + j] ^ be_bytes_of(m)[j],
    ensures
        crate::utils::be_value(unmasked(c@, mask@, 0)) == z,
        crate::utils::be_value(unmasked(c@, mask@, 16)) == m,
{
    assert forall|j: int| 0 <= j < 16 implies #[trigger] unmasked(c@, mask@, 0)[j] == be_bytes_of(z)[j] by {
        let a = mask@[j];
        let b = be_bytes_of(z)[j];
        assert((a ^ b) ^ a == b) by (bit_vector);
    }
    assert forall|j: int| 0 <= j < 16 implies #[trigger] unmasked(c@, mask@, 16)[j] == be_bytes_of(m)[j] by {
        let a = mask@[16 + j];
        let b = be_bytes_of(m)[j];
        assert((a ^ b) ^ a == b) by (bit_vector);
    }
    assert(unmasked(c@, mask@, 0) =~= be_bytes_of(z));
    assert(unmasked(c@, mask@, 16) =~= be_bytes_of(m));
    lemma_be_prefix(z, 16);
    lemma_be_prefix(m, 16);
    assert(be_bytes_of(z).subrange(0, 16) =~= be_bytes_of(z));
    assert(be_bytes_of(m).subrange(0, 16) =~= be_bytes_of(m));
    assert((z >> 0u128) == z) by (bit_vector);
    assert((m >> 0u128) == m) by (bit_vector);
}

} // verus!
