use cfm_mpc::beaver::TripleShare;
use cfm_mpc::psi::{psit_create_msg1, psit_process_msg1, psit_process_msg2};
use rand::seq::SliceRandom;
use cfm_mpc::cfm::{
    cfm_create_msg1, cfm_process_msg1, cfm_process_msg10, cfm_process_msg11, cfm_process_msg12,
    cfm_process_msg13, cfm_process_msg14, cfm_process_msg15, cfm_process_msg16, cfm_process_msg17,
    cfm_process_msg18, cfm_process_msg2, cfm_process_msg3, cfm_process_msg4, cfm_process_msg5,
    cfm_process_msg6, cfm_process_msg7, cfm_process_msg8, cfm_process_msg9, cfm_psit_payloads,
    psit_session_id,
    NUMBER_OF_AUTH_BEAVER_TRIPLES, NUMBER_OF_SHARES,
};
use cfm_mpc::errors::CFMError;
use cfm_mpc::beaver::test_bit_open;
use cfm_mpc::field::{add_mod, mul_mod, sub_mod, FieldParams, P};
use cfm_mpc::share::Share;
use cfm_mpc::utils::Customer;
use rand::rngs::StdRng;
use rand::{Rng, SeedableRng};

fn random_element<R: Rng>(rng: &mut R) -> u128 {
    rng.gen::<u128>() % P
}

fn deal<R: Rng>(v: u128, delta_cb: u128, delta_ob: u128, rng: &mut R) -> (Share, Share) {
    let params = FieldParams::protocol();
    let v_cb = random_element(rng);
    let v_ob = sub_mod(v, v_cb, params);
    let key_cb = random_element(rng);
    let key_ob = random_element(rng);
    let m_ob = sub_mod(mul_mod(v_ob, delta_cb, params), key_cb, params);
    let m_cb = sub_mod(mul_mod(v_cb, delta_ob, params), key_ob, params);
    (
        Share { value: v_cb, big_m: m_cb, big_delta: delta_cb, delta: key_cb },
        Share { value: v_ob, big_m: m_ob, big_delta: delta_ob, delta: key_ob },
    )
}

struct Pools {
    shares_cb: Vec<Share>,
    shares_ob: Vec<Share>,
    auth_triples_cb: Vec<TripleShare>,
    auth_triples_ob: Vec<TripleShare>,
}

/// Authenticated masks and triples for one query, as the offline phase
/// hands them out.
fn pools() -> Pools {
    pools_from(&mut rand::thread_rng())
}

fn pools_from<R: Rng>(rng: &mut R) -> Pools {
    let params = FieldParams::protocol();
    let mut rng = rng;
    let delta_cb = random_element(rng);
    let delta_ob = random_element(rng);
    let mut shares_cb = Vec::new();
    let mut shares_ob = Vec::new();
    for _ in 0..NUMBER_OF_SHARES {
        let v = random_element(rng);
        let (a, b) = deal(v, delta_cb, delta_ob, rng);
        shares_cb.push(a);
        shares_ob.push(b);
    }
    let mut auth_triples_cb = Vec::new();
    let mut auth_triples_ob = Vec::new();
    for _ in 0..NUMBER_OF_AUTH_BEAVER_TRIPLES {
        let x = random_element(rng);
        let y = random_element(rng);
        let z = mul_mod(x, y, params);
        let (x_cb, x_ob) = deal(x, delta_cb, delta_ob, rng);
        let (y_cb, y_ob) = deal(y, delta_cb, delta_ob, rng);
        let (z_cb, z_ob) = deal(z, delta_cb, delta_ob, rng);
        auth_triples_cb.push(TripleShare { x: x_cb, y: y_cb, z: z_cb });
        auth_triples_ob.push(TripleShare { x: x_ob, y: y_ob, z: z_ob });
    }
    Pools { shares_cb, shares_ob, auth_triples_cb, auth_triples_ob }
}

fn to_hash_bytes(c: &Customer) -> [u8; 32] {
    c.to_hash_bytes()
}

fn customer_list() -> Vec<Customer> {
    vec![
        Customer::new("Customer1", "P1234567", "123 Main St"),
        Customer::new("Customer2", "P2345678", "456 Church St"),
        Customer::new("Customer3", "P3456789", "789 Maple St"),
        Customer::new("Customer4", "P4567890", "101 Oak St"),
        Customer::new("Customer5", "P5678901", "111 Pine St"),
        Customer::new("Customer6", "P6789012", "121 Cedar St"),
        Customer::new("Customer7", "P7890123", "314 Birch St"),
        Customer::new("Customer8", "P8901234", "151 Walnut St"),
        Customer::new("Customer9", "P9012345", "617 Chestnut St"),
        Customer::new("Customer10", "P0123456", "181 Spruce St"),
    ]
}

/// How a run ended: both parties' accepted answers, or the first error.
#[derive(Debug, PartialEq)]
enum Outcome {
    Accepted(bool, bool),
    Rejected(CFMError),
}

/// Runs one query, the set-membership step included.
/// `tamper_x_bit` makes OB commit to a non-bit as bit 0 of X.
fn run_cfm(
    big_l: u64,
    big_x: u64,
    customer: &Customer,
    flows: Vec<u64>,
    tamper_x_bit: bool,
    session_of_msg3: Option<[u8; 32]>,
) -> Outcome {
    let mut log = Vec::new();
    run_cfm_with(&mut rand::thread_rng(), big_l, big_x, customer, flows, tamper_x_bit, session_of_msg3, &mut log)
}

/// As `run_cfm`, drawing every random value from `rng` and recording every
/// message in `log`.
fn run_cfm_with<R: Rng>(
    rng: &mut R,
    big_l: u64,
    big_x: u64,
    customer: &Customer,
    flows: Vec<u64>,
    tamper_x_bit: bool,
    session_of_msg3: Option<[u8; 32]>,
    log: &mut Vec<String>,
) -> Outcome {
    let mut rng = rng;
    let session_id: [u8; 32] = rng.gen();
    let pools = pools_from(rng);
    let p = P;

    let big_y_bytes: Vec<[u8; 32]> = customer_list().iter().map(to_hash_bytes).collect();
    let customer_y_bytes = to_hash_bytes(customer);

    let (state_ob_r1, msg1) = cfm_create_msg1(&session_id, p, big_l, big_x, &pools.shares_ob).unwrap();

    let mut z_cb_bytes: [u8; 16] = rng.gen();
    z_cb_bytes[15] &= 0x7f;
    let big_z_cb = u128::from_le_bytes(z_cb_bytes);
    let alpha = random_element(rng);
    let beta = random_element(rng);
    let r_cb = random_element(rng);
    let (z_ob, macs) = cfm_psit_payloads(p, big_z_cb, &flows, alpha, beta);
    let (state_cb_r1, msg2) = match cfm_process_msg1(
        &session_id,
        p,
        big_l,
        &pools.shares_cb,
        &msg1,
        big_z_cb,
        alpha,
        beta,
        r_cb,
    ) {
        Ok(v) => v,
        Err(e) => return Outcome::Rejected(e),
    };

    // the set-membership step, run between the two parties
    let psit_sid = psit_session_id(&session_id);
    let (psit_state_ob, psit_msg1) = psit_create_msg1(&psit_sid, &customer_y_bytes, rng.gen());
    let mut swaps: Vec<usize> = (0..big_y_bytes.len()).collect();
    swaps.shuffle(rng);
    let psit_msg2 = psit_process_msg1(&psit_sid, big_y_bytes, z_ob, macs, &psit_msg1, rng.gen(), rng.gen(), &swaps)
        .unwrap();
    let psit_outcome = psit_process_msg2(&psit_state_ob, &psit_msg2).ok();
    let fallback_m_y = random_element(rng);
    let r_ob = random_element(rng);
    let (mut state_ob_r2, mut msg3) = match cfm_process_msg2(
        &state_ob_r1,
        &pools.shares_ob,
        &pools.auth_triples_ob,
        &msg2,
        psit_outcome,
        fallback_m_y,
        r_ob,
    ) {
        Ok(v) => v,
        Err(e) => return Outcome::Rejected(e),
    };
    if tamper_x_bit {
        // OB commits to 2 instead of a bit as X_0, consistently on its side
        let params = FieldParams::protocol();
        msg3.d_2[0] = add_mod(msg3.d_2[0], 2, params);
        let forged = state_ob_r2.x_i_shares[0].add_const_ob(&2, params);
        state_ob_r2.x_i_shares[0] = forged;
        let t = &pools.auth_triples_ob[3 * 128];
        let (st, op) = test_bit_open(&forged, &t.x, &t.y, &t.z, false, &p, params);
        state_ob_r2.mul_state_test_bit[3 * 128] = st;
        msg3.mul_open_test_bit[3 * 128] = op;
    }
    if let Some(s) = session_of_msg3 {
        msg3.session_id = s;
    }

    log.push(format!("{:?}", msg1));
    log.push(format!("{:?}", msg2));
    log.push(format!("{:?}", msg3));
    let (state_cb_r2, msg4) =
        match cfm_process_msg3(&state_cb_r1, &pools.shares_cb, &pools.auth_triples_cb, &msg3) {
            Ok(v) => v,
            Err(e) => return Outcome::Rejected(e),
        };
    let (state_ob_r3, msg5) = match cfm_process_msg4(&state_ob_r2, &msg4) {
        Ok(v) => v,
        Err(e) => return Outcome::Rejected(e),
    };
    let (state_cb_r3, msg6) = match cfm_process_msg5(&state_cb_r2, &pools.auth_triples_cb, &msg5) {
        Ok(v) => v,
        Err(e) => return Outcome::Rejected(e),
    };
    let (state_ob_r4, msg7) = match cfm_process_msg6(&state_ob_r3, &pools.auth_triples_ob, &msg6) {
        Ok(v) => v,
        Err(e) => return Outcome::Rejected(e),
    };
    let (state_cb_r4, msg8) = cfm_process_msg7(&state_cb_r3, &pools.auth_triples_cb, &msg7).unwrap();
    let (state_ob_r5, msg9) = cfm_process_msg8(&state_ob_r4, &pools.auth_triples_ob, &msg8).unwrap();
    let (state_cb_r5, msg10) = cfm_process_msg9(&state_cb_r4, &pools.auth_triples_cb, &msg9).unwrap();
    let (state_ob_r6, msg11) =
        cfm_process_msg10(&state_ob_r5, &pools.auth_triples_ob, &msg10).unwrap();
    let (state_cb_r6, msg12) =
        cfm_process_msg11(&state_cb_r5, &pools.auth_triples_cb, &msg11).unwrap();
    let (state_ob_r7, msg13) =
        cfm_process_msg12(&state_ob_r6, &pools.auth_triples_ob, &msg12).unwrap();
    let (state_cb_r7, msg14) =
        cfm_process_msg13(&state_cb_r6, &pools.auth_triples_cb, &msg13).unwrap();
    let (state_ob_r8, msg15) = cfm_process_msg14(&state_ob_r7, &msg14).unwrap();
    let (state_cb_r8, msg16) = cfm_process_msg15(&state_cb_r7, &msg15).unwrap();
    let (state_ob_r9, msg17) = match cfm_process_msg16(&state_ob_r8, &msg16) {
        Ok(v) => v,
        Err(e) => return Outcome::Rejected(e),
    };
    let (b_cb_value, msg18) = match cfm_process_msg17(&state_cb_r8, &msg17) {
        Ok(v) => v,
        Err(e) => return Outcome::Rejected(e),
    };
    log.push(format!("{:?}", msg4));
    log.push(format!("{:?}", msg5));
    log.push(format!("{:?}", msg6));
    log.push(format!("{:?}", msg7));
    log.push(format!("{:?}", msg8));
    log.push(format!("{:?}", msg9));
    log.push(format!("{:?}", msg10));
    log.push(format!("{:?}", msg11));
    log.push(format!("{:?}", msg12));
    log.push(format!("{:?}", msg13));
    log.push(format!("{:?}", msg14));
    log.push(format!("{:?}", msg15));
    log.push(format!("{:?}", msg16));
    log.push(format!("{:?}", msg17));
    log.push(format!("{:?}", msg18));
    let b_ob_value = match cfm_process_msg18(&state_ob_r9, &msg18) {
        Ok(v) => v,
        Err(e) => return Outcome::Rejected(e),
    };
    Outcome::Accepted(b_cb_value, b_ob_value)
}

#[test]
fn test_cfm() {
    let customer_y = Customer::new("Customer3", "P3456789", "789 Maple St");
    let outcome = run_cfm(104, 100, &customer_y, vec![1, 2, 3, 4, 5, 6, 7, 8, 9, 10], false, None);
    println!("{:#?}", outcome);
    match outcome {
        Outcome::Accepted(b_cb_value, b_ob_value) => {
            assert_eq!(b_cb_value, b_ob_value);
            assert_eq!(b_cb_value, true);
        }
        Outcome::Rejected(e) => panic!("rejected: {:?}", e),
    }
}

#[test]
fn cfm_match_over_threshold_is_denied() {
    let customer_y = Customer::new("Customer10", "P0123456", "181 Spruce St");
    let outcome = run_cfm(104, 100, &customer_y, vec![1, 2, 3, 4, 5, 6, 7, 8, 9, 10], false, None);
    assert_eq!(outcome, Outcome::Accepted(false, false));
}

#[test]
fn cfm_sum_equal_to_threshold_is_denied() {
    let customer_y = Customer::new("Customer3", "P3456789", "789 Maple St");
    let outcome = run_cfm(104, 101, &customer_y, vec![1, 2, 3, 4, 5, 6, 7, 8, 9, 10], false, None);
    // 101 + 3 = 104 is not below 104
    assert_eq!(outcome, Outcome::Accepted(false, false));
}

#[test]
fn cfm_customer_not_in_list_is_not_accepted() {
    // the masked branch: with no payload for OB, [f] opens to a random
    // non-zero value and no answer is accepted
    let customer_y = Customer::new("Customer11", "P9999999", "nowhere");
    let outcome = run_cfm(104, 50, &customer_y, vec![1, 2, 3, 4, 5, 6, 7, 8, 9, 10], false, None);
    assert_eq!(outcome, Outcome::Rejected(CFMError::AbortProtocol));
}

#[test]
fn cfm_bitness_attack_by_ob_aborts() {
    let customer_y = Customer::new("Customer3", "P3456789", "789 Maple St");
    let outcome = run_cfm(104, 100, &customer_y, vec![1, 2, 3, 4, 5, 6, 7, 8, 9, 10], true, None);
    assert_eq!(outcome, Outcome::Rejected(CFMError::AbortProtocol));
}

#[test]
fn cfm_session_id_mismatch_is_rejected() {
    let customer_y = Customer::new("Customer3", "P3456789", "789 Maple St");
    let mut other = [0u8; 32];
    other[0] = 1;
    let outcome =
        run_cfm(104, 100, &customer_y, vec![1, 2, 3, 4, 5, 6, 7, 8, 9, 10], false, Some(other));
    assert_eq!(outcome, Outcome::Rejected(CFMError::InvalidSessionID));
}

#[test]
fn cfm_bad_parameters_are_rejected() {
    let pools = pools();
    let session_id = [3u8; 32];
    // L must stay below 2^47
    let r = cfm_create_msg1(&session_id, P, 1u64 << 47, 5, &pools.shares_ob);
    assert!(matches!(r, Err(CFMError::BadParameters)));
    // an even modulus
    let r = cfm_create_msg1(&session_id, P - 1, 104, 5, &pools.shares_ob);
    assert!(matches!(r, Err(CFMError::BadParameters)));
    // a short pool of masks
    let r = cfm_create_msg1(&session_id, P, 104, 5, &pools.shares_ob[1..]);
    assert!(matches!(r, Err(CFMError::BadParameters)));
}

#[test]
fn cfm_psit_payloads_mask_and_mac_the_flows() {
    let params = FieldParams::protocol();
    let (z_ob, macs) = cfm_psit_payloads(P, 1000, &vec![1, 2], 3, 4);
    assert_eq!(z_ob, vec![1001, 1002]);
    assert_eq!(macs, vec![3 * 1001 + 4, 3 * 1002 + 4]);
    let (z_ob, _) = cfm_psit_payloads(P, P - 1, &vec![5], 0, 0);
    assert_eq!(z_ob, vec![4]);
    let _ = params;
}

#[test]
fn cfm_runs_are_reproducible_from_fixed_seeds() {
    let customer_y = Customer::new("Customer3", "P3456789", "789 Maple St");
    let mut log_a = Vec::new();
    let mut log_b = Vec::new();
    let a = run_cfm_with(&mut StdRng::seed_from_u64(7), 104, 100, &customer_y, vec![1, 2, 3, 4, 5, 6, 7, 8, 9, 10], false, None, &mut log_a);
    let b = run_cfm_with(&mut StdRng::seed_from_u64(7), 104, 100, &customer_y, vec![1, 2, 3, 4, 5, 6, 7, 8, 9, 10], false, None, &mut log_b);
    assert_eq!(a, Outcome::Accepted(true, true));
    assert_eq!(a, b);
    assert_eq!(log_a.len(), 18);
    assert_eq!(log_a, log_b);
    let mut log_c = Vec::new();
    run_cfm_with(&mut StdRng::seed_from_u64(8), 104, 100, &customer_y, vec![1, 2, 3, 4, 5, 6, 7, 8, 9, 10], false, None, &mut log_c);
    assert_ne!(log_a, log_c);
}
