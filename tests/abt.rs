use cfm_mpc::abt::{
    abt_check_open, abt_check_respond, abt_process_msg4, abt_process_msg5, ABTMsg4, ABTMsg5,
    ABTStateCBR2, ABTStateOBR2,
};
use cfm_mpc::beaver::TripleShare;
use cfm_mpc::errors::{ABTCBError, ABTOBError};
use cfm_mpc::field::{add_mod, mul_mod, sub_mod, FieldParams, P};
use cfm_mpc::share::Share;
use rand::Rng;

fn random_element<R: Rng>(rng: &mut R) -> u128 {
    rng.gen::<u128>() % P
}

fn deal<R: Rng>(v: u128, delta_cb: u128, delta_ob: u128, rng: &mut R) -> (Share, Share) {
    let params = FieldParams::protocol();
    let v_cb = random_element(rng);
    let v_ob = sub_mod(v, v_cb, params);
    let key_cb = random_element(rng);
    let key_ob = random_element(rng);
    let m_ob = sub_mod(mul_mod(v_ob, delta_cb, params), key_cb, params);
    let m_cb = sub_mod(mul_mod(v_cb, delta_ob, params), key_ob, params);
    (
        Share { value: v_cb, big_m: m_cb, big_delta: delta_cb, delta: key_cb },
        Share { value: v_ob, big_m: m_ob, big_delta: delta_ob, delta: key_ob },
    )
}

/// `n` candidate triples per side; `wrong` lists triples whose z is off by
/// one.
fn candidates(n: usize, wrong: &[usize]) -> (Vec<TripleShare>, Vec<TripleShare>) {
    let params = FieldParams::protocol();
    let mut rng = rand::thread_rng();
    let delta_cb = random_element(&mut rng);
    let delta_ob = random_element(&mut rng);
    let mut cb = Vec::new();
    let mut ob = Vec::new();
    for i in 0..n {
        let x = random_element(&mut rng);
        let y = random_element(&mut rng);
        let mut z = mul_mod(x, y, params);
        if wrong.contains(&i) {
            z = add_mod(z, 1, params);
        }
        let (x_cb, x_ob) = deal(x, delta_cb, delta_ob, &mut rng);
        let (y_cb, y_ob) = deal(y, delta_cb, delta_ob, &mut rng);
        let (z_cb, z_ob) = deal(z, delta_cb, delta_ob, &mut rng);
        cb.push(TripleShare { x: x_cb, y: y_cb, z: z_cb });
        ob.push(TripleShare { x: x_ob, y: y_ob, z: z_ob });
    }
    (cb, ob)
}

/// Runs the check over `2 eta_m` candidates and returns what CB's and OB's
/// last steps say.
fn run_check(
    eta_m: usize,
    wrong: &[usize],
    forge_cb_z: Option<usize>,
) -> (Result<ABTMsg5, ABTCBError>, Option<Result<(), ABTOBError>>) {
    let params = FieldParams::protocol();
    let rho = random_element(&mut rand::thread_rng());
    let session_id = [9u8; 32];
    let (mut cb, ob) = candidates(2 * eta_m, wrong);
    if let Some(i) = forge_cb_z {
        // CB swaps a kept triple's z for another value before the check
        cb[i].z.value = add_mod(cb[i].z.value, 12345, params);
    }
    let (st_cb, op_cb) = abt_check_open(&cb, eta_m, rho, params);
    let (op_ob, z_diff, open_z_ob) = abt_check_respond(&ob, eta_m, rho, &op_cb, params).unwrap();
    let state_cb = ABTStateCBR2 { session_id, p: P, eta_m, mul_shares_state: st_cb };
    let msg4 = ABTMsg4 { session_id, mul_shares_open: op_ob, open_z: open_z_ob };
    let r4 = abt_process_msg4(&state_cb, &cb[..eta_m], &msg4);
    let r5 = match &r4 {
        Ok(msg5) => {
            let state_ob = ABTStateOBR2 { session_id, p: P, eta_m, z_diff };
            let msg5 = ABTMsg5 { session_id: msg5.session_id, open_z: msg5.open_z.clone() };
            Some(abt_process_msg5(&state_ob, &msg5))
        }
        Err(_) => None,
    };
    (r4, r5)
}

#[test]
fn correct_triples_pass_the_check() {
    let (r4, r5) = run_check(16, &[], None);
    assert!(r4.is_ok());
    assert_eq!(r5, Some(Ok(())));
}

#[test]
fn a_wrong_kept_triple_fails_the_check() {
    let (r4, _) = run_check(16, &[3], None);
    assert!(matches!(r4, Err(ABTCBError::AbortProtocolAndBanOtherParty)));
}

#[test]
fn a_wrong_partner_triple_fails_the_check() {
    let (r4, _) = run_check(16, &[16 + 5], None);
    assert!(matches!(r4, Err(ABTCBError::AbortProtocolAndBanOtherParty)));
}

#[test]
fn forged_z_by_cb_is_caught() {
    let (r4, _) = run_check(8, &[], Some(2));
    assert!(matches!(r4, Err(ABTCBError::AbortProtocolAndBanOtherParty)));
}

#[test]
fn check_rejects_forged_openings_and_bad_shapes() {
    let params = FieldParams::protocol();
    let eta_m = 4;
    let rho = 77;
    let session_id = [1u8; 32];
    let (cb, ob) = candidates(2 * eta_m, &[]);
    let (st_cb, mut op_cb) = abt_check_open(&cb, eta_m, rho, params);
    op_cb[1].m_d = add_mod(op_cb[1].m_d, 1, params);
    assert_eq!(abt_check_respond(&ob, eta_m, rho, &op_cb, params).err(), Some(ABTOBError::InvalidOpen));

    let (_, op_cb) = abt_check_open(&cb, eta_m, rho, params);
    let (op_ob, z_diff, open_z_ob) = abt_check_respond(&ob, eta_m, rho, &op_cb, params).unwrap();
    let state_cb = ABTStateCBR2 { session_id, p: P, eta_m, mul_shares_state: st_cb };

    let other = ABTMsg4 { session_id: [2u8; 32], mul_shares_open: op_ob.clone(), open_z: open_z_ob.clone() };
    assert!(matches!(abt_process_msg4(&state_cb, &cb[..eta_m], &other), Err(ABTCBError::InvalidSessionID)));

    let short = ABTMsg4 { session_id, mul_shares_open: op_ob.clone(), open_z: open_z_ob[1..].to_vec() };
    assert!(matches!(abt_process_msg4(&state_cb, &cb[..eta_m], &short), Err(ABTCBError::InvalidMessage)));

    let msg4 = ABTMsg4 { session_id, mul_shares_open: op_ob.clone(), open_z: open_z_ob.clone() };
    assert!(matches!(abt_process_msg4(&state_cb, &cb[..eta_m - 1], &msg4), Err(ABTCBError::InvalidState)));

    let mut bad_mac = open_z_ob.clone();
    bad_mac[0].1 = add_mod(bad_mac[0].1, 1, params);
    let forged = ABTMsg4 { session_id, mul_shares_open: op_ob, open_z: bad_mac };
    assert!(matches!(abt_process_msg4(&state_cb, &cb[..eta_m], &forged), Err(ABTCBError::InvalidOpen)));

    let msg5 = abt_process_msg4(&state_cb, &cb[..eta_m], &msg4).unwrap();
    let state_ob = ABTStateOBR2 { session_id, p: P, eta_m, z_diff };
    let wrong_session = ABTMsg5 { session_id: [5u8; 32], open_z: msg5.open_z.clone() };
    assert_eq!(abt_process_msg5(&state_ob, &wrong_session), Err(ABTOBError::InvalidSessionID));
    let short = ABTMsg5 { session_id, open_z: msg5.open_z[1..].to_vec() };
    assert_eq!(abt_process_msg5(&state_ob, &short), Err(ABTOBError::InvalidMessage));
    let mut nonzero = msg5.open_z.clone();
    nonzero[2].0 = add_mod(nonzero[2].0, 1, params);
    let bad = ABTMsg5 { session_id, open_z: nonzero };
    assert_eq!(abt_process_msg5(&state_ob, &bad), Err(ABTOBError::InvalidOpen));
    assert_eq!(abt_process_msg5(&state_ob, &msg5), Ok(()));
}
