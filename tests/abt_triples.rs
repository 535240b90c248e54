use cfm_mpc::abt::{
    abt_cb_shares, abt_check_open, abt_check_respond, abt_ob_keys, abt_ob_shares, abt_process_msg4,
    abt_process_msg5, ABTMsg4, ABTStateCBR2, ABTStateOBR2,
};
use cfm_mpc::field::{add_mod, mul_mod, sub_mod, FieldParams, P};
use rand::Rng;

fn random_element<R: Rng>(rng: &mut R) -> u128 {
    rng.gen::<u128>() % P
}

/// `n` random VOLE correlations `sender + receiver == alpha * beta`; returns
/// `(alpha, beta, sender, receiver)`.
fn voles<R: Rng>(n: usize, beta_fixed: Option<u128>, rng: &mut R) -> (Vec<u128>, Vec<u128>, Vec<u128>, Vec<u128>) {
    let params = FieldParams::protocol();
    let (mut a, mut b, mut s, mut r) = (vec![], vec![], vec![], vec![]);
    for _ in 0..n {
        let alpha = random_element(rng);
        let beta = beta_fixed.unwrap_or_else(|| random_element(rng));
        let recv = random_element(rng);
        let send = sub_mod(mul_mod(alpha, beta, params), recv, params);
        a.push(alpha);
        b.push(beta);
        s.push(send);
        r.push(recv);
    }
    (a, b, s, r)
}

#[test]
fn test_auth_triples() {
    let mut rng = rand::thread_rng();
    let params = FieldParams::protocol();
    let eta_i = 5;
    let eta_m = 10;
    let n = 6 * eta_m + eta_i;
    let delta_cb = random_element(&mut rng);
    let delta_ob = random_element(&mut rng);
    // OB sends the single VOLEs and the one under CB's key
    let (a0, b0, s0, r0) = voles(4 * eta_m, None, &mut rng);
    let (a1, _, s1, r1) = voles(n, Some(delta_cb), &mut rng);
    // CB sends the one under OB's key
    let (a2, _, s2, r2) = voles(n, Some(delta_ob), &mut rng);
    let inputs_ob: Vec<u128> = (0..eta_i).map(|_| random_element(&mut rng)).collect();
    let inputs_cb: Vec<u128> = (0..eta_i).map(|_| random_element(&mut rng)).collect();

    let (input_shares_ob, triple_shares_ob, gamma_ob) =
        abt_ob_shares(P, eta_i, eta_m, &a0, &s0, &a1, &s1, &inputs_ob);
    let (input_shares_cb, triple_shares_cb, gamma_cb) =
        abt_cb_shares(P, eta_i, eta_m, &b0, &r0, delta_cb, &r1, &a2, &s2, &inputs_cb, &gamma_ob);
    let (input_shares_ob, triple_shares_ob) =
        abt_ob_keys(P, eta_i, eta_m, &input_shares_ob, &triple_shares_ob, delta_ob, &r2, &gamma_cb);

    // the check, with a public rho
    let session_id = [4u8; 32];
    let rho = random_element(&mut rng);
    let (st_cb, op_cb) = abt_check_open(&triple_shares_cb, eta_m, rho, params);
    let (op_ob, z_diff, open_z_ob) =
        abt_check_respond(&triple_shares_ob, eta_m, rho, &op_cb, params).unwrap();
    let state_cb = ABTStateCBR2 { session_id, p: P, eta_m, mul_shares_state: st_cb };
    let msg4 = ABTMsg4 { session_id, mul_shares_open: op_ob, open_z: open_z_ob };
    let msg5 = abt_process_msg4(&state_cb, &triple_shares_cb[..eta_m], &msg4).unwrap();
    let state_ob = ABTStateOBR2 { session_id, p: P, eta_m, z_diff };
    abt_process_msg5(&state_ob, &msg5).unwrap();

    assert_eq!(input_shares_ob.len(), eta_i);
    assert_eq!(input_shares_cb.len(), eta_i);
    assert_eq!(triple_shares_cb.len(), 2 * eta_m);
    assert_eq!(triple_shares_ob.len(), 2 * eta_m);

    for i in 0..eta_i {
        let (x_cb, x_ob) = (&input_shares_cb[i], &input_shares_ob[i]);
        assert!(x_ob.validate_open(&x_cb.value, &x_cb.big_m, params).is_ok());
        assert!(x_cb.validate_open(&x_ob.value, &x_ob.big_m, params).is_ok());
    }
    for i in 0..eta_m {
        let (t_cb, t_ob) = (&triple_shares_cb[i], &triple_shares_ob[i]);
        let x = add_mod(t_cb.x.value, t_ob.x.value, params);
        let y = add_mod(t_cb.y.value, t_ob.y.value, params);
        let z = add_mod(t_cb.z.value, t_ob.z.value, params);
        assert_eq!(mul_mod(x, y, params), z);
        for (a, b) in [(&t_cb.x, &t_ob.x), (&t_cb.y, &t_ob.y), (&t_cb.z, &t_ob.z)] {
            assert!(b.validate_open(&a.value, &a.big_m, params).is_ok());
            assert!(a.validate_open(&b.value, &b.big_m, params).is_ok());
        }
    }
}

#[test]
fn broken_vole_fails_the_triple_check() {
    let mut rng = rand::thread_rng();
    let params = FieldParams::protocol();
    let eta_i = 2;
    let eta_m = 4;
    let n = 6 * eta_m + eta_i;
    let delta_cb = random_element(&mut rng);
    let delta_ob = random_element(&mut rng);
    let (a0, b0, mut s0, r0) = voles(4 * eta_m, None, &mut rng);
    // one single VOLE is off, so triple 1 is wrong
    s0[1] = add_mod(s0[1], 1, params);
    let (a1, _, s1, r1) = voles(n, Some(delta_cb), &mut rng);
    let (a2, _, s2, r2) = voles(n, Some(delta_ob), &mut rng);
    let inputs: Vec<u128> = (0..eta_i).map(|_| random_element(&mut rng)).collect();
    let (_, t_ob, gamma_ob) = abt_ob_shares(P, eta_i, eta_m, &a0, &s0, &a1, &s1, &inputs);
    let (_, t_cb, gamma_cb) = abt_cb_shares(P, eta_i, eta_m, &b0, &r0, delta_cb, &r1, &a2, &s2, &inputs, &gamma_ob);
    let (_, t_ob) = abt_ob_keys(P, eta_i, eta_m, &vec![cfm_mpc::share::Share::default(); eta_i], &t_ob, delta_ob, &r2, &gamma_cb);
    let session_id = [5u8; 32];
    let (st_cb, op_cb) = abt_check_open(&t_cb, eta_m, 12345, params);
    let (op_ob, _, open_z_ob) = abt_check_respond(&t_ob, eta_m, 12345, &op_cb, params).unwrap();
    let state_cb = ABTStateCBR2 { session_id, p: P, eta_m, mul_shares_state: st_cb };
    let msg4 = ABTMsg4 { session_id, mul_shares_open: op_ob, open_z: open_z_ob };
    assert!(matches!(
        abt_process_msg4(&state_cb, &t_cb[..eta_m], &msg4),
        Err(cfm_mpc::errors::ABTCBError::AbortProtocolAndBanOtherParty)
    ));
}
