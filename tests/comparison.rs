use cfm_mpc::beaver::TripleShare;
use cfm_mpc::comparison::{
    comp_create_msg1, comp_process_msg1, comp_process_msg2, comp_process_msg3, comp_process_msg4,
    comp_process_msg5, comp_process_msg6, comp_process_msg7, comp_process_msg8, comp_process_msg9,
    CompMsg1,
};
use cfm_mpc::errors::CompError;
use cfm_mpc::field::{add_mod, mul_mod, sub_mod, FieldParams, P};
use cfm_mpc::share::Share;
use rand::Rng;

fn random_element<R: Rng>(rng: &mut R) -> u128 {
    rng.gen::<u128>() % P
}

/// Splits `v` into an authenticated pair of parts under the keys
/// `delta_cb` and `delta_ob`.
fn deal<R: Rng>(v: u128, delta_cb: u128, delta_ob: u128, rng: &mut R) -> (Share, Share) {
    let params = FieldParams::protocol();
    let v_cb = random_element(rng);
    let v_ob = sub_mod(v, v_cb, params);
    let key_cb = random_element(rng);
    let key_ob = random_element(rng);
    let m_ob = sub_mod(mul_mod(v_ob, delta_cb, params), key_cb, params);
    let m_cb = sub_mod(mul_mod(v_cb, delta_ob, params), key_ob, params);
    (
        Share { value: v_cb, big_m: m_cb, big_delta: delta_cb, delta: key_cb },
        Share { value: v_ob, big_m: m_ob, big_delta: delta_ob, delta: key_ob },
    )
}

fn create_auth_triples_for_test(eta: usize) -> (Vec<TripleShare>, Vec<TripleShare>) {
    let params = FieldParams::protocol();
    let mut rng = rand::thread_rng();
    let delta_cb = random_element(&mut rng);
    let delta_ob = random_element(&mut rng);
    let mut cb = Vec::new();
    let mut ob = Vec::new();
    for _ in 0..eta {
        let x = random_element(&mut rng);
        let y = random_element(&mut rng);
        let z = mul_mod(x, y, params);
        let (x_cb, x_ob) = deal(x, delta_cb, delta_ob, &mut rng);
        let (y_cb, y_ob) = deal(y, delta_cb, delta_ob, &mut rng);
        let (z_cb, z_ob) = deal(z, delta_cb, delta_ob, &mut rng);
        cb.push(TripleShare { x: x_cb, y: y_cb, z: z_cb });
        ob.push(TripleShare { x: x_ob, y: y_ob, z: z_ob });
    }
    (cb, ob)
}

/// Runs the comparison of `big_x` and `big_y` and returns the
/// reconstructed output bit.
fn run_comparison(big_x: u128, big_y: u128) -> u128 {
    let params = FieldParams::protocol();
    let mut rng = rand::thread_rng();
    let session_id: [u8; 32] = rng.gen();

    let eta = 128 + 375;
    let (triple_shares_cb, triple_shares_ob) = create_auth_triples_for_test(eta);

    let mut x_cb = [Share::default(); 128];
    let mut y_cb = [Share::default(); 128];
    let mut x_ob = [Share::default(); 128];
    let mut y_ob = [Share::default(); 128];
    for i in 0..128 {
        x_cb[i] = triple_shares_cb[i].x;
        y_cb[i] = triple_shares_cb[i].y;
        x_ob[i] = triple_shares_ob[i].x;
        y_ob[i] = triple_shares_ob[i].y;
    }

    // apply inputs for [x]_i and [y]_i
    for i in 0..128 {
        let x_i = add_mod(x_cb[i].value, x_ob[i].value, params);
        let x_i_bit = ((big_x >> i) & 1) as u128;
        let d_x_i = sub_mod(x_i_bit, x_i, params);
        x_cb[i] = x_cb[i].add_const_cb(&d_x_i, params);
        x_ob[i] = x_ob[i].add_const_ob(&d_x_i, params);

        let y_i = add_mod(y_cb[i].value, y_ob[i].value, params);
        let y_i_bit = ((big_y >> i) & 1) as u128;
        let d_y_i = sub_mod(y_i_bit, y_i, params);
        y_cb[i] = y_cb[i].add_const_cb(&d_y_i, params);
        y_ob[i] = y_ob[i].add_const_ob(&d_y_i, params);
    }

    let (state_cb_r0, msg1) =
        comp_create_msg1(&session_id, &x_cb, &y_cb, &triple_shares_cb[128..256], P);
    let (state_ob_r1, msg2) = comp_process_msg1(
        &session_id,
        &x_ob,
        &y_ob,
        &triple_shares_ob[128..383],
        P,
        &msg1,
    )
    .unwrap();
    let (state_cb_r2, msg3) = comp_process_msg2(
        &state_cb_r0,
        &x_cb,
        &y_cb,
        &triple_shares_cb[256..256 + 190],
        &msg2,
    )
    .unwrap();
    let (state_ob_r3, msg4) =
        comp_process_msg3(&state_ob_r1, &triple_shares_ob[383..383 + 94], &msg3).unwrap();
    let (state_cb_r4, msg5) =
        comp_process_msg4(&state_cb_r2, &triple_shares_cb[446..446 + 46], &msg4).unwrap();
    let (state_ob_r5, msg6) =
        comp_process_msg5(&state_ob_r3, &triple_shares_ob[477..477 + 22], &msg5).unwrap();
    let (state_cb_r6, msg7) =
        comp_process_msg6(&state_cb_r4, &triple_shares_cb[492..492 + 10], &msg6).unwrap();
    let (state_ob_r7, msg8) =
        comp_process_msg7(&state_ob_r5, &triple_shares_ob[499..499 + 4], &msg7).unwrap();
    let (share_cb, msg9) =
        comp_process_msg8(&state_cb_r6, &triple_shares_cb[502..502 + 1], &msg8).unwrap();
    let share_ob = comp_process_msg9(&state_ob_r7, &msg9).unwrap();

    add_mod(share_cb.value, share_ob.value, params)
}

#[test]
fn test_comparison_1() {
    let mut rng = rand::thread_rng();
    // X > Y
    let big_x: u128 = rng.gen();
    let big_y = big_x.saturating_sub(10);
    let value_c = run_comparison(big_x, big_y);
    assert_eq!(value_c, if big_x > big_y { 1 } else { 0 });
    if big_x >= 10 {
        assert_eq!(value_c, 1);
    }
}

#[test]
fn test_comparison_2() {
    let mut rng = rand::thread_rng();
    // X < Y
    let big_x: u128 = rng.gen();
    let big_y = big_x.saturating_add(10);
    let value_c = run_comparison(big_x, big_y);
    assert_eq!(value_c, if big_x > big_y { 1 } else { 0 });
    assert_eq!(value_c, 0);
}

#[test]
fn comparison_equal_values_gives_zero() {
    assert_eq!(run_comparison(12345, 12345), 0);
}

#[test]
fn comparison_extremes() {
    assert_eq!(run_comparison(u128::MAX, 0), 1);
    assert_eq!(run_comparison(0, u128::MAX), 0);
    assert_eq!(run_comparison(1u128 << 127, (1u128 << 127) - 1), 1);
}

#[test]
fn comparison_rejects_wrong_session() {
    let (triples_cb, triples_ob) = create_auth_triples_for_test(383);
    let mut x_cb = [Share::default(); 128];
    let mut y_cb = [Share::default(); 128];
    let mut x_ob = [Share::default(); 128];
    let mut y_ob = [Share::default(); 128];
    for i in 0..128 {
        x_cb[i] = triples_cb[i].x;
        y_cb[i] = triples_cb[i].y;
        x_ob[i] = triples_ob[i].x;
        y_ob[i] = triples_ob[i].y;
    }
    let session_id = [7u8; 32];
    let (_state, msg1) = comp_create_msg1(&session_id, &x_cb, &y_cb, &triples_cb[128..256], P);
    let mut other = session_id;
    other[31] ^= 1;
    let r = comp_process_msg1(&other, &x_ob, &y_ob, &triples_ob[128..383], P, &msg1);
    assert!(matches!(r, Err(CompError::InvalidSessionID)));

    // a forged opening is caught by the MAC check
    let mut forged: CompMsg1 = msg1.clone();
    forged.mul_open[5].d = add_mod(forged.mul_open[5].d, 1, FieldParams::protocol());
    let r = comp_process_msg1(&session_id, &x_ob, &y_ob, &triples_ob[128..383], P, &forged);
    assert!(matches!(r, Err(CompError::InvalidOpen)));
}
