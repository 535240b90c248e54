use cfm_mpc::psi::{psit_lookup, psit_masked_payload};
use cfm_mpc::beaver::{
    multiply_shares_open, multiply_shares_output, test_bit_open, test_bit_output, MulSharesOpen,
};
use cfm_mpc::field::{add_mod, mul_mod, neg_mod, sub_mod, FieldParams, P};
use cfm_mpc::share::Share;
use cfm_mpc::utils::{bit_to_bit_mask, scalar_from_bytes, xor_array, Customer, ExtractBit};

const DELTA_CB: u128 = 0x1234_5678_9abc_def0_1122_3344_5566_7788;
const DELTA_OB: u128 = 0x0fed_cba9_8765_4321_8877_6655_4433_2211;

fn params() -> FieldParams {
    FieldParams::protocol()
}

/// An authenticated pair for `v`, split with the given randomness.
fn deal(v: u128, r: u128, key_cb: u128, key_ob: u128) -> (Share, Share) {
    let p = params();
    let v_cb = r % P;
    let v_ob = sub_mod(v, v_cb, p);
    let m_ob = sub_mod(mul_mod(v_ob, DELTA_CB, p), key_cb, p);
    let m_cb = sub_mod(mul_mod(v_cb, DELTA_OB, p), key_ob, p);
    (
        Share { value: v_cb, big_m: m_cb, big_delta: DELTA_CB, delta: key_cb },
        Share { value: v_ob, big_m: m_ob, big_delta: DELTA_OB, delta: key_ob },
    )
}

fn reconstruct(cb: &Share, ob: &Share) -> u128 {
    add_mod(cb.value, ob.value, params())
}

#[test]
fn field_operations_wrap_at_p() {
    let p = params();
    assert_eq!(add_mod(P - 1, 2, p), 1);
    assert_eq!(add_mod(u128::MAX, 0, p), u128::MAX % P);
    assert_eq!(sub_mod(0, 1, p), P - 1);
    assert_eq!(sub_mod(5, 3, p), 2);
    assert_eq!(mul_mod(2, (P + 1) / 2, p), 1);
    assert_eq!(mul_mod(P - 1, P - 1, p), 1);
    assert_eq!(neg_mod(1, p), P - 1);
    assert_eq!(neg_mod(0, p), 0);
}

#[test]
fn field_params_accept_only_odd_moduli() {
    assert!(FieldParams::new(P).is_some());
    assert!(FieldParams::new(P - 1).is_none());
    assert!(FieldParams::new(1).is_none());
    assert!(FieldParams::new(7).is_some());
    // a small modulus gives the textbook results
    let seven = FieldParams::new(7).unwrap();
    assert_eq!(add_mod(5, 4, seven), 2);
    assert_eq!(mul_mod(3, 5, seven), 1);
    assert_eq!(sub_mod(2, 5, seven), 4);
}

#[test]
fn open_of_authenticated_pair_is_accepted_both_ways() {
    let (cb, ob) = deal(42, 0xdead_beef, 11, 22);
    let (v, m) = ob.open();
    assert_eq!(cb.validate_open(&v, &m, params()), Ok(42));
    let (v, m) = cb.open();
    assert_eq!(ob.validate_open(&v, &m, params()), Ok(42));
}

#[test]
fn forged_open_is_rejected() {
    let (cb, ob) = deal(42, 0xdead_beef, 11, 22);
    let (v, m) = ob.open();
    assert_eq!(cb.validate_open(&add_mod(v, 1, params()), &m, params()), Err("Invalid Open"));
    assert_eq!(cb.validate_open(&v, &add_mod(m, 1, params()), params()), Err("Invalid Open"));
}

#[test]
fn share_arithmetic_keeps_macs() {
    let p = params();
    let (a_cb, a_ob) = deal(100, 77, 5, 6);
    let (b_cb, b_ob) = deal(23, 99, 7, 8);

    let s_cb = a_cb.add_share(&b_cb, p);
    let s_ob = a_ob.add_share(&b_ob, p);
    assert_eq!(reconstruct(&s_cb, &s_ob), 123);
    assert!(s_cb.validate_open(&s_ob.value, &s_ob.big_m, p).is_ok());
    assert!(s_ob.validate_open(&s_cb.value, &s_cb.big_m, p).is_ok());

    let d_cb = a_cb.sub_share(&b_cb, p);
    let d_ob = a_ob.sub_share(&b_ob, p);
    assert_eq!(reconstruct(&d_cb, &d_ob), 77);
    assert!(d_cb.validate_open(&d_ob.value, &d_ob.big_m, p).is_ok());

    let m_cb = a_cb.mul_const(&3, p);
    let m_ob = a_ob.mul_const(&3, p);
    assert_eq!(reconstruct(&m_cb, &m_ob), 300);
    assert!(m_ob.validate_open(&m_cb.value, &m_cb.big_m, p).is_ok());

    let c_cb = a_cb.add_const_cb(&5, p);
    let c_ob = a_ob.add_const_ob(&5, p);
    assert_eq!(reconstruct(&c_cb, &c_ob), 105);
    assert_eq!(c_cb.value, a_cb.value);
    assert_ne!(c_cb.delta, a_cb.delta);
    assert_eq!(c_ob.delta, a_ob.delta);
    assert!(c_cb.validate_open(&c_ob.value, &c_ob.big_m, p).is_ok());
    assert!(c_ob.validate_open(&c_cb.value, &c_cb.big_m, p).is_ok());
}

#[test]
fn inputs_through_masks() {
    let p = params();
    let (x_cb, x_ob) = deal(555, 1234, 9, 10);
    // CB inputs 7 through the mask [x]; OB opened its part
    let (y_cb, d) = x_cb.cb_input(&x_ob.open(), &7, p).unwrap();
    assert_eq!(d, sub_mod(7, 555, p));
    let y_ob = x_ob.add_const_ob(&d, p);
    assert_eq!(reconstruct(&y_cb, &y_ob), 7);
    assert!(y_ob.validate_open(&y_cb.value, &y_cb.big_m, p).is_ok());

    // OB inputs 9 through the same kind of mask
    let (z_ob, d) = x_ob.ob_input(&x_cb.open(), &9, p).unwrap();
    let z_cb = x_cb.add_const_cb(&d, p);
    assert_eq!(reconstruct(&z_cb, &z_ob), 9);

    // a forged opening of the mask is refused
    let (v, m) = x_ob.open();
    assert_eq!(x_cb.cb_input(&(v, add_mod(m, 1, p)), &7, p), Err("Invalid Open"));
    assert_eq!(x_ob.ob_input(&(add_mod(v, 1, p), m), &7, p), Err("Invalid Open"));
}

#[test]
fn beaver_multiplication_gives_the_product() {
    let p = params();
    let (x_cb, x_ob) = deal(6, 1, 2, 3);
    let (y_cb, y_ob) = deal(7, 4, 5, 6);
    let (xh_cb, xh_ob) = deal(1000, 7, 8, 9);
    let (yh_cb, yh_ob) = deal(2000, 10, 11, 12);
    let (zh_cb, zh_ob) = deal(2_000_000, 13, 14, 15);

    let (st_cb, op_cb) = multiply_shares_open(&x_cb, &y_cb, &xh_cb, &yh_cb, &zh_cb, p);
    let (st_ob, op_ob) = multiply_shares_open(&x_ob, &y_ob, &xh_ob, &yh_ob, &zh_ob, p);
    let out_cb = multiply_shares_output(&st_cb, &op_ob, true, p).unwrap();
    let out_ob = multiply_shares_output(&st_ob, &op_cb, false, p).unwrap();
    assert_eq!(reconstruct(&out_cb, &out_ob), 42);
    assert!(out_cb.validate_open(&out_ob.value, &out_ob.big_m, p).is_ok());
    assert!(out_ob.validate_open(&out_cb.value, &out_cb.big_m, p).is_ok());

    // a forged opening of d or e is refused
    let bad = MulSharesOpen { d: add_mod(op_ob.d, 1, p), ..op_ob };
    assert_eq!(multiply_shares_output(&st_cb, &bad, true, p), Err("Invalid Open"));
    let bad = MulSharesOpen { m_e: add_mod(op_ob.m_e, 1, p), ..op_ob };
    assert_eq!(multiply_shares_output(&st_cb, &bad, true, p), Err("Invalid Open"));
}

fn test_bit_value(x: u128) -> u128 {
    let p = params();
    let (x_cb, x_ob) = deal(x, 31, 32, 33);
    let (xh_cb, xh_ob) = deal(17, 34, 35, 36);
    let (yh_cb, yh_ob) = deal(19, 37, 38, 39);
    let (zh_cb, zh_ob) = deal(17 * 19, 40, 41, 42);
    let (st_cb, op_cb) = test_bit_open(&x_cb, &xh_cb, &yh_cb, &zh_cb, true, &P, p);
    let (st_ob, op_ob) = test_bit_open(&x_ob, &xh_ob, &yh_ob, &zh_ob, false, &P, p);
    let t_cb = test_bit_output(&st_cb, &op_ob, true, p).unwrap();
    let t_ob = test_bit_output(&st_ob, &op_cb, false, p).unwrap();
    reconstruct(&t_cb, &t_ob)
}

#[test]
fn test_bit_is_one_exactly_on_bits() {
    assert_eq!(test_bit_value(0), 1);
    assert_eq!(test_bit_value(1), 1);
    // 1 + 2 * (2 - 1) = 3
    assert_eq!(test_bit_value(2), 3);
    // 1 + (p - 1) * (p - 2) = 1 + 2 = 3
    assert_eq!(test_bit_value(P - 1), 3);
}

#[test]
fn default_values_are_zero() {
    let s = Share::default();
    assert_eq!((s.value, s.big_m, s.big_delta, s.delta), (0, 0, 0, 0));
    let o = MulSharesOpen::default();
    assert_eq!((o.d, o.m_d, o.e, o.m_e), (0, 0, 0, 0));
}

#[test]
fn small_byte_helpers() {
    assert_eq!(bit_to_bit_mask(0), 0x00);
    assert_eq!(bit_to_bit_mask(1), 0xff);
    assert_eq!(xor_array([0x0fu8, 0xf0, 0xaa], [0xffu8, 0xff, 0xaa]), [0xf0u8, 0x0f, 0x00]);
    let bytes: Vec<u8> = vec![0b0000_0101, 0b1000_0000];
    assert!(bytes.extract_bit(0));
    assert!(!bytes.extract_bit(1));
    assert!(bytes.extract_bit(2));
    assert!(bytes.extract_bit(15));
    assert!(!bytes.extract_bit(14));
    let arr: [u8; 2] = [0x80, 0x01];
    assert!(arr.extract_bit(7));
    assert!(arr.extract_bit(8));
}

#[test]
fn scalar_from_bytes_reads_big_endian_and_reduces() {
    let mut one = [0u8; 16];
    one[15] = 1;
    assert_eq!(scalar_from_bytes(params(), one), 1);
    let mut x = [0u8; 16];
    x[14] = 0x01;
    x[15] = 0x02;
    assert_eq!(scalar_from_bytes(params(), x), 0x0102);
    assert_eq!(scalar_from_bytes(params(), P.to_be_bytes()), 0);
    assert_eq!(scalar_from_bytes(params(), [0xff; 16]), u128::MAX % P);
}

#[test]
fn customer_fields_are_kept() {
    let c = Customer::new("Customer1", "P1234567", "123 Main St");
    assert_eq!(c.name(), "Customer1");
    assert_eq!(c.passport_number(), "P1234567");
    assert_eq!(c.address(), "123 Main St");
}

#[test]
fn rvole_output_has_room_for_the_batch() {
    let out = cfm_mpc::rvole::RVOLEOutput::new(4);
    assert_eq!(out.entries_len(), 5);
    let entry = cfm_mpc::rvole::RVOLEOutputATilde::zeroed();
    assert_eq!(entry.inner.len(), cfm_mpc::rvole::XI);
    assert!(entry.inner.iter().all(|e| *e == [0u8; 16]));
}

#[test]
fn customer_hash_is_a_merlin_transcript() {
    let c = Customer::new("Customer3", "P3456789", "789 Maple St");
    let mut transcript = merlin::Transcript::new(b"Customer hash bytes");
    transcript.append_message(b"name", b"Customer3");
    transcript.append_message(b"passport_number", b"P3456789");
    transcript.append_message(b"address", b"789 Maple St");
    let mut bytes = [0u8; 32];
    transcript.challenge_bytes(b"challenge-bytes", &mut bytes);
    assert_eq!(c.to_hash_bytes(), bytes);
    assert_ne!(c.to_hash_bytes(), Customer::new("Customer4", "P3456789", "789 Maple St").to_hash_bytes());
}

#[test]
fn masked_payload_round_trips() {
    let mask = [0x5au8; 32];
    let c = psit_masked_payload(mask, 3, 13);
    let x = [7u8; 32];
    let r = psit_lookup(&vec![[1u8; 32], x], &vec![[0u8; 32], c], &x, &mask);
    assert_eq!(r, Ok((3, 13)));
    let r = psit_lookup(&vec![[1u8; 32]], &vec![[0u8; 32]], &x, &mask);
    assert_eq!(r, Err(cfm_mpc::errors::PSITOBError::NotInList));
    let r = psit_lookup(&vec![x], &vec![], &x, &mask);
    assert_eq!(r, Err(cfm_mpc::errors::PSITOBError::InvalidMessage));
    assert!(cfm_mpc::psi::psc_lookup(&vec![[1u8; 32], x], &x));
    assert!(!cfm_mpc::psi::psc_lookup(&vec![[1u8; 32]], &x));
}

#[test]
fn rvole_output_is_zeroed() {
    let out = cfm_mpc::rvole::RVOLEOutput::new(0);
    assert_eq!(out.entries_len(), 1);
}
