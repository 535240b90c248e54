use cfm_mpc::dlog::DLogProof;
use cfm_mpc::errors::PSITOBError;
use cfm_mpc::psi::{
    psc_create_msg1, psc_process_msg1, psc_process_msg2, psit_create_msg1, psit_process_msg1,
    psit_process_msg2,
};
use cfm_mpc::utils::Customer;
use curve25519_dalek::ristretto::RistrettoPoint;
use curve25519_dalek::scalar::Scalar;
use rand::seq::SliceRandom;
use rand::{thread_rng, Rng, RngCore};

fn to_hash_bytes(c: &Customer) -> [u8; 32] {
    c.to_hash_bytes()
}

fn customer_list() -> Vec<Customer> {
    vec![
        Customer::new("Customer1", "P1234567", "123 Main St"),
        Customer::new("Customer2", "P2345678", "456 Church St"),
        Customer::new("Customer3", "P3456789", "789 Maple St"),
        Customer::new("Customer4", "P4567890", "101 Oak St"),
        Customer::new("Customer5", "P5678901", "111 Pine St"),
        Customer::new("Customer6", "P6789012", "121 Cedar St"),
        Customer::new("Customer7", "P7890123", "314 Birch St"),
        Customer::new("Customer8", "P8901234", "151 Walnut St"),
        Customer::new("Customer9", "P9012345", "617 Chestnut St"),
        Customer::new("Customer10", "P0123456", "181 Spruce St"),
    ]
}

/// A random shuffle of `n` entries, as swap partners.
fn swaps<R: Rng>(n: usize, rng: &mut R) -> Vec<usize> {
    let mut indices: Vec<usize> = (0..n).collect();
    indices.shuffle(rng);
    indices
}

#[test]
fn psc_x_in_list() {
    let mut rng = thread_rng();
    let session_id: [u8; 32] = rng.gen();
    let big_y = customer_list();
    let customer_x = Customer::new("Customer8", "P8901234", "151 Walnut St");
    let customer_x_bytes = to_hash_bytes(&customer_x);
    let big_y_bytes: Vec<[u8; 32]> = big_y.iter().map(to_hash_bytes).collect();
    let (state, msg1) = psc_create_msg1(&session_id, &customer_x_bytes, rng.gen());
    let s = swaps(big_y_bytes.len(), &mut rng);
    let msg2 = psc_process_msg1(&session_id, big_y_bytes, &msg1, rng.gen(), rng.gen(), &s).unwrap();
    let result = psc_process_msg2(&state, &msg2).unwrap();
    assert!(result);
}

#[test]
fn psc_x_not_in_list() {
    let mut rng = thread_rng();
    let session_id: [u8; 32] = rng.gen();
    let big_y = customer_list();
    let customer_x = Customer::new("Customer0", "P0000001", "None");
    let customer_x_bytes = to_hash_bytes(&customer_x);
    let big_y_bytes: Vec<[u8; 32]> = big_y.iter().map(to_hash_bytes).collect();
    let (state, msg1) = psc_create_msg1(&session_id, &customer_x_bytes, rng.gen());
    let s = swaps(big_y_bytes.len(), &mut rng);
    let msg2 = psc_process_msg1(&session_id, big_y_bytes, &msg1, rng.gen(), rng.gen(), &s).unwrap();
    let result = psc_process_msg2(&state, &msg2).unwrap();
    assert!(!result);
}

fn flows() -> (Vec<u128>, Vec<u128>) {
    ((1..=10).collect(), (11..=20).collect())
}

#[test]
fn psit_x_in_list() {
    let mut rng = thread_rng();
    let session_id: [u8; 32] = rng.gen();
    let big_y = customer_list();
    let customer_x = Customer::new("Customer3", "P3456789", "789 Maple St");
    let customer_x_bytes = to_hash_bytes(&customer_x);
    let big_y_bytes: Vec<[u8; 32]> = big_y.iter().map(to_hash_bytes).collect();
    let (big_z, big_m) = flows();
    let (state, msg1) = psit_create_msg1(&session_id, &customer_x_bytes, rng.gen());
    let s = swaps(big_y_bytes.len(), &mut rng);
    let msg2 = psit_process_msg1(&session_id, big_y_bytes, big_z, big_m, &msg1, rng.gen(), rng.gen(), &s)
        .unwrap();
    let (z, m) = psit_process_msg2(&state, &msg2).unwrap();
    assert_eq!((z, m), (3, 13));
}

#[test]
fn psit_x_not_in_list() {
    let mut rng = thread_rng();
    let session_id: [u8; 32] = rng.gen();
    let big_y = customer_list();
    let customer_x = Customer::new("Customer11", "P3456789", "789 Maple St");
    let customer_x_bytes = to_hash_bytes(&customer_x);
    let big_y_bytes: Vec<[u8; 32]> = big_y.iter().map(to_hash_bytes).collect();
    let (big_z, big_m) = flows();
    let (state, msg1) = psit_create_msg1(&session_id, &customer_x_bytes, rng.gen());
    let s = swaps(big_y_bytes.len(), &mut rng);
    let msg2 = psit_process_msg1(&session_id, big_y_bytes, big_z, big_m, &msg1, rng.gen(), rng.gen(), &s)
        .unwrap();
    let result = psit_process_msg2(&state, &msg2);
    assert!(result.is_err());
    assert!(matches!(result, Err(PSITOBError::NotInList)));
}

#[test]
fn psit_rejects_wrong_session() {
    let mut rng = thread_rng();
    let session_id: [u8; 32] = rng.gen();
    let (_state, msg1) = psit_create_msg1(&session_id, &[1u8; 32], rng.gen());
    let other: [u8; 32] = [0u8; 32];
    let r = psit_process_msg1(&other, vec![[2u8; 32]], vec![1], vec![2], &msg1, rng.gen(), rng.gen(), &vec![0]);
    assert!(matches!(r, Err(cfm_mpc::errors::PSITCBError::InvalidSessionID)));
}

fn random_point<R: RngCore>(rng: &mut R) -> RistrettoPoint {
    let mut base_point_bytes = [0u8; 64];
    rng.fill_bytes(&mut base_point_bytes);
    RistrettoPoint::from_uniform_bytes(&base_point_bytes)
}

fn random_scalar<R: RngCore>(rng: &mut R) -> Scalar {
    let mut x_bytes = [0u8; 32];
    rng.fill_bytes(&mut x_bytes);
    Scalar::from_bytes_mod_order(x_bytes)
}

#[test]
fn dlog_proof() {
    let mut rng = thread_rng();
    let session_id: [u8; 32] = rng.gen();
    let x = random_scalar(&mut rng);
    let base_point = random_point(&mut rng);
    let y = base_point * x;
    let proof = DLogProof::prove(&x, &base_point, &session_id, rng.gen());
    assert_eq!(proof.verify(&y, &base_point, &session_id), true);
}

#[test]
fn wrong_dlog_proof() {
    let mut rng = thread_rng();
    let session_id: [u8; 32] = rng.gen();
    let x = random_scalar(&mut rng);
    let wrong_x = random_scalar(&mut rng);
    let base_point = random_point(&mut rng);
    let y = base_point * x;
    let proof = DLogProof::prove(&wrong_x, &base_point, &session_id, rng.gen());
    assert_eq!(proof.verify(&y, &base_point, &session_id), false);
}

#[test]
fn dlog_proof_fiat_shamir() {
    let mut rng = thread_rng();
    let session_id: [u8; 32] = rng.gen();
    let wrong_session_id: [u8; 32] = rng.gen();
    let x = random_scalar(&mut rng);
    let base_point = random_point(&mut rng);
    let y = base_point * x;
    let proof = DLogProof::prove(&x, &base_point, &session_id, rng.gen());
    assert_eq!(
        proof.verify(&y, &base_point, &wrong_session_id),
        false,
        "Proof should fail with wrong session id"
    );
}
