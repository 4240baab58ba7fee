use agritrust::account::AccountId;
use agritrust::zk_kyc::{derive_nullifier, DataKey, NullifierConsumed, ProofError, ZKKYCContract, ZkKycStore};
use soroban_sdk::Env;

fn bytes32(seed: u8) -> [u8; 32] {
    let mut b = [0u8; 32];
    for (i, x) in b.iter_mut().enumerate() {
        *x = seed.wrapping_mul(31).wrapping_add(i as u8);
    }
    b
}

fn setup_with_domain() -> (ZkKycStore, [u8; 32]) {
    let mut store = ZkKycStore::new();
    ZKKYCContract::init(&mut store, AccountId::new(bytes32(200)));
    let domain_id = bytes32(1);
    ZKKYCContract::register_compliance_domain(&mut store, domain_id);
    (store, domain_id)
}

#[test]
fn test_zk_kyc() {
    let mut store = ZkKycStore::new();
    let verifier = AccountId::new(bytes32(10));
    let user = AccountId::new(bytes32(11));
    ZKKYCContract::init(&mut store, verifier);
    assert_eq!(ZKKYCContract::is_verified(&store, user), false);
    ZKKYCContract::verify_user(&mut store, user);
    assert_eq!(ZKKYCContract::is_verified(&store, user), true);
    ZKKYCContract::revoke_user(&mut store, user);
    assert_eq!(ZKKYCContract::is_verified(&store, user), false);
}

#[test]
fn test_derive_nullifier_is_deterministic() {
    let env = Env::default();
    let identity = bytes32(3);
    let domain = bytes32(4);
    let n1 = derive_nullifier(&env, &identity, &domain);
    let n2 = derive_nullifier(&env, &identity, &domain);
    assert_eq!(n1, n2, "nullifier derivation must be deterministic");
}

#[test]
fn test_same_identity_different_domains_produce_different_nullifiers() {
    let env = Env::default();
    let identity = bytes32(3);
    let n_a = derive_nullifier(&env, &identity, &bytes32(4));
    let n_b = derive_nullifier(&env, &identity, &bytes32(5));
    assert_ne!(n_a, n_b, "same identity in different domains must produce different nullifiers");
}

#[test]
fn test_different_identities_same_domain_produce_different_nullifiers() {
    let env = Env::default();
    let domain = bytes32(4);
    let n_a = derive_nullifier(&env, &bytes32(6), &domain);
    let n_b = derive_nullifier(&env, &bytes32(7), &domain);
    assert_ne!(n_a, n_b, "different identities in same domain must produce different nullifiers");
}

#[test]
fn test_same_identity_different_domains_nullifiers_differ() {
    let env = Env::default();
    let identity_commitment = bytes32(8);
    let n_a = derive_nullifier(&env, &identity_commitment, &bytes32(9));
    let n_b = derive_nullifier(&env, &identity_commitment, &bytes32(12));
    assert_ne!(n_a, n_b, "nullifiers across jurisdictions must be distinct");
}

#[test]
fn test_submit_proof_via_client_cross_jurisdiction() {
    let env = Env::default();
    let identity_commitment = bytes32(13);
    let (mut store, domain_a) = setup_with_domain();
    let domain_b = bytes32(14);
    ZKKYCContract::register_compliance_domain(&mut store, domain_b);
    let n_a = ZKKYCContract::try_submit_proof(&mut store, &env, identity_commitment, domain_a).unwrap();
    let n_b = ZKKYCContract::try_submit_proof(&mut store, &env, identity_commitment, domain_b).unwrap();
    assert_ne!(n_a, n_b, "nullifiers must differ across compliance domains");
}

#[test]
#[should_panic(expected = "replay")]
fn test_submit_proof_via_client_replay_panics() {
    let env = Env::default();
    let identity_commitment = bytes32(15);
    let (mut store, domain_id) = setup_with_domain();
    ZKKYCContract::try_submit_proof(&mut store, &env, identity_commitment, domain_id).unwrap();
    if let Err(ProofError::NullifierReplayed) = ZKKYCContract::try_submit_proof(&mut store, &env, identity_commitment, domain_id) {
        panic!("ZK-KYC proof replay detected: nullifier already consumed in this jurisdiction");
    }
}

#[test]
fn test_is_nullifier_consumed_via_client() {
    let env = Env::default();
    let identity_commitment = bytes32(16);
    let (mut store, domain_id) = setup_with_domain();
    let nullifier_hash = derive_nullifier(&env, &identity_commitment, &domain_id);
    assert!(!ZKKYCContract::is_nullifier_consumed(&store, domain_id, nullifier_hash));
    ZKKYCContract::submit_proof(&mut store, &env, identity_commitment, domain_id);
    assert!(ZKKYCContract::is_nullifier_consumed(&store, domain_id, nullifier_hash));
}

#[test]
#[should_panic(expected = "not registered")]
fn test_unregistered_domain_rejected() {
    let env = Env::default();
    let mut store = ZkKycStore::new();
    ZKKYCContract::init(&mut store, AccountId::new(bytes32(17)));
    if let Err(ProofError::DomainNotRegistered) = ZKKYCContract::try_submit_proof(&mut store, &env, bytes32(18), bytes32(19)) {
        panic!("compliance domain not registered");
    }
}

#[test]
fn test_multiple_users_independent_nullifiers() {
    let env = Env::default();
    let (mut store, domain_id) = setup_with_domain();
    let n_a = ZKKYCContract::submit_proof(&mut store, &env, bytes32(20), domain_id);
    let n_b = ZKKYCContract::submit_proof(&mut store, &env, bytes32(21), domain_id);
    assert_ne!(n_a, n_b, "different users must produce different nullifiers");
}

#[test]
fn test_domain_registration_via_client() {
    let (store, domain_id) = setup_with_domain();
    assert!(ZKKYCContract::is_registered_domain(&store, domain_id));
    assert!(!ZKKYCContract::is_registered_domain(&store, bytes32(22)));
}

#[test]
fn test_nullifier_deterministic_derivation() {
    let env = Env::default();
    let identity = bytes32(23);
    let domain = bytes32(24);
    let n1 = derive_nullifier(&env, &identity, &domain);
    let n2 = derive_nullifier(&env, &identity, &domain);
    assert_eq!(n1, n2, "nullifier derivation must be deterministic");
}

#[test]
fn nullifier_is_sha256_of_commitment_then_domain() {
    // SHA-256 of 64 zero bytes.
    let env = Env::default();
    let n = derive_nullifier(&env, &[0u8; 32], &[0u8; 32]);
    let expected: [u8; 32] = [
        0xf5, 0xa5, 0xfd, 0x42, 0xd1, 0x6a, 0x20, 0x30, 0x27, 0x98, 0xef, 0x6e, 0xd3, 0x09, 0x97, 0x9b,
        0x43, 0x00, 0x3d, 0x23, 0x20, 0xd9, 0xf0, 0xe8, 0xea, 0x98, 0x31, 0xa9, 0x27, 0x59, 0xfb, 0x4b,
    ];
    assert_eq!(n, expected);
}

#[test]
fn replay_and_unregistered_leave_state_unchanged() {
    let env = Env::default();
    let (mut store, domain_id) = setup_with_domain();
    let n = ZKKYCContract::try_submit_proof(&mut store, &env, bytes32(30), domain_id).unwrap();
    assert_eq!(store.events, vec![NullifierConsumed { domain_id, nullifier_hash: n }]);
    assert_eq!(
        ZKKYCContract::try_submit_proof(&mut store, &env, bytes32(30), domain_id),
        Err(ProofError::NullifierReplayed)
    );
    assert_eq!(
        ZKKYCContract::try_submit_proof(&mut store, &env, bytes32(30), bytes32(31)),
        Err(ProofError::DomainNotRegistered)
    );
    assert_eq!(store.events.len(), 1);
    // consumption is scoped to its domain
    ZKKYCContract::register_compliance_domain(&mut store, bytes32(31));
    assert!(!ZKKYCContract::is_nullifier_consumed(&store, bytes32(31), n));
}

#[test]
fn storage_entries_present() {
    let mut store = ZkKycStore::new();
    assert!(!ZKKYCContract::has(&store, &DataKey::Verifier));
    ZKKYCContract::init(&mut store, AccountId::new(bytes32(40)));
    assert!(ZKKYCContract::has(&store, &DataKey::Verifier));
    let user = AccountId::new(bytes32(41));
    assert!(!ZKKYCContract::has(&store, &DataKey::KycStatus(user)));
    ZKKYCContract::verify_user(&mut store, user);
    assert!(ZKKYCContract::has(&store, &DataKey::KycStatus(user)));
}
