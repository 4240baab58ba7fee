use agritrust::provenance::{
    get_provenance_result, prefetch_hop_states, resolve_provenance, validate_hop_credential,
    verify_hop_signature, write_hop_state, Error, HopState, ProvenanceAccessSet, ProvenanceContract,
    ProvenanceEvent, ProvenanceStore, Score, StorageBudget, MAX_HOPS, SCORE_PRECISION,
    STORAGE_BUDGET,
};

fn make_hop(index: u32) -> ([u8; 32], HopState) {
    let mut cred = [0u8; 32];
    cred[0..4].copy_from_slice(&index.to_be_bytes());
    cred[4] = 0xC0;
    let mut policy = [0u8; 32];
    policy[0..4].copy_from_slice(&index.to_be_bytes());
    policy[4] = 0xAB;
    let mut sig = [0xFFu8; 64];
    sig[0] = index as u8;
    let state = HopState {
        index,
        credential_id: cred,
        signature: sig,
        policy_ref: policy,
        recorded_at: 1_700_000_000u64 + index as u64,
        score: Score { raw: SCORE_PRECISION },
        credential_verified: true,
    };
    (cred, state)
}

fn populate_chain(store: &mut ProvenanceStore, n: u32) -> Vec<[u8; 32]> {
    let mut ids = Vec::new();
    for i in 0..n {
        let (hop_id, state) = make_hop(i);
        write_hop_state(store, &hop_id, &state);
        ids.push(hop_id);
    }
    ids
}

fn chain_id(seed: u8) -> [u8; 32] {
    let mut raw = [0u8; 32];
    raw[0] = seed;
    raw
}

#[test]
fn test_10_hop_chain_under_storage_budget() {
    let mut store = ProvenanceStore::new();
    let hops = populate_chain(&mut store, 10);
    let result = resolve_provenance(&mut store, 0, chain_id(1), hops).expect("10-hop chain should resolve");
    assert_eq!(result.hops_resolved, 10);
    assert_eq!(result.storage_accesses_used, 11);
    assert!(result.storage_accesses_used <= STORAGE_BUDGET);
    assert_eq!(result.final_score.raw, SCORE_PRECISION);
}

#[test]
fn test_empty_chain_rejected() {
    let mut store = ProvenanceStore::new();
    let err = resolve_provenance(&mut store, 0, chain_id(2), Vec::new()).expect_err("empty chain must fail");
    assert_eq!(err, Error::EmptyChain);
}

#[test]
fn test_chain_too_long_rejected() {
    let mut store = ProvenanceStore::new();
    let hops = populate_chain(&mut store, MAX_HOPS + 1);
    let err = resolve_provenance(&mut store, 0, chain_id(3), hops).expect_err("oversized chain must fail");
    assert_eq!(err, Error::ChainTooLong);
}

#[test]
fn test_missing_hop_returns_not_found() {
    let mut store = ProvenanceStore::new();
    let mut ids = populate_chain(&mut store, 1);
    ids.push(chain_id(99));
    let err = resolve_provenance(&mut store, 0, chain_id(4), ids).expect_err("missing hop must fail");
    assert_eq!(err, Error::HopNotFound);
}

#[test]
fn test_invalid_signature_rejected() {
    let mut store = ProvenanceStore::new();
    let cred = [0xA0u8; 32];
    let state = HopState {
        index: 0,
        credential_id: cred,
        signature: [0u8; 64],
        policy_ref: [0xB0u8; 32],
        recorded_at: 1_700_000_001,
        score: Score { raw: SCORE_PRECISION },
        credential_verified: true,
    };
    write_hop_state(&mut store, &cred, &state);
    let err = resolve_provenance(&mut store, 0, chain_id(5), vec![cred]).expect_err("zeroed sig must fail");
    assert_eq!(err, Error::InvalidHopSignature);
}

#[test]
fn test_invalid_credential_rejected() {
    let mut store = ProvenanceStore::new();
    let cred = [0xC0u8; 32];
    let mut sig = [0xFFu8; 64];
    sig[0] = 0x01;
    let state = HopState {
        index: 0,
        credential_id: cred,
        signature: sig,
        policy_ref: [0xD0u8; 32],
        recorded_at: 0,
        score: Score { raw: SCORE_PRECISION },
        credential_verified: true,
    };
    write_hop_state(&mut store, &cred, &state);
    let err = resolve_provenance(&mut store, 0, chain_id(6), vec![cred]).expect_err("zero recorded_at must fail");
    assert_eq!(err, Error::InvalidHopCredential);
}

#[test]
fn test_provenance_access_set_estimated_accesses() {
    assert_eq!(ProvenanceAccessSet::estimated_accesses(0), 2);
    assert_eq!(ProvenanceAccessSet::estimated_accesses(1), 4);
    assert_eq!(ProvenanceAccessSet::estimated_accesses(10), 22);
    for n in 0..=MAX_HOPS {
        assert!(ProvenanceAccessSet::estimated_accesses(n) <= STORAGE_BUDGET);
    }
}

#[test]
fn test_result_persisted_and_retrievable() {
    let mut store = ProvenanceStore::new();
    let hops = populate_chain(&mut store, 5);
    let cid = chain_id(7);
    let result = resolve_provenance(&mut store, 0, cid, hops).expect("5-hop chain");
    assert_eq!(result.hops_resolved, 5);
    assert_eq!(result.storage_accesses_used, 6);
    let persisted = get_provenance_result(&store, &cid).expect("result must be stored");
    assert_eq!(persisted.hops_resolved, result.hops_resolved);
    assert_eq!(persisted.storage_accesses_used, result.storage_accesses_used);
    assert_eq!(persisted.final_score.raw, result.final_score.raw);
}

#[test]
fn test_detailed_storage_access_tracking() {
    let mut store = ProvenanceStore::new();
    let hops = populate_chain(&mut store, 10);
    let result = resolve_provenance(&mut store, 0, chain_id(1), hops).expect("10-hop chain should resolve");
    assert_eq!(result.hops_resolved, 10);
    assert_eq!(result.storage_accesses_used, 11);
    assert!(result.storage_accesses_used <= STORAGE_BUDGET);
    assert_eq!(result.final_score.raw, SCORE_PRECISION);
}

#[test]
fn test_storage_budget_exceeded_error() {
    let mut store = ProvenanceStore::new();
    let too_many_hops = populate_chain(&mut store, MAX_HOPS + 1);
    let err = resolve_provenance(&mut store, 0, chain_id(99), too_many_hops).expect_err("oversized chain must fail");
    assert_eq!(err, Error::ChainTooLong);
}

#[test]
fn final_score_is_the_truncated_mean() {
    let mut store = ProvenanceStore::new();
    let mut ids = Vec::new();
    for (i, raw) in [1_000_000i128, 2_000_000, 2_500_001].iter().enumerate() {
        let (id, mut state) = make_hop(i as u32);
        state.score = Score { raw: *raw };
        write_hop_state(&mut store, &id, &state);
        ids.push(id);
    }
    let result = ProvenanceContract::resolve(&mut store, 42, chain_id(8), ids).unwrap();
    assert_eq!(result.final_score.raw, 1_833_333);
    assert_eq!(result.resolved_at_ledger, 42);
    assert_eq!(ProvenanceContract::get_result(&store, chain_id(8)), Some(result));
    assert_eq!(
        store.events.last(),
        Some(&ProvenanceEvent::Resolved { hops_resolved: 3, storage_accesses_used: 4 })
    );
}

#[test]
fn score_is_checked_before_signature_and_errors_write_nothing() {
    let mut store = ProvenanceStore::new();
    let (id0, good) = make_hop(0);
    let (id1, mut bad) = make_hop(1);
    bad.score = Score { raw: SCORE_PRECISION + 1 };
    bad.signature = [0u8; 64];
    ProvenanceContract::write_hop(&mut store, id0, good);
    ProvenanceContract::write_hop(&mut store, id1, bad);
    let err = ProvenanceContract::resolve(&mut store, 0, chain_id(9), vec![id0, id1]).unwrap_err();
    assert_eq!(err, Error::InvalidScore);
    assert_eq!(ProvenanceContract::get_result(&store, chain_id(9)), None);
    assert!(store.events.is_empty());
    assert_eq!(verify_hop_signature(&bad), Err(Error::InvalidHopSignature));
    assert_eq!(validate_hop_credential(&bad), Ok(()));
    assert!(!bad.score.is_valid());
}

#[test]
fn missing_hop_is_reported_before_an_invalid_earlier_hop() {
    let mut store = ProvenanceStore::new();
    let (id0, mut bad) = make_hop(0);
    bad.credential_verified = false;
    write_hop_state(&mut store, &id0, &bad);
    let err = resolve_provenance(&mut store, 0, chain_id(10), vec![id0, chain_id(200)]).unwrap_err();
    assert_eq!(err, Error::HopNotFound);
}

#[test]
fn prefetch_refuses_a_batch_over_budget_and_warns_on_threshold() {
    let mut store = ProvenanceStore::new();
    let ids = populate_chain(&mut store, 3);
    let keys: Vec<Vec<u8>> = ids
        .iter()
        .map(|id| {
            let mut k = vec![b'H', b'S'];
            k.extend_from_slice(id);
            k
        })
        .collect();
    let set = ProvenanceAccessSet { hop_keys: keys.clone(), hop_count: 3, estimated_accesses: 8 };

    let mut budget = StorageBudget::new();
    budget.charge(STORAGE_BUDGET - 2);
    let before = budget;
    assert!(matches!(prefetch_hop_states(&mut store, &set, &mut budget), Err(Error::StorageBudgetExceeded)));
    assert_eq!(budget, before);

    let mut budget = StorageBudget::new();
    budget.charge(99);
    let cache = prefetch_hop_states(&mut store, &set, &mut budget).unwrap();
    assert_eq!(budget.used, 102);
    assert_eq!(budget.reads, 3);
    assert!(cache.contains_key(&keys[2]));
    assert_eq!(store.events, vec![ProvenanceEvent::StorageWarning { used: 100 }]);
}

#[test]
fn hop_order_does_not_change_the_result() {
    let mut store = ProvenanceStore::new();
    let hops = populate_chain(&mut store, 6);
    let mut reversed = hops.clone();
    reversed.reverse();
    let a = resolve_provenance(&mut store, 4, chain_id(7), hops).unwrap();
    let b = resolve_provenance(&mut store, 4, chain_id(8), reversed.clone()).unwrap();
    assert_eq!(a, b);
    // a missing hop is found whatever its position
    reversed.push([0xEEu8; 32]);
    reversed.swap(0, 6);
    assert_eq!(resolve_provenance(&mut store, 4, chain_id(9), reversed), Err(Error::HopNotFound));
}
