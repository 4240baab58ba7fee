use agritrust::bytes::ByteMap;
use agritrust::state::{
    apply_compensation, rollback_mutation, verify_compensation_integrity, CompensationReason,
    MutationStatus, OptimisticContract, OptimisticStore, StateEvent, StateKey,
    OPTIMISTIC_LOCK_TIMEOUT,
};

fn setup() -> OptimisticStore {
    let mut store = OptimisticStore::new();
    OptimisticContract::initialize(&mut store);
    store
}

fn make_key(name: &[u8]) -> Vec<u8> {
    name.to_vec()
}

fn make_value(val: u64) -> Vec<u8> {
    val.to_be_bytes().to_vec()
}

fn updates(key: &[u8], value: Vec<u8>) -> ByteMap {
    let mut m = ByteMap::new();
    m.set(key.to_vec(), value);
    m
}

fn make_mutation_id(batch_id: &[u8], seq_no: u64) -> Vec<u8> {
    let mut data = batch_id.to_vec();
    data.extend_from_slice(&seq_no.to_be_bytes());
    data
}

#[test]
fn test_initialize() {
    let store = setup();
    let version = OptimisticContract::get_version(&store);
    assert_eq!(version.current_version, 0);
    assert_eq!(version.current_seq_no, 0);
}

#[test]
fn test_begin_assigns_seq_no() {
    let mut store = setup();
    let batch_id = b"batch1".to_vec();
    let seq1 = OptimisticContract::begin_optimistic(&mut store, 0, batch_id.clone(), ByteMap::new());
    assert_eq!(seq1, 1);
    let seq2 = OptimisticContract::begin_optimistic(&mut store, 0, batch_id.clone(), ByteMap::new());
    assert_eq!(seq2, 2);
}

#[test]
fn test_commit_in_order() {
    let mut store = setup();
    let batch_id = b"batch1".to_vec();
    let key = make_key(b"balance");
    let val1 = make_value(100);
    let val2 = make_value(200);

    let seq1 = OptimisticContract::begin_optimistic(&mut store, 0, batch_id.clone(), updates(&key, val1.clone()));
    let seq2 = OptimisticContract::begin_optimistic(&mut store, 0, batch_id.clone(), updates(&key, val2.clone()));

    let version = OptimisticContract::get_version(&store);
    assert_eq!(version.current_version, 0);

    let id1 = make_mutation_id(&batch_id, seq1);
    let committed1 = OptimisticContract::commit_optimistic(&mut store, 0, batch_id.clone(), id1);
    assert!(committed1);
    let stored = OptimisticContract::get_state_value(&store, &key);
    assert_eq!(stored, val1);

    let id2 = make_mutation_id(&batch_id, seq2);
    let committed2 = OptimisticContract::commit_optimistic(&mut store, 0, batch_id.clone(), id2);
    assert!(committed2);
    let stored2 = OptimisticContract::get_state_value(&store, &key);
    assert_eq!(stored2, val2);

    let final_version = OptimisticContract::get_version(&store);
    assert_eq!(final_version.current_version, 2);
    assert_eq!(final_version.current_seq_no, 2);
}

#[test]
fn test_commit_out_of_order_compensates() {
    let mut store = setup();
    let batch_id = b"batch1".to_vec();
    let key = make_key(b"balance");
    let val1 = make_value(100);
    let val2 = make_value(200);

    let seq1 = OptimisticContract::begin_optimistic(&mut store, 0, batch_id.clone(), updates(&key, val1.clone()));
    let seq2 = OptimisticContract::begin_optimistic(&mut store, 0, batch_id.clone(), updates(&key, val2.clone()));

    let id2 = make_mutation_id(&batch_id, seq2);
    let result = OptimisticContract::commit_optimistic(&mut store, 0, batch_id.clone(), id2);
    assert!(!result);

    let id1 = make_mutation_id(&batch_id, seq1);
    let result1 = OptimisticContract::commit_optimistic(&mut store, 0, batch_id.clone(), id1);
    assert!(result1);

    let stored = OptimisticContract::get_state_value(&store, &key);
    assert_eq!(stored, val1);
}

#[test]
fn test_rollback_restores_state() {
    let mut store = setup();
    let batch_id = b"batch1".to_vec();
    let key = make_key(b"balance");
    let initial_val = make_value(50);
    let new_val = make_value(100);

    store.values.set(key.clone(), initial_val.clone());

    let seq = OptimisticContract::begin_optimistic(&mut store, 0, batch_id.clone(), updates(&key, new_val));
    let id = make_mutation_id(&batch_id, seq);
    OptimisticContract::rollback_mutation(&mut store, 0, batch_id.clone(), id.clone());

    let stored = OptimisticContract::get_state_value(&store, &key);
    assert_eq!(stored, initial_val);

    let comp_exists = verify_compensation_integrity(&store, &id);
    assert!(comp_exists);
}

#[test]
fn test_expire_pending() {
    let mut store = setup();
    let batch_id = b"batch1".to_vec();
    let key = make_key(b"balance");
    let ledger: u32 = 0;

    let seq = OptimisticContract::begin_optimistic(&mut store, ledger, batch_id.clone(), updates(&key, make_value(100)));
    let id = make_mutation_id(&batch_id, seq);

    let expired = OptimisticContract::expire_pending(&mut store, ledger, batch_id.clone(), id.clone());
    assert!(!expired);

    let later = ledger + OPTIMISTIC_LOCK_TIMEOUT + 1;
    let expired = OptimisticContract::expire_pending(&mut store, later, batch_id.clone(), id.clone());
    assert!(expired);
}

#[test]
fn test_version_linearization() {
    let mut store = setup();
    let batch_id = b"batch1".to_vec();
    let key = make_key(b"counter");

    for i in 1u64..=5 {
        OptimisticContract::begin_optimistic(&mut store, 0, batch_id.clone(), updates(&key, make_value(i * 10)));
    }
    for i in 1u64..=5 {
        let id = make_mutation_id(&batch_id, i);
        let committed = OptimisticContract::commit_optimistic(&mut store, 0, batch_id.clone(), id);
        assert!(committed, "seq {} should commit", i);
    }

    let final_version = OptimisticContract::get_version(&store);
    assert_eq!(final_version.current_version, 5);
    assert_eq!(final_version.current_seq_no, 5);

    let stored = OptimisticContract::get_state_value(&store, &key);
    assert_eq!(stored, make_value(50));
}

#[test]
fn test_rollback_creates_compensation() {
    let mut store = setup();
    let batch_id = b"rb_batch".to_vec();
    let key = b"val".to_vec();

    let init_seq = OptimisticContract::begin_optimistic(&mut store, 0, batch_id.clone(), updates(&key, 42_i64.to_be_bytes().to_vec()));
    let init_id = make_mutation_id(&batch_id, init_seq);
    OptimisticContract::commit_optimistic(&mut store, 0, batch_id.clone(), init_id);

    let seq2 = OptimisticContract::begin_optimistic(&mut store, 0, batch_id.clone(), updates(&key, 99_i64.to_be_bytes().to_vec()));
    let id2 = make_mutation_id(&batch_id, seq2);
    OptimisticContract::rollback_mutation(&mut store, 0, batch_id.clone(), id2);

    let stored = OptimisticContract::get_state_value(&store, &key);
    let mut bytes = [0u8; 8];
    bytes.copy_from_slice(&stored);
    assert_eq!(i64::from_be_bytes(bytes), 42, "Value should be restored to 42 after rollback");
}

#[test]
fn test_version_tracking() {
    let mut store = setup();
    let v0 = OptimisticContract::get_version(&store);
    assert_eq!(v0.current_version, 0, "Initial version should be 0");

    let batch_id = b"ver_batch".to_vec();
    let key = b"k".to_vec();
    let seq = OptimisticContract::begin_optimistic(&mut store, 0, batch_id.clone(), updates(&key, 1_i64.to_be_bytes().to_vec()));
    let id = make_mutation_id(&batch_id, seq);
    OptimisticContract::commit_optimistic(&mut store, 0, batch_id.clone(), id);

    let v1 = OptimisticContract::get_version(&store);
    assert_eq!(v1.current_version, 1, "Version should increment after commit");
}

#[test]
fn mutation_id_is_batch_then_big_endian_sequence() {
    let id = OptimisticContract::make_mutation_id(b"ab", 0x0102030405060708);
    assert_eq!(id, vec![b'a', b'b', 1, 2, 3, 4, 5, 6, 7, 8]);
}

#[test]
fn begin_captures_previous_values_and_expiry() {
    let mut store = setup();
    store.values.set(b"x".to_vec(), b"old".to_vec());
    let mut u = ByteMap::new();
    u.set(b"x".to_vec(), b"new".to_vec());
    u.set(b"y".to_vec(), b"fresh".to_vec());
    let seq = OptimisticContract::begin_optimistic(&mut store, 7, b"b".to_vec(), u);
    let id = make_mutation_id(b"b", seq);
    let m = OptimisticContract::get_pending(&store, b"b", &id).unwrap();
    assert_eq!(m.seq_no, 1);
    assert_eq!(m.expires_at, 17);
    assert_eq!(m.status, MutationStatus::Pending);
    assert_eq!(m.prev_values.get(b"x").unwrap(), &b"old".to_vec());
    assert_eq!(m.prev_values.get(b"y").unwrap(), &Vec::<u8>::new());
    // begin does not touch the state values
    assert_eq!(OptimisticContract::get_state_value(&store, b"x"), b"old".to_vec());
    assert!(store.has(&StateKey::BatchCounter(b"b".to_vec())));
    assert!(store.has(&StateKey::PendingMap(b"b".to_vec())));
    assert!(!store.has(&StateKey::ReadyToCommit(id.clone())));
    match &store.events[0] {
        StateEvent::Begun { seq_no, .. } => assert_eq!(*seq_no, 1),
        _ => panic!("expected a begin event"),
    }
}

#[test]
fn commit_marks_status_and_ready_flag() {
    let mut store = setup();
    let seq = OptimisticContract::begin_optimistic(&mut store, 0, b"b".to_vec(), updates(b"k", b"v".to_vec()));
    let id = make_mutation_id(b"b", seq);
    assert!(OptimisticContract::commit_optimistic(&mut store, 3, b"b".to_vec(), id.clone()));
    let m = OptimisticContract::get_pending(&store, b"b", &id).unwrap();
    assert_eq!(m.status, MutationStatus::Committed);
    assert!(store.has(&StateKey::ReadyToCommit(id.clone())));
    // committing again is refused: a committed mutation is final
    assert!(!OptimisticContract::commit_optimistic(&mut store, 3, b"b".to_vec(), id.clone()));
    let m = OptimisticContract::get_pending(&store, b"b", &id).unwrap();
    assert_eq!(m.status, MutationStatus::Committed);
    assert!(!store.has(&StateKey::CompensationMap(id.clone())));
    match store.events.last().unwrap() {
        StateEvent::Committed { version, seq_no, .. } => assert_eq!((*version, *seq_no), (1, 1)),
        _ => panic!("expected the commit to be the last event"),
    }
}

#[test]
fn commit_after_expiry_marks_expired() {
    let mut store = setup();
    let seq = OptimisticContract::begin_optimistic(&mut store, 5, b"b".to_vec(), updates(b"k", b"v".to_vec()));
    let id = make_mutation_id(b"b", seq);
    assert!(!OptimisticContract::commit_optimistic(&mut store, 16, b"b".to_vec(), id.clone()));
    let m = OptimisticContract::get_pending(&store, b"b", &id).unwrap();
    assert_eq!(m.status, MutationStatus::Expired);
    assert_eq!(OptimisticContract::get_state_value(&store, b"k"), Vec::<u8>::new());
    assert_eq!(OptimisticContract::get_version(&store).current_version, 0);
    // an expired mutation is no longer expirable
    assert!(!OptimisticContract::expire_pending(&mut store, 20, b"b".to_vec(), id));
}

#[test]
fn unknown_mutations_are_left_alone() {
    let mut store = setup();
    OptimisticContract::rollback_mutation(&mut store, 0, b"none".to_vec(), b"none".to_vec());
    assert!(store.events.is_empty());
    assert!(!OptimisticContract::expire_pending(&mut store, 100, b"none".to_vec(), b"x".to_vec()));
    assert!(OptimisticContract::get_pending(&store, b"none", b"x").is_none());
    assert!(rollback_mutation(&mut store, 0, b"none", b"x").is_none());
    assert!(verify_compensation_integrity(&store, b"x"));
}

#[test]
fn rollback_module_logs_and_returns_compensation() {
    let mut store = setup();
    let seq = OptimisticContract::begin_optimistic(&mut store, 0, b"b".to_vec(), updates(b"k", b"v".to_vec()));
    let id = make_mutation_id(b"b", seq);
    store.values.set(b"k".to_vec(), b"v".to_vec());
    assert_eq!(OptimisticContract::get_state_value(&store, b"k"), b"v".to_vec());
    let c = rollback_mutation(&mut store, 9, b"b", &id).unwrap();
    assert_eq!(c.reason, CompensationReason::RollbackModule);
    assert_eq!(c.timestamp, 9);
    assert_eq!(c.original_mutation_id, id);
    // the key did not exist before: rolling back removes it
    assert!(!store.has(&StateKey::StateValue(b"k".to_vec())));
    let m = OptimisticContract::get_pending(&store, b"b", &id).unwrap();
    assert_eq!(m.status, MutationStatus::RolledBack);
    // applying the compensation again changes nothing
    store.values.set(b"k".to_vec(), b"w".to_vec());
    apply_compensation(&mut store, &c);
    assert_eq!(OptimisticContract::get_state_value(&store, b"k"), Vec::<u8>::new());
}

#[test]
fn integrity_fails_for_empty_compensation() {
    let mut store = setup();
    let seq = OptimisticContract::begin_optimistic(&mut store, 0, b"b".to_vec(), ByteMap::new());
    let id = make_mutation_id(b"b", seq);
    OptimisticContract::rollback_mutation(&mut store, 0, b"b".to_vec(), id.clone());
    assert!(!verify_compensation_integrity(&store, &id));
}

#[test]
fn a_sixth_active_mutation_is_refused() {
    let mut store = setup();
    let batch = b"full".to_vec();
    for i in 1u64..=5 {
        assert_eq!(OptimisticContract::begin_optimistic(&mut store, 0, batch.clone(), ByteMap::new()), i);
    }
    let events = store.events.len();
    assert_eq!(OptimisticContract::begin_optimistic(&mut store, 0, batch.clone(), ByteMap::new()), 0);
    assert_eq!(store.events.len(), events);
    assert!(OptimisticContract::get_pending(&store, &batch, &make_mutation_id(&batch, 6)).is_none());
    // Once one of them is final, another may begin.
    OptimisticContract::rollback_mutation(&mut store, 0, batch.clone(), make_mutation_id(&batch, 3));
    assert_eq!(OptimisticContract::begin_optimistic(&mut store, 0, batch.clone(), ByteMap::new()), 6);
    // Other batches are not affected.
    assert_eq!(OptimisticContract::begin_optimistic(&mut store, 0, b"other".to_vec(), ByteMap::new()), 1);
}

#[test]
fn final_states_are_never_left() {
    let mut store = setup();
    let batch = b"b".to_vec();
    let key = make_key(b"k");
    let seq = OptimisticContract::begin_optimistic(&mut store, 0, batch.clone(), updates(&key, make_value(1)));
    let id = make_mutation_id(&batch, seq);
    assert!(OptimisticContract::commit_optimistic(&mut store, 0, batch.clone(), id.clone()));
    let version = OptimisticContract::get_version(&store);
    let events = store.events.len();

    // Committing again, rolling back or expiring a committed mutation
    // changes nothing.
    assert!(!OptimisticContract::commit_optimistic(&mut store, 0, batch.clone(), id.clone()));
    OptimisticContract::rollback_mutation(&mut store, 0, batch.clone(), id.clone());
    assert!(rollback_mutation(&mut store, 0, &batch, &id).is_none());
    assert!(!OptimisticContract::expire_pending(&mut store, 1000, batch.clone(), id.clone()));
    let m = OptimisticContract::get_pending(&store, &batch, &id).unwrap();
    assert_eq!(m.status, MutationStatus::Committed);
    assert_eq!(OptimisticContract::get_version(&store), version);
    assert_eq!(OptimisticContract::get_state_value(&store, &key), make_value(1));
    assert!(!store.has(&StateKey::CompensationMap(id.clone())));
    assert_eq!(store.events.len(), events);
}

#[test]
fn test_sequential_accumulation() {
    // Five mutations of one batch, each committed in order. Updates
    // overwrite the stored value, so the key holds the last value written
    // (10), not the sum of the five writes.
    let mut store = setup();
    let batch_id = b"seq_batch".to_vec();
    let key = make_key(b"counter");
    for i in 0..5 {
        let delta = 10_i64;
        let seq = OptimisticContract::begin_optimistic(&mut store, 0, batch_id.clone(), updates(&key, delta.to_be_bytes().to_vec()));
        let id = make_mutation_id(&batch_id, seq);
        let committed = OptimisticContract::commit_optimistic(&mut store, 0, batch_id.clone(), id);
        assert!(committed, "Commit {} should succeed", i);
    }
    let stored = OptimisticContract::get_state_value(&store, &key);
    let mut bytes = [0u8; 8];
    bytes.copy_from_slice(&stored);
    assert_eq!(i64::from_be_bytes(bytes), 10);
    assert_eq!(OptimisticContract::get_version(&store).current_version, 5);
}
