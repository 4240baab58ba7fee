use agritrust::account::AccountId;
use agritrust::admin::{
    flush_depth, get_current_depth, get_max_depth, initialize_depth_tracking,
    is_approaching_limit, is_depth_tracking_enabled, pop_depth, push_depth, set_max_depth,
    AdminContract, AdminEvent, AdminStore, DepthError, DEFAULT_MAX_ADMIN_CHAIN_DEPTH,
};

fn setup() -> AdminStore {
    let mut store = AdminStore::new();
    initialize_depth_tracking(&mut store);
    store
}

fn push(store: &mut AdminStore) -> u32 {
    push_depth(store).unwrap_or(0)
}

fn pop(store: &mut AdminStore) -> u32 {
    pop_depth(store).unwrap_or(0)
}

#[test]
fn test_initialize_sets_zero_depth() {
    let store = setup();
    assert_eq!(get_current_depth(&store), 0);
    assert!(is_depth_tracking_enabled(&store));
    assert_eq!(get_max_depth(&store), DEFAULT_MAX_ADMIN_CHAIN_DEPTH);
}

#[test]
fn test_push_increments_depth() {
    let mut store = setup();
    let d = push(&mut store);
    assert_eq!(d, 1);
    assert_eq!(get_current_depth(&store), 1);
}

#[test]
fn test_pop_decrements_depth() {
    let mut store = setup();
    push(&mut store);
    push(&mut store);
    assert_eq!(get_current_depth(&store), 2);
    let d = pop(&mut store);
    assert_eq!(d, 1);
    assert_eq!(get_current_depth(&store), 1);
}

#[test]
fn test_pop_at_zero_stays_zero() {
    let mut store = setup();
    let d = pop(&mut store);
    assert_eq!(d, 0);
}

#[test]
fn test_push_at_max_returns_error() {
    let mut store = setup();
    for _ in 0..DEFAULT_MAX_ADMIN_CHAIN_DEPTH {
        push(&mut store);
    }
    assert_eq!(push(&mut store), 0);
}

#[test]
fn test_flush_resets_depth() {
    let mut store = setup();
    for _ in 0..10 {
        push(&mut store);
    }
    assert_eq!(get_current_depth(&store), 10);
    flush_depth(&mut store, 0);
    assert_eq!(get_current_depth(&store), 0);
}

#[test]
fn test_is_approaching_limit() {
    let mut store = setup();
    let target = (DEFAULT_MAX_ADMIN_CHAIN_DEPTH - 3) as usize;
    for _ in 0..target {
        push(&mut store);
    }
    assert!(is_approaching_limit(&store));
    pop(&mut store);
    pop(&mut store);
    assert!(!is_approaching_limit(&store));
}

#[test]
fn test_set_max_depth() {
    let mut store = setup();
    set_max_depth(&mut store, 16);
    assert_eq!(get_max_depth(&store), 16);
}

#[test]
fn test_disabled_tracking_returns_zero() {
    let mut store = setup();
    store.tracking_enabled = Some(false);
    assert_eq!(get_current_depth(&store), 0);
    assert_eq!(push(&mut store), 0);
    assert_eq!(pop(&mut store), 0);
}

#[test]
fn test_10_concurrent_admin_ops_no_overflow() {
    let mut store = setup();
    for _ in 0..10 {
        let d = push(&mut store);
        assert!(d > 0);
        pop(&mut store);
    }
    assert_eq!(get_current_depth(&store), 0);
}

#[test]
fn test_nested_push_pop_16_hop_simulation() {
    let mut store = setup();
    for hop in 0..16 {
        let d = push(&mut store);
        assert_eq!(d, (hop + 1) as u32);
    }
    assert_eq!(get_current_depth(&store), 16);
    for hop in 0..16 {
        let d = pop(&mut store);
        assert_eq!(d, (16 - hop - 1) as u32);
    }
    assert_eq!(get_current_depth(&store), 0);
}

#[test]
fn push_errors_and_events() {
    let mut store = AdminStore::new();
    // never initialized: tracking is off
    assert_eq!(push_depth(&mut store), Ok(0));
    store.tracking_enabled = Some(true);
    assert_eq!(push_depth(&mut store), Err(DepthError::CounterCorrupted));
    assert_eq!(pop_depth(&mut store), Err(DepthError::CounterCorrupted));
    store.auth_depth = Some(2);
    store.max_chain_depth = Some(2);
    assert_eq!(push_depth(&mut store), Err(DepthError::DepthExceeded));
    assert_eq!(store.events, vec![AdminEvent::DepthExceeded { current: 2, max: 2 }]);
    assert_eq!(store.auth_depth, Some(2));
    flush_depth(&mut store, 77);
    assert_eq!(store.events.last(), Some(&AdminEvent::DepthFlushed { ledger_sequence: 77 }));
    set_max_depth(&mut store, 3);
    assert_eq!(store.events.last(), Some(&AdminEvent::MaxDepthSet { new_max: 3 }));
}

#[test]
fn approaching_limit_with_small_max() {
    let mut store = setup();
    set_max_depth(&mut store, 3);
    // saturating: the threshold is 0, so even depth 0 is approaching
    assert!(is_approaching_limit(&store));
}

#[test]
fn ownership_transfer_round() {
    let a = AccountId::new([1u8; 32]);
    let b = AccountId::new([2u8; 32]);
    let mut store = AdminStore::new();
    AdminContract::initialize(&mut store, a);
    assert_eq!(AdminContract::get_auth_depth(&store), 0);
    assert!(AdminContract::is_auth_depth_tracking_enabled(&store));
    assert_eq!(AdminContract::get_max_auth_chain_depth(&store), DEFAULT_MAX_ADMIN_CHAIN_DEPTH);
    AdminContract::transfer_ownership(&mut store, b);
    assert_eq!(store.pending_admin, Some(b));
    assert_eq!(store.active_admin, Some(a));
    assert_eq!(store.auth_depth, Some(0));
    AdminContract::accept_ownership(&mut store, 5);
    assert_eq!(store.active_admin, Some(b));
    assert_eq!(store.pending_admin, None);
    assert_eq!(
        store.events,
        vec![
            AdminEvent::OwnershipTransferred { old_admin: a, new_admin: b },
            AdminEvent::ActivityHandoff { old_admin: a, new_admin: b, ledger_sequence: 5 },
            AdminEvent::DepthFlushed { ledger_sequence: 5 },
        ]
    );
}
