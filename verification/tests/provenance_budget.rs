use agritrust::provenance::{StorageBudget, MAX_HOPS, STORAGE_BUDGET, STORAGE_WARN_THRESHOLD};

#[test]
fn test_access_count_formula_for_n_hops() {
    for n in 1..=MAX_HOPS {
        let accesses = n + 1;
        assert!(accesses <= STORAGE_BUDGET);
    }
}

#[test]
fn test_storage_budget_tracker_charge_and_warn() {
    let mut budget = StorageBudget::new();
    assert_eq!(budget.used, 0);
    assert!(!budget.would_exceed(STORAGE_BUDGET));
    assert!(budget.would_exceed(STORAGE_BUDGET + 1));
    let warned = budget.charge(STORAGE_WARN_THRESHOLD - 1);
    assert!(!warned);
    assert_eq!(budget.used, STORAGE_WARN_THRESHOLD - 1);
    let warned = budget.charge(1);
    assert!(warned);
    assert_eq!(budget.used, STORAGE_WARN_THRESHOLD);
    let warned = budget.charge(1);
    assert!(!warned);
}

#[test]
fn budget_charges_saturate_and_count_kinds() {
    let mut budget = StorageBudget::new();
    assert!(!budget.charge_read());
    assert!(!budget.charge_write());
    assert_eq!((budget.used, budget.reads, budget.writes), (2, 1, 1));
    budget.charge(u32::MAX);
    assert_eq!(budget.used, u32::MAX);
    assert!(budget.would_exceed(0));
    assert!(budget.would_exceed_read());
    assert!(budget.would_exceed_write());
}

#[test]
fn budget_read_at_limit_would_exceed() {
    let mut budget = StorageBudget::new();
    budget.charge(STORAGE_BUDGET - 1);
    assert!(!budget.would_exceed_read());
    budget.charge_read();
    assert!(budget.would_exceed_read());
    assert!(!budget.would_exceed(0));
}

#[test]
fn warning_fires_once_over_a_run_of_charges() {
    let mut budget = StorageBudget::new();
    let mut warnings = 0;
    for _ in 0..STORAGE_WARN_THRESHOLD + 30 {
        if budget.charge_read() {
            warnings += 1;
        }
        if budget.charge_write() {
            warnings += 1;
        }
    }
    assert_eq!(warnings, 1);
    assert!(!budget.charge(1));
    assert_eq!(budget.reads, STORAGE_WARN_THRESHOLD + 30);
}
