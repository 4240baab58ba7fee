use agritrust::grant_stream::{
    calculate_accrued_with_remainder, flush_remainder, get_remainder, reset_remainder,
    PrecisionEvent, PrecisionStore,
};

#[test]
fn test_no_drift_over_multiple_periods() {
    let base_accrued: i128 = 3;
    let multiplier: i128 = 3333;

    // Without a carried remainder the period accrues nothing.
    let mut store = PrecisionStore::new();
    let without_remainder = calculate_accrued_with_remainder(&mut store, base_accrued, multiplier);
    assert_eq!(without_remainder, 0);

    // The truncated fraction is kept instead of being discarded.
    let remainder = get_remainder(&store);
    assert!(remainder > 0, "Remainder should be non-zero for truncated division");
    assert_eq!(remainder, 9999);
}

#[test]
fn test_remainder_accumulation() {
    let mut store = PrecisionStore::new();
    let mut total_accrued: i128 = 0;
    for _ in 0..3 {
        total_accrued += calculate_accrued_with_remainder(&mut store, 3, 3333);
    }
    assert!(total_accrued > 0, "Should accrue something with remainder carry");
    assert!(get_remainder(&store) < 10000, "Remainder should be less than divisor");
}

#[test]
fn test_exact_division_no_remainder() {
    let mut store = PrecisionStore::new();
    let accrued = calculate_accrued_with_remainder(&mut store, 10000, 5000);
    assert_eq!(accrued, 5000);
    assert_eq!(get_remainder(&store), 0);
}

#[test]
fn remainder_carry_sequence() {
    // The remainder is carried in scaled units:
    // Period 1: 3 * 3333 = 9999 -> 0, remainder 9999
    // Period 2: 3 * 3333 + 9999 = 19998 -> 1, remainder 9998
    // Period 3: 3 * 3333 + 9998 = 19997 -> 1, remainder 9997
    let mut store = PrecisionStore::new();
    assert_eq!(calculate_accrued_with_remainder(&mut store, 3, 3333), 0);
    assert_eq!(calculate_accrued_with_remainder(&mut store, 3, 3333), 1);
    assert_eq!(get_remainder(&store), 9998);
    assert_eq!(calculate_accrued_with_remainder(&mut store, 3, 3333), 1);
    assert_eq!(get_remainder(&store), 9997);
    assert_eq!(store.events.len(), 3);
    assert_eq!(store.events[1], PrecisionEvent::Accrued { accrued: 1, remainder: 9998 });
}

#[test]
fn accruals_sum_to_the_exact_total() {
    // Two half-units accrue one unit in total, with nothing left over.
    let mut store = PrecisionStore::new();
    let first = calculate_accrued_with_remainder(&mut store, 1, 5000);
    let second = calculate_accrued_with_remainder(&mut store, 1, 5000);
    assert_eq!((first, second), (0, 1));
    assert_eq!(get_remainder(&store), 0);

    // Ten periods of 3 * 3333: total * 10000 + remainder == 10 * 9999.
    let mut store = PrecisionStore::new();
    let mut total: i128 = 0;
    for _ in 0..10 {
        total += calculate_accrued_with_remainder(&mut store, 3, 3333);
    }
    assert_eq!(total * 10000 + get_remainder(&store), 10 * 9999);
    assert_eq!(total, 9);
}

#[test]
fn negative_amounts_round_toward_zero() {
    let mut store = PrecisionStore::new();
    assert_eq!(calculate_accrued_with_remainder(&mut store, -3, 3333), 0);
    assert_eq!(get_remainder(&store), -9999);
    assert_eq!(flush_remainder(&mut store), -9999);
    // a non-positive remainder is not flushed
    assert_eq!(get_remainder(&store), -9999);
    reset_remainder(&mut store);
    assert_eq!(get_remainder(&store), 0);
}

#[test]
fn flush_returns_and_clears_positive_remainder() {
    let mut store = PrecisionStore::new();
    calculate_accrued_with_remainder(&mut store, 3, 3333);
    assert_eq!(flush_remainder(&mut store), 9999);
    assert_eq!(get_remainder(&store), 0);
    assert_eq!(store.events.last(), Some(&PrecisionEvent::Flushed { remainder: 9999 }));
    assert_eq!(flush_remainder(&mut store), 0);
}
