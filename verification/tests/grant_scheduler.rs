use agritrust::grant_stream::{fixed_point_div, fixed_point_mul, GrantSchedule, SchedulerError};

fn schedule(total_amount: i128, rate_numerator: i128, total_period_seconds: u64) -> GrantSchedule {
    GrantSchedule {
        total_amount,
        rate_numerator,
        rate_denominator: 10_000,
        total_period_seconds,
        distributed_amount: 0,
        last_distribution_at: 0,
        is_active: true,
    }
}

#[test]
fn test_calculate_payout_slice_basic() {
    let schedule = schedule(1_000_000_000, 1000, 30 * 24 * 60 * 60);
    let payout = schedule.calculate_payout_slice(24 * 60 * 60).unwrap();
    assert!(payout > 0);
    assert!(payout < 20000);
}

#[test]
fn test_no_truncation_for_small_amounts() {
    let schedule = schedule(100, 1, 365 * 24 * 60 * 60);
    let payout = schedule.calculate_payout_slice(24 * 60 * 60).unwrap();
    assert!(payout >= 0);
}

#[test]
fn test_zero_total_amount_fails() {
    let schedule = GrantSchedule {
        total_amount: 0,
        rate_numerator: 1000,
        rate_denominator: 10_000,
        total_period_seconds: 86400,
        distributed_amount: 0,
        last_distribution_at: 0,
        is_active: true,
    };
    assert!(schedule.calculate_payout_slice(3600).is_err());
}

#[test]
fn test_fixed_point_mul() {
    let result = fixed_point_mul(25_000_000, 30_000_000).unwrap();
    assert_eq!(result, 75_000_000);
}

#[test]
fn test_fixed_point_div() {
    let result = fixed_point_div(75_000_000, 25_000_000).unwrap();
    assert_eq!(result, 30_000_000);
}

#[test]
fn test_cumulative_capped_at_total() {
    let schedule = GrantSchedule {
        total_amount: 1000,
        rate_numerator: 10_000,
        rate_denominator: 10_000,
        total_period_seconds: 86400,
        distributed_amount: 0,
        last_distribution_at: 0,
        is_active: true,
    };
    let cumulative = schedule.calculate_cumulative_distribution(86400).unwrap();
    assert!(cumulative <= schedule.total_amount);
}

#[test]
fn payout_slice_exact_value() {
    // 1e9 * 1000 * 1e7 = 1e19 over 10000 * 2_592_000 = 2.592e10 rounds to
    // 385_802_469; scaled down by 1e7 this is 38, whatever the elapsed time.
    let schedule = schedule(1_000_000_000, 1000, 30 * 24 * 60 * 60);
    assert_eq!(schedule.calculate_payout_slice(86400), Ok(38));
    assert_eq!(schedule.calculate_payout_slice(1), Ok(38));
    assert_eq!(schedule.calculate_payout_slice(0), Ok(38));
}

#[test]
fn payout_slice_divides_by_the_period() {
    // 3 * 10000 * 1e7 = 3e11 over 10000 * 2: 15_000_000, scaled 1.
    let s = schedule(3, 10_000, 2);
    assert_eq!(s.calculate_payout_slice(2), Ok(1));
    // 1e9 * 10000 * 1e7 / (10000 * 3) = 3.33e15 -> 333_333_333 after scaling.
    let big = schedule(1_000_000_000, 10_000, 3);
    assert_eq!(big.calculate_payout_slice(3), Ok(333_333_333));
}

#[test]
fn payout_slice_rounds_to_nearest() {
    // 2e7 * 1e7 / (2e7 + 1) = 9_999_999.5000000.. rounds up to 1e7, so the
    // scaled payout is 1 where truncation would give 0.
    let s = schedule(20_000_000, 10_000, 20_000_001);
    assert_eq!(s.calculate_payout_slice(1), Ok(1));
}

#[test]
fn payout_slice_rejects_invalid_rates() {
    let mut s = schedule(1000, 10_001, 100);
    assert_eq!(s.calculate_payout_slice(10), Err(SchedulerError::InvalidRate));
    s.rate_numerator = -1;
    assert_eq!(s.calculate_payout_slice(10), Err(SchedulerError::InvalidRate));
    s.rate_numerator = 10;
    s.rate_denominator = 0;
    assert_eq!(s.calculate_payout_slice(10), Err(SchedulerError::InvalidRate));
}

#[test]
fn payout_slice_reports_overflow() {
    let s = schedule(i128::MAX / 2, 10_000, 100);
    assert_eq!(s.calculate_payout_slice(10), Err(SchedulerError::Overflow));
    let t = schedule(i128::MAX / 10_000_000_000, 10_000, 100);
    assert_eq!(t.calculate_payout_slice(10), Err(SchedulerError::Overflow));
}

#[test]
fn fixed_point_errors() {
    assert_eq!(fixed_point_div(1, 0), Err(SchedulerError::InvalidRate));
    assert_eq!(fixed_point_div(i128::MAX, 3), Err(SchedulerError::Overflow));
    assert_eq!(fixed_point_mul(i128::MAX, 2), Err(SchedulerError::Overflow));
    // rounding toward zero on negative values
    assert_eq!(fixed_point_mul(-15_000_000, 1), Ok(-1));
    assert_eq!(fixed_point_div(-1, 3), Ok(-3_333_333));
}

#[test]
fn cumulative_when_inactive_or_no_time_elapsed() {
    let mut s = schedule(1000, 10_000, 86400);
    s.distributed_amount = 40;
    s.last_distribution_at = 500;
    assert_eq!(s.calculate_cumulative_distribution(500), Ok(40));
    assert_eq!(s.calculate_cumulative_distribution(100), Ok(40));
    s.is_active = false;
    assert_eq!(s.calculate_cumulative_distribution(90_000), Ok(40));
}

#[test]
fn advance_caps_and_deactivates() {
    // Each slice pays 3e7 * 1e7 / 2 / 1e7 = 15_000_000.
    let mut s = schedule(30_000_000, 10_000, 2);
    assert_eq!(s.advance(77, 3), Ok(15_000_000));
    assert_eq!(s.last_distribution_at, 77);
    assert!(s.is_active);
    assert_eq!(s.advance(80, 1), Ok(30_000_000));
    assert!(!s.is_active);
    assert_eq!(s.distributed_amount, 30_000_000);
    // Capped at the total once reached.
    let mut t = schedule(20_000_000, 10_000, 1);
    t.distributed_amount = 15_000_000;
    assert_eq!(t.advance(5, 1), Ok(20_000_000));
    assert!(!t.is_active);
}

#[test]
fn advance_error_leaves_schedule_unchanged() {
    let mut s = schedule(0, 10_000, 100);
    let before = s;
    assert_eq!(s.advance(5, 5), Err(SchedulerError::ZeroTotalAmount));
    assert_eq!(s, before);
}

#[test]
fn payout_panics_are_reported_before_the_call() {
    let ok = schedule(1_000_000_000, 1000, 30 * 24 * 60 * 60);
    assert!(!ok.payout_slice_panics(86400));
    // a zero period divides by zero
    let zero_period = schedule(1_000_000_000, 1000, 0);
    assert!(zero_period.payout_slice_panics(86400));
    // an error is returned before any division
    let zero_total = schedule(0, 1000, 0);
    assert!(!zero_total.payout_slice_panics(10));
    assert_eq!(zero_total.calculate_payout_slice(10), Err(SchedulerError::ZeroTotalAmount));
    // a huge elapsed time is no cause for refusal
    let big = schedule(100_000_000_000_000_000_000, 10_000, 1);
    assert!(!big.payout_slice_panics(10_000_000_000_000_000_000));
    assert_eq!(big.calculate_payout_slice(10_000_000_000_000_000_000), Ok(100_000_000_000_000_000_000));
}
