use agritrust::vesting::{
    cliff_validation_overflows, release_vested_with_slippage, validate_cliff_with_slippage, SchedulerError, VestingError,
    VestingEvent, VestingSchedule, VestingStore, CLIFF_PERIOD,
};

fn schedule() -> VestingSchedule {
    VestingSchedule { start_time: 1000, end_time: 1000 + 3_110_400, total_amount: 1_000_000, released_amount: 0 }
}

#[test]
fn slippage_over_threshold_is_refused() {
    assert_eq!(
        validate_cliff_with_slippage(&schedule(), 101, 2_000_000),
        Err(SchedulerError::SlippageThresholdExceeded)
    );
}

#[test]
fn before_cliff_is_a_violation() {
    let s = schedule();
    let cliff_end = (s.start_time + CLIFF_PERIOD as u64) as u32;
    assert_eq!(validate_cliff_with_slippage(&s, 10, cliff_end - 1), Err(SchedulerError::CliffViolation));
    // window 3_110_400 = 2 * CLIFF_PERIOD: the cliff amount is 500_000
    assert_eq!(validate_cliff_with_slippage(&s, 0, cliff_end), Ok(500_000));
}

#[test]
fn forfeiture_in_proportion_to_delay() {
    // 10 ledgers of delay forfeit 500_000 * 10 / 1_555_200 = 3 of the cliff
    // amount, 100 ledgers forfeit 32: more delay never releases more.
    let s = schedule();
    assert_eq!(validate_cliff_with_slippage(&s, 0, 2_000_000), Ok(500_000));
    assert_eq!(validate_cliff_with_slippage(&s, 10, 2_000_000), Ok(499_997));
    assert_eq!(validate_cliff_with_slippage(&s, 100, 2_000_000), Ok(499_968));
}

#[test]
fn short_window_vests_everything_at_the_cliff() {
    // A window shorter than the cliff: the whole remainder is the cliff amount.
    let s = VestingSchedule { start_time: 0, end_time: 1000, total_amount: 7000, released_amount: 1000 };
    assert_eq!(validate_cliff_with_slippage(&s, 0, 2_000_000), Ok(7000));
    assert_eq!(validate_cliff_with_slippage(&s, 100, 2_000_000), Ok(7000));
}

#[test]
fn empty_window_is_a_violation() {
    let s = VestingSchedule { start_time: 0, end_time: 0, total_amount: 10, released_amount: 0 };
    assert_eq!(validate_cliff_with_slippage(&s, 1, 2_000_000), Err(SchedulerError::CliffViolation));
    assert_eq!(validate_cliff_with_slippage(&s, 0, 2_000_000), Err(SchedulerError::CliffViolation));
}

#[test]
fn release_updates_schedule_and_publishes() {
    let mut store = VestingStore::new();
    let grant = [7u8; 32];
    store.schedules.set(grant.to_vec(), schedule());
    assert_eq!(release_vested_with_slippage(&mut store, 2_000_000, grant, 100), Ok(499_968));
    assert_eq!(store.schedules.get(&grant).unwrap().released_amount, 499_968);
    assert_eq!(
        store.events,
        vec![VestingEvent::Released { grant_id: grant, releasable: 499_968, adjusted_amount: 499_968 }]
    );
    // the next release takes the cliff share of what is left: 500_032 / 2
    assert_eq!(release_vested_with_slippage(&mut store, 2_000_000, grant, 0), Ok(250_016));
    assert_eq!(store.events.len(), 2);
}

#[test]
fn more_slippage_releases_less() {
    let grant = [9u8; 32];
    let mut a = VestingStore::new();
    a.schedules.set(grant.to_vec(), schedule());
    let mut b = VestingStore::new();
    b.schedules.set(grant.to_vec(), schedule());
    let r1 = release_vested_with_slippage(&mut a, 2_000_000, grant, 1).unwrap();
    let r2 = release_vested_with_slippage(&mut b, 2_000_000, grant, 2).unwrap();
    assert!(r2 <= r1);
    assert!(a.schedules.get(&grant).unwrap().released_amount <= 1_000_000);
}

#[test]
fn nothing_to_release_when_fully_released() {
    let mut store = VestingStore::new();
    let grant = [3u8; 32];
    let s = VestingSchedule { released_amount: 1_000_000, ..schedule() };
    store.schedules.set(grant.to_vec(), s);
    assert_eq!(release_vested_with_slippage(&mut store, 2_000_000, grant, 0), Ok(0));
    assert!(store.events.is_empty());
}

#[test]
fn release_errors() {
    let mut store = VestingStore::new();
    assert_eq!(release_vested_with_slippage(&mut store, 0, [1u8; 32], 0), Err(VestingError::ScheduleNotFound));
    store.schedules.set([1u8; 32].to_vec(), schedule());
    assert_eq!(release_vested_with_slippage(&mut store, 0, [1u8; 32], 0), Err(VestingError::InvalidSchedule));
    assert_eq!(release_vested_with_slippage(&mut store, 2_000_000, [1u8; 32], 500), Err(VestingError::InvalidSchedule));
}

#[test]
fn overflowing_validation_is_reported_before_the_call() {
    assert!(!cliff_validation_overflows(&schedule(), 10, 2_000_000));
    let late = VestingSchedule { start_time: u64::MAX - 5, ..schedule() };
    assert!(cliff_validation_overflows(&late, 0, 0));
    let backwards = VestingSchedule { start_time: 10, end_time: 5, total_amount: 1, released_amount: 0 };
    assert!(cliff_validation_overflows(&backwards, 0, 2_000_000));
    let huge = VestingSchedule { start_time: 0, end_time: 10, total_amount: i128::MAX, released_amount: -1 };
    assert!(cliff_validation_overflows(&huge, 0, 2_000_000));
}
