use vstd::prelude::*;

use crate::arith::{div_trunc, in_i128, trunc_div};
use crate::grant_stream::precision::lemma_trunc_rem_bounds;
use crate::bytes::BytesMap;

verus! {

/// Cliff period: 180 days, in ledgers.
pub const CLIFF_PERIOD: u32 = 1_555_200;

/// Vesting period: 365 days, in ledgers.
pub const VESTING_PERIOD: u32 = 3_153_600;

/// Maximum ledgers a capital conversion may take.
pub const MAX_CONVERSION_DELAY: u32 = 100;

/// A vesting schedule.
#[derive(Clone, Copy, Debug, PartialEq, Eq, Structural)]
pub struct VestingSchedule {
    /// Ledger at which vesting starts.
    pub start_time: u64,
    /// Ledger at which vesting ends.
    pub end_time: u64,
    /// Total amount granted.
    pub total_amount: i128,
    /// Amount released so far.
    pub released_amount: i128,
}

impl View for VestingSchedule {
    type V = VestingSchedule;

    open spec fn view(&self) -> VestingSchedule {
        *self
    }
}

/// A schedule with the state of its capital conversion.
#[derive(Clone, Copy, Debug, PartialEq, Eq, Structural)]
pub struct SlippageAdjustedSchedule {
    pub base_schedule: VestingSchedule,
    pub conversion_start_ledger: u32,
    pub actual_cliff_met: bool,
    pub slippage_forfeiture_amount: i128,
}

/// Errors of the cliff validation.
#[derive(Clone, Copy, Debug, PartialEq, Eq, Structural)]
pub enum SchedulerError {
    CliffViolation,
    ConversionPending,
    SlippageThresholdExceeded,
}

/// Errors of the vesting contract.
#[derive(Clone, Copy, Debug, PartialEq, Eq, Structural)]
pub enum VestingError {
    ScheduleNotFound,
    InvalidSchedule,
}

/// Events of the vesting contract.
#[derive(Clone, Copy, Debug, PartialEq, Eq)]
pub enum VestingEvent {
    /// Tokens were released for a grant.
    Released { grant_id: [u8; 32], releasable: i128, adjusted_amount: i128 },
}

/// Persistent storage of the vesting contract: schedules by grant id.
pub struct VestingStore {
    pub schedules: BytesMap<VestingSchedule>,
    /// Published events, oldest first.
    pub events: Vec<VestingEvent>,
}

impl VestingStore {
    pub fn new() -> (s: Self)
        ensures
            s.schedules.view() == Map::<Seq<u8>, VestingSchedule>::empty(),
            s.events@.len() == 0,
    {
        VestingStore { schedules: BytesMap::new(), events: Vec::new() }
    }
}

/// The ledger at which the cliff ends.
pub open spec fn cliff_end(s: VestingSchedule) -> int {
    s.start_time + CLIFF_PERIOD
}

/// The amount still to vest.
pub open spec fn total_vested(s: VestingSchedule) -> int {
    s.total_amount - s.released_amount
}

/// The length of the vesting window.
pub open spec fn window(s: VestingSchedule) -> int {
    s.end_time - s.start_time
}

/// The ledgers of the vesting window that the cliff covers: the cliff
/// period, or the whole window where it is shorter.
pub open spec fn cliff_span(s: VestingSchedule) -> int {
    if window(s) < CLIFF_PERIOD { window(s) } else { CLIFF_PERIOD as int }
}

/// The share of the unreleased amount vested over the cliff.
pub open spec fn cliff_amount(s: VestingSchedule) -> int {
    trunc_div(total_vested(s) * cliff_span(s), window(s))
}

/// The amount forfeited for `delay` ledgers of conversion: the cliff
/// amount in proportion to the delay.
pub open spec fn forfeited(s: VestingSchedule, delay: u32) -> int {
    trunc_div(cliff_amount(s) * delay, CLIFF_PERIOD as int)
}

/// The outcome of validating the cliff at `current_ledger` after `delay`
/// ledgers of conversion: the released amount plus what the grantee may
/// now receive. That is the cliff amount less the part forfeited to the
/// delay: the cliff-accrued portion bears the slippage, so the grantee gets
/// only what remains of it after the forfeiture, and a longer delay never
/// releases more (`lemma_release_never_grows_with_slippage`). The cliff
/// share is taken over at most the whole vesting window, so a release
/// never passes the total (`lemma_release_within_total`). The current
/// ledger is compared against the cliff end truncated to 32 bits.
pub open spec fn cliff_validation(s: VestingSchedule, delay: u32, current_ledger: u32) -> Result<i128, SchedulerError> {
    if delay > MAX_CONVERSION_DELAY {
        Err(SchedulerError::SlippageThresholdExceeded)
    } else if current_ledger < (cliff_end(s) as u64) as u32 {
        Err(SchedulerError::CliffViolation)
    } else if window(s) == 0 {
        Err(SchedulerError::CliffViolation)
    } else {
        Ok((s.released_amount + (cliff_amount(s) - forfeited(s, delay))) as i128)
    }
}

/// The inputs on which validation overflows (and the contract panics).
pub open spec fn cliff_validation_panics(s: VestingSchedule, delay: u32, current_ledger: u32) -> bool {
    ||| cliff_end(s) > u64::MAX
    ||| {
        &&& delay <= MAX_CONVERSION_DELAY
        &&& current_ledger >= (cliff_end(s) as u64) as u32
        &&& {
            ||| s.end_time < s.start_time
            ||| !in_i128(total_vested(s))
            ||| (window(s) != 0 && !in_i128(total_vested(s) * cliff_span(s)))
            ||| (window(s) != 0 && !in_i128(cliff_amount(s) * delay))
            ||| (window(s) != 0 && !in_i128(s.released_amount + (cliff_amount(s) - forfeited(s, delay))))
        }
    }
}

/// The cliff amount is a share of what is left to vest, and the part of it
/// forfeited to a delay within the limit has its sign and is no larger.
proof fn lemma_cliff_amount_bounds(s: VestingSchedule, delay: u32)
    requires
        window(s) >= 1,
        delay <= MAX_CONVERSION_DELAY,
        in_i128(total_vested(s)),
        in_i128(total_vested(s) * cliff_span(s)),
    ensures
        in_i128(cliff_amount(s)),
        cliff_amount(s) >= 0 ==> 0 <= forfeited(s, delay) <= cliff_amount(s),
        cliff_amount(s) < 0 ==> cliff_amount(s) <= forfeited(s, delay) <= 0,
        total_vested(s) >= 0 ==> 0 <= cliff_amount(s) <= total_vested(s),
{
    let tv = total_vested(s);
    let w = window(s);
    let span = cliff_span(s);
    let x = tv * span;
    let c = cliff_amount(s);
    let d = delay as int;
    let cp = CLIFF_PERIOD as int;
    lemma_trunc_rem_bounds(x, w);
    assert(0 < span <= w);
    if tv >= 0 {
        assert(0 <= x <= tv * w) by (nonlinear_arith)
            requires
                tv >= 0,
                0 < span <= w,
                x == tv * span,
        ;
        assert(c <= tv) by (nonlinear_arith)
            requires
                x - w * c >= 0,
                x <= tv * w,
                w >= 1,
        ;
    }
    lemma_trunc_rem_bounds(c * d, cp);
    let f = forfeited(s, delay);
    if c >= 0 {
        assert(c * d >= 0) by (nonlinear_arith)
            requires
                c >= 0,
                d >= 0,
        ;
        assert(f <= c) by (nonlinear_arith)
            requires
                c * d - cp * f >= 0,
                0 <= d <= 100,
                cp == 1_555_200,
                c >= 0,
        ;
    } else {
        assert(c * d <= 0) by (nonlinear_arith)
            requires
                c < 0,
                d >= 0,
        ;
        assert(f >= c) by (nonlinear_arith)
            requires
                c * d - cp * f <= 0,
                0 <= d <= 100,
                cp == 1_555_200,
                c < 0,
        ;
    }
}

/// Validates that the cliff has been met, accounting for conversion
/// slippage, and returns the released amount plus what may now be
/// released: the amount vested over the cliff less the part forfeited in
/// proportion to the conversion delay. More delay never releases more.
pub fn validate_cliff_with_slippage(
    schedule: &VestingSchedule,
    conversion_delay_ledgers: u32,
    current_ledger: u32,
) -> (r: Result<i128, SchedulerError>)
    requires
        !cliff_validation_panics(*schedule, conversion_delay_ledgers, current_ledger),
    ensures
        r == cliff_validation(*schedule, conversion_delay_ledgers, current_ledger),
{
    let cliff_end = schedule.start_time + CLIFF_PERIOD as u64;
    if conversion_delay_ledgers > MAX_CONVERSION_DELAY {
        return Err(SchedulerError::SlippageThresholdExceeded);
    }
    if current_ledger < cliff_end as u32 {
        return Err(SchedulerError::CliffViolation);
    }
    let total_ledgers = schedule.end_time - schedule.start_time;
    if total_ledgers == 0 {
        return Err(SchedulerError::CliffViolation);
    }
    let total_vested = schedule.total_amount - schedule.released_amount;
    let span: i128 = if total_ledgers < CLIFF_PERIOD as u64 { total_ledgers as i128 } else { CLIFF_PERIOD as i128 };
    let cliff_amount = div_trunc(total_vested * span, total_ledgers as i128);
    proof {
        lemma_cliff_amount_bounds(*schedule, conversion_delay_ledgers);
    }
    let forfeited = div_trunc(cliff_amount * conversion_delay_ledgers as i128, CLIFF_PERIOD as i128);
    Ok(schedule.released_amount + (cliff_amount - forfeited))
}

/// Whether validating the cliff of `schedule` would overflow: the check a
/// caller makes before `validate_cliff_with_slippage`.
pub fn cliff_validation_overflows(schedule: &VestingSchedule, conversion_delay_ledgers: u32, current_ledger: u32) -> (r: bool)
    ensures
        r == cliff_validation_panics(*schedule, conversion_delay_ledgers, current_ledger),
{
    let cliff_end = match schedule.start_time.checked_add(CLIFF_PERIOD as u64) {
        Some(c) => c,
        None => return true,
    };
    if conversion_delay_ledgers > MAX_CONVERSION_DELAY {
        return false;
    }
    if current_ledger < cliff_end as u32 {
        return false;
    }
    if schedule.end_time < schedule.start_time {
        return true;
    }
    let total_vested = match schedule.total_amount.checked_sub(schedule.released_amount) {
        Some(v) => v,
        None => return true,
    };
    let total_ledgers = schedule.end_time - schedule.start_time;
    if total_ledgers == 0 {
        return false;
    }
    let span: i128 = if total_ledgers < CLIFF_PERIOD as u64 { total_ledgers as i128 } else { CLIFF_PERIOD as i128 };
    let scaled = match total_vested.checked_mul(span) {
        Some(v) => v,
        None => return true,
    };
    let cliff_amount = div_trunc(scaled, total_ledgers as i128);
    proof {
        lemma_cliff_amount_bounds(*schedule, conversion_delay_ledgers);
    }
    let delayed = match cliff_amount.checked_mul(conversion_delay_ledgers as i128) {
        Some(v) => v,
        None => return true,
    };
    let forfeited = div_trunc(delayed, CLIFF_PERIOD as i128);
    match schedule.released_amount.checked_add(cliff_amount - forfeited) {
        Some(_) => false,
        None => true,
    }
}

/// The schedule stored for a grant.
pub open spec fn stored_schedule(store: &VestingStore, grant_id: [u8; 32]) -> Option<VestingSchedule> {
    if store.schedules.view().contains_key(grant_id@) {
        Some(store.schedules.view()[grant_id@])
    } else {
        None
    }
}

/// What a release returns for the stored schedule `s`, if any.
pub open spec fn release_outcome(s: Option<VestingSchedule>, delay: u32, current_ledger: u32) -> Result<i128, VestingError> {
    match s {
        None => Err(VestingError::ScheduleNotFound),
        Some(s) => match cliff_validation(s, delay, current_ledger) {
            Err(_) => Err(VestingError::InvalidSchedule),
            Ok(adjusted) => if adjusted - s.released_amount <= 0 {
                Ok(0)
            } else {
                Ok((adjusted - s.released_amount) as i128)
            },
        },
    }
}

/// Releases vested tokens with cliff validation and slippage adjustment,
/// and returns the amount released. A missing schedule and every
/// validation failure are reported; a non-positive releasable amount
/// releases nothing.
pub fn release_vested_with_slippage(
    store: &mut VestingStore,
    current_ledger: u32,
    grant_id: [u8; 32],
    conversion_delay_ledgers: u32,
) -> (r: Result<i128, VestingError>)
    requires
        stored_schedule(old(store), grant_id) matches Some(s) ==> !cliff_validation_panics(s, conversion_delay_ledgers, current_ledger),
    ensures
        r == release_outcome(stored_schedule(old(store), grant_id), conversion_delay_ledgers, current_ledger),
        match stored_schedule(old(store), grant_id) {
            None => r == Err::<i128, VestingError>(VestingError::ScheduleNotFound)
                && final(store).schedules.view() == old(store).schedules.view()
                && final(store).events@ == old(store).events@,
            Some(s) => match cliff_validation(s, conversion_delay_ledgers, current_ledger) {
                Err(_) => r == Err::<i128, VestingError>(VestingError::InvalidSchedule)
                    && final(store).schedules.view() == old(store).schedules.view()
                    && final(store).events@ == old(store).events@,
                Ok(adjusted) => if adjusted - s.released_amount <= 0 {
                    r == Ok::<i128, VestingError>(0)
                        && final(store).schedules.view() == old(store).schedules.view()
                        && final(store).events@ == old(store).events@
                } else {
                    &&& r == Ok::<i128, VestingError>((adjusted - s.released_amount) as i128)
                    &&& final(store).schedules.view() == old(store).schedules.view().insert(
                        grant_id@,
                        VestingSchedule { released_amount: adjusted, ..s },
                    )
                    &&& final(store).events@ == old(store).events@.push(VestingEvent::Released {
                        grant_id,
                        releasable: (adjusted - s.released_amount) as i128,
                        adjusted_amount: adjusted,
                    })
                },
            },
        },
{
    let schedule = match store.schedules.get(grant_id.as_slice()) {
        Some(s) => *s,
        None => return Err(VestingError::ScheduleNotFound),
    };
    let adjusted_amount = match validate_cliff_with_slippage(&schedule, conversion_delay_ledgers, current_ledger) {
        Ok(a) => a,
        Err(_) => return Err(VestingError::InvalidSchedule),
    };
    proof {
        lemma_cliff_amount_bounds(schedule, conversion_delay_ledgers);
    }
    let releasable = adjusted_amount - schedule.released_amount;
    if releasable <= 0 {
        return Ok(0);
    }
    let updated = VestingSchedule { released_amount: schedule.released_amount + releasable, ..schedule };
    store.schedules.set(crate::bytes::copy_bytes(grant_id.as_slice()), updated);
    store.events.push(VestingEvent::Released { grant_id, releasable, adjusted_amount });
    Ok(releasable)
}

/// Nothing is released before the cliff: validation succeeds only once
/// the current ledger has reached the (32-bit) cliff end, and only for a
/// delay within the limit.
pub proof fn lemma_no_release_before_cliff(s: VestingSchedule, delay: u32, current_ledger: u32)
    requires
        cliff_validation(s, delay, current_ledger) is Ok,
    ensures
        current_ledger >= (cliff_end(s) as u64) as u32,
        delay <= MAX_CONVERSION_DELAY,
{
}

/// What a release leaves the schedule at stays between what was released
/// before and the total, for a schedule not released beyond its total.
pub proof fn lemma_release_within_total(s: VestingSchedule, delay: u32, current_ledger: u32)
    requires
        s.released_amount <= s.total_amount,
        !cliff_validation_panics(s, delay, current_ledger),
        cliff_validation(s, delay, current_ledger) is Ok,
    ensures
        s.released_amount <= cliff_validation(s, delay, current_ledger).unwrap() <= s.total_amount,
{
    lemma_cliff_amount_bounds(s, delay);
}

/// More conversion slippage never releases more: from the same schedule
/// and ledger, a longer delay validates to an amount no larger.
pub proof fn lemma_more_delay_releases_less(s: VestingSchedule, d1: u32, d2: u32, current_ledger: u32)
    requires
        s.released_amount <= s.total_amount,
        d1 <= d2,
        !cliff_validation_panics(s, d1, current_ledger),
        !cliff_validation_panics(s, d2, current_ledger),
        cliff_validation(s, d1, current_ledger) is Ok,
        cliff_validation(s, d2, current_ledger) is Ok,
    ensures
        cliff_validation(s, d2, current_ledger).unwrap() <= cliff_validation(s, d1, current_ledger).unwrap(),
{
    lemma_cliff_amount_bounds(s, d1);
    lemma_cliff_amount_bounds(s, d2);
    let c = cliff_amount(s);
    assert(c * d1 <= c * d2) by (nonlinear_arith)
        requires
            c >= 0,
            d1 <= d2,
    ;
    assert(c * d1 >= 0) by (nonlinear_arith)
        requires
            c >= 0,
            d1 >= 0,
    ;
    vstd::arithmetic::div_mod::lemma_div_is_ordered(c * d1, c * d2, CLIFF_PERIOD as int);
}

/// More slippage never releases more: two releases from the same stored
/// schedule at the same ledger, with delays `d1 <= d2`, release `r2 <= r1`,
/// neither is negative, and neither takes the released amount past the
/// total of a schedule not released beyond it.
pub proof fn lemma_release_never_grows_with_slippage(s: VestingSchedule, d1: u32, d2: u32, current_ledger: u32)
    requires
        s.released_amount <= s.total_amount,
        d1 <= d2,
        !cliff_validation_panics(s, d1, current_ledger),
        !cliff_validation_panics(s, d2, current_ledger),
        release_outcome(Some(s), d1, current_ledger) is Ok,
        release_outcome(Some(s), d2, current_ledger) is Ok,
    ensures
        0 <= release_outcome(Some(s), d2, current_ledger).unwrap() <= release_outcome(Some(s), d1, current_ledger).unwrap(),
        s.released_amount + release_outcome(Some(s), d1, current_ledger).unwrap() <= s.total_amount,
        s.released_amount + release_outcome(Some(s), d2, current_ledger).unwrap() <= s.total_amount,
{
    lemma_more_delay_releases_less(s, d1, d2, current_ledger);
    lemma_release_within_total(s, d1, current_ledger);
    lemma_release_within_total(s, d2, current_ledger);
}

/// What is released at the cliff is the cliff's share of the vesting
/// window: with no delay, over a window of at least `CLIFF_PERIOD` ledgers
/// the amount released is the largest `c` with
/// `c * window <= (total - released) * CLIFF_PERIOD`, and over a shorter
/// window it is all that is left. A delay of `d` ledgers forfeits the
/// largest `f` with `f * CLIFF_PERIOD <= c * d` of it.
pub proof fn lemma_cliff_release_is_window_share(s: VestingSchedule, delay: u32, current_ledger: u32)
    requires
        s.released_amount <= s.total_amount,
        !cliff_validation_panics(s, 0, current_ledger),
        !cliff_validation_panics(s, delay, current_ledger),
        cliff_validation(s, 0, current_ledger) is Ok,
        cliff_validation(s, delay, current_ledger) is Ok,
    ensures
        ({
            let c = cliff_validation(s, 0, current_ledger).unwrap() - s.released_amount;
            let f = cliff_validation(s, 0, current_ledger).unwrap() - cliff_validation(s, delay, current_ledger).unwrap();
            let left = s.total_amount - s.released_amount;
            let w = s.end_time - s.start_time;
            &&& w >= CLIFF_PERIOD ==> c * w <= left * CLIFF_PERIOD < (c + 1) * w
            &&& w < CLIFF_PERIOD ==> c == left
            &&& f * CLIFF_PERIOD <= c * delay < (f + 1) * CLIFF_PERIOD
        }),
{
    lemma_cliff_amount_bounds(s, 0);
    lemma_cliff_amount_bounds(s, delay);
    let tv = total_vested(s);
    let w = window(s);
    let span = cliff_span(s);
    let c = cliff_amount(s);
    let cp = CLIFF_PERIOD as int;
    let d = delay as int;
    assert(forfeited(s, 0) == 0);
    assert(cliff_validation(s, 0, current_ledger).unwrap() == s.released_amount + c);
    assert(tv * span >= 0) by (nonlinear_arith)
        requires
            tv >= 0,
            span >= 0,
    ;
    vstd::arithmetic::div_mod::lemma_fundamental_div_mod(tv * span, w);
    if w < CLIFF_PERIOD {
        assert(span == w);
        vstd::arithmetic::div_mod::lemma_div_by_multiple(tv, w);
        assert(tv * span == tv * w);
    } else {
        assert(span == cp);
        assert(c * w <= tv * cp < (c + 1) * w) by (nonlinear_arith)
            requires
                tv * cp == w * c + (tv * cp) % w,
                0 <= (tv * cp) % w < w,
        ;
    }
    assert(c * d >= 0) by (nonlinear_arith)
        requires
            c >= 0,
            d >= 0,
    ;
    let f = forfeited(s, delay);
    vstd::arithmetic::div_mod::lemma_fundamental_div_mod(c * d, cp);
    assert(f * cp <= c * d < (f + 1) * cp) by (nonlinear_arith)
        requires
            c * d == cp * f + (c * d) % cp,
            0 <= (c * d) % cp < cp,
    ;
}

} // verus!
