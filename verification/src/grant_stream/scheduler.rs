use vstd::prelude::*;

use crate::arith::{div_trunc, in_i128, lemma_scaled_is_not_min, trunc_div};

verus! {

/// Fixed-point multiplier: 10^7 for 7-decimal precision.
pub const FIXED_POINT_SCALE: i128 = 10_000_000;

/// Maximum rate numerator (10000 = 100% in basis points).
pub const MAX_RATE_BASIS_POINTS: i128 = 10_000;

/// Errors of the grant scheduler.
#[derive(Clone, Copy, Debug, PartialEq, Eq, Structural)]
pub enum SchedulerError {
    InvalidRate,
    Overflow,
    ZeroTotalAmount,
    PrecisionLoss,
}

/// Parameters and progress of a streaming grant.
#[derive(Clone, Copy, Debug, PartialEq, Eq, Structural)]
pub struct GrantSchedule {
    /// Total grant amount to distribute.
    pub total_amount: i128,
    /// Rate numerator in basis points (10000 = 100%).
    pub rate_numerator: i128,
    /// Rate denominator in basis points.
    pub rate_denominator: i128,
    /// Total distribution period in seconds.
    pub total_period_seconds: u64,
    /// Amount already distributed.
    pub distributed_amount: i128,
    /// Timestamp of the last distribution.
    pub last_distribution_at: u64,
    /// Whether the schedule is active.
    pub is_active: bool,
}

impl GrantSchedule {
    /// `total_amount * rate_numerator * FIXED_POINT_SCALE`.
    pub open spec fn slice_numerator(self) -> int {
        self.total_amount * self.rate_numerator * FIXED_POINT_SCALE
    }

    /// `rate_denominator * total_period_seconds`.
    pub open spec fn slice_denominator(self) -> int {
        self.rate_denominator * self.total_period_seconds
    }

    /// The numerator rounded to nearest: numerator plus half the denominator.
    pub open spec fn slice_rounded(self) -> int {
        self.slice_numerator() + trunc_div(self.slice_denominator(), 2)
    }

    /// The error the payout computation stops at, if any.
    pub open spec fn slice_error(self) -> Option<SchedulerError> {
        if self.total_amount == 0 {
            Some(SchedulerError::ZeroTotalAmount)
        } else if self.rate_denominator == 0 {
            Some(SchedulerError::InvalidRate)
        } else if self.rate_numerator > MAX_RATE_BASIS_POINTS || self.rate_numerator < 0 {
            Some(SchedulerError::InvalidRate)
        } else if !in_i128(self.total_amount * self.rate_numerator) {
            Some(SchedulerError::Overflow)
        } else if !in_i128(self.slice_numerator()) {
            Some(SchedulerError::Overflow)
        } else if !in_i128(self.slice_denominator()) {
            Some(SchedulerError::Overflow)
        } else if !in_i128(self.slice_rounded()) {
            Some(SchedulerError::Overflow)
        } else {
            None
        }
    }

    /// The payout of a slice, once no error applies: the scaled numerator
    /// divided by `rate_denominator * total_period_seconds` rounding to
    /// nearest, then divided by `FIXED_POINT_SCALE` (rounding toward zero).
    pub open spec fn slice_payout(self) -> int {
        trunc_div(trunc_div(self.slice_rounded(), self.slice_denominator()), FIXED_POINT_SCALE as int)
    }

    pub open spec fn payout_slice(self) -> Result<i128, SchedulerError> {
        match self.slice_error() {
            Some(e) => Err(e),
            None => Ok(self.slice_payout() as i128),
        }
    }

    /// The inputs on which the payout computation panics: the formula
    /// divides by `rate_denominator * total_period_seconds`, which is zero
    /// for a zero period.
    pub open spec fn slice_panics(self, elapsed: u64) -> bool {
        &&& self.slice_error() is None
        &&& self.total_period_seconds == 0
    }

    /// Computes the payout slice: `total_amount * rate_numerator *
    /// FIXED_POINT_SCALE / (rate_denominator * total_period_seconds)`,
    /// multiplying before dividing and rounding that division to nearest,
    /// then divided by `FIXED_POINT_SCALE`. The result does not depend on
    /// `elapsed_seconds`.
    pub fn calculate_payout_slice(&self, elapsed_seconds: u64) -> (r: Result<i128, SchedulerError>)
        requires
            !self.slice_panics(elapsed_seconds),
        ensures
            r == self.payout_slice(),
    {
        if self.total_amount == 0 {
            return Err(SchedulerError::ZeroTotalAmount);
        }
        if self.rate_denominator == 0 {
            return Err(SchedulerError::InvalidRate);
        }
        if self.rate_numerator > MAX_RATE_BASIS_POINTS || self.rate_numerator < 0 {
            return Err(SchedulerError::InvalidRate);
        }
        let numerator_step1 = match self.total_amount.checked_mul(self.rate_numerator) {
            Some(v) => v,
            None => return Err(SchedulerError::Overflow),
        };
        let numerator = match numerator_step1.checked_mul(FIXED_POINT_SCALE) {
            Some(v) => v,
            None => return Err(SchedulerError::Overflow),
        };
        assert(numerator == self.slice_numerator()) by (nonlinear_arith)
            requires
                numerator == numerator_step1 * FIXED_POINT_SCALE,
                numerator_step1 == self.total_amount * self.rate_numerator,
        ;
        let denominator = match self.rate_denominator.checked_mul(self.total_period_seconds as i128) {
            Some(v) => v,
            None => return Err(SchedulerError::Overflow),
        };
        let half_denominator = div_trunc(denominator, 2);
        let rounded_numerator = match numerator.checked_add(half_denominator) {
            Some(v) => v,
            None => return Err(SchedulerError::Overflow),
        };
        assert(denominator != 0) by (nonlinear_arith)
            requires
                denominator == self.rate_denominator * self.total_period_seconds,
                self.rate_denominator != 0,
                self.total_period_seconds != 0,
        ;
        proof {
            if denominator == -1 {
                assert(half_denominator == 0);
                lemma_scaled_is_not_min(numerator_step1 as int);
            }
        }
        let quotient = div_trunc(rounded_numerator, denominator);
        let payout = div_trunc(quotient, FIXED_POINT_SCALE);
        assert(denominator == self.slice_denominator());
        assert(rounded_numerator == self.slice_rounded());
        assert(quotient == trunc_div(self.slice_rounded(), self.slice_denominator()));
        assert(payout == self.slice_payout());
        Ok(payout)
    }

    /// Whether computing the payout slice of `elapsed_seconds` would panic:
    /// the check a caller makes before `calculate_payout_slice`.
    pub fn payout_slice_panics(&self, elapsed_seconds: u64) -> (r: bool)
        ensures
            r == self.slice_panics(elapsed_seconds),
    {
        if self.total_amount == 0 || self.rate_denominator == 0 {
            return false;
        }
        if self.rate_numerator > MAX_RATE_BASIS_POINTS || self.rate_numerator < 0 {
            return false;
        }
        let numerator_step1 = match self.total_amount.checked_mul(self.rate_numerator) {
            Some(v) => v,
            None => return false,
        };
        let numerator = match numerator_step1.checked_mul(FIXED_POINT_SCALE) {
            Some(v) => v,
            None => return false,
        };
        assert(numerator == self.slice_numerator()) by (nonlinear_arith)
            requires
                numerator == numerator_step1 * FIXED_POINT_SCALE,
                numerator_step1 == self.total_amount * self.rate_numerator,
        ;
        let denominator = match self.rate_denominator.checked_mul(self.total_period_seconds as i128) {
            Some(v) => v,
            None => return false,
        };
        let half_denominator = div_trunc(denominator, 2);
        match numerator.checked_add(half_denominator) {
            Some(_) => self.total_period_seconds == 0,
            None => false,
        }
    }

    /// The cumulative distribution at `current_time`.
    pub open spec fn cumulative_distribution(self, current_time: u64) -> Result<i128, SchedulerError> {
        if !self.is_active {
            Ok(self.distributed_amount)
        } else if current_time <= self.last_distribution_at {
            Ok(self.distributed_amount)
        } else {
            let elapsed = (current_time - self.last_distribution_at) as u64;
            match self.payout_slice() {
                Err(e) => Err(e),
                Ok(slice) => if !in_i128(self.distributed_amount + slice) {
                    Err(SchedulerError::Overflow)
                } else if self.distributed_amount + slice < self.total_amount {
                    Ok((self.distributed_amount + slice) as i128)
                } else {
                    Ok(self.total_amount)
                },
            }
        }
    }

    /// Whether computing the cumulative distribution at `current_time` panics.
    pub open spec fn cumulative_panics(self, current_time: u64) -> bool {
        &&& self.is_active
        &&& current_time > self.last_distribution_at
        &&& self.slice_panics((current_time - self.last_distribution_at) as u64)
    }

    /// Calculates the cumulative distribution up to `current_time`, capped
    /// at `total_amount`.
    pub fn calculate_cumulative_distribution(&self, current_time: u64) -> (r: Result<i128, SchedulerError>)
        requires
            !self.cumulative_panics(current_time),
        ensures
            r == self.cumulative_distribution(current_time),
    {
        if !self.is_active {
            return Ok(self.distributed_amount);
        }
        let elapsed = if current_time > self.last_distribution_at {
            current_time - self.last_distribution_at
        } else {
            0
        };
        if elapsed == 0 {
            return Ok(self.distributed_amount);
        }
        let payout_slice = match self.calculate_payout_slice(elapsed) {
            Ok(v) => v,
            Err(e) => return Err(e),
        };
        let cumulative = match self.distributed_amount.checked_add(payout_slice) {
            Some(v) => v,
            None => return Err(SchedulerError::Overflow),
        };
        if cumulative < self.total_amount {
            Ok(cumulative)
        } else {
            Ok(self.total_amount)
        }
    }

    /// The schedule after advancing by a slice of `seconds` at time `now`,
    /// with the new distributed amount, or the error that stops it.
    pub open spec fn advanced(self, now: u64, seconds: u64) -> Result<GrantSchedule, SchedulerError> {
        match self.payout_slice() {
            Err(e) => Err(e),
            Ok(slice) => if !in_i128(self.distributed_amount + slice) {
                Err(SchedulerError::Overflow)
            } else {
                let capped = if self.distributed_amount + slice < self.total_amount {
                    (self.distributed_amount + slice) as i128
                } else {
                    self.total_amount
                };
                Ok(GrantSchedule {
                    distributed_amount: capped,
                    last_distribution_at: now,
                    is_active: if capped >= self.total_amount { false } else { self.is_active },
                    ..self
                })
            },
        }
    }

    /// Advances the schedule by a slice of `seconds`, at ledger time `now`,
    /// and returns the new distributed amount. On error the schedule is left
    /// unchanged.
    pub fn advance(&mut self, now: u64, seconds: u64) -> (r: Result<i128, SchedulerError>)
        requires
            !old(self).slice_panics(seconds),
        ensures
            match old(self).advanced(now, seconds) {
                Ok(s) => *final(self) == s && r == Ok::<i128, SchedulerError>(s.distributed_amount),
                Err(e) => *final(self) == *old(self) && r == Err::<i128, SchedulerError>(e),
            },
    {
        let payout_slice = match self.calculate_payout_slice(seconds) {
            Ok(v) => v,
            Err(e) => return Err(e),
        };
        let new_distributed = match self.distributed_amount.checked_add(payout_slice) {
            Some(v) => v,
            None => return Err(SchedulerError::Overflow),
        };
        self.distributed_amount = if new_distributed < self.total_amount {
            new_distributed
        } else {
            self.total_amount
        };
        self.last_distribution_at = now;
        if self.distributed_amount >= self.total_amount {
            self.is_active = false;
        }
        Ok(self.distributed_amount)
    }
}

/// Fixed-point product: `(a * b) / FIXED_POINT_SCALE`, rounding toward zero.
pub fn fixed_point_mul(a: i128, b: i128) -> (r: Result<i128, SchedulerError>)
    ensures
        r == (if in_i128(a * b) {
            Ok::<i128, SchedulerError>(trunc_div(a * b, FIXED_POINT_SCALE as int) as i128)
        } else {
            Err::<i128, SchedulerError>(SchedulerError::Overflow)
        }),
{
    let product = match a.checked_mul(b) {
        Some(v) => v,
        None => return Err(SchedulerError::Overflow),
    };
    Ok(div_trunc(product, FIXED_POINT_SCALE))
}

/// Fixed-point quotient: `(a * FIXED_POINT_SCALE) / b`, rounding toward zero.
pub fn fixed_point_div(a: i128, b: i128) -> (r: Result<i128, SchedulerError>)
    ensures
        r == (if b == 0 {
            Err::<i128, SchedulerError>(SchedulerError::InvalidRate)
        } else if !in_i128(a * FIXED_POINT_SCALE) {
            Err::<i128, SchedulerError>(SchedulerError::Overflow)
        } else {
            Ok::<i128, SchedulerError>(trunc_div(a * FIXED_POINT_SCALE, b as int) as i128)
        }),
{
    if b == 0 {
        return Err(SchedulerError::InvalidRate);
    }
    let numerator = match a.checked_mul(FIXED_POINT_SCALE) {
        Some(v) => v,
        None => return Err(SchedulerError::Overflow),
    };
    proof {
        lemma_scaled_is_not_min(a as int);
    }
    Ok(div_trunc(numerator, b))
}

/// A slice never exceeds the grant: with a positive total, period and rate
/// denominator and a rate of at most 100%, a payout that is computed lies
/// between zero and the total.
pub proof fn lemma_slice_within_total(s: GrantSchedule)
    requires
        s.total_amount > 0,
        s.rate_denominator > 0,
        0 <= s.rate_numerator <= s.rate_denominator,
        s.total_period_seconds > 0,
        s.slice_error() is None,
    ensures
        0 <= s.slice_payout() <= s.total_amount,
{
    let t = s.total_amount as int;
    let r = s.rate_numerator as int;
    let d = s.rate_denominator as int;
    let p = s.total_period_seconds as int;
    let f = FIXED_POINT_SCALE as int;
    let n = s.slice_numerator();
    let den = s.slice_denominator();
    assert(n == t * r * f);
    assert(den == d * p);
    assert(den >= 1) by (nonlinear_arith)
        requires
            d >= 1,
            p >= 1,
            den == d * p,
    ;
    assert(0 <= n <= t * f * den) by (nonlinear_arith)
        requires
            n == t * r * f,
            den == d * p,
            t > 0,
            0 <= r <= d,
            p >= 1,
            f > 0,
    ;
    let half = trunc_div(den, 2);
    assert(0 <= half < den);
    let rounded = s.slice_rounded();
    assert(rounded == n + half);
    let q = trunc_div(rounded, den);
    vstd::arithmetic::div_mod::lemma_fundamental_div_mod(rounded, den);
    assert(0 <= q <= t * f) by (nonlinear_arith)
        requires
            rounded == den * (rounded / den) + rounded % den,
            0 <= rounded % den < den,
            0 <= rounded < t * f * den + den,
            den >= 1,
            q == rounded / den,
            t * f >= 0,
    ;
    vstd::arithmetic::div_mod::lemma_fundamental_div_mod(q, f);
    assert(0 <= q / f <= t) by (nonlinear_arith)
        requires
            0 <= q <= t * f,
            f > 0,
            q == f * (q / f) + q % f,
            0 <= q % f < f,
    ;
}

/// The cumulative distribution never exceeds the total of a schedule that
/// has not over-distributed.
pub proof fn lemma_cumulative_capped(s: GrantSchedule, current_time: u64)
    requires
        s.distributed_amount <= s.total_amount,
    ensures
        s.cumulative_distribution(current_time) matches Ok(c) ==> c <= s.total_amount,
{
}

/// Advancing keeps the distributed amount within the total, never lowers
/// it below the capped sum, and deactivates the schedule once the total is
/// reached.
pub proof fn lemma_advance_keeps_cap(s: GrantSchedule, now: u64, seconds: u64)
    requires
        s.distributed_amount <= s.total_amount,
    ensures
        s.advanced(now, seconds) matches Ok(s2) ==> {
            &&& s2.distributed_amount <= s2.total_amount
            &&& s2.total_amount == s.total_amount
            &&& s2.distributed_amount == s2.total_amount ==> !s2.is_active
            &&& s2.last_distribution_at == now
        },
{
}

/// The cumulative distribution is the distributed amount plus the new
/// slice, capped at the total: for an active schedule some time after its
/// last distribution, with a slice `p` computed and no overflow, it is
/// `distributed + p` while that stays below the total and exactly the total
/// once it reaches it, so a grant shows as fully distributed. Before any
/// time has passed, or for an inactive schedule, it is the distributed
/// amount.
pub proof fn lemma_cumulative_is_capped_sum(s: GrantSchedule, current_time: u64)
    ensures
        (s.is_active && current_time > s.last_distribution_at && s.payout_slice() is Ok
            && in_i128(s.distributed_amount + s.payout_slice().unwrap())) ==> {
            let sum = s.distributed_amount + s.payout_slice().unwrap();
            &&& s.cumulative_distribution(current_time) is Ok
            &&& s.cumulative_distribution(current_time).unwrap() <= s.total_amount
            &&& s.cumulative_distribution(current_time).unwrap() <= sum
            &&& (sum <= s.total_amount ==> s.cumulative_distribution(current_time).unwrap() == sum)
            &&& (sum >= s.total_amount ==> s.cumulative_distribution(current_time).unwrap() == s.total_amount)
        },
        (!s.is_active || current_time <= s.last_distribution_at)
            ==> s.cumulative_distribution(current_time) == Ok::<i128, SchedulerError>(s.distributed_amount),
{
}

/// Advancing adds the slice to the distributed amount, capped at the
/// total, records the time, and ends the schedule exactly when the total
/// is reached.
pub proof fn lemma_advance_is_capped_sum(s: GrantSchedule, now: u64, seconds: u64)
    ensures
        (s.payout_slice() is Ok && in_i128(s.distributed_amount + s.payout_slice().unwrap())) ==> {
            let sum = s.distributed_amount + s.payout_slice().unwrap();
            let s2 = s.advanced(now, seconds).unwrap();
            &&& s.advanced(now, seconds) is Ok
            &&& (sum <= s.total_amount ==> s2.distributed_amount == sum)
            &&& (sum >= s.total_amount ==> s2.distributed_amount == s.total_amount)
            &&& s2.last_distribution_at == now
            &&& (s2.distributed_amount >= s.total_amount ==> !s2.is_active)
            &&& (s2.distributed_amount < s.total_amount ==> s2.is_active == s.is_active)
            &&& s2.total_amount == s.total_amount
        },
{
}

/// The slice is the grant's rate over the period, rounded to the nearest
/// fixed-point unit and then truncated to whole units: for a positive
/// total, rate denominator and period and a non-negative rate, the payout
/// `p` is the largest with `p * D * F <= N + D / 2`, where
/// `N = total * rate_numerator * F`, `D = rate_denominator * period` and
/// `F = FIXED_POINT_SCALE`; it does not depend on the elapsed time.
pub proof fn lemma_slice_is_rounded_rate(s: GrantSchedule)
    requires
        s.total_amount > 0,
        s.rate_denominator > 0,
        s.rate_numerator >= 0,
        s.total_period_seconds > 0,
        s.payout_slice() is Ok,
    ensures
        ({
            let p = s.payout_slice().unwrap() as int;
            let f = FIXED_POINT_SCALE as int;
            let d = s.rate_denominator * s.total_period_seconds;
            let n = s.total_amount * s.rate_numerator * f;
            &&& p * d * f <= n + d / 2
            &&& n + d / 2 < (p + 1) * d * f
        }),
{
    let f = FIXED_POINT_SCALE as int;
    let d = s.slice_denominator();
    let n = s.slice_numerator();
    assert(d >= 1) by (nonlinear_arith)
        requires
            s.rate_denominator >= 1,
            s.total_period_seconds >= 1,
            d == s.rate_denominator * s.total_period_seconds,
    ;
    assert(n >= 0) by (nonlinear_arith)
        requires
            s.total_amount > 0,
            s.rate_numerator >= 0,
            f > 0,
            n == s.total_amount * s.rate_numerator * f,
    ;
    let rounded = s.slice_rounded();
    assert(rounded == n + d / 2);
    let q = rounded / d;
    vstd::arithmetic::div_mod::lemma_fundamental_div_mod(rounded, d);
    assert(q >= 0) by (nonlinear_arith)
        requires
            rounded >= 0,
            d >= 1,
            q == rounded / d,
    ;
    let p = q / f;
    vstd::arithmetic::div_mod::lemma_fundamental_div_mod(q, f);
    assert(p == s.slice_payout());
    assert(p * d * f <= rounded < (p + 1) * d * f) by (nonlinear_arith)
        requires
            rounded == d * q + rounded % d,
            0 <= rounded % d < d,
            q == f * p + q % f,
            0 <= q % f < f,
            d >= 1,
            f >= 1,
    ;
}

} // verus!
