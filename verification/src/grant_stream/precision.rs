//! Truncation-remainder tracking for streaming accrual: the fraction a
//! division truncates is carried into the next period instead of being
//! discarded.

use vstd::prelude::*;

use crate::arith::{div_trunc, in_i128, trunc_div};

verus! {

/// The storage entry of the carried remainder.
#[derive(Clone, Copy, Debug, PartialEq, Eq, Structural)]
pub enum PrecisionKey {
    /// Remainder carried from previous accrual periods.
    TruncationRemainder,
}

/// Scaling factor for fixed-point arithmetic (7 decimal places).
pub const FP_SCALE: i128 = 10_000_000;

/// Events published by the accumulator.
#[derive(Clone, Copy, Debug, PartialEq, Eq, Structural)]
pub enum PrecisionEvent {
    /// An accrual and the remainder it carries forward.
    Accrued { accrued: i128, remainder: i128 },
    /// A positive remainder was flushed.
    Flushed { remainder: i128 },
}

/// Instance storage of the accumulator and its published events.
pub struct PrecisionStore {
    /// `PrecisionKey::TruncationRemainder`.
    pub truncation_remainder: Option<i128>,
    /// Published events, oldest first.
    pub events: Vec<PrecisionEvent>,
}

impl PrecisionStore {
    pub fn new() -> (s: Self)
        ensures
            s.truncation_remainder is None,
            s.events@.len() == 0,
    {
        PrecisionStore { truncation_remainder: None, events: Vec::new() }
    }

    /// The carried remainder: 0 where none is stored.
    pub open spec fn remainder(&self) -> i128 {
        match self.truncation_remainder {
            Some(r) => r,
            None => 0,
        }
    }
}

/// The amount of a period in scaled units: `base_accrued` scaled by
/// `multiplier` (basis points, 10000 stands for 100%), plus the remainder
/// carried, which is kept in the same scaled units.
pub open spec fn scaled_of(remainder: int, base_accrued: int, multiplier: int) -> int {
    base_accrued * multiplier + remainder
}

/// What one accrual pays: the scaled amount divided by 10000, rounding
/// toward zero.
pub open spec fn step_accrued(remainder: int, base_accrued: int, multiplier: int) -> int {
    trunc_div(scaled_of(remainder, base_accrued, multiplier), 10000)
}

/// What one accrual carries forward: the part of the scaled amount the
/// division truncated.
pub open spec fn step_remainder(remainder: int, base_accrued: int, multiplier: int) -> int {
    scaled_of(remainder, base_accrued, multiplier) - 10000 * step_accrued(remainder, base_accrued, multiplier)
}

/// The remainder after a sequence of accruals `calls` (pairs of base and
/// multiplier, oldest first), starting from `remainder`.
pub open spec fn run_remainder(remainder: int, calls: Seq<(int, int)>) -> int
    decreases calls.len(),
{
    if calls.len() == 0 {
        remainder
    } else {
        let r = run_remainder(remainder, calls.drop_last());
        step_remainder(r, calls.last().0, calls.last().1)
    }
}

/// The total paid by a sequence of accruals starting from `remainder`.
pub open spec fn run_accrued(remainder: int, calls: Seq<(int, int)>) -> int
    decreases calls.len(),
{
    if calls.len() == 0 {
        0
    } else {
        let r = run_remainder(remainder, calls.drop_last());
        run_accrued(remainder, calls.drop_last()) + step_accrued(r, calls.last().0, calls.last().1)
    }
}

/// The exact total of a sequence of accruals in scaled units: the sum of
/// `base * multiplier`.
pub open spec fn exact_scaled_total(calls: Seq<(int, int)>) -> int
    decreases calls.len(),
{
    if calls.len() == 0 {
        0
    } else {
        exact_scaled_total(calls.drop_last()) + calls.last().0 * calls.last().1
    }
}

/// No drift: over any sequence of accruals, what is paid times 10000 plus
/// the remainder left equals the exact scaled total plus the remainder
/// carried in; nothing is lost or counted twice. Where every scaled amount
/// is non-negative and the run starts from a remainder in `[0, 10000)`,
/// the remainder stays in `[0, 10000)`, so the total paid is the exact
/// total divided by 10000, rounded down.
pub proof fn lemma_no_drift(remainder: int, calls: Seq<(int, int)>)
    ensures
        run_accrued(remainder, calls) * 10000 + run_remainder(remainder, calls)
            == exact_scaled_total(calls) + remainder,
        (0 <= remainder < 10000 && forall|i: int| 0 <= i < calls.len() ==> (#[trigger] calls[i]).0 * calls[i].1 >= 0)
            ==> 0 <= run_remainder(remainder, calls) < 10000,
    decreases calls.len(),
{
    if calls.len() > 0 {
        let prefix = calls.drop_last();
        assert forall|i: int| 0 <= i < prefix.len() implies (#[trigger] prefix[i]) == calls[i] by {}
        lemma_no_drift(remainder, prefix);
        let r = run_remainder(remainder, prefix);
        let (b, m) = calls.last();
        lemma_trunc_rem_bounds(scaled_of(r, b, m), 10000);
        if 0 <= remainder < 10000 && forall|i: int| 0 <= i < calls.len() ==> (#[trigger] calls[i]).0 * calls[i].1 >= 0 {
            assert(calls[calls.len() - 1] == calls.last());
            assert(0 <= r < 10000);
        }
    }
}

/// The sum of a sequence of amounts.
pub open spec fn sum_of(s: Seq<int>) -> int
    decreases s.len(),
{
    if s.len() == 0 {
        0
    } else {
        sum_of(s.drop_last()) + s.last()
    }
}

/// No drift across calls: take `k` consecutive calls of
/// `calculate_accrued_with_remainder`, call `i` finding the remainder
/// `rems[i]`, made with the base and multiplier `calls[i]`, paying
/// `accrued[i]` and leaving `rems[i + 1]`, as its `ensures` states. Then the
/// total paid times 10000 plus the remainder left equals the sum of
/// `base * multiplier` plus the remainder found at the start: the truncated
/// fraction is carried forward, never lost or counted twice. From a fresh
/// or reset accumulator with non-negative products, the remainder stays in
/// `[0, 10000)`, so the total paid is the exact total divided by 10000,
/// rounded down.
pub proof fn lemma_no_drift_across_calls(rems: Seq<int>, accrued: Seq<int>, calls: Seq<(int, int)>)
    requires
        rems.len() == calls.len() + 1,
        accrued.len() == calls.len(),
        forall|i: int| 0 <= i < calls.len() ==> {
            &&& #[trigger] accrued[i] == step_accrued(rems[i], calls[i].0, calls[i].1)
            &&& rems[i + 1] == step_remainder(rems[i], calls[i].0, calls[i].1)
        },
    ensures
        sum_of(accrued) * 10000 + rems.last() == exact_scaled_total(calls) + rems[0],
        (0 <= rems[0] < 10000 && forall|i: int| 0 <= i < calls.len() ==> (#[trigger] calls[i]).0 * calls[i].1 >= 0)
            ==> 0 <= rems.last() < 10000,
    decreases calls.len(),
{
    let k = calls.len();
    if k > 0 {
        let r2 = rems.drop_last();
        let a2 = accrued.drop_last();
        let c2 = calls.drop_last();
        assert forall|i: int| 0 <= i < c2.len() implies {
            &&& #[trigger] a2[i] == step_accrued(r2[i], c2[i].0, c2[i].1)
            &&& r2[i + 1] == step_remainder(r2[i], c2[i].0, c2[i].1)
        } by {
            assert(accrued[i] == step_accrued(rems[i], calls[i].0, calls[i].1));
        }
        lemma_no_drift_across_calls(r2, a2, c2);
        assert(accrued[k - 1] == step_accrued(rems[k - 1], calls[k - 1].0, calls[k - 1].1));
        assert(calls.last() == calls[k - 1]);
        let (b, m) = calls[k - 1];
        lemma_trunc_rem_bounds(scaled_of(rems[k - 1], b, m), 10000);
        if 0 <= rems[0] < 10000 && forall|i: int| 0 <= i < calls.len() ==> (#[trigger] calls[i]).0 * calls[i].1 >= 0 {
            assert forall|i: int| 0 <= i < c2.len() implies (#[trigger] c2[i]).0 * c2[i].1 >= 0 by {
                assert(c2[i] == calls[i]);
            }
            assert(calls[k - 1].0 * calls[k - 1].1 >= 0);
        }
    }
}

/// Computes the accrued amount of a period with remainder carry-forward:
/// `base_accrued` is scaled by `multiplier` (basis points), the carried
/// remainder (in the same scaled units) is added, and the sum is divided by
/// 10000 rounding toward zero; what the division truncates is stored as the
/// new remainder.
///
/// Per call nothing is lost: `accrued * 10000 + new remainder` equals the
/// scaled amount, and the new remainder is smaller than 10000 in magnitude.
pub fn calculate_accrued_with_remainder(store: &mut PrecisionStore, base_accrued: i128, multiplier: i128) -> (accrued: i128)
    requires
        in_i128(base_accrued * multiplier),
        in_i128(scaled_of(old(store).remainder() as int, base_accrued as int, multiplier as int)),
    ensures
        accrued == step_accrued(old(store).remainder() as int, base_accrued as int, multiplier as int),
        final(store).truncation_remainder
            == Some(step_remainder(old(store).remainder() as int, base_accrued as int, multiplier as int) as i128),
        accrued * 10000 + final(store).remainder() == scaled_of(old(store).remainder() as int, base_accrued as int, multiplier as int),
        -10000 < final(store).remainder() < 10000,
        final(store).events@ == old(store).events@.push(PrecisionEvent::Accrued {
            accrued,
            remainder: final(store).remainder(),
        }),
{
    let remainder: i128 = match store.truncation_remainder {
        Some(r) => r,
        None => 0,
    };
    let product = base_accrued * multiplier;
    let scaled = product + remainder;
    let accrued = div_trunc(scaled, 10000);
    proof {
        lemma_trunc_rem_bounds(scaled as int, 10000);
    }
    let new_remainder = scaled - accrued * 10000;
    store.truncation_remainder = Some(new_remainder);
    store.events.push(PrecisionEvent::Accrued { accrued, remainder: new_remainder });
    accrued
}

/// The remainder of `trunc_div` by a positive divisor is smaller than the
/// divisor in magnitude and has the sign of the dividend.
pub proof fn lemma_trunc_rem_bounds(a: int, d: int)
    requires
        d > 0,
    ensures
        a >= 0 ==> 0 <= a - d * trunc_div(a, d) < d,
        a < 0 ==> -d < a - d * trunc_div(a, d) <= 0,
        a >= 0 ==> 0 <= trunc_div(a, d) <= a,
        a < 0 ==> a <= trunc_div(a, d) <= 0,
{
    if a >= 0 {
        vstd::arithmetic::div_mod::lemma_fundamental_div_mod(a, d);
        assert(0 <= a / d <= a) by (nonlinear_arith)
            requires
                a >= 0,
                d > 0,
        ;
    } else {
        vstd::arithmetic::div_mod::lemma_fundamental_div_mod(-a, d);
        vstd::arithmetic::div_mod::lemma_mod_bound(-a, d);
        assert(0 <= (-a) / d <= -a) by (nonlinear_arith)
            requires
                -a > 0,
                d > 0,
        ;
        let q = (-a) / d;
        let r = (-a) % d;
        assert(a - d * (-q) == -r) by (nonlinear_arith)
            requires
                -a == d * q + r,
        ;
    }
}

/// Flushes a positive accumulated remainder: it is reset to zero and
/// returned. A non-positive remainder is returned and left in place.
pub fn flush_remainder(store: &mut PrecisionStore) -> (r: i128)
    ensures
        r == old(store).remainder(),
        r > 0 ==> final(store).truncation_remainder == Some(0i128)
            && final(store).events@ == old(store).events@.push(PrecisionEvent::Flushed { remainder: r }),
        r <= 0 ==> final(store).truncation_remainder == old(store).truncation_remainder
            && final(store).events@ == old(store).events@,
{
    let remainder: i128 = match store.truncation_remainder {
        Some(r) => r,
        None => 0,
    };
    if remainder > 0 {
        store.truncation_remainder = Some(0);
        store.events.push(PrecisionEvent::Flushed { remainder });
    }
    remainder
}

/// The current accumulated remainder.
pub fn get_remainder(store: &PrecisionStore) -> (r: i128)
    ensures
        r == store.remainder(),
{
    match store.truncation_remainder {
        Some(r) => r,
        None => 0,
    }
}

/// Resets the accumulator to zero.
pub fn reset_remainder(store: &mut PrecisionStore)
    ensures
        final(store).truncation_remainder == Some(0i128),
        final(store).events@ == old(store).events@,
{
    store.truncation_remainder = Some(0);
}

} // verus!
