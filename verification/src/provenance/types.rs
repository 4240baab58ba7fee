use vstd::prelude::*;

verus! {

/// Soft storage-access budget of one resolution.
pub const STORAGE_BUDGET: u32 = 120;

/// Warning threshold: reported as an event, execution continues.
pub const STORAGE_WARN_THRESHOLD: u32 = 100;

/// Maximum number of hops in a single resolution.
pub const MAX_HOPS: u32 = 10;

/// Fixed-point precision of scores: 1e7 stands for 1.0.
pub const SCORE_PRECISION: i128 = 10_000_000;

/// `a + b` on `u32`, saturating at `u32::MAX`.
pub open spec fn sat_add_u32(a: u32, b: u32) -> u32 {
    if a + b > u32::MAX { u32::MAX } else { (a + b) as u32 }
}

/// `a * b` on `u32`, saturating at `u32::MAX`.
pub open spec fn sat_mul_u32(a: u32, b: u32) -> u32 {
    if a * b > u32::MAX { u32::MAX } else { (a * b) as u32 }
}

pub fn saturating_add_u32(a: u32, b: u32) -> (r: u32)
    ensures
        r == sat_add_u32(a, b),
{
    if a > u32::MAX - b {
        u32::MAX
    } else {
        a + b
    }
}

pub fn saturating_mul_u32(a: u32, b: u32) -> (r: u32)
    ensures
        r == sat_mul_u32(a, b),
{
    assert(0 <= a * b <= u32::MAX * u32::MAX) by (nonlinear_arith)
        requires
            a <= u32::MAX,
            b <= u32::MAX,
    ;
    let wide: u64 = (a as u64) * (b as u64);
    if wide > u32::MAX as u64 {
        u32::MAX
    } else {
        wide as u32
    }
}

/// Provenance quality score with 1e7 fixed-point precision; valid scores lie
/// in `[0, SCORE_PRECISION]`.
#[derive(Clone, Copy, Debug, PartialEq, Eq, Structural)]
pub struct Score {
    /// Raw value; `SCORE_PRECISION` stands for 1.0.
    pub raw: i128,
}

impl Score {
    pub open spec fn spec_is_valid(self) -> bool {
        0 <= self.raw <= SCORE_PRECISION
    }

    pub fn is_valid(&self) -> (r: bool)
        ensures
            r == self.spec_is_valid(),
    {
        self.raw >= 0 && self.raw <= SCORE_PRECISION
    }
}

/// Compressed per-hop state, stored as a single storage entry.
#[derive(Clone, Copy, Debug, PartialEq, Eq)]
pub struct HopState {
    /// Index of this hop in the chain (0-based).
    pub index: u32,
    /// Credential identifier (hash) of this hop's issuer.
    pub credential_id: [u8; 32],
    /// Signature proof bytes.
    pub signature: [u8; 64],
    /// Policy reference hash.
    pub policy_ref: [u8; 32],
    /// Unix timestamp at which this hop was recorded.
    pub recorded_at: u64,
    /// Aggregated provenance score at this hop.
    pub score: Score,
    /// True if the credential was verified at record time.
    pub credential_verified: bool,
}

/// Runtime storage-access counter, checked before every storage operation.
#[derive(Clone, Copy, Debug, PartialEq, Eq, Structural)]
pub struct StorageBudget {
    pub used: u32,
    pub limit: u32,
    pub warn_threshold: u32,
    /// Read operations charged.
    pub reads: u32,
    /// Write operations charged.
    pub writes: u32,
}

impl StorageBudget {
    /// Whether charging `n` accesses to a budget that has used `before`
    /// newly crosses the warning threshold.
    pub open spec fn crosses_warning(self, n: u32) -> bool {
        self.used < self.warn_threshold && sat_add_u32(self.used, n) >= self.warn_threshold
    }

    pub open spec fn spec_would_exceed(self, n: u32) -> bool {
        sat_add_u32(self.used, n) > self.limit
    }

    pub fn new() -> (b: Self)
        ensures
            b.used == 0,
            b.limit == STORAGE_BUDGET,
            b.warn_threshold == STORAGE_WARN_THRESHOLD,
            b.reads == 0,
            b.writes == 0,
    {
        StorageBudget {
            used: 0,
            limit: STORAGE_BUDGET,
            warn_threshold: STORAGE_WARN_THRESHOLD,
            reads: 0,
            writes: 0,
        }
    }

    /// Charges `n` accesses (saturating) and returns whether the warning
    /// threshold is newly crossed.
    pub fn charge(&mut self, n: u32) -> (warned: bool)
        ensures
            final(self).used == sat_add_u32(old(self).used, n),
            final(self).limit == old(self).limit,
            final(self).warn_threshold == old(self).warn_threshold,
            final(self).reads == old(self).reads,
            final(self).writes == old(self).writes,
            warned == old(self).crosses_warning(n),
    {
        let before = self.used;
        self.used = saturating_add_u32(self.used, n);
        before < self.warn_threshold && self.used >= self.warn_threshold
    }

    /// Charges one read and returns whether the warning threshold is newly
    /// crossed.
    pub fn charge_read(&mut self) -> (warned: bool)
        ensures
            final(self).used == sat_add_u32(old(self).used, 1),
            final(self).reads == sat_add_u32(old(self).reads, 1),
            final(self).writes == old(self).writes,
            final(self).limit == old(self).limit,
            final(self).warn_threshold == old(self).warn_threshold,
            warned == old(self).crosses_warning(1),
    {
        self.reads = saturating_add_u32(self.reads, 1);
        self.charge(1)
    }

    /// Charges one write and returns whether the warning threshold is newly
    /// crossed.
    pub fn charge_write(&mut self) -> (warned: bool)
        ensures
            final(self).used == sat_add_u32(old(self).used, 1),
            final(self).writes == sat_add_u32(old(self).writes, 1),
            final(self).reads == old(self).reads,
            final(self).limit == old(self).limit,
            final(self).warn_threshold == old(self).warn_threshold,
            warned == old(self).crosses_warning(1),
    {
        self.writes = saturating_add_u32(self.writes, 1);
        self.charge(1)
    }

    /// Whether adding `n` accesses would exceed the hard limit.
    pub fn would_exceed(&self, n: u32) -> (r: bool)
        ensures
            r == self.spec_would_exceed(n),
    {
        saturating_add_u32(self.used, n) > self.limit
    }

    /// Whether one more read would exceed the hard limit.
    pub fn would_exceed_read(&self) -> (r: bool)
        ensures
            r == self.spec_would_exceed(1),
    {
        self.would_exceed(1)
    }

    /// Whether one more write would exceed the hard limit.
    pub fn would_exceed_write(&self) -> (r: bool)
        ensures
            r == self.spec_would_exceed(1),
    {
        self.would_exceed(1)
    }
}

/// The accesses used after charging the amounts `ns` in turn (a read or a
/// write charges 1), from `used`, each charge saturating as `charge` does.
pub open spec fn used_after(used: u32, ns: Seq<u32>) -> u32
    decreases ns.len(),
{
    if ns.len() == 0 {
        used
    } else {
        sat_add_u32(used_after(used, ns.drop_last()), ns.last())
    }
}

/// How many of the charges `ns`, made in turn from `used`, report a newly
/// crossed warning threshold, as `charge` reports it.
pub open spec fn warning_count(used: u32, threshold: u32, ns: Seq<u32>) -> nat
    decreases ns.len(),
{
    if ns.len() == 0 {
        0
    } else {
        let before = used_after(used, ns.drop_last());
        let b = StorageBudget { used: before, limit: 0, warn_threshold: threshold, reads: 0, writes: 0 };
        warning_count(used, threshold, ns.drop_last()) + if b.crosses_warning(ns.last()) { 1nat } else { 0nat }
    }
}

/// The warning fires at most once: over any sequence of charges the used
/// count never decreases, and exactly one charge reports the warning, the
/// one that takes the count from below the threshold to or past it, if the
/// sequence starts below the threshold and ends at or past it; otherwise
/// none does.
pub proof fn lemma_warning_at_most_once(used: u32, threshold: u32, ns: Seq<u32>)
    ensures
        used_after(used, ns) >= used,
        warning_count(used, threshold, ns)
            == (if used < threshold && used_after(used, ns) >= threshold { 1nat } else { 0nat }),
        warning_count(used, threshold, ns) <= 1,
    decreases ns.len(),
{
    if ns.len() > 0 {
        lemma_warning_at_most_once(used, threshold, ns.drop_last());
    }
}

/// Along a run of charges the used count never decreases.
proof fn lemma_used_monotone(useds: Seq<u32>, ns: Seq<u32>, i: int, j: int)
    requires
        useds.len() == ns.len() + 1,
        forall|k: int| 0 <= k < ns.len() ==> #[trigger] useds[k + 1] == sat_add_u32(useds[k], ns[k]),
        0 <= i <= j < useds.len(),
    ensures
        useds[i] <= useds[j],
    decreases j - i,
{
    if j > i {
        lemma_used_monotone(useds, ns, i, j - 1);
        assert(useds[j - 1 + 1] == sat_add_u32(useds[j - 1], ns[j - 1]));
    }
}

/// The warning fires at most once across calls: take consecutive calls of
/// `charge`, `charge_read` or `charge_write` on one budget, call `i`
/// finding `useds[i]`, charging `ns[i]` (1 for a read or a write),
/// leaving `useds[i + 1]` and returning `warned[i]`, as their `ensures`
/// state. Then the used count never decreases, no two calls warn, and no
/// call warns on a budget that started at or past the threshold.
pub proof fn lemma_warning_once_across_calls(useds: Seq<u32>, warned: Seq<bool>, ns: Seq<u32>, threshold: u32)
    requires
        useds.len() == ns.len() + 1,
        warned.len() == ns.len(),
        forall|k: int| 0 <= k < ns.len() ==> #[trigger] useds[k + 1] == sat_add_u32(useds[k], ns[k]),
        forall|k: int| 0 <= k < ns.len() ==> #[trigger] warned[k] == (StorageBudget {
            used: useds[k],
            limit: 0,
            warn_threshold: threshold,
            reads: 0,
            writes: 0,
        }).crosses_warning(ns[k]),
    ensures
        forall|i: int, j: int| 0 <= i <= j < useds.len() ==> useds[i] <= useds[j],
        forall|i: int, j: int| 0 <= i < j < warned.len() ==> !(#[trigger] warned[i] && #[trigger] warned[j]),
        useds[0] >= threshold ==> forall|i: int| 0 <= i < warned.len() ==> !#[trigger] warned[i],
{
    assert forall|i: int, j: int| 0 <= i <= j < useds.len() implies useds[i] <= useds[j] by {
        lemma_used_monotone(useds, ns, i, j);
    }
    assert forall|i: int, j: int| 0 <= i < j < warned.len() implies !(#[trigger] warned[i] && #[trigger] warned[j]) by {
        if warned[i] {
            assert(useds[i + 1] == sat_add_u32(useds[i], ns[i]));
            lemma_used_monotone(useds, ns, i + 1, j);
        }
    }
    if useds[0] >= threshold {
        assert forall|i: int| 0 <= i < warned.len() implies !#[trigger] warned[i] by {
            lemma_used_monotone(useds, ns, 0, i);
        }
    }
}

/// Output of a successful resolution.
#[derive(Clone, Copy, Debug, PartialEq, Eq, Structural)]
pub struct ProvenanceResult {
    /// Number of hops resolved.
    pub hops_resolved: u32,
    /// Final aggregated score across all hops.
    pub final_score: Score,
    /// Total storage accesses consumed.
    pub storage_accesses_used: u32,
    /// Ledger sequence at which resolution completed.
    pub resolved_at_ledger: u32,
}

} // verus!
