use vstd::prelude::*;

use crate::bytes::{bytes_le, copy_bytes, lemma_adjacent_sorted, lemma_lex_total, lex_le, lex_sorted, map_of, BytesMap};
use super::errors::Error;
use super::hop_checks::{
    credential_check, lemma_credential_accepted_iff_verified, lemma_signature_rejected_iff_zeroed, signature_check,
    validate_hop_credential, verify_hop_signature,
};
use super::types::{
    sat_add_u32, saturating_add_u32, saturating_mul_u32, sat_mul_u32, HopState, ProvenanceResult,
    Score, StorageBudget, MAX_HOPS, SCORE_PRECISION, STORAGE_BUDGET, STORAGE_WARN_THRESHOLD,
};

verus! {

impl View for HopState {
    type V = HopState;

    open spec fn view(&self) -> HopState {
        *self
    }
}

impl View for ProvenanceResult {
    type V = ProvenanceResult;

    open spec fn view(&self) -> ProvenanceResult {
        *self
    }
}

/// Storage key of the state of hop `hop_id`: `"HS"` followed by its bytes.
pub open spec fn hop_key_of(hop_id: Seq<u8>) -> Seq<u8> {
    seq![72u8, 83u8] + hop_id
}

/// Storage key of the result of chain `chain_id`: `"PR"` followed by its
/// bytes.
pub open spec fn result_key_of(chain_id: Seq<u8>) -> Seq<u8> {
    seq![80u8, 82u8] + chain_id
}

/// Events the resolver publishes.
#[derive(Clone, Copy, Debug, PartialEq, Eq, Structural)]
pub enum ProvenanceEvent {
    /// The warning threshold was crossed; the number of accesses used.
    StorageWarning { used: u32 },
    /// A chain was resolved.
    Resolved { hops_resolved: u32, storage_accesses_used: u32 },
}

/// Persistent storage of the provenance contract and its published events.
pub struct ProvenanceStore {
    /// Hop states by storage key (`"HS"` + hop id).
    pub hop_states: BytesMap<HopState>,
    /// Resolution results by storage key (`"PR"` + chain id).
    pub results: BytesMap<ProvenanceResult>,
    /// Published events, oldest first.
    pub events: Vec<ProvenanceEvent>,
}

impl ProvenanceStore {
    pub fn new() -> (s: Self)
        ensures
            s.hop_states.view() == Map::<Seq<u8>, HopState>::empty(),
            s.results.view() == Map::<Seq<u8>, ProvenanceResult>::empty(),
            s.events@.len() == 0,
    {
        ProvenanceStore { hop_states: BytesMap::new(), results: BytesMap::new(), events: Vec::new() }
    }
}

/// The set of storage keys to prefetch for a chain.
pub struct ProvenanceAccessSet {
    /// Storage keys of the hop states to read, one per hop, sorted in
    /// ascending byte order; the prefetch reads them in this order.
    pub hop_keys: Vec<Vec<u8>>,
    /// Number of hops planned.
    pub hop_count: u32,
    /// Estimated storage accesses of this set.
    pub estimated_accesses: u32,
}

impl ProvenanceAccessSet {
    pub open spec fn key_views(&self) -> Seq<Seq<u8>> {
        self.hop_keys@.map_values(|k: Vec<u8>| k@)
    }

    /// Estimated access count: one read and one write per hop, plus two for
    /// the final result (saturating).
    pub fn estimated_accesses(hop_count: u32) -> (n: u32)
        ensures
            n == sat_add_u32(sat_mul_u32(hop_count, 2), 2),
    {
        saturating_add_u32(saturating_mul_u32(hop_count, 2), 2)
    }
}

/// The storage key of a hop.
pub fn hop_key(hop_id: &[u8; 32]) -> (k: Vec<u8>)
    ensures
        k@ == hop_key_of(hop_id@),
{
    let mut key: Vec<u8> = Vec::new();
    key.push(72u8);
    key.push(83u8);
    let mut tail = copy_bytes(hop_id.as_slice());
    key.append(&mut tail);
    assert(key@ =~= hop_key_of(hop_id@));
    key
}

/// The storage key of a chain's result.
pub fn result_key(chain_id: &[u8; 32]) -> (k: Vec<u8>)
    ensures
        k@ == result_key_of(chain_id@),
{
    let mut key: Vec<u8> = Vec::new();
    key.push(80u8);
    key.push(82u8);
    let mut tail = copy_bytes(chain_id.as_slice());
    key.append(&mut tail);
    assert(key@ =~= result_key_of(chain_id@));
    key
}

/// A budget after one read is charged.
pub open spec fn read_charged(b: StorageBudget) -> StorageBudget {
    StorageBudget { used: sat_add_u32(b.used, 1), reads: sat_add_u32(b.reads, 1), ..b }
}

/// What prefetching `keys` with budget `b` does: its outcome, the budget
/// afterwards and the warnings it publishes (the budget used at each).
pub struct PrefetchRun {
    pub result: Result<(), Error>,
    pub budget: StorageBudget,
    pub warnings: Seq<u32>,
}

/// Each key is first checked against the budget, then charged as a read,
/// then read: a key absent from storage stops the run.
pub open spec fn prefetch_run(hops: Map<Seq<u8>, HopState>, keys: Seq<Seq<u8>>, b: StorageBudget) -> PrefetchRun
    decreases keys.len(),
{
    if keys.len() == 0 {
        PrefetchRun { result: Ok(()), budget: b, warnings: Seq::empty() }
    } else if b.spec_would_exceed(1) {
        PrefetchRun { result: Err(Error::StorageBudgetExceeded), budget: b, warnings: Seq::empty() }
    } else {
        let b1 = read_charged(b);
        let w = if b.crosses_warning(1) { seq![b1.used] } else { Seq::empty() };
        if !hops.contains_key(keys[0]) {
            PrefetchRun { result: Err(Error::HopNotFound), budget: b1, warnings: w }
        } else {
            let rest = prefetch_run(hops, keys.drop_first(), b1);
            PrefetchRun { result: rest.result, budget: rest.budget, warnings: w + rest.warnings }
        }
    }
}

/// The cache a successful prefetch of `keys` builds.
pub open spec fn prefetched(hops: Map<Seq<u8>, HopState>, keys: Seq<Seq<u8>>) -> Map<Seq<u8>, HopState> {
    Map::new(|k: Seq<u8>| keys.contains(k), |k: Seq<u8>| hops[k])
}

/// The warnings of a run, as events.
pub open spec fn warning_events(w: Seq<u32>) -> Seq<ProvenanceEvent> {
    w.map_values(|u: u32| ProvenanceEvent::StorageWarning { used: u })
}

proof fn lemma_prefetch_run_step(hops: Map<Seq<u8>, HopState>, keys: Seq<Seq<u8>>, i: int, b: StorageBudget)
    requires
        0 <= i < keys.len(),
    ensures
        keys.skip(i).drop_first() == keys.skip(i + 1),
        keys.skip(i)[0] == keys[i],
        keys.skip(i).len() > 0,
{
    assert(keys.skip(i).drop_first() =~= keys.skip(i + 1));
}

/// Prefetches the hop states of an access set in a single pass, charging
/// one read per key against `budget`, and returns them as an in-memory
/// cache. Fails before any read if the whole batch would exceed the budget.
pub fn prefetch_hop_states(
    store: &mut ProvenanceStore,
    access_set: &ProvenanceAccessSet,
    budget: &mut StorageBudget,
) -> (r: Result<BytesMap<HopState>, Error>)
    ensures
        final(store).hop_states.view() == old(store).hop_states.view(),
        final(store).results.view() == old(store).results.view(),
        old(budget).spec_would_exceed(access_set.hop_count) ==> {
            &&& r == Err::<BytesMap<HopState>, Error>(Error::StorageBudgetExceeded)
            &&& *final(budget) == *old(budget)
            &&& final(store).events@ == old(store).events@
        },
        !old(budget).spec_would_exceed(access_set.hop_count) ==> {
            let run = prefetch_run(old(store).hop_states.view(), access_set.key_views(), *old(budget));
            &&& *final(budget) == run.budget
            &&& final(store).events@ == old(store).events@ + warning_events(run.warnings)
            &&& match r {
                Ok(cache) => run.result is Ok && cache.view() == prefetched(old(store).hop_states.view(), access_set.key_views()),
                Err(e) => run.result == Err::<(), Error>(e),
            }
        },
{
    if budget.would_exceed(access_set.hop_count) {
        return Err(Error::StorageBudgetExceeded);
    }
    let ghost hops = store.hop_states.view();
    let ghost keys = access_set.key_views();
    let ghost b0 = *budget;
    let ghost ev0 = store.events@;
    let mut cache: BytesMap<HopState> = BytesMap::new();
    let n = access_set.hop_keys.len();
    let mut i: usize = 0;
    assert(keys.skip(0) =~= keys);
    while i < n
        invariant
            n == keys.len(),
            keys == access_set.key_views(),
            i <= n,
            store.hop_states.view() == hops,
            hops == old(store).hop_states.view(),
            b0 == *old(budget),
            ev0 == old(store).events@,
            !old(budget).spec_would_exceed(access_set.hop_count),
            store.results.view() == old(store).results.view(),
            ({
                let run = prefetch_run(hops, keys, b0);
                let rest = prefetch_run(hops, keys.skip(i as int), *budget);
                &&& run.result == rest.result
                &&& run.budget == rest.budget
                &&& ev0 + warning_events(run.warnings) == store.events@ + warning_events(rest.warnings)
            }),
            forall|j: int| 0 <= j < i ==> hops.contains_key(#[trigger] keys[j]),
            cache.view() == Map::new(|k: Seq<u8>| keys.take(i as int).contains(k), |k: Seq<u8>| hops[k]),
        decreases n - i,
    {
        proof {
            lemma_prefetch_run_step(hops, keys, i as int, *budget);
        }
        if budget.would_exceed_read() {
            return Err(Error::StorageBudgetExceeded);
        }
        let ghost bi = *budget;
        let ghost evi = store.events@;
        let warned = budget.charge_read();
        if warned {
            let ev = ProvenanceEvent::StorageWarning { used: budget.used };
            store.events.push(ev);
        }
        proof {
            let w = if bi.crosses_warning(1) { seq![read_charged(bi).used] } else { Seq::<u32>::empty() };
            assert(store.events@ == evi + warning_events(w)) by {
                assert(store.events@ =~= evi + warning_events(w));
            }
            let rest2 = prefetch_run(hops, keys.skip(i as int + 1), *budget);
            assert(warning_events(w + rest2.warnings) =~= warning_events(w) + warning_events(rest2.warnings));
            assert(evi + warning_events(w) + warning_events(rest2.warnings) =~= evi + (warning_events(w) + warning_events(rest2.warnings)));
        }
        let key = &access_set.hop_keys[i];
        let state = match store.hop_states.get(key.as_slice()) {
            Some(s) => *s,
            None => return Err(Error::HopNotFound),
        };
        cache.set(copy_bytes(key.as_slice()), state);
        proof {
            let t = keys.take(i as int);
            let t1 = keys.take(i as int + 1);
            assert(t1 =~= t.push(keys[i as int]));
            assert forall|k: Seq<u8>| t1.contains(k) <==> (t.contains(k) || k == keys[i as int]) by {
                if t1.contains(k) {
                    let j = choose|j: int| 0 <= j < t1.len() && t1[j] == k;
                    if j < i {
                        assert(t[j] == k);
                    }
                }
                if t.contains(k) {
                    let j = choose|j: int| 0 <= j < t.len() && t[j] == k;
                    assert(t1[j] == k);
                }
                if k == keys[i as int] {
                    assert(t1[i as int] == k);
                }
            }
            assert(cache.view() =~= Map::new(|k: Seq<u8>| t1.contains(k), |k: Seq<u8>| hops[k]));
        }
        i = i + 1;
    }
    assert(keys.take(n as int) =~= keys);
    assert(keys.skip(n as int) =~= Seq::<Seq<u8>>::empty());
    assert(store.events@ =~= ev0 + warning_events(prefetch_run(hops, keys, b0).warnings));
    Ok(cache)
}

/// The check of a single hop that fails first, in the resolver's order:
/// score, then signature, then credential.
pub open spec fn hop_error(s: HopState) -> Option<Error> {
    if !s.score.spec_is_valid() {
        Some(Error::InvalidScore)
    } else if signature_check(s) is Err {
        Some(Error::InvalidHopSignature)
    } else if credential_check(s) is Err {
        Some(Error::InvalidHopCredential)
    } else {
        None
    }
}

/// The error of the first hop, in chain order, that fails a check.
pub open spec fn first_hop_error(states: Seq<HopState>) -> Option<Error>
    decreases states.len(),
{
    if states.len() == 0 {
        None
    } else {
        match first_hop_error(states.drop_last()) {
            Some(e) => Some(e),
            None => hop_error(states.last()),
        }
    }
}

/// A failure among the first `k` hops is the first failure of the chain.
proof fn lemma_first_hop_error_prefix(states: Seq<HopState>, k: int)
    requires
        0 <= k <= states.len(),
        first_hop_error(states.take(k)) is Some,
    ensures
        first_hop_error(states) == first_hop_error(states.take(k)),
    decreases states.len() - k,
{
    if k == states.len() {
        assert(states.take(k) =~= states);
    } else {
        assert(states.take(k + 1).drop_last() =~= states.take(k));
        lemma_first_hop_error_prefix(states, k + 1);
    }
}

/// The sum of the hops' raw scores.
pub open spec fn score_sum(states: Seq<HopState>) -> int
    decreases states.len(),
{
    if states.len() == 0 {
        0
    } else {
        score_sum(states.drop_last()) + states.last().score.raw
    }
}

/// The states of the hops of a chain, read from storage.
pub open spec fn chain_states(hops: Map<Seq<u8>, HopState>, hop_ids: Seq<Seq<u8>>) -> Seq<HopState> {
    hop_ids.map_values(|id: Seq<u8>| hops[hop_key_of(id)])
}

/// The outcome of resolving the chain `hop_ids`: empty and over-long chains
/// are refused, then a hop missing from storage, then the first hop failing
/// a check; otherwise the result aggregates the mean score over the hops
/// and counts one read per hop plus one write.
pub open spec fn resolution(
    hops: Map<Seq<u8>, HopState>,
    hop_ids: Seq<Seq<u8>>,
    ledger_sequence: u32,
) -> Result<ProvenanceResult, Error> {
    let n = hop_ids.len();
    if n == 0 {
        Err(Error::EmptyChain)
    } else if n > MAX_HOPS {
        Err(Error::ChainTooLong)
    } else if exists|i: int| 0 <= i < n && !hops.contains_key(hop_key_of(#[trigger] hop_ids[i])) {
        Err(Error::HopNotFound)
    } else {
        let states = chain_states(hops, hop_ids);
        match first_hop_error(states) {
            Some(e) => Err(e),
            None => Ok(ProvenanceResult {
                hops_resolved: n as u32,
                final_score: Score { raw: (score_sum(states) / (n as int)) as i128 },
                storage_accesses_used: (n + 1) as u32,
                resolved_at_ledger: ledger_sequence,
            }),
        }
    }
}

/// A prefetch that stays under the budget and below the warning threshold
/// publishes nothing and fails only on a missing key.
proof fn lemma_prefetch_within_budget(hops: Map<Seq<u8>, HopState>, keys: Seq<Seq<u8>>, b: StorageBudget)
    requires
        b.used + keys.len() <= b.limit,
        b.used + keys.len() < b.warn_threshold,
        b.reads + keys.len() <= u32::MAX,
    ensures
        ({
            let run = prefetch_run(hops, keys, b);
            &&& run.warnings.len() == 0
            &&& run.result is Ok <==> (forall|i: int| 0 <= i < keys.len() ==> hops.contains_key(#[trigger] keys[i]))
            &&& run.result is Err ==> run.result == Err::<(), Error>(Error::HopNotFound)
            &&& run.result is Ok ==> {
                &&& run.budget.used == b.used + keys.len()
                &&& run.budget.reads == b.reads + keys.len()
                &&& run.budget.writes == b.writes
                &&& run.budget.limit == b.limit
                &&& run.budget.warn_threshold == b.warn_threshold
            }
        }),
    decreases keys.len(),
{
    if keys.len() > 0 {
        let b1 = read_charged(b);
        lemma_prefetch_within_budget(hops, keys.drop_first(), b1);
        let run = prefetch_run(hops, keys, b);
        if hops.contains_key(keys[0]) {
            assert forall|i: int| 0 <= i < keys.len() && (forall|j: int| 0 <= j < keys.drop_first().len() ==> hops.contains_key(#[trigger] keys.drop_first()[j]))
                implies hops.contains_key(#[trigger] keys[i]) by {
                if i > 0 {
                    assert(keys.drop_first()[i - 1] == keys[i]);
                }
            }
            if !(forall|j: int| 0 <= j < keys.drop_first().len() ==> hops.contains_key(#[trigger] keys.drop_first()[j])) {
                let j = choose|j: int| 0 <= j < keys.drop_first().len() && !hops.contains_key(#[trigger] keys.drop_first()[j]);
                assert(!hops.contains_key(keys[j + 1]));
            }
        }
        assert(run.warnings =~= Seq::<u32>::empty());
    }
}

/// The storage keys of the hops of a chain, in chain order.
pub open spec fn chain_keys(hop_ids: Seq<[u8; 32]>) -> Seq<Seq<u8>> {
    hop_ids.map_values(|id: [u8; 32]| hop_key_of(id@))
}

/// The byte strings of a list of keys.
pub open spec fn key_seq(keys: Seq<Vec<u8>>) -> Seq<Seq<u8>> {
    keys.map_values(|k: Vec<u8>| k@)
}

/// Inserting an element adds it to the multiset of a sequence.
proof fn lemma_insert_multiset(s: Seq<Seq<u8>>, p: int, x: Seq<u8>)
    requires
        0 <= p <= s.len(),
    ensures
        s.insert(p, x).to_multiset() =~= s.to_multiset().insert(x),
{
    broadcast use vstd::seq_lib::group_to_multiset_ensures;
    let t = s.insert(p, x);
    s.insert_ensures(p, x);
    assert(t.remove(p) =~= s);
    assert(t.remove(p).to_multiset() =~= t.to_multiset().remove(t[p]));
    assert(t.contains(x));
    assert(t.to_multiset().count(x) > 0);
}

/// The storage keys of the hops of a chain, sorted in ascending byte order:
/// a permutation of the hops' keys.
fn build_access_set(hop_ids: &Vec<[u8; 32]>) -> (set: ProvenanceAccessSet)
    requires
        hop_ids@.len() <= MAX_HOPS,
    ensures
        set.key_views().to_multiset() == chain_keys(hop_ids@).to_multiset(),
        lex_sorted(set.key_views()),
        set.key_views().len() == hop_ids@.len(),
        set.hop_count == hop_ids@.len(),
{
    broadcast use vstd::seq_lib::group_to_multiset_ensures;
    let hop_count = hop_ids.len() as u32;
    let ghost ck = chain_keys(hop_ids@);
    let mut keys: Vec<Vec<u8>> = Vec::new();
    let mut i: usize = 0;
    assert(key_seq(keys@) =~= ck.take(0));
    while i < hop_ids.len()
        invariant
            i <= hop_ids@.len(),
            ck == chain_keys(hop_ids@),
            keys@.len() == i,
            key_seq(keys@).to_multiset() == ck.take(i as int).to_multiset(),
            forall|q: int| 0 <= q < i - 1
                ==> lex_le(#[trigger] key_seq(keys@)[q], key_seq(keys@)[q + 1]),
        decreases hop_ids@.len() - i,
    {
        let k = hop_key(&hop_ids[i]);
        let ghost kv = key_seq(keys@);
        assert(k@ == ck[i as int]);
        let mut p: usize = 0;
        let mut done = false;
        while !done && p < keys.len()
            invariant
                kv == key_seq(keys@),
                kv.len() == keys@.len(),
                p <= kv.len(),
                p > 0 ==> lex_le(kv[p - 1], k@),
                done ==> p < kv.len() && !lex_le(kv[p as int], k@),
            decreases kv.len() - p + (if done { 0int } else { 1int }),
        {
            assert(keys[p as int]@ == kv[p as int]);
            if bytes_le(keys[p].as_slice(), k.as_slice()) {
                p = p + 1;
            } else {
                done = true;
            }
        }
        let ghost kp = k@;
        keys.insert(p, k);
        let ghost t = key_seq(keys@);
        proof {
            assert(t =~= kv.insert(p as int, kp));
            kv.insert_ensures(p as int, kp);
            lemma_insert_multiset(kv, p as int, kp);
            assert(ck.take(i as int + 1) =~= ck.take(i as int).push(kp));
            vstd::seq_lib::to_multiset_build(ck.take(i as int), kp);
            assert(t.to_multiset() == ck.take(i as int + 1).to_multiset());
            if done {
                lemma_lex_total(kv[p as int], kp);
            }
            assert forall|q: int| 0 <= q < t.len() - 1 implies lex_le(#[trigger] t[q], t[q + 1]) by {
                if q + 1 < p {
                    assert(lex_le(kv[q], kv[q + 1]));
                } else if q + 1 == p {
                } else if q == p {
                } else {
                    assert(t[q] == kv[q - 1]);
                    assert(t[q + 1] == kv[q]);
                    assert(lex_le(kv[q - 1], kv[q - 1 + 1]));
                }
            }
        }
        i = i + 1;
    }
    assert(ck.take(hop_ids@.len() as int) =~= ck);
    proof {
        lemma_adjacent_sorted(key_seq(keys@));
    }
    let estimated = ProvenanceAccessSet::estimated_accesses(hop_count);
    ProvenanceAccessSet { hop_keys: keys, hop_count, estimated_accesses: estimated }
}

/// `a + b`, saturating at the bounds of `i128`.
fn saturating_add_i128(a: i128, b: i128) -> (r: i128)
    ensures
        r == (if a + b > i128::MAX { i128::MAX } else if a + b < i128::MIN { i128::MIN } else { (a + b) as i128 }),
{
    match a.checked_add(b) {
        Some(v) => v,
        None => if b > 0 { i128::MAX } else { i128::MIN },
    }
}

/// The views of a chain's hop identifiers.
pub open spec fn id_views(hop_ids: Seq<[u8; 32]>) -> Seq<Seq<u8>> {
    hop_ids.map_values(|id: [u8; 32]| id@)
}

/// Resolves the provenance chain `hop_ids` and stores the result under
/// `chain_id`: N prefetch reads plus one result write. Checks run before any
/// storage access where they can; on error nothing is written.
pub fn resolve_provenance(
    store: &mut ProvenanceStore,
    ledger_sequence: u32,
    chain_id: [u8; 32],
    hop_ids: Vec<[u8; 32]>,
) -> (r: Result<ProvenanceResult, Error>)
    ensures
        r == resolution(old(store).hop_states.view(), id_views(hop_ids@), ledger_sequence),
        final(store).hop_states.view() == old(store).hop_states.view(),
        match r {
            Ok(res) => {
                &&& final(store).results.view() == old(store).results.view().insert(result_key_of(chain_id@), res)
                &&& final(store).events@ == old(store).events@.push(ProvenanceEvent::Resolved {
                    hops_resolved: res.hops_resolved,
                    storage_accesses_used: res.storage_accesses_used,
                })
            },
            Err(_) => {
                &&& final(store).results.view() == old(store).results.view()
                &&& final(store).events@ == old(store).events@
            },
        },
{
    let ghost hops = old(store).hop_states.view();
    let ghost ids = id_views(hop_ids@);
    let hop_count = hop_ids.len();
    if hop_count == 0 {
        return Err(Error::EmptyChain);
    }
    if hop_count > MAX_HOPS as usize {
        return Err(Error::ChainTooLong);
    }
    let estimated = saturating_add_u32(hop_count as u32, 1);
    let mut budget = StorageBudget::new();
    if budget.would_exceed(estimated) {
        return Err(Error::StorageBudgetExceeded);
    }

    let access_set = build_access_set(&hop_ids);
    let ghost keys = access_set.key_views();
    let ghost orig = chain_keys(hop_ids@);
    proof {
        broadcast use vstd::seq_lib::group_to_multiset_ensures;
        assert forall|i: int| 0 <= i < hop_count implies keys.contains(hop_key_of(#[trigger] ids[i])) by {
            assert(orig[i] == hop_key_of(ids[i]));
            assert(orig.contains(orig[i]));
            assert(orig.to_multiset().count(orig[i]) > 0);
        }
        assert forall|j: int| 0 <= j < hop_count implies orig.contains(#[trigger] keys[j]) by {
            assert(keys.contains(keys[j]));
            assert(keys.to_multiset().count(keys[j]) > 0);
        }
        lemma_prefetch_within_budget(hops, keys, budget);
        if exists|i: int| 0 <= i < hop_count && !hops.contains_key(hop_key_of(#[trigger] ids[i])) {
            let i = choose|i: int| 0 <= i < hop_count && !hops.contains_key(hop_key_of(#[trigger] ids[i]));
            assert(keys.contains(hop_key_of(ids[i])));
            let j = choose|j: int| 0 <= j < keys.len() && keys[j] == hop_key_of(ids[i]);
            assert(!hops.contains_key(keys[j]));
        }
    }
    let cache = match prefetch_hop_states(store, &access_set, &mut budget) {
        Ok(c) => c,
        Err(e) => {
            proof {
                let j = choose|j: int| 0 <= j < keys.len() && !hops.contains_key(#[trigger] keys[j]);
                assert(orig.contains(keys[j]));
                let i = choose|i: int| 0 <= i < orig.len() && orig[i] == keys[j];
                assert(orig[i] == hop_key_of(ids[i]));
                assert(!hops.contains_key(hop_key_of(ids[i])));
            }
            assert(store.events@ =~= old(store).events@);
            return Err(e);
        },
    };
    assert(store.events@ =~= old(store).events@);
    let ghost states = chain_states(hops, ids);

    let mut score_sum_acc: i128 = 0;
    let mut hops_resolved: u32 = 0;
    let mut i: usize = 0;
    while i < hop_count
        invariant
            hop_count == hop_ids@.len(),
            1 <= hop_count <= MAX_HOPS,
            i <= hop_count,
            ids == id_views(hop_ids@),
            states == chain_states(hops, ids),
            forall|j: int| 0 <= j < hop_count ==> keys.contains(hop_key_of(#[trigger] ids[j])),
            forall|j: int| 0 <= j < hop_count ==> hops.contains_key(#[trigger] keys[j]),
            cache.view() == prefetched(hops, keys),
            keys.len() == hop_count,
            hops_resolved == i,
            hops == old(store).hop_states.view(),
            store.hop_states.view() == hops,
            store.results.view() == old(store).results.view(),
            store.events@ == old(store).events@,
            budget.used == hop_count,
            budget.limit == STORAGE_BUDGET,
            budget.warn_threshold == STORAGE_WARN_THRESHOLD,
            first_hop_error(states.take(i as int)) is None,
            score_sum_acc == score_sum(states.take(i as int)),
            0 <= score_sum_acc <= i * SCORE_PRECISION,
        decreases hop_count - i,
    {
        let key = hop_key(&hop_ids[i]);
        assert(ids[i as int] == hop_ids@[i as int]@);
        assert(keys.contains(key@));
        let state = match cache.get(key.as_slice()) {
            Some(s) => *s,
            None => return Err(Error::HopNotFound),
        };
        assert(state == states[i as int]);
        assert(states.take(i as int + 1).drop_last() =~= states.take(i as int));
        assert(states.take(i as int + 1).last() == state);
        if !state.score.is_valid() {
            proof {
                lemma_first_hop_error_prefix(states, i as int + 1);
            }
            return Err(Error::InvalidScore);
        }
        match verify_hop_signature(&state) {
            Ok(()) => {},
            Err(e) => {
                proof {
                    lemma_first_hop_error_prefix(states, i as int + 1);
                }
                return Err(e);
            },
        }
        match validate_hop_credential(&state) {
            Ok(()) => {},
            Err(e) => {
                proof {
                    lemma_first_hop_error_prefix(states, i as int + 1);
                }
                return Err(e);
            },
        }
        score_sum_acc = saturating_add_i128(score_sum_acc, state.score.raw);
        hops_resolved = saturating_add_u32(hops_resolved, 1);
        i = i + 1;
    }
    assert(states.take(hop_count as int) =~= states);

    let final_score = Score { raw: score_sum_acc / (hops_resolved as i128) };

    if budget.would_exceed_write() {
        return Err(Error::StorageBudgetExceeded);
    }
    let warned = budget.charge_write();
    if warned {
        store.events.push(ProvenanceEvent::StorageWarning { used: budget.used });
    }
    let result = ProvenanceResult {
        hops_resolved,
        final_score,
        storage_accesses_used: budget.used,
        resolved_at_ledger: ledger_sequence,
    };
    let rkey = result_key(&chain_id);
    store.results.set(rkey, result);
    store.events.push(ProvenanceEvent::Resolved { hops_resolved, storage_accesses_used: budget.used });
    Ok(result)
}

/// Writes a hop state into storage under its key.
pub fn write_hop_state(store: &mut ProvenanceStore, hop_id: &[u8; 32], state: &HopState)
    ensures
        final(store).hop_states.view() == old(store).hop_states.view().insert(hop_key_of(hop_id@), *state),
        final(store).results.view() == old(store).results.view(),
        final(store).events@ == old(store).events@,
{
    store.hop_states.set(hop_key(hop_id), *state);
}

/// The result stored for a resolved chain.
pub fn get_provenance_result(store: &ProvenanceStore, chain_id: &[u8; 32]) -> (r: Option<ProvenanceResult>)
    ensures
        r == (if store.results.view().contains_key(result_key_of(chain_id@)) {
            Some(store.results.view()[result_key_of(chain_id@)])
        } else {
            None
        }),
{
    let key = result_key(chain_id);
    match store.results.get(key.as_slice()) {
        Some(res) => Some(*res),
        None => None,
    }
}


/// Every hop of a chain that passes all checks carries a valid score.
proof fn lemma_passing_hops_have_valid_scores(states: Seq<HopState>)
    requires
        first_hop_error(states) is None,
    ensures
        forall|i: int| 0 <= i < states.len() ==> (#[trigger] states[i]).score.spec_is_valid(),
    decreases states.len(),
{
    if states.len() > 0 {
        lemma_passing_hops_have_valid_scores(states.drop_last());
        assert forall|i: int| 0 <= i < states.len() implies (#[trigger] states[i]).score.spec_is_valid() by {
            if i < states.len() - 1 {
                assert(states.drop_last()[i] == states[i]);
            }
        }
    }
}

/// The sum of valid scores lies between zero and the number of hops times
/// the full score.
proof fn lemma_score_sum_bounds(states: Seq<HopState>)
    requires
        forall|i: int| 0 <= i < states.len() ==> (#[trigger] states[i]).score.spec_is_valid(),
    ensures
        0 <= score_sum(states) <= states.len() * SCORE_PRECISION,
    decreases states.len(),
{
    if states.len() > 0 {
        assert forall|i: int| 0 <= i < states.drop_last().len() implies (#[trigger] states.drop_last()[i]).score.spec_is_valid() by {
            assert(states.drop_last()[i] == states[i]);
        }
        lemma_score_sum_bounds(states.drop_last());
        assert(states.last() == states[states.len() - 1]);
    }
}

/// A resolved chain stays within the storage budget: it counts one read
/// per hop plus one write, at most `MAX_HOPS + 1` accesses, below both the
/// warning threshold and the budget; and its final score is a valid score.
pub proof fn lemma_resolution_within_budget(
    hops: Map<Seq<u8>, HopState>,
    hop_ids: Seq<Seq<u8>>,
    ledger_sequence: u32,
)
    ensures
        resolution(hops, hop_ids, ledger_sequence) matches Ok(r) ==> {
            &&& r.hops_resolved == hop_ids.len()
            &&& r.storage_accesses_used == hop_ids.len() + 1
            &&& r.storage_accesses_used <= MAX_HOPS + 1
            &&& r.storage_accesses_used < STORAGE_WARN_THRESHOLD
            &&& r.storage_accesses_used <= STORAGE_BUDGET
            &&& r.final_score.spec_is_valid()
        },
{
    let n = hop_ids.len();
    if resolution(hops, hop_ids, ledger_sequence) is Ok {
        let states = chain_states(hops, hop_ids);
        lemma_passing_hops_have_valid_scores(states);
        lemma_score_sum_bounds(states);
        let sum = score_sum(states);
        assert(0 <= sum / (n as int) <= SCORE_PRECISION) by (nonlinear_arith)
            requires
                0 <= sum <= n * SCORE_PRECISION,
                1 <= n <= 10,
        ;
    }
}

/// A chain resolves exactly when it holds between 1 and `MAX_HOPS` hops,
/// all stored, and every hop carries a valid score, a signature with a
/// non-zero byte and a credential verified at record time with a non-zero
/// timestamp. A hop whose credential was not verified therefore fails the
/// chain, and so does a zeroed signature; nothing else about a signature
/// does.
pub proof fn lemma_resolution_accepts_exactly_valid_hops(
    hops: Map<Seq<u8>, HopState>,
    hop_ids: Seq<Seq<u8>>,
    ledger_sequence: u32,
)
    ensures
        resolution(hops, hop_ids, ledger_sequence) is Ok <==> {
            &&& 1 <= hop_ids.len() <= MAX_HOPS
            &&& forall|i: int| 0 <= i < hop_ids.len() ==> hops.contains_key(hop_key_of(#[trigger] hop_ids[i]))
            &&& forall|i: int| 0 <= i < hop_ids.len() ==> hop_valid(#[trigger] hops[hop_key_of(hop_ids[i])])
        },
{
    let n = hop_ids.len();
    let states = chain_states(hops, hop_ids);
    lemma_first_hop_error_none_iff(states);
    assert forall|i: int| 0 <= i < n implies (hop_error(#[trigger] states[i]) is None <==> hop_valid(hops[hop_key_of(hop_ids[i])])) by {
        assert(states[i] == hops[hop_key_of(hop_ids[i])]);
        lemma_signature_rejected_iff_zeroed(states[i]);
        lemma_credential_accepted_iff_verified(states[i]);
    }
    let all_stored = forall|i: int| 0 <= i < n ==> hops.contains_key(hop_key_of(#[trigger] hop_ids[i]));
    let all_valid = forall|i: int| 0 <= i < n ==> hop_valid(#[trigger] hops[hop_key_of(hop_ids[i])]);
    if 1 <= n <= MAX_HOPS && all_stored {
        assert(!exists|i: int| 0 <= i < n && !hops.contains_key(hop_key_of(#[trigger] hop_ids[i])));
        if all_valid {
            assert forall|i: int| 0 <= i < n implies hop_error(#[trigger] states[i]) is None by {
                assert(hop_valid(hops[hop_key_of(hop_ids[i])]));
            }
            assert(resolution(hops, hop_ids, ledger_sequence) is Ok);
        } else {
            let i = choose|i: int| 0 <= i < n && !hop_valid(#[trigger] hops[hop_key_of(hop_ids[i])]);
            assert(hop_error(states[i]) is Some);
            assert(first_hop_error(states) is Some);
            assert(resolution(hops, hop_ids, ledger_sequence) is Err);
        }
    } else if 1 <= n <= MAX_HOPS {
        let i = choose|i: int| 0 <= i < n && !hops.contains_key(hop_key_of(#[trigger] hop_ids[i]));
        assert(resolution(hops, hop_ids, ledger_sequence) is Err);
    }
}

/// A hop that passes every check: a valid score, a signature with a
/// non-zero byte, and a credential verified at record time with a non-zero
/// timestamp.
pub open spec fn hop_valid(h: HopState) -> bool {
    &&& 0 <= h.score.raw <= SCORE_PRECISION
    &&& exists|j: int| 0 <= j < 64 && h.signature[j] != 0
    &&& h.credential_verified
    &&& h.recorded_at != 0
}

/// No hop of a chain fails a check exactly when every hop passes them all.
proof fn lemma_first_hop_error_none_iff(states: Seq<HopState>)
    ensures
        first_hop_error(states) is None <==> forall|i: int| 0 <= i < states.len() ==> hop_error(#[trigger] states[i]) is None,
    decreases states.len(),
{
    if states.len() > 0 {
        let p = states.drop_last();
        lemma_first_hop_error_none_iff(p);
        assert forall|i: int| 0 <= i < p.len() implies #[trigger] p[i] == states[i] by {}
        if forall|i: int| 0 <= i < states.len() ==> hop_error(#[trigger] states[i]) is None {
            assert(hop_error(states[states.len() - 1]) is None);
        }
        if first_hop_error(states) is None {
            assert forall|i: int| 0 <= i < states.len() implies hop_error(#[trigger] states[i]) is None by {
                if i < states.len() - 1 {
                    assert(p[i] == states[i]);
                }
            }
        }
    }
}

/// A resolved chain's final score is the mean of its hops' scores,
/// truncated: `n * final <= sum < n * (final + 1)` over the `n` hops, and it
/// reports every hop as resolved at the ledger of resolution.
pub proof fn lemma_final_score_is_mean(hops: Map<Seq<u8>, HopState>, hop_ids: Seq<Seq<u8>>, ledger_sequence: u32)
    requires
        resolution(hops, hop_ids, ledger_sequence) is Ok,
    ensures
        ({
            let r = resolution(hops, hop_ids, ledger_sequence).unwrap();
            let n = hop_ids.len() as int;
            let sum = score_sum(chain_states(hops, hop_ids));
            &&& n * r.final_score.raw <= sum < n * (r.final_score.raw + 1)
            &&& r.hops_resolved == n
            &&& r.resolved_at_ledger == ledger_sequence
        }),
{
    let n = hop_ids.len() as int;
    let states = chain_states(hops, hop_ids);
    lemma_passing_hops_have_valid_scores(states);
    lemma_score_sum_bounds(states);
    let sum = score_sum(states);
    vstd::arithmetic::div_mod::lemma_fundamental_div_mod(sum, n);
    assert(0 <= sum / n <= SCORE_PRECISION) by (nonlinear_arith)
        requires
            0 <= sum <= n * SCORE_PRECISION,
            1 <= n <= 10,
    ;
    let m = sum / n;
    assert(n * m <= sum < n * (m + 1)) by (nonlinear_arith)
        requires
            sum == n * m + sum % n,
            0 <= sum % n < n,
    ;
}

} // verus!
