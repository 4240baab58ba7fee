use vstd::prelude::*;

use crate::bytes::{bytes_eq, copy_bytes, map_of, ByteMap, BytesMap};
use super::laws::{
    active_count, final_states_kept, is_active, lemma_active_count_take, lemma_begin_keeps_inv,
    lemma_final_states_kept_refl, lemma_find_mutation, lemma_log_push_extends, lemma_logs_extend_refl,
    lemma_status_change_keeps_inv,
};

verus! {

/// Ledger closes after which a pending mutation may expire.
pub const OPTIMISTIC_LOCK_TIMEOUT: u32 = 10;

/// The most active (`Pending` or `ReadyToCommit`) mutations a batch may
/// hold; `begin_optimistic` refuses another.
pub const MAX_CONCURRENT_MUTATIONS: u32 = 5;

/// The storage entries of the contract.
pub enum StateKey {
    /// The current state version.
    Version,
    /// batch_id -> the mutations begun in that batch.
    PendingMap(Vec<u8>),
    /// mutation_id -> the compensations logged for that mutation.
    CompensationMap(Vec<u8>),
    /// batch_id -> the last sequence number assigned in that batch.
    BatchCounter(Vec<u8>),
    /// mutation_id -> phase-one flag of the two-phase commit.
    ReadyToCommit(Vec<u8>),
    /// data_key -> value.
    StateValue(Vec<u8>),
}

/// Version of the committed state and the sequence number of the last
/// committed mutation.
#[derive(Clone, Copy, Debug, PartialEq, Eq, Structural)]
pub struct StateVersion {
    pub current_version: u64,
    pub current_seq_no: u64,
}

/// Lifecycle of a mutation.
#[derive(Clone, Copy, Debug, PartialEq, Eq, Structural)]
pub enum MutationStatus {
    Pending,
    ReadyToCommit,
    Committed,
    RolledBack,
    Expired,
}

/// Why a compensation was logged.
#[derive(Clone, Copy, Debug, PartialEq, Eq, Structural)]
pub enum CompensationReason {
    /// Commit attempted out of sequence order.
    OutOfOrder,
    /// Explicit rollback through the contract.
    Explicit,
    /// Rollback through the rollback module.
    RollbackModule,
}

/// A mutation begun in a batch.
pub struct PendingMutation {
    pub batch_id: Vec<u8>,
    pub mutation_id: Vec<u8>,
    /// key -> new value.
    pub state_updates: ByteMap,
    /// key -> value before the mutation (empty where there was none).
    pub prev_values: ByteMap,
    pub version: u64,
    pub seq_no: u64,
    pub expires_at: u64,
    pub status: MutationStatus,
}

/// The mathematical value of a `PendingMutation`.
pub struct PendingModel {
    pub batch_id: Seq<u8>,
    pub mutation_id: Seq<u8>,
    pub state_updates: Map<Seq<u8>, Seq<u8>>,
    pub prev_values: Map<Seq<u8>, Seq<u8>>,
    pub version: u64,
    pub seq_no: u64,
    pub expires_at: u64,
    pub status: MutationStatus,
}

impl View for PendingMutation {
    type V = PendingModel;

    open spec fn view(&self) -> PendingModel {
        PendingModel {
            batch_id: self.batch_id@,
            mutation_id: self.mutation_id@,
            state_updates: self.state_updates.view(),
            prev_values: self.prev_values.view(),
            version: self.version,
            seq_no: self.seq_no,
            expires_at: self.expires_at,
            status: self.status,
        }
    }
}

/// A logged compensation: the values a mutation is reverted to.
pub struct CompensationEntry {
    pub original_mutation_id: Vec<u8>,
    /// key -> reverted value (empty means the key is removed).
    pub compensation_state: ByteMap,
    pub reason: CompensationReason,
    /// Ledger sequence at which the compensation was logged.
    pub timestamp: u64,
}

/// The mathematical value of a `CompensationEntry`.
pub struct CompensationModel {
    pub original_mutation_id: Seq<u8>,
    pub compensation_state: Map<Seq<u8>, Seq<u8>>,
    pub reason: CompensationReason,
    pub timestamp: u64,
}

impl View for CompensationEntry {
    type V = CompensationModel;

    open spec fn view(&self) -> CompensationModel {
        CompensationModel {
            original_mutation_id: self.original_mutation_id@,
            compensation_state: self.compensation_state.view(),
            reason: self.reason,
            timestamp: self.timestamp,
        }
    }
}

/// The mutations begun in one batch, in order.
pub struct MutationList {
    pub items: Vec<PendingMutation>,
}

impl View for MutationList {
    type V = Seq<PendingModel>;

    open spec fn view(&self) -> Seq<PendingModel> {
        self.items@.map_values(|m: PendingMutation| m@)
    }
}

/// The compensations logged for one mutation, in order.
pub struct CompensationLog {
    pub entries: Vec<CompensationEntry>,
}

impl View for CompensationLog {
    type V = Seq<CompensationModel>;

    open spec fn view(&self) -> Seq<CompensationModel> {
        self.entries@.map_values(|c: CompensationEntry| c@)
    }
}

/// Events the contract publishes.
pub enum StateEvent {
    /// A mutation was begun with the given sequence number.
    Begun { batch_id: Vec<u8>, mutation_id: Vec<u8>, seq_no: u64 },
    /// A mutation expired; the number is the current sequence number (on
    /// commit) or the ledger sequence (on expiry).
    Expired { batch_id: Vec<u8>, mutation_id: Vec<u8>, at: u64 },
    /// An out-of-order commit was compensated.
    Compensated { batch_id: Vec<u8>, mutation_id: Vec<u8>, current_seq_no: u64 },
    /// A mutation was committed.
    Committed { batch_id: Vec<u8>, mutation_id: Vec<u8>, version: u64, seq_no: u64 },
    /// A mutation was rolled back at the given ledger sequence.
    RolledBack { batch_id: Vec<u8>, mutation_id: Vec<u8>, ledger_sequence: u32 },
}

/// The kind and numbers of an event, with the views of its byte strings.
pub enum EventModel {
    Begun { batch_id: Seq<u8>, mutation_id: Seq<u8>, seq_no: u64 },
    Expired { batch_id: Seq<u8>, mutation_id: Seq<u8>, at: u64 },
    Compensated { batch_id: Seq<u8>, mutation_id: Seq<u8>, current_seq_no: u64 },
    Committed { batch_id: Seq<u8>, mutation_id: Seq<u8>, version: u64, seq_no: u64 },
    RolledBack { batch_id: Seq<u8>, mutation_id: Seq<u8>, ledger_sequence: u32 },
}

impl View for StateEvent {
    type V = EventModel;

    open spec fn view(&self) -> EventModel {
        match self {
            StateEvent::Begun { batch_id, mutation_id, seq_no } =>
                EventModel::Begun { batch_id: batch_id@, mutation_id: mutation_id@, seq_no: *seq_no },
            StateEvent::Expired { batch_id, mutation_id, at } =>
                EventModel::Expired { batch_id: batch_id@, mutation_id: mutation_id@, at: *at },
            StateEvent::Compensated { batch_id, mutation_id, current_seq_no } =>
                EventModel::Compensated {
                    batch_id: batch_id@,
                    mutation_id: mutation_id@,
                    current_seq_no: *current_seq_no,
                },
            StateEvent::Committed { batch_id, mutation_id, version, seq_no } =>
                EventModel::Committed {
                    batch_id: batch_id@,
                    mutation_id: mutation_id@,
                    version: *version,
                    seq_no: *seq_no,
                },
            StateEvent::RolledBack { batch_id, mutation_id, ledger_sequence } =>
                EventModel::RolledBack {
                    batch_id: batch_id@,
                    mutation_id: mutation_id@,
                    ledger_sequence: *ledger_sequence,
                },
        }
    }
}

/// The contract's persistent storage and the events it has published.
pub struct OptimisticStore {
    /// `StateKey::Version`.
    pub version: Option<StateVersion>,
    /// `StateKey::PendingMap`.
    pub pending: BytesMap<MutationList>,
    /// `StateKey::CompensationMap`.
    pub compensations: BytesMap<CompensationLog>,
    /// `StateKey::BatchCounter`.
    pub batch_counters: BytesMap<u64>,
    /// `StateKey::ReadyToCommit`.
    pub ready_to_commit: BytesMap<bool>,
    /// `StateKey::StateValue`.
    pub values: ByteMap,
    /// Published events, oldest first.
    pub events: Vec<StateEvent>,
}

/// The eight big-endian bytes of `n`.
pub open spec fn be_bytes(n: u64) -> Seq<u8> {
    seq![
        ((n >> 56u64) & 0xffu64) as u8,
        ((n >> 48u64) & 0xffu64) as u8,
        ((n >> 40u64) & 0xffu64) as u8,
        ((n >> 32u64) & 0xffu64) as u8,
        ((n >> 24u64) & 0xffu64) as u8,
        ((n >> 16u64) & 0xffu64) as u8,
        ((n >> 8u64) & 0xffu64) as u8,
        (n & 0xffu64) as u8,
    ]
}

/// The identifier of the mutation with sequence number `seq_no` in a batch.
pub open spec fn mutation_id_of(batch_id: Seq<u8>, seq_no: u64) -> Seq<u8> {
    batch_id + be_bytes(seq_no)
}

/// The value a key reads as: empty where it is absent.
pub open spec fn value_or_empty(values: Map<Seq<u8>, Seq<u8>>, k: Seq<u8>) -> Seq<u8> {
    if values.contains_key(k) {
        values[k]
    } else {
        Seq::empty()
    }
}

/// The values a mutation captures before it applies `updates`.
pub open spec fn prev_values_of(values: Map<Seq<u8>, Seq<u8>>, updates: Map<Seq<u8>, Seq<u8>>) -> Map<Seq<u8>, Seq<u8>> {
    Map::new(|k: Seq<u8>| updates.contains_key(k), |k: Seq<u8>| value_or_empty(values, k))
}

/// The values after reverting to `prev`: an empty previous value removes the
/// key, any other is written back.
pub open spec fn restored(values: Map<Seq<u8>, Seq<u8>>, prev: Map<Seq<u8>, Seq<u8>>) -> Map<Seq<u8>, Seq<u8>> {
    Map::new(
        |k: Seq<u8>|
            if prev.contains_key(k) {
                prev[k].len() > 0
            } else {
                values.contains_key(k)
            },
        |k: Seq<u8>|
            if prev.contains_key(k) {
                prev[k]
            } else {
                values[k]
            },
    )
}

/// The first position at or after `start` in `list` of the mutation with
/// identifier `id`.
pub open spec fn find_from(list: Seq<PendingModel>, id: Seq<u8>, start: int) -> Option<int>
    decreases list.len() - start,
{
    if start < 0 || start >= list.len() {
        None
    } else if list[start].mutation_id == id {
        Some(start)
    } else {
        find_from(list, id, start + 1)
    }
}

/// The first position in `list` of the mutation with identifier `id`.
pub open spec fn find_mutation(list: Seq<PendingModel>, id: Seq<u8>) -> Option<int> {
    find_from(list, id, 0)
}

/// The mutations begun in batch `b` (none where the batch is unknown).
pub open spec fn batch_list(pending: Map<Seq<u8>, Seq<PendingModel>>, b: Seq<u8>) -> Seq<PendingModel> {
    if pending.contains_key(b) {
        pending[b]
    } else {
        Seq::empty()
    }
}

/// The compensations logged for mutation `id`.
pub open spec fn comp_log(comps: Map<Seq<u8>, Seq<CompensationModel>>, id: Seq<u8>) -> Seq<CompensationModel> {
    if comps.contains_key(id) {
        comps[id]
    } else {
        Seq::empty()
    }
}

/// `m` with its status replaced.
pub open spec fn with_status(m: PendingModel, status: MutationStatus) -> PendingModel {
    PendingModel { status, ..m }
}

impl OptimisticStore {
    /// An empty store: nothing initialized.
    pub fn new() -> (s: Self)
        ensures
            s.version is None,
            s.pending.view() == Map::<Seq<u8>, Seq<PendingModel>>::empty(),
            s.compensations.view() == Map::<Seq<u8>, Seq<CompensationModel>>::empty(),
            s.batch_counters.view() == Map::<Seq<u8>, u64>::empty(),
            s.ready_to_commit.view() == Map::<Seq<u8>, bool>::empty(),
            s.values.view() == Map::<Seq<u8>, Seq<u8>>::empty(),
            s.events@.len() == 0,
    {
        OptimisticStore {
            version: None,
            pending: BytesMap::new(),
            compensations: BytesMap::new(),
            batch_counters: BytesMap::new(),
            ready_to_commit: BytesMap::new(),
            values: BytesMap::new(),
            events: Vec::new(),
        }
    }

    /// Whether the storage entry `key` is present.
    pub fn has(&self, key: &StateKey) -> (r: bool)
        ensures
            r == match key {
                StateKey::Version => self.version is Some,
                StateKey::PendingMap(b) => self.pending.view().contains_key(b@),
                StateKey::CompensationMap(m) => self.compensations.view().contains_key(m@),
                StateKey::BatchCounter(b) => self.batch_counters.view().contains_key(b@),
                StateKey::ReadyToCommit(m) => self.ready_to_commit.view().contains_key(m@),
                StateKey::StateValue(k) => self.values.view().contains_key(k@),
            },
    {
        match key {
            StateKey::Version => self.version.is_some(),
            StateKey::PendingMap(b) => self.pending.contains_key(b.as_slice()),
            StateKey::CompensationMap(m) => self.compensations.contains_key(m.as_slice()),
            StateKey::BatchCounter(b) => self.batch_counters.contains_key(b.as_slice()),
            StateKey::ReadyToCommit(m) => self.ready_to_commit.contains_key(m.as_slice()),
            StateKey::StateValue(k) => self.values.contains_key(k.as_slice()),
        }
    }
}

/// Copies a byte map entry by entry.
pub fn copy_byte_map(m: &ByteMap) -> (r: ByteMap)
    ensures
        r.pairs() == m.pairs(),
        r.view() == m.view(),
{
    let mut r: ByteMap = BytesMap::new();
    let n = m.len();
    let mut i: usize = 0;
    while i < n
        invariant
            n == m.pairs().len(),
            i <= n,
            r.pairs() == m.pairs().take(i as int),
        decreases n - i,
    {
        let (k, v) = m.entry_at(i);
        let kc = copy_bytes(k.as_slice());
        let vc = copy_bytes(v.as_slice());
        r.set(kc, vc);
        assert(r.pairs() =~= m.pairs().take(i as int + 1));
        i = i + 1;
    }
    assert(m.pairs().take(n as int) =~= m.pairs());
    r
}

impl PendingMutation {
    /// A copy of this mutation.
    pub fn duplicate(&self) -> (r: PendingMutation)
        ensures
            r@ == self@,
    {
        PendingMutation {
            batch_id: copy_bytes(self.batch_id.as_slice()),
            mutation_id: copy_bytes(self.mutation_id.as_slice()),
            state_updates: copy_byte_map(&self.state_updates),
            prev_values: copy_byte_map(&self.prev_values),
            version: self.version,
            seq_no: self.seq_no,
            expires_at: self.expires_at,
            status: self.status,
        }
    }
}

impl CompensationEntry {
    /// A copy of this entry.
    pub fn duplicate(&self) -> (r: CompensationEntry)
        ensures
            r@ == self@,
    {
        CompensationEntry {
            original_mutation_id: copy_bytes(self.original_mutation_id.as_slice()),
            compensation_state: copy_byte_map(&self.compensation_state),
            reason: self.reason,
            timestamp: self.timestamp,
        }
    }
}

impl MutationList {
    pub fn new() -> (l: Self)
        ensures
            l@ == Seq::<PendingModel>::empty(),
    {
        let l = MutationList { items: Vec::new() };
        assert(l@ =~= Seq::<PendingModel>::empty());
        l
    }

    /// The position of the first mutation with identifier `id`.
    pub fn find(&self, id: &[u8]) -> (r: Option<usize>)
        ensures
            match r {
                Some(i) => find_mutation(self@, id@) == Some(i as int) && i < self@.len(),
                None => find_mutation(self@, id@) is None,
            },
    {
        let n = self.items.len();
        let mut i: usize = 0;
        while i < n
            invariant
                n == self@.len(),
                i <= n,
                find_from(self@, id@, 0) == find_from(self@, id@, i as int),
            decreases n - i,
        {
            if bytes_eq(self.items[i].mutation_id.as_slice(), id) {
                assert(self@[i as int].mutation_id == id@);
                return Some(i);
            }
            assert(self@[i as int].mutation_id != id@);
            i = i + 1;
        }
        None
    }

    /// Sets the status of the mutation at position `i`.
    pub fn set_status(&mut self, i: usize, status: MutationStatus)
        requires
            i < old(self)@.len(),
        ensures
            final(self)@ == old(self)@.update(i as int, with_status(old(self)@[i as int], status)),
    {
        let mut m = self.items.remove(i);
        m.status = status;
        self.items.insert(i, m);
        assert(self@ =~= old(self)@.update(i as int, with_status(old(self)@[i as int], status)));
    }

    /// The number of active (`Pending` or `ReadyToCommit`) mutations.
    pub fn count_active(&self) -> (n: usize)
        ensures
            n == active_count(self@),
    {
        let len = self.items.len();
        let mut n: usize = 0;
        let mut i: usize = 0;
        while i < len
            invariant
                len == self@.len(),
                i <= len,
                n <= i,
                n == active_count(self@.take(i as int)),
            decreases len - i,
        {
            proof {
                lemma_active_count_take(self@, i as int);
            }
            let st = self.items[i].status;
            assert(st == self@[i as int].status);
            if st == MutationStatus::Pending || st == MutationStatus::ReadyToCommit {
                n = n + 1;
            }
            i = i + 1;
        }
        assert(self@.take(len as int) =~= self@);
        n
    }

    /// Appends a mutation.
    pub fn push(&mut self, m: PendingMutation)
        ensures
            final(self)@ == old(self)@.push(m@),
    {
        self.items.push(m);
        assert(self@ =~= old(self)@.push(m@));
    }
}

impl CompensationLog {
    pub fn new() -> (l: Self)
        ensures
            l@ == Seq::<CompensationModel>::empty(),
    {
        let l = CompensationLog { entries: Vec::new() };
        assert(l@ =~= Seq::<CompensationModel>::empty());
        l
    }

    /// Appends an entry.
    pub fn push(&mut self, c: CompensationEntry)
        ensures
            final(self)@ == old(self)@.push(c@),
    {
        self.entries.push(c);
        assert(self@ =~= old(self)@.push(c@));
    }
}

/// The eight big-endian bytes of `n`.
pub fn u64_to_be_bytes(n: u64) -> (r: Vec<u8>)
    ensures
        r@ == be_bytes(n),
{
    let mut r: Vec<u8> = Vec::new();
    r.push(((n >> 56u64) & 0xffu64) as u8);
    r.push(((n >> 48u64) & 0xffu64) as u8);
    r.push(((n >> 40u64) & 0xffu64) as u8);
    r.push(((n >> 32u64) & 0xffu64) as u8);
    r.push(((n >> 24u64) & 0xffu64) as u8);
    r.push(((n >> 16u64) & 0xffu64) as u8);
    r.push(((n >> 8u64) & 0xffu64) as u8);
    r.push((n & 0xffu64) as u8);
    assert(r@ =~= be_bytes(n));
    r
}

/// The views of a sequence of events.
pub open spec fn event_models(events: Seq<StateEvent>) -> Seq<EventModel> {
    events.map_values(|e: StateEvent| e@)
}

/// Pushing an event extends the views by its view.
pub proof fn lemma_event_push(events: Seq<StateEvent>, e: StateEvent)
    ensures
        event_models(events.push(e)) == event_models(events).push(e@),
{
    assert(event_models(events.push(e)) =~= event_models(events).push(e@));
}

/// The last sequence number assigned in batch `b` (0 before any).
pub open spec fn batch_counter(counters: Map<Seq<u8>, u64>, b: Seq<u8>) -> u64 {
    if counters.contains_key(b) {
        counters[b]
    } else {
        0
    }
}

/// Capturing the previous value of one more updated key.
proof fn lemma_prev_values_step(values: Map<Seq<u8>, Seq<u8>>, updates: Map<Seq<u8>, Seq<u8>>, k: Seq<u8>, v: Seq<u8>)
    ensures
        prev_values_of(values, updates.insert(k, v)) == prev_values_of(values, updates).insert(k, value_or_empty(values, k)),
{
    assert(prev_values_of(values, updates.insert(k, v)) =~= prev_values_of(values, updates).insert(k, value_or_empty(values, k)));
}

/// Applying one more update.
proof fn lemma_union_step(values: Map<Seq<u8>, Seq<u8>>, updates: Map<Seq<u8>, Seq<u8>>, k: Seq<u8>, v: Seq<u8>)
    ensures
        values.union_prefer_right(updates.insert(k, v)) == values.union_prefer_right(updates).insert(k, v),
{
    assert(values.union_prefer_right(updates.insert(k, v)) =~= values.union_prefer_right(updates).insert(k, v));
}

/// Reverting one more key.
proof fn lemma_restored_step(values: Map<Seq<u8>, Seq<u8>>, prev: Map<Seq<u8>, Seq<u8>>, k: Seq<u8>, v: Seq<u8>)
    ensures
        v.len() == 0 ==> restored(values, prev.insert(k, v)) == restored(values, prev).remove(k),
        v.len() > 0 ==> restored(values, prev.insert(k, v)) == restored(values, prev).insert(k, v),
{
    if v.len() == 0 {
        assert(restored(values, prev.insert(k, v)) =~= restored(values, prev).remove(k));
    } else {
        assert(restored(values, prev.insert(k, v)) =~= restored(values, prev).insert(k, v));
    }
}

/// Writes back the values a compensation holds, in order: an empty value
/// removes its key.
pub fn restore_values(values: &mut ByteMap, prev: &ByteMap)
    ensures
        final(values).view() == restored(old(values).view(), prev.view()),
{
    let ghost v0 = values.view();
    let n = prev.len();
    let mut j: usize = 0;
    assert(restored(v0, map_of(prev.pairs().take(0))) =~= v0);
    while j < n
        invariant
            n == prev.pairs().len(),
            j <= n,
            values.view() == restored(v0, map_of(prev.pairs().take(j as int))),
        decreases n - j,
    {
        let (k, v) = prev.entry_at(j);
        proof {
            crate::bytes::lemma_map_of_take_step(prev.pairs(), j as int);
            lemma_restored_step(v0, map_of(prev.pairs().take(j as int)), k@, v@);
        }
        if v.len() == 0 {
            values.remove(k.as_slice());
        } else {
            values.set(copy_bytes(k.as_slice()), copy_bytes(v.as_slice()));
        }
        j = j + 1;
    }
    assert(prev.pairs().take(n as int) =~= prev.pairs());
}

/// Takes the mutation list of batch `b` out of the store.
pub(crate) fn take_batch(store: &mut OptimisticStore, b: &[u8]) -> (list: MutationList)
    ensures
        list@ == batch_list(old(store).pending.view(), b@),
        final(store).pending.view() == old(store).pending.view().remove(b@),
        final(store).version == old(store).version,
        final(store).compensations.view() == old(store).compensations.view(),
        final(store).batch_counters.view() == old(store).batch_counters.view(),
        final(store).ready_to_commit.view() == old(store).ready_to_commit.view(),
        final(store).values.view() == old(store).values.view(),
        final(store).events@ == old(store).events@,
{
    match store.pending.take(b) {
        Some(list) => list,
        None => MutationList::new(),
    }
}

/// Sets the status of mutation `i` of a taken-out list and stores the list
/// back under batch `b`.
pub(crate) fn put_back_with_status(store: &mut OptimisticStore, b: Vec<u8>, list: MutationList, i: usize, status: MutationStatus)
    requires
        i < list@.len(),
    ensures
        final(store).pending.view() == old(store).pending.view().insert(b@, list@.update(i as int, with_status(list@[i as int], status))),
        final(store).version == old(store).version,
        final(store).compensations.view() == old(store).compensations.view(),
        final(store).batch_counters.view() == old(store).batch_counters.view(),
        final(store).ready_to_commit.view() == old(store).ready_to_commit.view(),
        final(store).values.view() == old(store).values.view(),
        final(store).events@ == old(store).events@,
{
    let mut list = list;
    list.set_status(i, status);
    store.pending.set(b, list);
}

/// Appends a compensation to the log of mutation `id`.
pub(crate) fn log_compensation(store: &mut OptimisticStore, id: &[u8], c: CompensationEntry)
    ensures
        final(store).compensations.view() == old(store).compensations.view().insert(
            id@,
            comp_log(old(store).compensations.view(), id@).push(c@),
        ),
        final(store).pending.view() == old(store).pending.view(),
        final(store).version == old(store).version,
        final(store).batch_counters.view() == old(store).batch_counters.view(),
        final(store).ready_to_commit.view() == old(store).ready_to_commit.view(),
        final(store).values.view() == old(store).values.view(),
        final(store).events@ == old(store).events@,
{
    let mut log = match store.compensations.take(id) {
        Some(log) => log,
        None => CompensationLog::new(),
    };
    log.push(c);
    store.compensations.set(copy_bytes(id), log);
    assert(store.compensations.view() =~= old(store).compensations.view().insert(
        id@,
        comp_log(old(store).compensations.view(), id@).push(c@),
    ));
}

/// Publishes an event.
fn push_event(store: &mut OptimisticStore, e: StateEvent)
    ensures
        event_models(final(store).events@) == event_models(old(store).events@).push(e@),
        final(store).pending.view() == old(store).pending.view(),
        final(store).version == old(store).version,
        final(store).compensations.view() == old(store).compensations.view(),
        final(store).batch_counters.view() == old(store).batch_counters.view(),
        final(store).ready_to_commit.view() == old(store).ready_to_commit.view(),
        final(store).values.view() == old(store).values.view(),
{
    proof {
        lemma_event_push(store.events@, e);
    }
    store.events.push(e);
}

/// Writes every update, in order.
pub fn apply_updates(values: &mut ByteMap, updates: &ByteMap)
    ensures
        final(values).view() == old(values).view().union_prefer_right(updates.view()),
{
    let ghost v0 = values.view();
    let n = updates.len();
    let mut j: usize = 0;
    assert(v0.union_prefer_right(map_of(updates.pairs().take(0))) =~= v0);
    while j < n
        invariant
            n == updates.pairs().len(),
            j <= n,
            values.view() == v0.union_prefer_right(map_of(updates.pairs().take(j as int))),
        decreases n - j,
    {
        let (k, v) = updates.entry_at(j);
        proof {
            crate::bytes::lemma_map_of_take_step(updates.pairs(), j as int);
            lemma_union_step(v0, map_of(updates.pairs().take(j as int)), k@, v@);
        }
        values.set(copy_bytes(k.as_slice()), copy_bytes(v.as_slice()));
        j = j + 1;
    }
    assert(updates.pairs().take(n as int) =~= updates.pairs());
}

/// The contract.
pub struct OptimisticContract;

impl OptimisticContract {
    /// Initializes the state version to zero.
    pub fn initialize(store: &mut OptimisticStore)
        ensures
            final(store).version == Some(StateVersion { current_version: 0, current_seq_no: 0 }),
            final(store).pending.view() == old(store).pending.view(),
            final(store).compensations.view() == old(store).compensations.view(),
            final(store).batch_counters.view() == old(store).batch_counters.view(),
            final(store).ready_to_commit.view() == old(store).ready_to_commit.view(),
            final(store).values.view() == old(store).values.view(),
            final(store).events@ == old(store).events@,
            final_states_kept(old(store).pending.view(), final(store).pending.view()),
            old(store).inv() ==> final(store).inv(),
    {
        proof {
            lemma_final_states_kept_refl(old(store).pending.view());
        }
        store.version = Some(StateVersion { current_version: 0, current_seq_no: 0 });
    }

    /// The identifier of mutation `seq_no` of a batch: the batch identifier
    /// followed by the big-endian bytes of `seq_no`.
    pub fn make_mutation_id(batch_id: &[u8], seq_no: u64) -> (id: Vec<u8>)
        ensures
            id@ == mutation_id_of(batch_id@, seq_no),
    {
        let mut data = copy_bytes(batch_id);
        let mut tail = u64_to_be_bytes(seq_no);
        data.append(&mut tail);
        data
    }

    /// Begins an optimistic mutation of `batch_id` at ledger sequence
    /// `ledger_sequence` and returns its sequence number: the next in the
    /// batch. The previous value of each updated key is captured. A batch
    /// that already holds `MAX_CONCURRENT_MUTATIONS` active mutations refuses
    /// another: 0 (never a sequence number) is returned and nothing changes.
    pub fn begin_optimistic(
        store: &mut OptimisticStore,
        ledger_sequence: u32,
        batch_id: Vec<u8>,
        state_updates: ByteMap,
    ) -> (seq_no: u64)
        requires
            active_count(batch_list(old(store).pending.view(), batch_id@)) < MAX_CONCURRENT_MUTATIONS ==> {
                &&& old(store).version is Some
                &&& batch_counter(old(store).batch_counters.view(), batch_id@) < u64::MAX
                &&& ledger_sequence + OPTIMISTIC_LOCK_TIMEOUT <= u32::MAX
            },
        ensures
            active_count(batch_list(old(store).pending.view(), batch_id@)) >= MAX_CONCURRENT_MUTATIONS ==> {
                &&& seq_no == 0
                &&& final(store).batch_counters.view() == old(store).batch_counters.view()
                &&& final(store).pending.view() == old(store).pending.view()
                &&& final(store).version == old(store).version
                &&& final(store).compensations.view() == old(store).compensations.view()
                &&& final(store).ready_to_commit.view() == old(store).ready_to_commit.view()
                &&& final(store).values.view() == old(store).values.view()
                &&& final(store).events@ == old(store).events@
            },
            active_count(batch_list(old(store).pending.view(), batch_id@)) < MAX_CONCURRENT_MUTATIONS ==> {
                &&& seq_no == batch_counter(old(store).batch_counters.view(), batch_id@) + 1
                &&& final(store).batch_counters.view() == old(store).batch_counters.view().insert(batch_id@, seq_no)
                &&& final(store).pending.view() == old(store).pending.view().insert(
                    batch_id@,
                    batch_list(old(store).pending.view(), batch_id@).push(PendingModel {
                        batch_id: batch_id@,
                        mutation_id: mutation_id_of(batch_id@, seq_no),
                        state_updates: state_updates.view(),
                        prev_values: prev_values_of(old(store).values.view(), state_updates.view()),
                        version: old(store).version.unwrap().current_version,
                        seq_no,
                        expires_at: (ledger_sequence + OPTIMISTIC_LOCK_TIMEOUT) as u64,
                        status: MutationStatus::Pending,
                    }),
                )
                &&& final(store).version == old(store).version
                &&& final(store).compensations.view() == old(store).compensations.view()
                &&& final(store).ready_to_commit.view() == old(store).ready_to_commit.view()
                &&& final(store).values.view() == old(store).values.view()
                &&& event_models(final(store).events@) == event_models(old(store).events@).push(
                    EventModel::Begun { batch_id: batch_id@, mutation_id: mutation_id_of(batch_id@, seq_no), seq_no },
                )
            },
            final_states_kept(old(store).pending.view(), final(store).pending.view()),
            old(store).inv() ==> final(store).inv(),
    {
        let active: usize = match store.pending.get(batch_id.as_slice()) {
            Some(list) => list.count_active(),
            None => 0,
        };
        assert(active == active_count(batch_list(old(store).pending.view(), batch_id@)));
        if active >= MAX_CONCURRENT_MUTATIONS as usize {
            proof {
                lemma_final_states_kept_refl(old(store).pending.view());
            }
            return 0;
        }
        let mut seq_no: u64 = match store.batch_counters.get(batch_id.as_slice()) {
            Some(c) => *c,
            None => 0,
        };
        seq_no = seq_no + 1;
        store.batch_counters.set(copy_bytes(batch_id.as_slice()), seq_no);

        let version = match store.version {
            Some(v) => v,
            None => StateVersion { current_version: 0, current_seq_no: 0 },
        };

        let mut prev_values: ByteMap = BytesMap::new();
        let n = state_updates.len();
        let mut i: usize = 0;
        assert(prev_values_of(store.values.view(), map_of(state_updates.pairs().take(0))) =~= Map::empty());
        while i < n
            invariant
                n == state_updates.pairs().len(),
                i <= n,
                store.values.view() == old(store).values.view(),
                prev_values.view() == prev_values_of(store.values.view(), map_of(state_updates.pairs().take(i as int))),
            decreases n - i,
        {
            let (k, v) = state_updates.entry_at(i);
            let prev: Vec<u8> = match store.values.get(k.as_slice()) {
                Some(p) => copy_bytes(p.as_slice()),
                None => Vec::new(),
            };
            proof {
                crate::bytes::lemma_map_of_take_step(state_updates.pairs(), i as int);
                lemma_prev_values_step(store.values.view(), map_of(state_updates.pairs().take(i as int)), k@, v@);
            }
            prev_values.set(copy_bytes(k.as_slice()), prev);
            i = i + 1;
        }
        assert(state_updates.pairs().take(n as int) =~= state_updates.pairs());

        let mutation_id = Self::make_mutation_id(batch_id.as_slice(), seq_no);
        let expires_at: u64 = (ledger_sequence + OPTIMISTIC_LOCK_TIMEOUT) as u64;
        let event = StateEvent::Begun {
            batch_id: copy_bytes(batch_id.as_slice()),
            mutation_id: copy_bytes(mutation_id.as_slice()),
            seq_no,
        };
        let pending = PendingMutation {
            batch_id: copy_bytes(batch_id.as_slice()),
            mutation_id,
            state_updates,
            prev_values,
            version: version.current_version,
            seq_no,
            expires_at,
            status: MutationStatus::Pending,
        };

        let mut list = match store.pending.take(batch_id.as_slice()) {
            Some(l) => l,
            None => MutationList::new(),
        };
        list.push(pending);
        store.pending.set(batch_id, list);
        assert(store.pending.view() =~= old(store).pending.view().insert(
            batch_id@,
            batch_list(old(store).pending.view(), batch_id@).push(pending@),
        ));
        proof {
            lemma_begin_keeps_inv(old(store).pending.view(), old(store).compensations.view(), old(store).batch_counters.view(), batch_id@, pending@);
        }
        proof {
            lemma_event_push(store.events@, event);
        }
        store.events.push(event);
        seq_no
    }

    /// Whether committing `mutation_id` of `batch_id` at `ledger_sequence`
    /// overflows the version counters (which the contract's arithmetic does
    /// not allow).
    pub open spec fn commit_overflows(store: &OptimisticStore, ledger_sequence: u32, batch_id: Seq<u8>, mutation_id: Seq<u8>) -> bool {
        let l = batch_list(store.pending.view(), batch_id);
        let m = l[find_mutation(l, mutation_id).unwrap()];
        let v = store.version.unwrap();
        &&& is_active(m.status)
        &&& ledger_sequence <= m.expires_at
        &&& (v.current_seq_no == u64::MAX || (m.seq_no == v.current_seq_no + 1 && v.current_version == u64::MAX))
    }

    /// Commits a mutation by two-phase commit and returns whether it was
    /// committed. A mutation already `Committed`, `RolledBack` or `Expired`
    /// is final: false is returned and nothing changes. An expired mutation
    /// is marked `Expired`; a mutation whose sequence number is not the next
    /// one is compensated and marked
    /// `RolledBack`; otherwise (phase one) it is marked ready and (phase two)
    /// its updates are written, the version is incremented, the committed
    /// sequence number recorded and the mutation marked `Committed`.
    #[verifier::rlimit(100)]
    pub fn commit_optimistic(
        store: &mut OptimisticStore,
        ledger_sequence: u32,
        batch_id: Vec<u8>,
        mutation_id: Vec<u8>,
    ) -> (committed: bool)
        requires
            find_mutation(batch_list(old(store).pending.view(), batch_id@), mutation_id@) is Some,
            is_active(batch_list(old(store).pending.view(), batch_id@)[
                find_mutation(batch_list(old(store).pending.view(), batch_id@), mutation_id@).unwrap()
            ].status) ==> old(store).version is Some,
            !Self::commit_overflows(old(store), ledger_sequence, batch_id@, mutation_id@),
        ensures
            ({
                let l = batch_list(old(store).pending.view(), batch_id@);
                let i = find_mutation(l, mutation_id@).unwrap();
                let m = l[i];
                let v = old(store).version.unwrap();
                if !is_active(m.status) {
                    &&& !committed
                    &&& final(store).pending.view() == old(store).pending.view()
                    &&& final(store).version == old(store).version
                    &&& final(store).compensations.view() == old(store).compensations.view()
                    &&& final(store).ready_to_commit.view() == old(store).ready_to_commit.view()
                    &&& final(store).values.view() == old(store).values.view()
                    &&& final(store).events@ == old(store).events@
                } else if ledger_sequence > m.expires_at {
                    &&& !committed
                    &&& final(store).pending.view() == old(store).pending.view().insert(batch_id@, l.update(i, with_status(m, MutationStatus::Expired)))
                    &&& final(store).version == old(store).version
                    &&& final(store).compensations.view() == old(store).compensations.view()
                    &&& final(store).ready_to_commit.view() == old(store).ready_to_commit.view()
                    &&& final(store).values.view() == old(store).values.view()
                    &&& event_models(final(store).events@) == event_models(old(store).events@).push(
                        EventModel::Expired { batch_id: batch_id@, mutation_id: mutation_id@, at: v.current_seq_no })
                } else if m.seq_no != v.current_seq_no + 1 {
                    &&& !committed
                    &&& final(store).pending.view() == old(store).pending.view().insert(batch_id@, l.update(i, with_status(m, MutationStatus::RolledBack)))
                    &&& final(store).compensations.view() == old(store).compensations.view().insert(
                        mutation_id@,
                        comp_log(old(store).compensations.view(), mutation_id@).push(CompensationModel {
                            original_mutation_id: mutation_id@,
                            compensation_state: m.prev_values,
                            reason: CompensationReason::OutOfOrder,
                            timestamp: ledger_sequence as u64,
                        }),
                    )
                    &&& final(store).version == old(store).version
                    &&& final(store).ready_to_commit.view() == old(store).ready_to_commit.view()
                    &&& final(store).values.view() == old(store).values.view()
                    &&& event_models(final(store).events@) == event_models(old(store).events@).push(
                        EventModel::Compensated { batch_id: batch_id@, mutation_id: mutation_id@, current_seq_no: v.current_seq_no })
                } else {
                    &&& committed
                    &&& final(store).pending.view() == old(store).pending.view().insert(batch_id@, l.update(i, with_status(m, MutationStatus::Committed)))
                    &&& final(store).version == Some(StateVersion { current_version: (v.current_version + 1) as u64, current_seq_no: m.seq_no })
                    &&& final(store).ready_to_commit.view() == old(store).ready_to_commit.view().insert(mutation_id@, true)
                    &&& final(store).values.view() == old(store).values.view().union_prefer_right(m.state_updates)
                    &&& final(store).compensations.view() == old(store).compensations.view()
                    &&& event_models(final(store).events@) == event_models(old(store).events@).push(
                        EventModel::Committed {
                            batch_id: batch_id@,
                            mutation_id: mutation_id@,
                            version: (v.current_version + 1) as u64,
                            seq_no: m.seq_no,
                        })
                }
            }),
            final(store).batch_counters.view() == old(store).batch_counters.view(),
            final_states_kept(old(store).pending.view(), final(store).pending.view()),
            old(store).inv() ==> final(store).inv(),
    {
        let ghost l = batch_list(old(store).pending.view(), batch_id@);
        proof {
            lemma_find_mutation(l, mutation_id@);
            lemma_final_states_kept_refl(old(store).pending.view());
        }
        let active = match store.pending.get(batch_id.as_slice()) {
            Some(list) => match list.find(mutation_id.as_slice()) {
                Some(i) => {
                    let st = list.items[i].status;
                    assert(st == list@[i as int].status);
                    st == MutationStatus::Pending || st == MutationStatus::ReadyToCommit
                },
                None => false,
            },
            None => false,
        };
        if !active {
            return false;
        }
        let mut version = match store.version {
            Some(v) => v,
            None => StateVersion { current_version: 0, current_seq_no: 0 },
        };
        let mut list = take_batch(store, batch_id.as_slice());
        let idx = match list.find(mutation_id.as_slice()) {
            Some(i) => i,
            None => 0,
        };
        let ghost m = l[idx as int];

        if ledger_sequence as u64 > list.items[idx].expires_at {
            put_back_with_status(store, copy_bytes(batch_id.as_slice()), list, idx, MutationStatus::Expired);
            assert(store.pending.view() =~= old(store).pending.view().insert(batch_id@, l.update(idx as int, with_status(m, MutationStatus::Expired))));
            proof {
                lemma_logs_extend_refl(old(store).compensations.view());
                lemma_status_change_keeps_inv(old(store).pending.view(), old(store).compensations.view(), old(store).compensations.view(), old(store).batch_counters.view(), batch_id@, idx as int, MutationStatus::Expired);
            }
            push_event(store, StateEvent::Expired { batch_id, mutation_id, at: version.current_seq_no });
            return false;
        }

        // Phase one: linearization check.
        if list.items[idx].seq_no != version.current_seq_no + 1 {
            let compensation = CompensationEntry {
                original_mutation_id: copy_bytes(mutation_id.as_slice()),
                compensation_state: copy_byte_map(&list.items[idx].prev_values),
                reason: CompensationReason::OutOfOrder,
                timestamp: ledger_sequence as u64,
            };
            let ghost cm = compensation@;
            log_compensation(store, mutation_id.as_slice(), compensation);
            put_back_with_status(store, copy_bytes(batch_id.as_slice()), list, idx, MutationStatus::RolledBack);
            assert(store.pending.view() =~= old(store).pending.view().insert(batch_id@, l.update(idx as int, with_status(m, MutationStatus::RolledBack))));
            proof {
                lemma_log_push_extends(old(store).compensations.view(), mutation_id@, cm);
                lemma_status_change_keeps_inv(old(store).pending.view(), old(store).compensations.view(), store.compensations.view(), old(store).batch_counters.view(), batch_id@, idx as int, MutationStatus::RolledBack);
            }
            push_event(store, StateEvent::Compensated { batch_id, mutation_id, current_seq_no: version.current_seq_no });
            return false;
        }

        // Phase one complete: mark ready.
        store.ready_to_commit.set(copy_bytes(mutation_id.as_slice()), true);
        list.set_status(idx, MutationStatus::ReadyToCommit);
        assert(list.items@.len() == list@.len());

        // Phase two: apply the updates, advance the version, mark committed.
        apply_updates(&mut store.values, &list.items[idx].state_updates);
        version.current_version = version.current_version + 1;
        version.current_seq_no = list.items[idx].seq_no;
        store.version = Some(version);
        put_back_with_status(store, copy_bytes(batch_id.as_slice()), list, idx, MutationStatus::Committed);
        assert(l.update(idx as int, with_status(m, MutationStatus::ReadyToCommit)).update(idx as int, with_status(m, MutationStatus::Committed))
            =~= l.update(idx as int, with_status(m, MutationStatus::Committed)));
        proof {
            lemma_logs_extend_refl(old(store).compensations.view());
            lemma_status_change_keeps_inv(old(store).pending.view(), old(store).compensations.view(), old(store).compensations.view(), old(store).batch_counters.view(), batch_id@, idx as int, MutationStatus::Committed);
        }
        assert(store.pending.view() == old(store).pending.view().insert(batch_id@, l.update(idx as int, with_status(l[idx as int], MutationStatus::Committed))));
        push_event(store, StateEvent::Committed {
            batch_id,
            mutation_id,
            version: version.current_version,
            seq_no: version.current_seq_no,
        });
        true
    }

    /// Rolls back an active mutation: writes back its previous values, logs
    /// an explicit compensation and marks it `RolledBack`. An unknown
    /// mutation, or one already `Committed`, `RolledBack` or `Expired`,
    /// leaves everything unchanged.
    pub fn rollback_mutation(store: &mut OptimisticStore, ledger_sequence: u32, batch_id: Vec<u8>, mutation_id: Vec<u8>)
        ensures
            ({
                let l = batch_list(old(store).pending.view(), batch_id@);
                match find_mutation(l, mutation_id@) {
                    Some(i) if is_active(l[i].status) => {
                        let m = l[i];
                        &&& final(store).values.view() == restored(old(store).values.view(), m.prev_values)
                        &&& final(store).compensations.view() == old(store).compensations.view().insert(
                            mutation_id@,
                            comp_log(old(store).compensations.view(), mutation_id@).push(CompensationModel {
                                original_mutation_id: mutation_id@,
                                compensation_state: m.prev_values,
                                reason: CompensationReason::Explicit,
                                timestamp: ledger_sequence as u64,
                            }),
                        )
                        &&& final(store).pending.view() == old(store).pending.view().insert(batch_id@, l.update(i, with_status(m, MutationStatus::RolledBack)))
                        &&& event_models(final(store).events@) == event_models(old(store).events@).push(
                            EventModel::RolledBack { batch_id: batch_id@, mutation_id: mutation_id@, ledger_sequence })
                    },
                    _ => {
                        &&& final(store).pending.view() == old(store).pending.view()
                        &&& final(store).compensations.view() == old(store).compensations.view()
                        &&& final(store).values.view() == old(store).values.view()
                        &&& final(store).events@ == old(store).events@
                    },
                }
            }),
            final(store).version == old(store).version,
            final(store).batch_counters.view() == old(store).batch_counters.view(),
            final(store).ready_to_commit.view() == old(store).ready_to_commit.view(),
            final_states_kept(old(store).pending.view(), final(store).pending.view()),
            old(store).inv() ==> final(store).inv(),
    {
        proof {
            lemma_find_mutation(batch_list(old(store).pending.view(), batch_id@), mutation_id@);
            lemma_final_states_kept_refl(old(store).pending.view());
        }
        let found = match store.pending.get(batch_id.as_slice()) {
            Some(list) => match list.find(mutation_id.as_slice()) {
                Some(i) => {
                    let st = list.items[i].status;
                    assert(st == list@[i as int].status);
                    if st == MutationStatus::Pending || st == MutationStatus::ReadyToCommit {
                        Some(i)
                    } else {
                        None
                    }
                },
                None => None,
            },
            None => None,
        };
        let idx = match found {
            Some(i) => i,
            None => return,
        };
        let ghost l = batch_list(old(store).pending.view(), batch_id@);
        let ghost m = l[idx as int];
        let list = take_batch(store, batch_id.as_slice());
        restore_values(&mut store.values, &list.items[idx].prev_values);
        let compensation = CompensationEntry {
            original_mutation_id: copy_bytes(mutation_id.as_slice()),
            compensation_state: copy_byte_map(&list.items[idx].prev_values),
            reason: CompensationReason::Explicit,
            timestamp: ledger_sequence as u64,
        };
        let ghost cm = compensation@;
        log_compensation(store, mutation_id.as_slice(), compensation);
        put_back_with_status(store, copy_bytes(batch_id.as_slice()), list, idx, MutationStatus::RolledBack);
        assert(store.pending.view() =~= old(store).pending.view().insert(batch_id@, l.update(idx as int, with_status(m, MutationStatus::RolledBack))));
        proof {
            lemma_log_push_extends(old(store).compensations.view(), mutation_id@, cm);
            lemma_status_change_keeps_inv(old(store).pending.view(), old(store).compensations.view(), store.compensations.view(), old(store).batch_counters.view(), batch_id@, idx as int, MutationStatus::RolledBack);
        }
        push_event(store, StateEvent::RolledBack { batch_id, mutation_id, ledger_sequence });
    }

    /// Expires a mutation whose lock has timed out; anyone may call it.
    /// Returns whether the mutation was marked `Expired`: it must exist, the
    /// ledger must be past its expiry, and it must still be `Pending` or
    /// `ReadyToCommit`.
    #[verifier::rlimit(60)]
    pub fn expire_pending(store: &mut OptimisticStore, ledger_sequence: u32, batch_id: Vec<u8>, mutation_id: Vec<u8>) -> (expired: bool)
        ensures
            ({
                let l = batch_list(old(store).pending.view(), batch_id@);
                let fires = match find_mutation(l, mutation_id@) {
                    None => false,
                    Some(i) => {
                        &&& ledger_sequence > l[i].expires_at
                        &&& (l[i].status == MutationStatus::Pending || l[i].status == MutationStatus::ReadyToCommit)
                    },
                };
                &&& expired == fires
                &&& fires ==> {
                    let i = find_mutation(l, mutation_id@).unwrap();
                    &&& final(store).pending.view() == old(store).pending.view().insert(batch_id@, l.update(i, with_status(l[i], MutationStatus::Expired)))
                    &&& event_models(final(store).events@) == event_models(old(store).events@).push(
                        EventModel::Expired { batch_id: batch_id@, mutation_id: mutation_id@, at: ledger_sequence as u64 })
                }
                &&& !fires ==> {
                    &&& final(store).pending.view() == old(store).pending.view()
                    &&& final(store).events@ == old(store).events@
                }
            }),
            final(store).version == old(store).version,
            final(store).compensations.view() == old(store).compensations.view(),
            final(store).batch_counters.view() == old(store).batch_counters.view(),
            final(store).ready_to_commit.view() == old(store).ready_to_commit.view(),
            final(store).values.view() == old(store).values.view(),
            final_states_kept(old(store).pending.view(), final(store).pending.view()),
            old(store).inv() ==> final(store).inv(),
    {
        proof {
            lemma_final_states_kept_refl(old(store).pending.view());
        }
        let (idx, expires_at, status) = match store.pending.get(batch_id.as_slice()) {
            Some(list) => match list.find(mutation_id.as_slice()) {
                Some(i) => (i, list.items[i].expires_at, list.items[i].status),
                None => return false,
            },
            None => return false,
        };
        if ledger_sequence as u64 <= expires_at {
            return false;
        }
        if status != MutationStatus::Pending && status != MutationStatus::ReadyToCommit {
            return false;
        }
        let ghost l = batch_list(old(store).pending.view(), batch_id@);
        let list = take_batch(store, batch_id.as_slice());
        put_back_with_status(store, copy_bytes(batch_id.as_slice()), list, idx, MutationStatus::Expired);
        assert(store.pending.view() =~= old(store).pending.view().insert(batch_id@, l.update(idx as int, with_status(l[idx as int], MutationStatus::Expired))));
        proof {
            lemma_logs_extend_refl(old(store).compensations.view());
            lemma_status_change_keeps_inv(old(store).pending.view(), old(store).compensations.view(), old(store).compensations.view(), old(store).batch_counters.view(), batch_id@, idx as int, MutationStatus::Expired);
        }
        push_event(store, StateEvent::Expired { batch_id, mutation_id, at: ledger_sequence as u64 });
        true
    }

    /// The current state version.
    pub fn get_version(store: &OptimisticStore) -> (v: StateVersion)
        requires
            store.version is Some,
        ensures
            v == store.version.unwrap(),
    {
        match store.version {
            Some(v) => v,
            None => StateVersion { current_version: 0, current_seq_no: 0 },
        }
    }

    /// The value stored under `key`, empty where there is none.
    pub fn get_state_value(store: &OptimisticStore, key: &[u8]) -> (v: Vec<u8>)
        ensures
            v@ == value_or_empty(store.values.view(), key@),
    {
        match store.values.get(key) {
            Some(v) => copy_bytes(v.as_slice()),
            None => Vec::new(),
        }
    }

    /// The mutation `mutation_id` of `batch_id`, if it was begun.
    pub fn get_pending(store: &OptimisticStore, batch_id: &[u8], mutation_id: &[u8]) -> (r: Option<PendingMutation>)
        ensures
            ({
                let l = batch_list(store.pending.view(), batch_id@);
                match find_mutation(l, mutation_id@) {
                    None => r is None,
                    Some(i) => r is Some && r.unwrap()@ == l[i],
                }
            }),
    {
        match store.pending.get(batch_id) {
            Some(list) => match list.find(mutation_id) {
                Some(i) => Some(list.items[i].duplicate()),
                None => None,
            },
            None => None,
        }
    }
}

} // verus!
