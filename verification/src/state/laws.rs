//! Properties that every operation of the contract keeps, and what a
//! rollback undoes.

use vstd::prelude::*;

use super::optimistic_mutator::{
    batch_counter, batch_list, be_bytes, comp_log, find_from, find_mutation, mutation_id_of, prev_values_of,
    restored, value_or_empty, with_status, CompensationModel, MutationStatus, OptimisticStore,
    PendingModel, MAX_CONCURRENT_MUTATIONS,
};

verus! {

/// Every mutation marked `RolledBack` has at least one compensation logged
/// under its identifier.
pub open spec fn rollbacks_compensated(
    pending: Map<Seq<u8>, Seq<PendingModel>>,
    comps: Map<Seq<u8>, Seq<CompensationModel>>,
) -> bool {
    forall|b: Seq<u8>, i: int|
        #![trigger batch_list(pending, b)[i]]
        0 <= i < batch_list(pending, b).len() && batch_list(pending, b)[i].status == MutationStatus::RolledBack
            ==> comp_log(comps, batch_list(pending, b)[i].mutation_id).len() > 0
}

/// Each batch holds exactly the mutations numbered 1 to its counter, in
/// order, each identified by its batch and number.
pub open spec fn batches_sequenced(
    pending: Map<Seq<u8>, Seq<PendingModel>>,
    counters: Map<Seq<u8>, u64>,
) -> bool {
    &&& forall|b: Seq<u8>| #[trigger] batch_list(pending, b).len() == batch_counter(counters, b)
    &&& forall|b: Seq<u8>, i: int|
        #![trigger batch_list(pending, b)[i]]
        0 <= i < batch_list(pending, b).len() ==> {
            &&& batch_list(pending, b)[i].seq_no == i + 1
            &&& batch_list(pending, b)[i].batch_id == b
            &&& batch_list(pending, b)[i].mutation_id == mutation_id_of(b, (i + 1) as u64)
        }
}

/// A mutation is active while it is `Pending` or `ReadyToCommit`.
pub open spec fn is_active(s: MutationStatus) -> bool {
    s == MutationStatus::Pending || s == MutationStatus::ReadyToCommit
}

/// The number of active mutations in a list.
pub open spec fn active_count(l: Seq<PendingModel>) -> nat
    decreases l.len(),
{
    if l.len() == 0 {
        0
    } else {
        active_count(l.drop_last()) + if is_active(l.last().status) { 1nat } else { 0nat }
    }
}

/// No batch holds more than `MAX_CONCURRENT_MUTATIONS` active mutations.
pub open spec fn concurrency_bounded(pending: Map<Seq<u8>, Seq<PendingModel>>) -> bool {
    forall|b: Seq<u8>| #[trigger] active_count(batch_list(pending, b)) <= MAX_CONCURRENT_MUTATIONS
}

/// `Committed`, `RolledBack` and `Expired` are final: every mutation in
/// such a state is still stored, unchanged, at the same position.
pub open spec fn final_states_kept(
    pending: Map<Seq<u8>, Seq<PendingModel>>,
    pending2: Map<Seq<u8>, Seq<PendingModel>>,
) -> bool {
    forall|b: Seq<u8>, i: int|
        #![trigger batch_list(pending, b)[i]]
        0 <= i < batch_list(pending, b).len() && !is_active(batch_list(pending, b)[i].status) ==> {
            &&& i < batch_list(pending2, b).len()
            &&& batch_list(pending2, b)[i] == batch_list(pending, b)[i]
        }
}

impl OptimisticStore {
    /// The properties every operation keeps: each rolled-back mutation has
    /// its compensation logged, each batch holds its mutations numbered
    /// consecutively from 1, and no batch has more than
    /// `MAX_CONCURRENT_MUTATIONS` active mutations.
    pub open spec fn inv(&self) -> bool {
        &&& rollbacks_compensated(self.pending.view(), self.compensations.view())
        &&& batches_sequenced(self.pending.view(), self.batch_counters.view())
        &&& concurrency_bounded(self.pending.view())
    }
}

/// An unchanged store keeps its final states.
pub proof fn lemma_final_states_kept_refl(pending: Map<Seq<u8>, Seq<PendingModel>>)
    ensures
        final_states_kept(pending, pending),
{
}

/// Counting the active mutations of one more entry.
pub proof fn lemma_active_count_take(l: Seq<PendingModel>, i: int)
    requires
        0 <= i < l.len(),
    ensures
        active_count(l.take(i + 1)) == active_count(l.take(i)) + if is_active(l[i].status) { 1nat } else { 0nat },
{
    assert(l.take(i + 1).drop_last() =~= l.take(i));
}

/// Appending a mutation counts it if it is active.
pub proof fn lemma_active_count_push(l: Seq<PendingModel>, m: PendingModel)
    ensures
        active_count(l.push(m)) == active_count(l) + if is_active(m.status) { 1nat } else { 0nat },
{
    assert(l.push(m).drop_last() =~= l);
}

/// Replacing one entry changes the count by the difference of the two.
pub proof fn lemma_active_count_update(l: Seq<PendingModel>, i: int, x: PendingModel)
    requires
        0 <= i < l.len(),
    ensures
        active_count(l.update(i, x)) + (if is_active(l[i].status) { 1int } else { 0int })
            == active_count(l) + (if is_active(x.status) { 1int } else { 0int }),
    decreases l.len(),
{
    if i == l.len() - 1 {
        assert(l.update(i, x).drop_last() =~= l.drop_last());
    } else {
        assert(l.update(i, x).drop_last() =~= l.drop_last().update(i, x));
        lemma_active_count_update(l.drop_last(), i, x);
    }
}

/// Compensation logs only ever grow.
pub open spec fn logs_extend(
    comps: Map<Seq<u8>, Seq<CompensationModel>>,
    comps2: Map<Seq<u8>, Seq<CompensationModel>>,
) -> bool {
    forall|id: Seq<u8>| #[trigger] comp_log(comps, id).len() <= comp_log(comps2, id).len()
}

/// Logs extend themselves.
pub proof fn lemma_logs_extend_refl(comps: Map<Seq<u8>, Seq<CompensationModel>>)
    ensures
        logs_extend(comps, comps),
{
}

/// Appending one compensation extends the logs.
pub proof fn lemma_log_push_extends(
    comps: Map<Seq<u8>, Seq<CompensationModel>>,
    id: Seq<u8>,
    c: CompensationModel,
)
    ensures
        logs_extend(comps, comps.insert(id, comp_log(comps, id).push(c))),
        comp_log(comps.insert(id, comp_log(comps, id).push(c)), id).len() > 0,
{
    let comps2 = comps.insert(id, comp_log(comps, id).push(c));
    assert forall|x: Seq<u8>| #[trigger] comp_log(comps, x).len() <= comp_log(comps2, x).len() by {
        if x != id {
            assert(comp_log(comps2, x) == comp_log(comps, x));
        }
    }
}

/// The position `find_from` gives holds the mutation sought, and none
/// before it from `start` on does.
pub proof fn lemma_find_from(list: Seq<PendingModel>, id: Seq<u8>, start: int)
    requires
        0 <= start,
    ensures
        find_from(list, id, start) matches Some(i) ==> start <= i < list.len() && list[i].mutation_id == id
            && forall|j: int| start <= j < i ==> list[j].mutation_id != id,
        find_from(list, id, start) is None ==> forall|j: int| start <= j < list.len() ==> list[j].mutation_id != id,
    decreases list.len() - start,
{
    if start < list.len() && list[start].mutation_id != id {
        lemma_find_from(list, id, start + 1);
    }
}

/// The position `find_mutation` gives holds the first mutation sought.
pub proof fn lemma_find_mutation(list: Seq<PendingModel>, id: Seq<u8>)
    ensures
        find_mutation(list, id) matches Some(i) ==> 0 <= i < list.len() && list[i].mutation_id == id
            && forall|j: int| 0 <= j < i ==> list[j].mutation_id != id,
        find_mutation(list, id) is None ==> forall|i: int| 0 <= i < list.len() ==> list[i].mutation_id != id,
{
    lemma_find_from(list, id, 0);
}

/// Changing the status of one mutation keeps both properties, provided a
/// mutation marked `RolledBack` has its compensation logged.
pub proof fn lemma_status_change_keeps_inv(
    pending: Map<Seq<u8>, Seq<PendingModel>>,
    comps: Map<Seq<u8>, Seq<CompensationModel>>,
    comps2: Map<Seq<u8>, Seq<CompensationModel>>,
    counters: Map<Seq<u8>, u64>,
    b: Seq<u8>,
    i: int,
    status: MutationStatus,
)
    requires
        0 <= i < batch_list(pending, b).len(),
        logs_extend(comps, comps2),
        status == MutationStatus::RolledBack ==> comp_log(comps2, batch_list(pending, b)[i].mutation_id).len() > 0,
        is_active(batch_list(pending, b)[i].status),
        !is_active(status),
    ensures
        ({
            let l = batch_list(pending, b);
            let pending2 = pending.insert(b, l.update(i, with_status(l[i], status)));
            &&& rollbacks_compensated(pending, comps) ==> rollbacks_compensated(pending2, comps2)
            &&& batches_sequenced(pending, counters) ==> batches_sequenced(pending2, counters)
            &&& concurrency_bounded(pending) ==> concurrency_bounded(pending2)
            &&& final_states_kept(pending, pending2)
        }),
{
    let l = batch_list(pending, b);
    let pending2 = pending.insert(b, l.update(i, with_status(l[i], status)));
    assert forall|x: Seq<u8>| x != b implies #[trigger] batch_list(pending2, x) == batch_list(pending, x) by {}
    assert(batch_list(pending2, b) == l.update(i, with_status(l[i], status)));
    lemma_active_count_update(l, i, with_status(l[i], status));
    if concurrency_bounded(pending) {
        assert forall|x: Seq<u8>| #[trigger] active_count(batch_list(pending2, x)) <= MAX_CONCURRENT_MUTATIONS by {
            assert(active_count(batch_list(pending, x)) <= MAX_CONCURRENT_MUTATIONS);
        }
    }
    assert forall|x: Seq<u8>, j: int|
        0 <= j < batch_list(pending, x).len() && !is_active(#[trigger] batch_list(pending, x)[j].status) implies {
            &&& j < batch_list(pending2, x).len()
            &&& batch_list(pending2, x)[j] == batch_list(pending, x)[j]
        } by {
        if x == b {
            assert(j != i);
        }
    }
    if rollbacks_compensated(pending, comps) {
        assert forall|x: Seq<u8>, j: int|
            0 <= j < batch_list(pending2, x).len() && batch_list(pending2, x)[j].status == MutationStatus::RolledBack
            implies comp_log(comps2, #[trigger] batch_list(pending2, x)[j].mutation_id).len() > 0 by {
            if x == b && j == i {
            } else {
                assert(batch_list(pending2, x)[j] == batch_list(pending, x)[j]);
                assert(comp_log(comps, batch_list(pending, x)[j].mutation_id).len() <= comp_log(comps2, batch_list(pending, x)[j].mutation_id).len());
            }
        }
    }
    if batches_sequenced(pending, counters) {
        assert forall|x: Seq<u8>| #[trigger] batch_list(pending2, x).len() == batch_counter(counters, x) by {
            if x != b {
            } else {
                assert(batch_list(pending, x).len() == batch_counter(counters, x));
            }
        }
        assert forall|x: Seq<u8>, j: int| 0 <= j < batch_list(pending2, x).len() implies {
            &&& #[trigger] batch_list(pending2, x)[j].seq_no == j + 1
            &&& batch_list(pending2, x)[j].batch_id == x
            &&& batch_list(pending2, x)[j].mutation_id == mutation_id_of(x, (j + 1) as u64)
        } by {
            assert(batch_list(pending, x)[j].seq_no == j + 1);
        }
    }
}

/// Beginning the next mutation of a batch keeps both properties.
pub proof fn lemma_begin_keeps_inv(
    pending: Map<Seq<u8>, Seq<PendingModel>>,
    comps: Map<Seq<u8>, Seq<CompensationModel>>,
    counters: Map<Seq<u8>, u64>,
    b: Seq<u8>,
    m: PendingModel,
)
    requires
        m.seq_no == batch_counter(counters, b) + 1,
        m.batch_id == b,
        m.mutation_id == mutation_id_of(b, m.seq_no),
        m.status == MutationStatus::Pending,
        active_count(batch_list(pending, b)) < MAX_CONCURRENT_MUTATIONS,
    ensures
        ({
            let pending2 = pending.insert(b, batch_list(pending, b).push(m));
            let counters2 = counters.insert(b, m.seq_no);
            &&& rollbacks_compensated(pending, comps) ==> rollbacks_compensated(pending2, comps)
            &&& batches_sequenced(pending, counters) ==> batches_sequenced(pending2, counters2)
            &&& concurrency_bounded(pending) ==> concurrency_bounded(pending2)
            &&& final_states_kept(pending, pending2)
        }),
{
    let l = batch_list(pending, b);
    let pending2 = pending.insert(b, l.push(m));
    let counters2 = counters.insert(b, m.seq_no);
    assert forall|x: Seq<u8>| x != b implies #[trigger] batch_list(pending2, x) == batch_list(pending, x) by {}
    assert(batch_list(pending2, b) == l.push(m));
    lemma_active_count_push(l, m);
    if concurrency_bounded(pending) {
        assert forall|x: Seq<u8>| #[trigger] active_count(batch_list(pending2, x)) <= MAX_CONCURRENT_MUTATIONS by {
            assert(active_count(batch_list(pending, x)) <= MAX_CONCURRENT_MUTATIONS);
        }
    }
    assert forall|x: Seq<u8>, j: int|
        0 <= j < batch_list(pending, x).len() && !is_active(#[trigger] batch_list(pending, x)[j].status) implies {
            &&& j < batch_list(pending2, x).len()
            &&& batch_list(pending2, x)[j] == batch_list(pending, x)[j]
        } by {
        if x == b {
            assert(batch_list(pending2, x)[j] == l[j]);
        }
    }
    if rollbacks_compensated(pending, comps) {
        assert forall|x: Seq<u8>, j: int|
            0 <= j < batch_list(pending2, x).len() && batch_list(pending2, x)[j].status == MutationStatus::RolledBack
            implies comp_log(comps, #[trigger] batch_list(pending2, x)[j].mutation_id).len() > 0 by {
            if x == b && j == l.len() {
            } else {
                assert(batch_list(pending2, x)[j] == batch_list(pending, x)[j]);
            }
        }
    }
    if batches_sequenced(pending, counters) {
        assert forall|x: Seq<u8>| #[trigger] batch_list(pending2, x).len() == batch_counter(counters2, x) by {
            if x != b {
                assert(batch_list(pending, x).len() == batch_counter(counters, x));
            } else {
                assert(batch_list(pending, x).len() == batch_counter(counters, x));
            }
        }
        assert forall|x: Seq<u8>, j: int| 0 <= j < batch_list(pending2, x).len() implies {
            &&& #[trigger] batch_list(pending2, x)[j].seq_no == j + 1
            &&& batch_list(pending2, x)[j].batch_id == x
            &&& batch_list(pending2, x)[j].mutation_id == mutation_id_of(x, (j + 1) as u64)
        } by {
            if x == b && j == l.len() {
                assert(l.len() == batch_counter(counters, b));
            } else {
                assert(batch_list(pending2, x)[j] == batch_list(pending, x)[j]);
            }
        }
    }
}

/// The big-endian bytes of a number determine it.
pub proof fn lemma_be_bytes_injective(a: u64, b: u64)
    requires
        be_bytes(a) == be_bytes(b),
    ensures
        a == b,
{
    assert(be_bytes(a)[0] == be_bytes(b)[0]);
    assert(be_bytes(a)[1] == be_bytes(b)[1]);
    assert(be_bytes(a)[2] == be_bytes(b)[2]);
    assert(be_bytes(a)[3] == be_bytes(b)[3]);
    assert(be_bytes(a)[4] == be_bytes(b)[4]);
    assert(be_bytes(a)[5] == be_bytes(b)[5]);
    assert(be_bytes(a)[6] == be_bytes(b)[6]);
    assert(be_bytes(a)[7] == be_bytes(b)[7]);
    assert(a == b) by (bit_vector)
        requires
            ((a >> 56u64) & 0xffu64) as u8 == ((b >> 56u64) & 0xffu64) as u8,
            ((a >> 48u64) & 0xffu64) as u8 == ((b >> 48u64) & 0xffu64) as u8,
            ((a >> 40u64) & 0xffu64) as u8 == ((b >> 40u64) & 0xffu64) as u8,
            ((a >> 32u64) & 0xffu64) as u8 == ((b >> 32u64) & 0xffu64) as u8,
            ((a >> 24u64) & 0xffu64) as u8 == ((b >> 24u64) & 0xffu64) as u8,
            ((a >> 16u64) & 0xffu64) as u8 == ((b >> 16u64) & 0xffu64) as u8,
            ((a >> 8u64) & 0xffu64) as u8 == ((b >> 8u64) & 0xffu64) as u8,
            (a & 0xffu64) as u8 == (b & 0xffu64) as u8,
    ;
}

/// Mutation identifiers are unique: distinct (batch, sequence number)
/// pairs give distinct identifiers.
pub proof fn lemma_mutation_id_injective(b1: Seq<u8>, s1: u64, b2: Seq<u8>, s2: u64)
    requires
        mutation_id_of(b1, s1) == mutation_id_of(b2, s2),
    ensures
        b1 == b2,
        s1 == s2,
{
    let id = mutation_id_of(b1, s1);
    assert(id.len() == b1.len() + 8);
    assert(b1.len() == b2.len());
    assert(b1 =~= id.take(b1.len() as int));
    assert(b2 =~= id.take(b2.len() as int));
    assert(be_bytes(s1) =~= id.skip(b1.len() as int));
    assert(be_bytes(s2) =~= id.skip(b2.len() as int));
    lemma_be_bytes_injective(s1, s2);
}

/// In a well-sequenced store, the mutation numbered `s` of batch `b` is
/// found at position `s - 1` under its identifier.
pub proof fn lemma_find_by_sequence(
    pending: Map<Seq<u8>, Seq<PendingModel>>,
    counters: Map<Seq<u8>, u64>,
    b: Seq<u8>,
    s: u64,
)
    requires
        batches_sequenced(pending, counters),
        1 <= s <= batch_counter(counters, b),
    ensures
        find_mutation(batch_list(pending, b), mutation_id_of(b, s)) == Some((s - 1) as int),
        batch_list(pending, b)[s - 1].seq_no == s,
{
    let l = batch_list(pending, b);
    let id = mutation_id_of(b, s);
    assert(l.len() == batch_counter(counters, b));
    assert(l[s - 1].mutation_id == mutation_id_of(b, s));
    assert forall|j: int| 0 <= j < s - 1 implies l[j].mutation_id != id by {
        assert(l[j].mutation_id == mutation_id_of(b, (j + 1) as u64));
        if l[j].mutation_id == id {
            lemma_mutation_id_injective(b, (j + 1) as u64, b, s);
        }
    }
    lemma_find_mutation(l, id);
    let i = find_mutation(l, id).unwrap();
    if i < s - 1 {
        assert(l[i].mutation_id != id);
    }
    if i > s - 1 {
        assert(l[s - 1].mutation_id == id);
    }
}

/// A rollback undoes what its mutation wrote: reverting to the values a
/// mutation captured, after its updates were applied, leaves every key
/// reading as it did before the mutation.
pub proof fn lemma_restore_undoes_apply(values: Map<Seq<u8>, Seq<u8>>, updates: Map<Seq<u8>, Seq<u8>>)
    ensures
        forall|k: Seq<u8>|
            #[trigger] value_or_empty(restored(values.union_prefer_right(updates), prev_values_of(values, updates)), k)
                == value_or_empty(values, k),
{
    assert forall|k: Seq<u8>|
        #[trigger] value_or_empty(restored(values.union_prefer_right(updates), prev_values_of(values, updates)), k)
            == value_or_empty(values, k) by {
        if updates.contains_key(k) {
            if value_or_empty(values, k).len() == 0 {
                assert(value_or_empty(values, k) =~= Seq::<u8>::empty());
            }
        }
    }
}

} // verus!
