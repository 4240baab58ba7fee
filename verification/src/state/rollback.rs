//! Rollback and compensation of optimistic mutations. Every rollback logs a
//! compensation entry for the mutation it reverts.

use vstd::prelude::*;

use crate::bytes::copy_bytes;
use super::laws::{
    final_states_kept, is_active, lemma_final_states_kept_refl, lemma_find_mutation, lemma_log_push_extends,
    lemma_status_change_keeps_inv,
};
use super::optimistic_mutator::{
    batch_list, comp_log, copy_byte_map, find_mutation, log_compensation, put_back_with_status,
    restore_values, restored, take_batch, with_status, CompensationEntry, CompensationModel,
    CompensationReason, MutationStatus, OptimisticStore,
};

verus! {

/// Rolls back an active mutation and returns the compensation logged for
/// it: its previous values are written back, the compensation is appended
/// to its log and it is marked `RolledBack`. An unknown mutation, or one
/// already `Committed`, `RolledBack` or `Expired`, gives `None` and changes
/// nothing.
pub fn rollback_mutation(
    store: &mut OptimisticStore,
    ledger_sequence: u32,
    batch_id: &[u8],
    mutation_id: &[u8],
) -> (r: Option<CompensationEntry>)
    ensures
        ({
            let l = batch_list(old(store).pending.view(), batch_id@);
            match find_mutation(l, mutation_id@) {
                Some(i) if is_active(l[i].status) => {
                    let m = l[i];
                    let c = CompensationModel {
                        original_mutation_id: mutation_id@,
                        compensation_state: m.prev_values,
                        reason: CompensationReason::RollbackModule,
                        timestamp: ledger_sequence as u64,
                    };
                    &&& r is Some && r.unwrap()@ == c
                    &&& final(store).values.view() == restored(old(store).values.view(), m.prev_values)
                    &&& final(store).compensations.view() == old(store).compensations.view().insert(
                        mutation_id@,
                        comp_log(old(store).compensations.view(), mutation_id@).push(c),
                    )
                    &&& final(store).pending.view() == old(store).pending.view().insert(batch_id@, l.update(i, with_status(m, MutationStatus::RolledBack)))
                },
                _ => {
                    &&& r is None
                    &&& final(store).pending.view() == old(store).pending.view()
                    &&& final(store).compensations.view() == old(store).compensations.view()
                    &&& final(store).values.view() == old(store).values.view()
                },
            }
        }),
        final(store).version == old(store).version,
        final(store).batch_counters.view() == old(store).batch_counters.view(),
        final(store).ready_to_commit.view() == old(store).ready_to_commit.view(),
        final(store).events@ == old(store).events@,
        final_states_kept(old(store).pending.view(), final(store).pending.view()),
        old(store).inv() ==> final(store).inv(),
{
    proof {
        lemma_find_mutation(batch_list(old(store).pending.view(), batch_id@), mutation_id@);
        lemma_final_states_kept_refl(old(store).pending.view());
    }
    let found = match store.pending.get(batch_id) {
        Some(list) => match list.find(mutation_id) {
            Some(i) => {
                let st = list.items[i].status;
                assert(st == list@[i as int].status);
                if st == MutationStatus::Pending || st == MutationStatus::ReadyToCommit {
                    Some(i)
                } else {
                    None
                }
            },
            None => None,
        },
        None => None,
    };
    let idx = match found {
        Some(i) => i,
        None => return None,
    };
    let ghost l = batch_list(old(store).pending.view(), batch_id@);
    let ghost m = l[idx as int];
    let list = take_batch(store, batch_id);
    restore_values(&mut store.values, &list.items[idx].prev_values);
    let compensation = CompensationEntry {
        original_mutation_id: copy_bytes(mutation_id),
        compensation_state: copy_byte_map(&list.items[idx].prev_values),
        reason: CompensationReason::RollbackModule,
        timestamp: ledger_sequence as u64,
    };
    let returned = compensation.duplicate();
    let ghost cm = compensation@;
    log_compensation(store, mutation_id, compensation);
    put_back_with_status(store, copy_bytes(batch_id), list, idx, MutationStatus::RolledBack);
    assert(store.pending.view() =~= old(store).pending.view().insert(batch_id@, l.update(idx as int, with_status(m, MutationStatus::RolledBack))));
    proof {
        lemma_log_push_extends(old(store).compensations.view(), mutation_id@, cm);
        lemma_status_change_keeps_inv(old(store).pending.view(), old(store).compensations.view(), store.compensations.view(), old(store).batch_counters.view(), batch_id@, idx as int, MutationStatus::RolledBack);
    }
    Some(returned)
}

/// Applies a compensation: writes its values back, removing the keys whose
/// value is empty.
pub fn apply_compensation(store: &mut OptimisticStore, compensation: &CompensationEntry)
    ensures
        final(store).values.view() == restored(old(store).values.view(), compensation@.compensation_state),
        final(store).pending.view() == old(store).pending.view(),
        final(store).compensations.view() == old(store).compensations.view(),
        final(store).version == old(store).version,
        final(store).batch_counters.view() == old(store).batch_counters.view(),
        final(store).ready_to_commit.view() == old(store).ready_to_commit.view(),
        final(store).events@ == old(store).events@,
        old(store).inv() ==> final(store).inv(),
{
    restore_values(&mut store.values, &compensation.compensation_state);
}

/// Whether every compensation logged for a mutation reverts at least one
/// key (vacuously true where none is logged).
pub fn verify_compensation_integrity(store: &OptimisticStore, mutation_id: &[u8]) -> (r: bool)
    ensures
        r == (forall|i: int|
            0 <= i < comp_log(store.compensations.view(), mutation_id@).len()
                ==> !comp_log(store.compensations.view(), mutation_id@)[i].compensation_state.is_empty()),
{
    match store.compensations.get(mutation_id) {
        None => true,
        Some(log) => {
            let n = log.entries.len();
            assert(comp_log(store.compensations.view(), mutation_id@) == log@);
            let mut i: usize = 0;
            while i < n
                invariant
                    n == log@.len(),
                    i <= n,
                    comp_log(store.compensations.view(), mutation_id@) == log@,
                    forall|j: int| 0 <= j < i ==> !log@[j].compensation_state.is_empty(),
                decreases n - i,
            {
                if log.entries[i].compensation_state.is_empty() {
                    assert(log@[i as int] == log.entries@[i as int]@);
                    assert(log@[i as int].compensation_state.is_empty());
                    assert(comp_log(store.compensations.view(), mutation_id@)[i as int].compensation_state.is_empty());
                    return false;
                }
                assert(!log@[i as int].compensation_state.is_empty());
                i = i + 1;
            }
            true
        },
    }
}

} // verus!
