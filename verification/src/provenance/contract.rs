use vstd::prelude::*;

use super::errors::Error;
use super::resolver::{
    get_provenance_result, id_views, resolution, resolve_provenance, result_key_of, hop_key_of,
    write_hop_state, ProvenanceEvent, ProvenanceStore,
};
use super::types::{HopState, ProvenanceResult};

verus! {

/// The provenance contract.
pub struct ProvenanceContract;

impl ProvenanceContract {
    /// Resolves a provenance chain and returns the aggregated result; the
    /// result is stored under `chain_id`.
    pub fn resolve(
        store: &mut ProvenanceStore,
        ledger_sequence: u32,
        chain_id: [u8; 32],
        hop_ids: Vec<[u8; 32]>,
    ) -> (r: Result<ProvenanceResult, Error>)
        ensures
            r == resolution(old(store).hop_states.view(), id_views(hop_ids@), ledger_sequence),
            final(store).hop_states.view() == old(store).hop_states.view(),
            match r {
                Ok(res) => {
                    &&& final(store).results.view() == old(store).results.view().insert(result_key_of(chain_id@), res)
                    &&& final(store).events@ == old(store).events@.push(ProvenanceEvent::Resolved {
                        hops_resolved: res.hops_resolved,
                        storage_accesses_used: res.storage_accesses_used,
                    })
                },
                Err(_) => {
                    &&& final(store).results.view() == old(store).results.view()
                    &&& final(store).events@ == old(store).events@
                },
            },
    {
        resolve_provenance(store, ledger_sequence, chain_id, hop_ids)
    }

    /// Writes a hop state into storage before resolution.
    pub fn write_hop(store: &mut ProvenanceStore, hop_id: [u8; 32], state: HopState)
        ensures
            final(store).hop_states.view() == old(store).hop_states.view().insert(hop_key_of(hop_id@), state),
            final(store).results.view() == old(store).results.view(),
            final(store).events@ == old(store).events@,
    {
        write_hop_state(store, &hop_id, &state);
    }

    /// The result previously stored for `chain_id`.
    pub fn get_result(store: &ProvenanceStore, chain_id: [u8; 32]) -> (r: Option<ProvenanceResult>)
        ensures
            r == (if store.results.view().contains_key(result_key_of(chain_id@)) {
                Some(store.results.view()[result_key_of(chain_id@)])
            } else {
                None
            }),
    {
        get_provenance_result(store, &chain_id)
    }
}

} // verus!
