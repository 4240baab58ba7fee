//! Provenance chain resolution with a storage-access budget.

pub mod authorization;
pub mod contract;
pub mod errors;
pub mod hop_checks;
pub mod resolver;
pub mod types;

pub use contract::ProvenanceContract;
pub use errors::Error;
pub use hop_checks::{validate_hop_credential, verify_hop_signature};
pub use resolver::{
    get_provenance_result, prefetch_hop_states, resolve_provenance, write_hop_state,
    ProvenanceAccessSet, ProvenanceEvent, ProvenanceStore,
};
pub use types::{
    HopState, ProvenanceResult, Score, StorageBudget, MAX_HOPS, SCORE_PRECISION, STORAGE_BUDGET,
    STORAGE_WARN_THRESHOLD,
};
pub use authorization::{
    authorize_hop, create_authorization_token, get_contract_domain, is_certifier_registered,
    AuthError, AuthorizationToken, HopAuthorized, MAX_ACTIVE_AUTHORIZATIONS,
    MAX_AUTHORIZATION_DEPTH,
};
