//! Optimistic concurrency control for batch state: per-batch sequence
//! numbers, two-phase commit and compensating rollbacks.

pub mod optimistic_mutator;
pub mod laws;
pub mod rollback;

pub use optimistic_mutator::{
    CompensationEntry, CompensationLog, CompensationReason, MutationList, MutationStatus,
    OptimisticContract, OptimisticStore, PendingMutation, StateEvent, StateKey, StateVersion,
    MAX_CONCURRENT_MUTATIONS, OPTIMISTIC_LOCK_TIMEOUT,
};

pub use rollback::{apply_compensation, rollback_mutation, verify_compensation_integrity};
