//! ZK-KYC compliance: verified-user status and jurisdiction-bound
//! nullifiers that stop a proof from being replayed within a domain.

pub mod contract;
pub mod nullifier;

pub use contract::{DataKey, ProofError, ZkKycStore, ZKKYCContract};
pub use nullifier::{derive_nullifier, NullifierConsumed, NullifierDataKey};
