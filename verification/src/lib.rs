//! Verified core of the AgriTrust contracts: provenance resolution under a
//! storage budget, streaming-grant arithmetic, optimistic concurrency control
//! for batch state, vesting with conversion slippage, auth-depth tracking,
//! the dead man's switch and jurisdiction-bound ZK-KYC nullifiers.
//!
//! Each contract's ledger storage is modelled by a plain-value struct of this
//! crate; the operations are verified functions over it.

pub mod account;
pub mod admin;
pub mod arith;
pub mod bytes;
pub mod crypto;
pub mod grant_stream;
pub mod provenance;
pub mod state;
pub mod treasury;
pub mod vesting;
pub mod zk_kyc;
