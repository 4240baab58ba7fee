use vstd::prelude::*;

verus! {

/// Errors of provenance resolution.
#[derive(Copy, Clone, Debug, PartialEq, Eq, PartialOrd, Ord, Structural)]
pub enum Error {
    /// The storage access counter would exceed `STORAGE_BUDGET` before the
    /// call completes. Fail-fast: no partial result is written.
    StorageBudgetExceeded,
    /// The hop chain holds more than `MAX_HOPS` hops.
    ChainTooLong,
    /// A `HopState` expected in storage was not found.
    HopNotFound,
    /// The signature carried by a hop failed verification.
    InvalidHopSignature,
    /// The credential of a hop is unverified or carries no timestamp.
    InvalidHopCredential,
    /// A score outside `[0, SCORE_PRECISION]` was encountered.
    InvalidScore,
    /// The chain holds no hop.
    EmptyChain,
    /// The warning threshold was crossed (used in events, not as a result).
    StorageAccessWarning,
}

impl Error {
    /// The contract error code of this error.
    pub fn code(&self) -> (c: u32)
        ensures
            c == error_code(*self),
    {
        match self {
            Error::StorageBudgetExceeded => 1,
            Error::ChainTooLong => 2,
            Error::HopNotFound => 3,
            Error::InvalidHopSignature => 4,
            Error::InvalidHopCredential => 5,
            Error::InvalidScore => 6,
            Error::EmptyChain => 7,
            Error::StorageAccessWarning => 8,
        }
    }
}

/// The contract error code of each error, as the contract reports it.
pub open spec fn error_code(e: Error) -> u32 {
    match e {
        Error::StorageBudgetExceeded => 1,
        Error::ChainTooLong => 2,
        Error::HopNotFound => 3,
        Error::InvalidHopSignature => 4,
        Error::InvalidHopCredential => 5,
        Error::InvalidScore => 6,
        Error::EmptyChain => 7,
        Error::StorageAccessWarning => 8,
    }
}

} // verus!
