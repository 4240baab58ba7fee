//! The treasury contract: the terminal hop of the admin chain, where value
//! is released. It keeps no state.

use vstd::prelude::*;

verus! {

/// The treasury contract.
pub struct Treasury;

impl Treasury {
    /// Initializes the treasury; there is nothing to set up.
    pub fn initialize() {
    }
}

} // verus!
