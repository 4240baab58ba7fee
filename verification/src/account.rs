//! Account and contract identities.

use vstd::prelude::*;

use crate::bytes::bytes_eq;

verus! {

/// The 32-byte identity of an account or a contract.
#[derive(Clone, Copy, Debug, PartialEq, Eq, Hash)]
pub struct AccountId {
    pub raw: [u8; 32],
}

impl AccountId {
    pub fn new(raw: [u8; 32]) -> (a: Self)
        ensures
            a.raw == raw,
    {
        AccountId { raw }
    }

    /// Whether two identities are the same.
    pub fn same_as(&self, other: &AccountId) -> (r: bool)
        ensures
            r == (*self == *other),
    {
        let r = bytes_eq(self.raw.as_slice(), other.raw.as_slice());
        proof {
            if self.raw@ == other.raw@ {
                assert(self.raw =~= other.raw);
            }
        }
        r
    }
}

} // verus!
