use vstd::prelude::*;

use soroban_sdk::Env;

use crate::crypto::{sha256, sha256_digest};

verus! {

/// Storage entries of the nullifier registry, scoped per compliance domain.
#[derive(Clone, Copy, Debug, PartialEq, Eq)]
pub enum NullifierDataKey {
    /// Whether a nullifier was consumed in a domain: (domain, nullifier).
    NullifierUsed([u8; 32], [u8; 32]),
    /// Whether a compliance domain may submit proofs.
    RegisteredDomain([u8; 32]),
}

/// Event published when a nullifier is consumed.
#[derive(Clone, Copy, Debug, PartialEq, Eq)]
pub struct NullifierConsumed {
    pub domain_id: [u8; 32],
    pub nullifier_hash: [u8; 32],
}

/// The nullifier of an identity commitment in a compliance domain: the
/// SHA-256 digest of the commitment followed by the domain identifier.
pub open spec fn nullifier_of(identity_commitment: Seq<u8>, domain_id: Seq<u8>) -> Seq<u8> {
    sha256_digest(identity_commitment + domain_id)
}

/// Derives the jurisdiction-bound nullifier `SHA-256(identity_commitment ||
/// domain_id)`.
pub fn derive_nullifier(env: &Env, identity_commitment: &[u8; 32], domain_id: &[u8; 32]) -> (n: [u8; 32])
    ensures
        n@ == nullifier_of(identity_commitment@, domain_id@),
{
    let mut input: Vec<u8> = crate::bytes::copy_bytes(identity_commitment.as_slice());
    let mut tail = crate::bytes::copy_bytes(domain_id.as_slice());
    input.append(&mut tail);
    sha256(env, &input)
}

/// What is hashed binds both inputs: distinct (commitment, domain) pairs of
/// 32-byte values give distinct preimages, so the same commitment hashes
/// differently in different domains, and different commitments differently
/// in the same domain.
pub proof fn lemma_preimages_distinct(i1: Seq<u8>, d1: Seq<u8>, i2: Seq<u8>, d2: Seq<u8>)
    requires
        i1.len() == 32,
        i2.len() == 32,
        d1.len() == 32,
        d2.len() == 32,
        i1 != i2 || d1 != d2,
    ensures
        i1 + d1 != i2 + d2,
{
    if i1 + d1 == i2 + d2 {
        assert(i1 =~= (i1 + d1).take(32));
        assert(i2 =~= (i2 + d2).take(32));
        assert(d1 =~= (i1 + d1).skip(32));
        assert(d2 =~= (i2 + d2).skip(32));
    }
}

} // verus!
