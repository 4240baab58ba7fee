//! The host environment and the hash it computes.

use vstd::prelude::*;

use soroban_sdk::Env;

verus! {

/// The Soroban host environment, carried through opaquely.
#[verifier::external_type_specification]
#[verifier::external_body]
pub struct ExEnv(soroban_sdk::Env);

/// The SHA-256 digest of a byte string.
pub uninterp spec fn sha256_digest(data: Seq<u8>) -> Seq<u8>;

/// Calls `soroban_sdk::crypto::Crypto::sha256` on the bytes of `data`.
/// Claimed: the 32 bytes returned are the SHA-256 digest of `data`, a
/// function of `data` alone. The host meters each call against its budget;
/// callers hash at most 64 bytes, far inside it.
#[verifier::external_body]
pub(crate) fn sha256(env: &Env, data: &Vec<u8>) -> (digest: [u8; 32])
    requires
        data@.len() <= 64,
    ensures
        digest@ == sha256_digest(data@),
{
    let bytes = soroban_sdk::Bytes::from_slice(env, data.as_slice());
    env.crypto().sha256(&bytes).to_array()
}

} // verus!
