use vstd::prelude::*;

use super::errors::Error;
use super::types::HopState;

verus! {

/// Whether every byte of `s` is zero.
pub open spec fn all_zero(s: Seq<u8>) -> bool {
    forall|i: int| 0 <= i < s.len() ==> s[i] == 0
}

/// The outcome of signature verification of a hop: a zeroed signature is
/// rejected, any other is accepted.
pub open spec fn signature_check(state: HopState) -> Result<(), Error> {
    if all_zero(state.signature@) {
        Err(Error::InvalidHopSignature)
    } else {
        Ok(())
    }
}

/// The outcome of credential validation of a hop.
pub open spec fn credential_check(state: HopState) -> Result<(), Error> {
    if !state.credential_verified || state.recorded_at == 0 {
        Err(Error::InvalidHopCredential)
    } else {
        Ok(())
    }
}

/// Verifies the signature proof carried by a hop. A zeroed 64-byte
/// signature is rejected; any other is accepted. Touches no storage.
pub fn verify_hop_signature(state: &HopState) -> (r: Result<(), Error>)
    ensures
        r == signature_check(*state),
{
    let mut i: usize = 0;
    while i < 64
        invariant
            i <= 64,
            forall|j: int| 0 <= j < i ==> state.signature@[j] == 0,
        decreases 64 - i,
    {
        if state.signature[i] != 0 {
            return Ok(());
        }
        i = i + 1;
    }
    Err(Error::InvalidHopSignature)
}

/// Validates the credential of a hop: it must have been verified at record
/// time and carry a non-zero timestamp.
pub fn validate_hop_credential(state: &HopState) -> (r: Result<(), Error>)
    ensures
        r == credential_check(*state),
{
    if !state.credential_verified {
        return Err(Error::InvalidHopCredential);
    }
    if state.recorded_at == 0 {
        return Err(Error::InvalidHopCredential);
    }
    Ok(())
}

/// A signature is rejected exactly when all 64 of its bytes are zero: any
/// signature with a non-zero byte, wherever it stands, passes, and a
/// rejection is always `InvalidHopSignature`.
pub proof fn lemma_signature_rejected_iff_zeroed(state: HopState)
    ensures
        signature_check(state) is Ok <==> exists|i: int| 0 <= i < 64 && state.signature[i] != 0,
        signature_check(state) is Err ==> signature_check(state) == Err::<(), Error>(Error::InvalidHopSignature),
{
    if exists|i: int| 0 <= i < 64 && state.signature[i] != 0 {
        let i = choose|i: int| 0 <= i < 64 && state.signature[i] != 0;
        assert(state.signature@[i] != 0);
    } else {
        assert forall|i: int| 0 <= i < state.signature@.len() implies state.signature@[i] == 0 by {
            assert(state.signature@[i] == state.signature[i]);
        }
    }
}

/// A credential passes exactly when it was verified at record time and
/// carries a non-zero timestamp; an unverified credential, or one without
/// a timestamp, is rejected with `InvalidHopCredential`.
pub proof fn lemma_credential_accepted_iff_verified(state: HopState)
    ensures
        credential_check(state) is Ok <==> (state.credential_verified && state.recorded_at != 0),
        !state.credential_verified ==> credential_check(state) == Err::<(), Error>(Error::InvalidHopCredential),
        state.recorded_at == 0 ==> credential_check(state) == Err::<(), Error>(Error::InvalidHopCredential),
{
}

} // verus!
