//! Multi-hop authorization with domain binding: a token names the certifier
//! contract it was issued for and the domain derived from it, so it cannot
//! be replayed through another contract.

use vstd::prelude::*;

use soroban_sdk::Env;

use crate::account::AccountId;
use crate::bytes::{bytes_eq, copy_bytes};
use crate::crypto::{sha256, sha256_digest};

verus! {

/// Maximum depth of nested cross-contract authorization calls.
pub const MAX_AUTHORIZATION_DEPTH: u32 = 3;

/// Maximum number of active authorizations before cleanup is required.
pub const MAX_ACTIVE_AUTHORIZATIONS: u32 = 100;

/// Ledgers for which a token stays valid.
pub const TOKEN_VALIDITY_LEDGERS: u64 = 100;

/// An authorization of one hop.
#[derive(Clone, Copy, Debug, PartialEq, Eq)]
pub struct AuthorizationToken {
    /// The identity that authorized this hop.
    pub caller_address: AccountId,
    /// The contract that issued the authorization.
    pub certifier_contract: AccountId,
    /// Hash of the hop payload being authorized.
    pub hop_data_hash: [u8; 32],
    /// Nesting depth, bounded to stop unbounded recursion.
    pub depth: u32,
    /// Domain of the certifier this token is valid for.
    pub domain_chain_id: [u8; 32],
    /// Ledger sequence from which the token is expired.
    pub expires_at: u64,
}

/// Authorization errors.
#[derive(Clone, Copy, Debug, PartialEq, Eq, Structural)]
pub enum AuthError {
    MaxDepthExceeded,
    Empty,
    DomainMismatch,
    ExpiredToken,
    UnsignedToken,
    NonExistentContract,
}

/// Audit event of an authorized hop.
#[derive(Clone, Copy, Debug, PartialEq, Eq)]
pub struct HopAuthorized {
    pub caller_address: AccountId,
    pub certifier_contract: AccountId,
    pub depth: u32,
}

/// The bytes of `"domain__"`.
pub open spec fn domain_prefix() -> Seq<u8> {
    seq![100u8, 111u8, 109u8, 97u8, 105u8, 110u8, 95u8, 95u8]
}

/// The domain of a contract: SHA-256 of `"domain__"` followed by its
/// identity.
pub open spec fn domain_of(contract: Seq<u8>) -> Seq<u8> {
    sha256_digest(domain_prefix() + contract)
}

/// The outcome of authorizing `token` for `certifier` at `ledger_sequence`:
/// depth, then expiry, then the certifier, then its domain are checked.
pub open spec fn authorization(token: AuthorizationToken, certifier: AccountId, ledger_sequence: u32) -> Result<(), AuthError> {
    if token.depth >= MAX_AUTHORIZATION_DEPTH {
        Err(AuthError::MaxDepthExceeded)
    } else if ledger_sequence as u64 >= token.expires_at {
        Err(AuthError::ExpiredToken)
    } else if token.certifier_contract != certifier {
        Err(AuthError::DomainMismatch)
    } else if token.domain_chain_id@ != domain_of(certifier.raw@) {
        Err(AuthError::DomainMismatch)
    } else {
        Ok(())
    }
}

/// Derives the domain of a contract.
pub fn get_contract_domain(env: &Env, contract: &AccountId) -> (d: [u8; 32])
    ensures
        d@ == domain_of(contract.raw@),
{
    let mut input: Vec<u8> = Vec::new();
    input.push(100u8);
    input.push(111u8);
    input.push(109u8);
    input.push(97u8);
    input.push(105u8);
    input.push(110u8);
    input.push(95u8);
    input.push(95u8);
    let mut tail = copy_bytes(contract.raw.as_slice());
    input.append(&mut tail);
    assert(input@ =~= domain_prefix() + contract.raw@);
    sha256(env, &input)
}

/// Authorizes a hop of the provenance chain for `certifier_contract`. The
/// certifier is taken from the token, not from the caller, and the token's
/// domain must be the certifier's. An authorized hop is published.
pub fn authorize_hop(
    env: &Env,
    events: &mut Vec<HopAuthorized>,
    ledger_sequence: u32,
    token: &AuthorizationToken,
    certifier_contract: &AccountId,
) -> (r: Result<(), AuthError>)
    ensures
        r == authorization(*token, *certifier_contract, ledger_sequence),
        r is Ok ==> final(events)@ == old(events)@.push(HopAuthorized {
            caller_address: token.caller_address,
            certifier_contract: *certifier_contract,
            depth: token.depth,
        }),
        r is Err ==> final(events)@ == old(events)@,
{
    if token.depth >= MAX_AUTHORIZATION_DEPTH {
        return Err(AuthError::MaxDepthExceeded);
    }
    if ledger_sequence as u64 >= token.expires_at {
        return Err(AuthError::ExpiredToken);
    }
    if !token.certifier_contract.same_as(certifier_contract) {
        return Err(AuthError::DomainMismatch);
    }
    let domain = get_contract_domain(env, certifier_contract);
    if !bytes_eq(token.domain_chain_id.as_slice(), domain.as_slice()) {
        return Err(AuthError::DomainMismatch);
    }
    events.push(HopAuthorized {
        caller_address: token.caller_address,
        certifier_contract: *certifier_contract,
        depth: token.depth,
    });
    Ok(())
}

/// Creates an authorization token bound to the certifier's domain, one
/// level deeper than `current_depth`, valid for `TOKEN_VALIDITY_LEDGERS`
/// ledgers.
pub fn create_authorization_token(
    env: &Env,
    ledger_sequence: u32,
    caller_address: AccountId,
    certifier_contract: AccountId,
    hop_data_hash: [u8; 32],
    current_depth: u32,
) -> (r: Result<AuthorizationToken, AuthError>)
    ensures
        current_depth >= MAX_AUTHORIZATION_DEPTH ==> r == Err::<AuthorizationToken, AuthError>(AuthError::MaxDepthExceeded),
        current_depth < MAX_AUTHORIZATION_DEPTH ==> r is Ok && {
            let t = r.unwrap();
            &&& t.caller_address == caller_address
            &&& t.certifier_contract == certifier_contract
            &&& t.hop_data_hash == hop_data_hash
            &&& t.depth == current_depth + 1
            &&& t.domain_chain_id@ == domain_of(certifier_contract.raw@)
            &&& t.expires_at == ledger_sequence + TOKEN_VALIDITY_LEDGERS
        },
{
    if current_depth >= MAX_AUTHORIZATION_DEPTH {
        return Err(AuthError::MaxDepthExceeded);
    }
    let domain = get_contract_domain(env, &certifier_contract);
    let expires_at = ledger_sequence as u64 + TOKEN_VALIDITY_LEDGERS;
    Ok(AuthorizationToken {
        caller_address,
        certifier_contract,
        hop_data_hash,
        depth: current_depth + 1,
        domain_chain_id: domain,
        expires_at,
    })
}

/// Whether a certifier is registered: its domain is not all zeros.
pub fn is_certifier_registered(env: &Env, certifier: &AccountId) -> (r: bool)
    ensures
        r == (domain_of(certifier.raw@) != Seq::new(32, |i: int| 0u8)),
{
    let domain = get_contract_domain(env, certifier);
    let zero = [0u8; 32];
    let same = bytes_eq(domain.as_slice(), zero.as_slice());
    assert(zero@ =~= Seq::new(32, |i: int| 0u8));
    !same
}

/// A token issued for a certifier authorizes hops through that certifier
/// until it expires, as long as its depth stays below the limit.
pub proof fn lemma_issued_token_authorizes(token: AuthorizationToken, certifier: AccountId, issued_at: u32, ledger_sequence: u32)
    requires
        token.certifier_contract == certifier,
        token.domain_chain_id@ == domain_of(certifier.raw@),
        token.depth < MAX_AUTHORIZATION_DEPTH,
        token.expires_at == issued_at + TOKEN_VALIDITY_LEDGERS,
        ledger_sequence < issued_at + TOKEN_VALIDITY_LEDGERS,
    ensures
        authorization(token, certifier, ledger_sequence) == Ok::<(), AuthError>(()),
{
}

/// A token never authorizes a hop through a contract other than the one
/// it names.
pub proof fn lemma_token_bound_to_certifier(token: AuthorizationToken, other: AccountId, ledger_sequence: u32)
    requires
        token.certifier_contract != other,
    ensures
        authorization(token, other, ledger_sequence) is Err,
{
}

/// A token never authorizes once it has expired: at every ledger at or
/// past its expiry, authorization fails, with `ExpiredToken` whenever the
/// token's depth is within the limit.
pub proof fn lemma_expired_token_never_authorizes(token: AuthorizationToken, certifier: AccountId, ledger_sequence: u32)
    requires
        ledger_sequence as u64 >= token.expires_at,
    ensures
        authorization(token, certifier, ledger_sequence) is Err,
        token.depth < MAX_AUTHORIZATION_DEPTH
            ==> authorization(token, certifier, ledger_sequence) == Err::<(), AuthError>(AuthError::ExpiredToken),
{
}

/// Authorization succeeds exactly when the token is within the depth
/// limit, not yet expired, names the certifier and carries its domain.
pub proof fn lemma_authorization_exact(token: AuthorizationToken, certifier: AccountId, ledger_sequence: u32)
    ensures
        authorization(token, certifier, ledger_sequence) is Ok <==> {
            &&& token.depth < MAX_AUTHORIZATION_DEPTH
            &&& (ledger_sequence as u64) < token.expires_at
            &&& token.certifier_contract == certifier
            &&& token.domain_chain_id@ == domain_of(certifier.raw@)
        },
{
}

} // verus!
