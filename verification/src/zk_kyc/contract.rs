use vstd::prelude::*;

use soroban_sdk::Env;

use crate::account::AccountId;
use crate::bytes::{copy_bytes, BytesMap};
use super::nullifier::{derive_nullifier, nullifier_of, NullifierConsumed};

verus! {

/// Storage entries of the KYC contract.
#[derive(Clone, Copy, Debug, PartialEq, Eq)]
pub enum DataKey {
    Verifier,
    KycStatus(AccountId),
}

/// Why a proof submission is refused.
#[derive(Clone, Copy, Debug, PartialEq, Eq, Structural)]
pub enum ProofError {
    /// The compliance domain is not registered.
    DomainNotRegistered,
    /// The nullifier was already consumed in this domain.
    NullifierReplayed,
}

/// Storage of the KYC contract and its published events.
pub struct ZkKycStore {
    /// `DataKey::Verifier`.
    pub verifier: Option<AccountId>,
    /// `DataKey::KycStatus`, by the user's identity bytes.
    pub kyc_status: BytesMap<bool>,
    /// `NullifierDataKey::RegisteredDomain`, by domain identifier.
    pub registered_domains: BytesMap<bool>,
    /// `NullifierDataKey::NullifierUsed`, by domain identifier followed by
    /// nullifier.
    pub nullifiers_used: BytesMap<bool>,
    /// Published events, oldest first.
    pub events: Vec<NullifierConsumed>,
}

/// Storage key of a nullifier in a domain.
pub open spec fn nullifier_key(domain_id: Seq<u8>, nullifier: Seq<u8>) -> Seq<u8> {
    domain_id + nullifier
}

/// A stored flag reads as false where it is absent.
pub open spec fn flag(m: Map<Seq<u8>, bool>, k: Seq<u8>) -> bool {
    m.contains_key(k) && m[k]
}

impl ZkKycStore {
    pub fn new() -> (s: Self)
        ensures
            s.verifier is None,
            s.kyc_status.view() == Map::<Seq<u8>, bool>::empty(),
            s.registered_domains.view() == Map::<Seq<u8>, bool>::empty(),
            s.nullifiers_used.view() == Map::<Seq<u8>, bool>::empty(),
            s.events@.len() == 0,
    {
        ZkKycStore {
            verifier: None,
            kyc_status: BytesMap::new(),
            registered_domains: BytesMap::new(),
            nullifiers_used: BytesMap::new(),
            events: Vec::new(),
        }
    }

    pub open spec fn domain_registered(&self, domain_id: Seq<u8>) -> bool {
        flag(self.registered_domains.view(), domain_id)
    }

    pub open spec fn nullifier_used(&self, domain_id: Seq<u8>, nullifier: Seq<u8>) -> bool {
        flag(self.nullifiers_used.view(), nullifier_key(domain_id, nullifier))
    }
}

/// The outcome of submitting a proof: refused for an unregistered domain,
/// then for a nullifier already consumed there; otherwise the nullifier.
pub open spec fn submission(store: &ZkKycStore, identity_commitment: Seq<u8>, domain_id: Seq<u8>) -> Result<Seq<u8>, ProofError> {
    if !store.domain_registered(domain_id) {
        Err(ProofError::DomainNotRegistered)
    } else if store.nullifier_used(domain_id, nullifier_of(identity_commitment, domain_id)) {
        Err(ProofError::NullifierReplayed)
    } else {
        Ok(nullifier_of(identity_commitment, domain_id))
    }
}

fn is_domain_registered(store: &ZkKycStore, domain_id: &[u8; 32]) -> (r: bool)
    ensures
        r == store.domain_registered(domain_id@),
{
    match store.registered_domains.get(domain_id.as_slice()) {
        Some(b) => *b,
        None => false,
    }
}

fn is_nullifier_used(store: &ZkKycStore, domain_id: &[u8; 32], nullifier: &[u8; 32]) -> (r: bool)
    ensures
        r == store.nullifier_used(domain_id@, nullifier@),
{
    let key = nullifier_storage_key(domain_id, nullifier);
    match store.nullifiers_used.get(key.as_slice()) {
        Some(b) => *b,
        None => false,
    }
}

fn nullifier_storage_key(domain_id: &[u8; 32], nullifier: &[u8; 32]) -> (k: Vec<u8>)
    ensures
        k@ == nullifier_key(domain_id@, nullifier@),
{
    let mut key = copy_bytes(domain_id.as_slice());
    let mut tail = copy_bytes(nullifier.as_slice());
    key.append(&mut tail);
    key
}

fn consume_nullifier(store: &mut ZkKycStore, domain_id: &[u8; 32], nullifier: &[u8; 32])
    ensures
        final(store).nullifiers_used.view() == old(store).nullifiers_used.view().insert(nullifier_key(domain_id@, nullifier@), true),
        final(store).verifier == old(store).verifier,
        final(store).kyc_status.view() == old(store).kyc_status.view(),
        final(store).registered_domains.view() == old(store).registered_domains.view(),
        final(store).events@ == old(store).events@,
{
    let key = nullifier_storage_key(domain_id, nullifier);
    store.nullifiers_used.set(key, true);
}

/// The KYC contract. The verifier's auth check is made by the host before
/// `verify_user` and `revoke_user` run.
pub struct ZKKYCContract;

impl ZKKYCContract {
    /// Sets the verifier, once.
    pub fn init(store: &mut ZkKycStore, verifier: AccountId)
        requires
            old(store).verifier is None,
        ensures
            final(store).verifier == Some(verifier),
            final(store).kyc_status.view() == old(store).kyc_status.view(),
            final(store).registered_domains.view() == old(store).registered_domains.view(),
            final(store).nullifiers_used.view() == old(store).nullifiers_used.view(),
            final(store).events@ == old(store).events@,
    {
        store.verifier = Some(verifier);
    }

    /// Whether the storage entry `key` is present.
    pub fn has(store: &ZkKycStore, key: &DataKey) -> (r: bool)
        ensures
            r == match key {
                DataKey::Verifier => store.verifier is Some,
                DataKey::KycStatus(user) => store.kyc_status.view().contains_key(user.raw@),
            },
    {
        match key {
            DataKey::Verifier => store.verifier.is_some(),
            DataKey::KycStatus(user) => store.kyc_status.contains_key(user.raw.as_slice()),
        }
    }

    /// Marks a user as KYC-verified.
    pub fn verify_user(store: &mut ZkKycStore, user: AccountId)
        requires
            old(store).verifier is Some,
        ensures
            final(store).kyc_status.view() == old(store).kyc_status.view().insert(user.raw@, true),
            final(store).verifier == old(store).verifier,
            final(store).registered_domains.view() == old(store).registered_domains.view(),
            final(store).nullifiers_used.view() == old(store).nullifiers_used.view(),
            final(store).events@ == old(store).events@,
    {
        store.kyc_status.set(copy_bytes(user.raw.as_slice()), true);
    }

    /// Revokes a user's KYC status.
    pub fn revoke_user(store: &mut ZkKycStore, user: AccountId)
        requires
            old(store).verifier is Some,
        ensures
            final(store).kyc_status.view() == old(store).kyc_status.view().remove(user.raw@),
            final(store).verifier == old(store).verifier,
            final(store).registered_domains.view() == old(store).registered_domains.view(),
            final(store).nullifiers_used.view() == old(store).nullifiers_used.view(),
            final(store).events@ == old(store).events@,
    {
        store.kyc_status.remove(user.raw.as_slice());
    }

    /// Whether a user is KYC-verified.
    pub fn is_verified(store: &ZkKycStore, user: AccountId) -> (r: bool)
        ensures
            r == flag(store.kyc_status.view(), user.raw@),
    {
        match store.kyc_status.get(user.raw.as_slice()) {
            Some(b) => *b,
            None => false,
        }
    }

    /// Submits a ZK-KYC proof within a registered compliance domain: derives
    /// the jurisdiction-bound nullifier, consumes it and returns it.
    pub fn submit_proof(store: &mut ZkKycStore, env: &Env, identity_commitment: [u8; 32], domain_id: [u8; 32]) -> (n: [u8; 32])
        requires
            old(store).domain_registered(domain_id@),
            !old(store).nullifier_used(domain_id@, nullifier_of(identity_commitment@, domain_id@)),
        ensures
            n@ == nullifier_of(identity_commitment@, domain_id@),
            final(store).nullifiers_used.view() == old(store).nullifiers_used.view().insert(nullifier_key(domain_id@, n@), true),
            final(store).verifier == old(store).verifier,
            final(store).kyc_status.view() == old(store).kyc_status.view(),
            final(store).registered_domains.view() == old(store).registered_domains.view(),
            final(store).events@ == old(store).events@.push(NullifierConsumed { domain_id, nullifier_hash: n }),
    {
        let nullifier_hash = derive_nullifier(env, &identity_commitment, &domain_id);
        consume_nullifier(store, &domain_id, &nullifier_hash);
        store.events.push(NullifierConsumed { domain_id, nullifier_hash });
        nullifier_hash
    }

    /// Submits a proof after checking what `submit_proof` requires: the
    /// domain must be registered and the nullifier unconsumed there. A
    /// refused submission changes nothing.
    pub fn try_submit_proof(store: &mut ZkKycStore, env: &Env, identity_commitment: [u8; 32], domain_id: [u8; 32]) -> (r: Result<[u8; 32], ProofError>)
        ensures
            match submission(old(store), identity_commitment@, domain_id@) {
                Err(e) => {
                    &&& r == Err::<[u8; 32], ProofError>(e)
                    &&& final(store).nullifiers_used.view() == old(store).nullifiers_used.view()
                    &&& final(store).events@ == old(store).events@
                },
                Ok(n) => {
                    &&& r is Ok && r.unwrap()@ == n
                    &&& final(store).nullifiers_used.view() == old(store).nullifiers_used.view().insert(nullifier_key(domain_id@, n), true)
                    &&& final(store).events@ == old(store).events@.push(NullifierConsumed { domain_id, nullifier_hash: r.unwrap() })
                },
            },
            final(store).verifier == old(store).verifier,
            final(store).kyc_status.view() == old(store).kyc_status.view(),
            final(store).registered_domains.view() == old(store).registered_domains.view(),
    {
        if !is_domain_registered(store, &domain_id) {
            return Err(ProofError::DomainNotRegistered);
        }
        let nullifier_hash = derive_nullifier(env, &identity_commitment, &domain_id);
        if is_nullifier_used(store, &domain_id, &nullifier_hash) {
            return Err(ProofError::NullifierReplayed);
        }
        Ok(Self::submit_proof(store, env, identity_commitment, domain_id))
    }

    /// Registers a compliance domain.
    pub fn register_compliance_domain(store: &mut ZkKycStore, domain_id: [u8; 32])
        ensures
            final(store).registered_domains.view() == old(store).registered_domains.view().insert(domain_id@, true),
            final(store).verifier == old(store).verifier,
            final(store).kyc_status.view() == old(store).kyc_status.view(),
            final(store).nullifiers_used.view() == old(store).nullifiers_used.view(),
            final(store).events@ == old(store).events@,
    {
        store.registered_domains.set(copy_bytes(domain_id.as_slice()), true);
    }

    /// Whether a nullifier was consumed in a domain.
    pub fn is_nullifier_consumed(store: &ZkKycStore, domain_id: [u8; 32], nullifier_hash: [u8; 32]) -> (r: bool)
        ensures
            r == store.nullifier_used(domain_id@, nullifier_hash@),
    {
        is_nullifier_used(store, &domain_id, &nullifier_hash)
    }

    /// Whether a compliance domain is registered.
    pub fn is_registered_domain(store: &ZkKycStore, domain_id: [u8; 32]) -> (r: bool)
        ensures
            r == store.domain_registered(domain_id@),
    {
        is_domain_registered(store, &domain_id)
    }
}

/// A consumed nullifier cannot be replayed: once a proof for a commitment
/// was accepted in a domain, a second submission of it there is refused as
/// a replay.
pub proof fn lemma_replay_rejected(store: &ZkKycStore, after: &ZkKycStore, identity_commitment: Seq<u8>, domain_id: Seq<u8>)
    requires
        after.registered_domains.view() == store.registered_domains.view(),
        after.nullifiers_used.view() == store.nullifiers_used.view().insert(
            nullifier_key(domain_id, nullifier_of(identity_commitment, domain_id)),
            true,
        ),
        store.domain_registered(domain_id),
    ensures
        submission(after, identity_commitment, domain_id) == Err::<Seq<u8>, ProofError>(ProofError::NullifierReplayed),
{
}

/// Nullifiers are scoped per domain: consuming a nullifier in one domain
/// leaves its status in every other domain unchanged.
pub proof fn lemma_consumption_is_domain_scoped(
    used: Map<Seq<u8>, bool>,
    d1: Seq<u8>,
    d2: Seq<u8>,
    n1: Seq<u8>,
    n2: Seq<u8>,
)
    requires
        d1.len() == 32,
        d2.len() == 32,
        n1.len() == 32,
        n2.len() == 32,
        d1 != d2,
    ensures
        flag(used.insert(nullifier_key(d1, n1), true), nullifier_key(d2, n2)) == flag(used, nullifier_key(d2, n2)),
{
    crate::zk_kyc::nullifier::lemma_preimages_distinct(d1, n1, d2, n2);
}

} // verus!
