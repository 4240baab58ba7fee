//! Dead man's switch: admin recovery to a vault after a long inactivity.

use vstd::prelude::*;

use crate::account::AccountId;
use super::store::AdminStore;

verus! {

/// Inactivity after which recovery is due: 180 days, in seconds.
pub const INACTIVITY_PERIOD: u64 = 15_552_000;

/// Storage entries of the switch.
#[derive(Clone, Copy, Debug, PartialEq, Eq, Structural)]
pub enum SwitchKey {
    PrimaryAdmin,
    RecoveryVault,
    LastActivityAt,
    RecoveryExecuted,
}

/// The switch's entries of `s2` other than those listed equal those of `s1`.
pub open spec fn same_outside_switch(s1: &AdminStore, s2: &AdminStore) -> bool {
    &&& s2.active_admin == s1.active_admin
    &&& s2.pending_admin == s1.pending_admin
    &&& s2.auth_depth == s1.auth_depth
    &&& s2.max_chain_depth == s1.max_chain_depth
    &&& s2.tracking_enabled == s1.tracking_enabled
    &&& s2.events@ == s1.events@
}

/// The last recorded activity: 0 where none is stored.
pub open spec fn last_activity(s: &AdminStore) -> u64 {
    match s.last_activity_at {
        Some(t) => t,
        None => 0,
    }
}

/// Whether recovery is due at time `now`: the inactivity period has
/// elapsed since the last activity (a clock behind it counts as no time).
pub open spec fn recovery_due(s: &AdminStore, now: u64) -> bool {
    now >= last_activity(s) && now - last_activity(s) >= INACTIVITY_PERIOD
}

/// The dead man's switch; the calling contract performs the auth checks.
pub struct DeadMansSwitchModule;

impl DeadMansSwitchModule {
    /// Initializes the switch at time `now`.
    pub fn initialize(store: &mut AdminStore, now: u64, primary_admin: AccountId, recovery_vault: AccountId)
        ensures
            final(store).primary_admin == Some(primary_admin),
            final(store).recovery_vault == Some(recovery_vault),
            final(store).last_activity_at == Some(now),
            final(store).recovery_executed == Some(false),
            same_outside_switch(old(store), final(store)),
    {
        store.primary_admin = Some(primary_admin);
        store.recovery_vault = Some(recovery_vault);
        store.last_activity_at = Some(now);
        store.recovery_executed = Some(false);
    }

    /// Whether the inactivity period has elapsed at time `now`.
    pub fn is_recovery_due(store: &AdminStore, now: u64) -> (r: bool)
        ensures
            r == recovery_due(store, now),
    {
        let last_activity: u64 = match store.last_activity_at {
            Some(t) => t,
            None => 0,
        };
        let elapsed = if now >= last_activity { now - last_activity } else { 0 };
        elapsed >= INACTIVITY_PERIOD
    }

    /// Records admin activity at time `now`.
    pub fn reset_last_activity(store: &mut AdminStore, now: u64)
        ensures
            final(store).last_activity_at == Some(now),
            final(store).primary_admin == old(store).primary_admin,
            final(store).recovery_vault == old(store).recovery_vault,
            final(store).recovery_executed == old(store).recovery_executed,
            same_outside_switch(old(store), final(store)),
    {
        store.last_activity_at = Some(now);
    }

    /// Executes recovery: the recovery vault becomes the primary admin, and
    /// is returned. The caller checks that recovery is due.
    pub fn execute_recovery(store: &mut AdminStore) -> (vault: AccountId)
        requires
            old(store).recovery_vault is Some,
        ensures
            vault == old(store).recovery_vault.unwrap(),
            final(store).primary_admin == Some(vault),
            final(store).recovery_vault == old(store).recovery_vault,
            final(store).recovery_executed == Some(true),
            final(store).last_activity_at == old(store).last_activity_at,
            same_outside_switch(old(store), final(store)),
    {
        let vault = match store.recovery_vault {
            Some(v) => v,
            None => AccountId { raw: [0u8; 32] },
        };
        store.primary_admin = Some(vault);
        store.recovery_executed = Some(true);
        vault
    }

    /// The primary admin, if set.
    pub fn get_primary_admin(store: &AdminStore) -> (a: Option<AccountId>)
        ensures
            a == store.primary_admin,
    {
        store.primary_admin
    }

    /// Changes the recovery vault.
    pub fn set_recovery_vault(store: &mut AdminStore, new_vault: AccountId)
        ensures
            final(store).recovery_vault == Some(new_vault),
            final(store).primary_admin == old(store).primary_admin,
            final(store).last_activity_at == old(store).last_activity_at,
            final(store).recovery_executed == old(store).recovery_executed,
            same_outside_switch(old(store), final(store)),
    {
        store.recovery_vault = Some(new_vault);
    }
}

/// Activity keeps recovery away: right after activity at `t`, recovery is
/// not due at any time before `t + INACTIVITY_PERIOD`, and is due from then
/// on.
pub proof fn lemma_activity_postpones_recovery(s: &AdminStore, t: u64, now: u64)
    requires
        s.last_activity_at == Some(t),
    ensures
        now < t ==> !recovery_due(s, now),
        t <= now ==> (recovery_due(s, now) <==> now - t >= INACTIVITY_PERIOD),
{
}

} // verus!
