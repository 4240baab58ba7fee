use vstd::prelude::*;

use crate::account::AccountId;

verus! {

/// Events the admin contract publishes.
#[derive(Clone, Copy, Debug, PartialEq, Eq)]
pub enum AdminEvent {
    /// A push was refused at the depth limit.
    DepthExceeded { current: u32, max: u32 },
    /// The depth counter was flushed at the given ledger sequence.
    DepthFlushed { ledger_sequence: u32 },
    /// The depth limit was changed.
    MaxDepthSet { new_max: u32 },
    /// Ownership passed from one admin to another.
    OwnershipTransferred { old_admin: AccountId, new_admin: AccountId },
    /// Admin activity was handed off at the given ledger sequence.
    ActivityHandoff { old_admin: AccountId, new_admin: AccountId, ledger_sequence: u32 },
}

/// Instance storage of the admin contract, shared by its modules, and the
/// events it has published.
pub struct AdminStore {
    /// `AdminKey::ActiveAdmin`.
    pub active_admin: Option<AccountId>,
    /// `AdminKey::PendingAdmin`.
    pub pending_admin: Option<AccountId>,
    /// `DepthKey::AdminAuthDepth`.
    pub auth_depth: Option<u32>,
    /// `DepthKey::MaxAdminChainDepth`.
    pub max_chain_depth: Option<u32>,
    /// `DepthKey::DepthTrackingEnabled`.
    pub tracking_enabled: Option<bool>,
    /// `SwitchKey::PrimaryAdmin`.
    pub primary_admin: Option<AccountId>,
    /// `SwitchKey::RecoveryVault`.
    pub recovery_vault: Option<AccountId>,
    /// `SwitchKey::LastActivityAt`.
    pub last_activity_at: Option<u64>,
    /// `SwitchKey::RecoveryExecuted`.
    pub recovery_executed: Option<bool>,
    /// Published events, oldest first.
    pub events: Vec<AdminEvent>,
}

impl AdminStore {
    /// Empty storage.
    pub fn new() -> (s: Self)
        ensures
            s.active_admin is None,
            s.pending_admin is None,
            s.auth_depth is None,
            s.max_chain_depth is None,
            s.tracking_enabled is None,
            s.primary_admin is None,
            s.recovery_vault is None,
            s.last_activity_at is None,
            s.recovery_executed is None,
            s.events@.len() == 0,
    {
        AdminStore {
            active_admin: None,
            pending_admin: None,
            auth_depth: None,
            max_chain_depth: None,
            tracking_enabled: None,
            primary_admin: None,
            recovery_vault: None,
            last_activity_at: None,
            recovery_executed: None,
            events: Vec::new(),
        }
    }
}

} // verus!
