use vstd::prelude::*;

use crate::account::AccountId;
use super::depth_tracker::{
    depth_model, flush_depth, get_current_depth, get_max_depth, initialize_depth_tracking,
    is_approaching_limit, is_depth_tracking_enabled, pop_depth, push_depth, DepthModel,
    DEFAULT_MAX_ADMIN_CHAIN_DEPTH,
};
use super::store::{AdminEvent, AdminStore};

verus! {

/// Storage entries of the admin contract itself.
#[derive(Clone, Copy, Debug, PartialEq, Eq, Structural)]
pub enum AdminKey {
    ActiveAdmin,
    PendingAdmin,
}

/// The admin contract. The auth checks (`require_auth` of the active or the
/// pending admin) are made by the host before these functions run.
pub struct AdminContract;

impl AdminContract {
    /// Sets the initial admin and initializes depth tracking.
    pub fn initialize(store: &mut AdminStore, initial_admin: AccountId)
        ensures
            final(store).active_admin == Some(initial_admin),
            final(store).pending_admin == old(store).pending_admin,
            final(store).auth_depth == Some(0u32),
            final(store).max_chain_depth == Some(DEFAULT_MAX_ADMIN_CHAIN_DEPTH),
            final(store).tracking_enabled == Some(true),
            final(store).events@ == old(store).events@,
    {
        store.active_admin = Some(initial_admin);
        initialize_depth_tracking(store);
    }

    /// Proposes `new_admin` as the pending admin (authorized by the active
    /// admin, inside a push and pop of the depth counter).
    pub fn transfer_ownership(store: &mut AdminStore, new_admin: AccountId)
        requires
            old(store).active_admin is Some,
        ensures
            final(store).pending_admin == Some(new_admin),
            final(store).active_admin == old(store).active_admin,
            depth_model(final(store)) == depth_model(old(store)).push().0.pop().0,
            final(store).primary_admin == old(store).primary_admin,
            final(store).recovery_vault == old(store).recovery_vault,
            final(store).last_activity_at == old(store).last_activity_at,
            final(store).recovery_executed == old(store).recovery_executed,
            depth_model(old(store)).push().1 == Err::<u32, crate::admin::DepthError>(crate::admin::DepthError::DepthExceeded)
                ==> final(store).events@ == old(store).events@.push(AdminEvent::DepthExceeded {
                    current: depth_model(old(store)).current(),
                    max: depth_model(old(store)).max_depth(),
                }),
            depth_model(old(store)).push().1 != Err::<u32, crate::admin::DepthError>(crate::admin::DepthError::DepthExceeded)
                ==> final(store).events@ == old(store).events@,
    {
        let _ = push_depth(store);
        let _ = pop_depth(store);
        store.pending_admin = Some(new_admin);
    }

    /// The pending admin accepts ownership and becomes the active admin;
    /// the transfer and the hand-off are published, and the depth counter is
    /// flushed.
    pub fn accept_ownership(store: &mut AdminStore, ledger_sequence: u32)
        requires
            old(store).pending_admin is Some,
            old(store).active_admin is Some,
        ensures
            ({
                let old_admin = old(store).active_admin.unwrap();
                let new_admin = old(store).pending_admin.unwrap();
                let m1 = depth_model(old(store)).push();
                let m2 = m1.0.pop().0;
                let exceeded_events = if m1.1 == Err::<u32, crate::admin::DepthError>(crate::admin::DepthError::DepthExceeded) {
                    seq![AdminEvent::DepthExceeded {
                        current: depth_model(old(store)).current(),
                        max: depth_model(old(store)).max_depth(),
                    }]
                } else {
                    Seq::empty()
                };
                let flush_events = if m2.current() + 4 >= m2.max_depth() {
                    seq![AdminEvent::DepthFlushed { ledger_sequence }, AdminEvent::DepthFlushed { ledger_sequence }]
                } else {
                    seq![AdminEvent::DepthFlushed { ledger_sequence }]
                };
                &&& final(store).active_admin == Some(new_admin)
                &&& final(store).pending_admin is None
                &&& final(store).auth_depth == Some(0u32)
                &&& final(store).max_chain_depth == old(store).max_chain_depth
                &&& final(store).tracking_enabled == old(store).tracking_enabled
                &&& final(store).events@ == old(store).events@ + exceeded_events + seq![
                    AdminEvent::OwnershipTransferred { old_admin, new_admin },
                    AdminEvent::ActivityHandoff { old_admin, new_admin, ledger_sequence },
                ] + flush_events
            }),
            final(store).primary_admin == old(store).primary_admin,
            final(store).recovery_vault == old(store).recovery_vault,
            final(store).last_activity_at == old(store).last_activity_at,
            final(store).recovery_executed == old(store).recovery_executed,
    {
        let pending_admin = match store.pending_admin {
            Some(a) => a,
            None => AccountId { raw: [0u8; 32] },
        };
        let ghost e0 = store.events@;
        let _ = push_depth(store);
        let _ = pop_depth(store);
        let ghost e1 = store.events@;
        let old_admin = match store.active_admin {
            Some(a) => a,
            None => AccountId { raw: [0u8; 32] },
        };
        store.active_admin = Some(pending_admin);
        store.pending_admin = None;
        store.events.push(AdminEvent::OwnershipTransferred { old_admin, new_admin: pending_admin });
        store.events.push(AdminEvent::ActivityHandoff { old_admin, new_admin: pending_admin, ledger_sequence });
        let ghost e2 = store.events@;
        assert(e2 == e1 + seq![
            AdminEvent::OwnershipTransferred { old_admin, new_admin: pending_admin },
            AdminEvent::ActivityHandoff { old_admin, new_admin: pending_admin, ledger_sequence },
        ]);
        if is_approaching_limit(store) {
            flush_depth(store, ledger_sequence);
        }
        flush_depth(store, ledger_sequence);
        assert(store.events@ =~= old(store).events@ + (e1.skip(e0.len() as int)) + seq![
            AdminEvent::OwnershipTransferred { old_admin, new_admin: pending_admin },
            AdminEvent::ActivityHandoff { old_admin, new_admin: pending_admin, ledger_sequence },
        ] + store.events@.skip(e2.len() as int));
    }

    /// The current auth depth.
    pub fn get_auth_depth(store: &AdminStore) -> (d: u32)
        ensures
            d == depth_model(store).current(),
    {
        get_current_depth(store)
    }

    /// Whether depth tracking is enabled.
    pub fn is_auth_depth_tracking_enabled(store: &AdminStore) -> (r: bool)
        ensures
            r == depth_model(store).tracking_on(),
    {
        is_depth_tracking_enabled(store)
    }

    /// The depth limit.
    pub fn get_max_auth_chain_depth(store: &AdminStore) -> (m: u32)
        ensures
            m == depth_model(store).max_depth(),
    {
        get_max_depth(store)
    }
}

} // verus!
