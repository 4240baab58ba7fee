//! Governance components of the admin contract: auth-depth tracking, the
//! dead man's switch and two-step ownership transfer.

pub mod contract;
pub mod dead_mans_switch;
pub mod depth_tracker;
pub mod store;

pub use contract::{AdminContract, AdminKey};
pub use dead_mans_switch::{DeadMansSwitchModule, SwitchKey, INACTIVITY_PERIOD};
pub use depth_tracker::{
    flush_depth, get_current_depth, get_max_depth, initialize_depth_tracking,
    is_approaching_limit, is_depth_tracking_enabled, pop_depth, push_depth, set_max_depth,
    DepthError, DepthKey, DEFAULT_MAX_ADMIN_CHAIN_DEPTH,
};
pub use store::{AdminEvent, AdminStore};
