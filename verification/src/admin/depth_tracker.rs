//! Auth context depth tracking: a counter pushed before and popped after
//! each `require_auth` in nested admin call chains, refused at a limit so
//! the host's auth context never overflows.

use vstd::prelude::*;

use super::store::{AdminEvent, AdminStore};

verus! {

/// Storage entries of the depth tracker.
#[derive(Clone, Copy, Debug, PartialEq, Eq, Structural)]
pub enum DepthKey {
    /// Current auth context depth counter.
    AdminAuthDepth,
    /// Maximum allowed depth.
    MaxAdminChainDepth,
    /// Whether depth tracking is enabled.
    DepthTrackingEnabled,
}

/// Default maximum admin chain depth, leaving headroom below the host's
/// limit of about 32 frames.
pub const DEFAULT_MAX_ADMIN_CHAIN_DEPTH: u32 = 24;

/// Depth tracking errors.
#[derive(Clone, Copy, Debug, PartialEq, Eq, Structural)]
pub enum DepthError {
    DepthExceeded,
    TrackingDisabled,
    CounterCorrupted,
}

/// The depth tracker's entries of the admin storage.
pub struct DepthModel {
    pub depth: Option<u32>,
    pub max: Option<u32>,
    pub enabled: Option<bool>,
}

/// The depth tracker's entries of `s`.
pub open spec fn depth_model(s: &AdminStore) -> DepthModel {
    DepthModel { depth: s.auth_depth, max: s.max_chain_depth, enabled: s.tracking_enabled }
}

impl DepthModel {
    /// Tracking is on only where the flag is stored as `true`.
    pub open spec fn tracking_on(self) -> bool {
        self.enabled == Some(true)
    }

    /// The reported depth: 0 while tracking is off or the counter is absent.
    pub open spec fn current(self) -> u32 {
        if !self.tracking_on() {
            0
        } else {
            match self.depth {
                Some(d) => d,
                None => 0,
            }
        }
    }

    /// The limit: the default where none is stored.
    pub open spec fn max_depth(self) -> u32 {
        match self.max {
            Some(m) => m,
            None => DEFAULT_MAX_ADMIN_CHAIN_DEPTH,
        }
    }

    /// The outcome of a push and the entries after it.
    pub open spec fn push(self) -> (DepthModel, Result<u32, DepthError>) {
        if !self.tracking_on() {
            (self, Ok(0))
        } else {
            match self.depth {
                None => (self, Err(DepthError::CounterCorrupted)),
                Some(c) => if c >= self.max_depth() {
                    (self, Err(DepthError::DepthExceeded))
                } else {
                    (DepthModel { depth: Some((c + 1) as u32), ..self }, Ok((c + 1) as u32))
                },
            }
        }
    }

    /// The outcome of a pop and the entries after it.
    pub open spec fn pop(self) -> (DepthModel, Result<u32, DepthError>) {
        if !self.tracking_on() {
            (self, Ok(0))
        } else {
            match self.depth {
                None => (self, Err(DepthError::CounterCorrupted)),
                Some(c) => if c == 0 {
                    (self, Ok(0))
                } else {
                    (DepthModel { depth: Some((c - 1) as u32), ..self }, Ok((c - 1) as u32))
                },
            }
        }
    }
}

/// The entries of `s2` other than the depth tracker's are those of `s1`.
pub open spec fn same_outside_depth(s1: &AdminStore, s2: &AdminStore) -> bool {
    &&& s2.active_admin == s1.active_admin
    &&& s2.pending_admin == s1.pending_admin
    &&& s2.primary_admin == s1.primary_admin
    &&& s2.recovery_vault == s1.recovery_vault
    &&& s2.last_activity_at == s1.last_activity_at
    &&& s2.recovery_executed == s1.recovery_executed
}

/// Initializes depth tracking: counter 0, default limit, enabled.
pub fn initialize_depth_tracking(store: &mut AdminStore)
    ensures
        final(store).auth_depth == Some(0u32),
        final(store).max_chain_depth == Some(DEFAULT_MAX_ADMIN_CHAIN_DEPTH),
        final(store).tracking_enabled == Some(true),
        same_outside_depth(old(store), final(store)),
        final(store).events@ == old(store).events@,
{
    store.auth_depth = Some(0);
    store.max_chain_depth = Some(DEFAULT_MAX_ADMIN_CHAIN_DEPTH);
    store.tracking_enabled = Some(true);
}

/// Whether depth tracking is enabled.
pub fn is_depth_tracking_enabled(store: &AdminStore) -> (r: bool)
    ensures
        r == depth_model(store).tracking_on(),
{
    match store.tracking_enabled {
        Some(b) => b,
        None => false,
    }
}

/// The current depth (0 while tracking is off).
pub fn get_current_depth(store: &AdminStore) -> (d: u32)
    ensures
        d == depth_model(store).current(),
{
    if !is_depth_tracking_enabled(store) {
        return 0;
    }
    match store.auth_depth {
        Some(d) => d,
        None => 0,
    }
}

/// The maximum allowed depth.
pub fn get_max_depth(store: &AdminStore) -> (m: u32)
    ensures
        m == depth_model(store).max_depth(),
{
    match store.max_chain_depth {
        Some(m) => m,
        None => DEFAULT_MAX_ADMIN_CHAIN_DEPTH,
    }
}

/// Increments the depth counter before a `require_auth` call and returns
/// the new depth. At the limit the push is refused and an event records the
/// depth and the limit.
pub fn push_depth(store: &mut AdminStore) -> (r: Result<u32, DepthError>)
    ensures
        r == depth_model(old(store)).push().1,
        depth_model(final(store)) == depth_model(old(store)).push().0,
        same_outside_depth(old(store), final(store)),
        r == Err::<u32, DepthError>(DepthError::DepthExceeded) ==> final(store).events@ == old(store).events@.push(
            AdminEvent::DepthExceeded {
                current: depth_model(old(store)).current(),
                max: depth_model(old(store)).max_depth(),
            }),
        r != Err::<u32, DepthError>(DepthError::DepthExceeded) ==> final(store).events@ == old(store).events@,
{
    if !is_depth_tracking_enabled(store) {
        return Ok(0);
    }
    let current: u32 = match store.auth_depth {
        Some(c) => c,
        None => return Err(DepthError::CounterCorrupted),
    };
    let max = get_max_depth(store);
    if current >= max {
        store.events.push(AdminEvent::DepthExceeded { current, max });
        return Err(DepthError::DepthExceeded);
    }
    let new_depth = current + 1;
    store.auth_depth = Some(new_depth);
    Ok(new_depth)
}

/// Decrements the depth counter after a `require_auth` call completes and
/// returns the new depth; a zero counter stays zero.
pub fn pop_depth(store: &mut AdminStore) -> (r: Result<u32, DepthError>)
    ensures
        r == depth_model(old(store)).pop().1,
        depth_model(final(store)) == depth_model(old(store)).pop().0,
        same_outside_depth(old(store), final(store)),
        final(store).events@ == old(store).events@,
{
    if !is_depth_tracking_enabled(store) {
        return Ok(0);
    }
    let current: u32 = match store.auth_depth {
        Some(c) => c,
        None => return Err(DepthError::CounterCorrupted),
    };
    if current == 0 {
        return Ok(0);
    }
    let new_depth = current - 1;
    store.auth_depth = Some(new_depth);
    Ok(new_depth)
}

/// Resets the depth counter to zero at the end of a batch of operations.
pub fn flush_depth(store: &mut AdminStore, ledger_sequence: u32)
    ensures
        final(store).auth_depth == Some(0u32),
        final(store).max_chain_depth == old(store).max_chain_depth,
        final(store).tracking_enabled == old(store).tracking_enabled,
        same_outside_depth(old(store), final(store)),
        final(store).events@ == old(store).events@.push(AdminEvent::DepthFlushed { ledger_sequence }),
{
    store.auth_depth = Some(0);
    store.events.push(AdminEvent::DepthFlushed { ledger_sequence });
}

/// Whether the depth is within 4 frames of the limit.
pub fn is_approaching_limit(store: &AdminStore) -> (r: bool)
    ensures
        r == (depth_model(store).current() + 4 >= depth_model(store).max_depth()),
{
    let current = get_current_depth(store);
    let max = get_max_depth(store);
    let threshold = if max >= 4 { max - 4 } else { 0 };
    current >= threshold
}

/// Changes the depth limit.
pub fn set_max_depth(store: &mut AdminStore, new_max: u32)
    ensures
        final(store).max_chain_depth == Some(new_max),
        final(store).auth_depth == old(store).auth_depth,
        final(store).tracking_enabled == old(store).tracking_enabled,
        same_outside_depth(old(store), final(store)),
        final(store).events@ == old(store).events@.push(AdminEvent::MaxDepthSet { new_max }),
{
    store.max_chain_depth = Some(new_max);
    store.events.push(AdminEvent::MaxDepthSet { new_max });
}

/// A pop undoes a successful push: with tracking on and the counter below
/// the limit, pushing then popping leaves the entries as they were and
/// reports the depth before the push.
pub proof fn lemma_push_then_pop_restores(m: DepthModel)
    requires
        m.tracking_on(),
        m.depth is Some,
        m.depth.unwrap() < m.max_depth(),
    ensures
        m.push().1 == Ok::<u32, DepthError>((m.depth.unwrap() + 1) as u32),
        m.push().0.pop().0 == m,
        m.push().0.pop().1 == Ok::<u32, DepthError>(m.depth.unwrap()),
{
}

/// A push never takes the counter past the limit it was checked against.
pub proof fn lemma_push_bounded(m: DepthModel)
    requires
        m.tracking_on(),
        m.push().1 is Ok,
    ensures
        m.push().0.current() <= m.max_depth(),
        m.push().0.max_depth() == m.max_depth(),
{
}

/// `k` pushes from depth 0 reach depth `k` while `k` stays within the limit.
pub open spec fn push_n(m: DepthModel, k: nat) -> DepthModel
    decreases k,
{
    if k == 0 {
        m
    } else {
        push_n(m, (k - 1) as nat).push().0
    }
}

/// Repeated pushes count up one by one until the limit.
pub proof fn lemma_pushes_count_up(m: DepthModel, k: nat)
    requires
        m.tracking_on(),
        m.depth == Some(0u32),
        k <= m.max_depth(),
    ensures
        push_n(m, k).depth == Some(k as u32),
        push_n(m, k).max == m.max,
        push_n(m, k).enabled == m.enabled,
    decreases k,
{
    if k > 0 {
        lemma_pushes_count_up(m, (k - 1) as nat);
    }
}

} // verus!
