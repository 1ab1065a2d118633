//! The authoritative workspace/window session state. Events only mark it
//! dirty; every refresh rebuilds it from a full normalized reading, and a
//! new snapshot is published only when its content changed.
use std::sync::Arc;
use vstd::prelude::*;

use crate::hyprland::{
    address_views, window_views, workspace_views, AdapterError, SessionReading, WindowView,
    WorkspaceView,
};
use crate::protocol::{opt_view, Window, Workspace, WorkspaceSnapshot};

verus! {

/// Diagnostics recorded on every refresh; last-good state does not depend
/// on them.
#[derive(Debug, Clone)]
pub struct StoreHealth {
    pub has_state: bool,
    pub successful_refreshes: u64,
    pub failed_refreshes: u64,
    /// When the last refresh succeeded (a monotonic clock reading in
    /// nanoseconds).
    pub last_success_nanos: Option<u128>,
    pub last_error: Option<String>,
}

impl StoreHealth {
    pub fn new() -> (h: Self)
        ensures
            !h.has_state,
            h.successful_refreshes == 0,
            h.failed_refreshes == 0,
            h.last_success_nanos is None,
            h.last_error is None,
    {
        StoreHealth {
            has_state: false,
            successful_refreshes: 0,
            failed_refreshes: 0,
            last_success_nanos: None,
            last_error: None,
        }
    }
}

/// What a snapshot shows: everything but its sequence number.
pub open spec fn snapshot_content(s: WorkspaceSnapshot) -> (
    Seq<WorkspaceView>,
    Seq<WindowView>,
    Option<Seq<char>>,
    Option<Seq<char>>,
) {
    (
        workspace_views(s.workspaces@),
        window_views(s.windows@),
        opt_view(s.active_workspace_handle),
        opt_view(s.active_window_handle),
    )
}

fn opt_string_eq(a: &Option<String>, b: &Option<String>) -> (r: bool)
    ensures
        r == (opt_view(*a) == opt_view(*b)),
{
    match (a, b) {
        (Some(x), Some(y)) => *x == *y,
        (None, None) => true,
        _ => false,
    }
}

fn workspace_eq(a: &Workspace, b: &Workspace) -> (r: bool)
    ensures
        r == (crate::hyprland::workspace_view(*a) == crate::hyprland::workspace_view(*b)),
{
    a.handle == b.handle && a.name == b.name && a.index == b.index && opt_string_eq(
        &a.monitor,
        &b.monitor,
    ) && a.window_count == b.window_count && a.is_active == b.is_active && a.is_special
        == b.is_special && a.is_urgent == b.is_urgent
}

fn window_eq(a: &Window, b: &Window) -> (r: bool)
    ensures
        r == (crate::hyprland::window_view(*a) == crate::hyprland::window_view(*b)),
{
    a.handle == b.handle && a.workspace_handle == b.workspace_handle && a.title == b.title
        && a.class == b.class && a.is_active == b.is_active && a.is_floating == b.is_floating
        && a.is_fullscreen == b.is_fullscreen
}

/// Whether two snapshots show the same content, whatever their sequence.
pub fn content_eq(current: &WorkspaceSnapshot, fresh: &WorkspaceSnapshot) -> (r: bool)
    ensures
        r == (snapshot_content(*current) == snapshot_content(*fresh)),
        r == (workspace_views(current.workspaces@) == workspace_views(fresh.workspaces@) && window_views(
            current.windows@,
        ) == window_views(fresh.windows@) && opt_view(current.active_workspace_handle) == opt_view(
            fresh.active_workspace_handle,
        ) && opt_view(current.active_window_handle) == opt_view(fresh.active_window_handle)),
{
    let ghost a = workspace_views(current.workspaces@);
    let ghost b = workspace_views(fresh.workspaces@);
    if current.workspaces.len() != fresh.workspaces.len() {
        assert(a.len() != b.len());
        return false;
    }
    let mut i: usize = 0;
    while i < current.workspaces.len()
        invariant
            i <= current.workspaces@.len() == fresh.workspaces@.len(),
            a == workspace_views(current.workspaces@),
            b == workspace_views(fresh.workspaces@),
            forall|j: int| 0 <= j < i ==> a[j] == b[j],
        decreases current.workspaces@.len() - i,
    {
        if !workspace_eq(&current.workspaces[i], &fresh.workspaces[i]) {
            assert(a[i as int] != b[i as int]);
            return false;
        }
        i = i + 1;
    }
    assert(a =~= b);
    let ghost c = window_views(current.windows@);
    let ghost d = window_views(fresh.windows@);
    if current.windows.len() != fresh.windows.len() {
        assert(c.len() != d.len());
        return false;
    }
    let mut i: usize = 0;
    while i < current.windows.len()
        invariant
            i <= current.windows@.len() == fresh.windows@.len(),
            c == window_views(current.windows@),
            d == window_views(fresh.windows@),
            forall|j: int| 0 <= j < i ==> c[j] == d[j],
        decreases current.windows@.len() - i,
    {
        if !window_eq(&current.windows[i], &fresh.windows[i]) {
            assert(c[i as int] != d[i as int]);
            return false;
        }
        i = i + 1;
    }
    assert(c =~= d);
    opt_string_eq(&current.active_workspace_handle, &fresh.active_workspace_handle) && opt_string_eq(
        &current.active_window_handle,
        &fresh.active_window_handle,
    )
}

/// The handle-to-address pair recorded first for `handle`.
pub open spec fn address_for(pairs: Seq<(Seq<char>, Seq<char>)>, handle: Seq<char>) -> Option<Seq<char>>
    decreases pairs.len(),
{
    if pairs.len() == 0 {
        None
    } else if pairs[0].0 == handle {
        Some(pairs[0].1)
    } else {
        address_for(pairs.drop_first(), handle)
    }
}

/// The session state behind the store: the published sequence and
/// snapshot, the private handle-to-address mapping for focus requests, and
/// health.
pub struct SessionState {
    pub sequence: u64,
    pub snapshot: Option<Arc<WorkspaceSnapshot>>,
    pub window_addresses: Vec<(String, String)>,
    pub health: StoreHealth,
}

pub open spec fn arc_view(s: Option<Arc<WorkspaceSnapshot>>) -> Option<WorkspaceSnapshot> {
    match s {
        Some(a) => Some(*a),
        None => None,
    }
}

impl SessionState {
    /// The published snapshot, if any, passes validation and carries the
    /// state's sequence.
    pub open spec fn inv(&self) -> bool {
        match arc_view(self.snapshot) {
            Some(s) => s.validation() is Ok && s.sequence == self.sequence,
            None => self.sequence == 0,
        }
    }

    /// Each window handle of the current snapshot with its compositor address.
    pub open spec fn addresses(&self) -> Seq<(Seq<char>, Seq<char>)> {
        address_views(self.window_addresses@)
    }

    pub fn new() -> (s: Self)
        ensures
            s.inv(),
            s.sequence == 0,
            s.snapshot is None,
            s.addresses() == Seq::<(Seq<char>, Seq<char>)>::empty(),
            !s.health.has_state,
            s.health.successful_refreshes == 0,
            s.health.failed_refreshes == 0,
            s.health.last_success_nanos is None,
            s.health.last_error is None,
    {
        let s = SessionState {
            sequence: 0,
            snapshot: None,
            window_addresses: Vec::new(),
            health: StoreHealth::new(),
        };
        assert(s.addresses() =~= Seq::<(Seq<char>, Seq<char>)>::empty());
        s
    }

    /// The sequence the next reading must carry.
    pub fn next_sequence(&self) -> (n: u64)
        requires
            self.sequence < u64::MAX,
        ensures
            n == self.sequence + 1,
    {
        self.sequence + 1
    }

    /// Applies a refresh that read the session (the reading carries
    /// `next_sequence`) at monotonic time `now_nanos`. Identical content
    /// keeps the published snapshot and sequence; changed content is
    /// published. Returns whether it changed.
    pub fn apply_reading(&mut self, reading: SessionReading, now_nanos: u128) -> (changed: bool)
        requires
            old(self).sequence < u64::MAX,
            old(self).health.successful_refreshes < u64::MAX,
            reading.snapshot.sequence == old(self).sequence + 1,
        ensures
            old(self).inv() && reading.snapshot.validation() is Ok ==> final(self).inv(),
            changed == (arc_view(old(self).snapshot) is None || snapshot_content(
                arc_view(old(self).snapshot).unwrap(),
            ) != snapshot_content(reading.snapshot)),
            changed == (arc_view(old(self).snapshot) is None || workspace_views(
                arc_view(old(self).snapshot).unwrap().workspaces@,
            ) != workspace_views(reading.snapshot.workspaces@) || window_views(
                arc_view(old(self).snapshot).unwrap().windows@,
            ) != window_views(reading.snapshot.windows@) || opt_view(
                arc_view(old(self).snapshot).unwrap().active_workspace_handle,
            ) != opt_view(reading.snapshot.active_workspace_handle) || opt_view(
                arc_view(old(self).snapshot).unwrap().active_window_handle,
            ) != opt_view(reading.snapshot.active_window_handle)),
            changed ==> final(self).sequence == old(self).sequence + 1 && arc_view(
                final(self).snapshot,
            ) == Some(reading.snapshot) && final(self).addresses() == address_views(
                reading.window_addresses@,
            ),
            !changed ==> final(self).sequence == old(self).sequence && final(self).snapshot
                == old(self).snapshot && final(self).addresses() == old(self).addresses(),
            final(self).health.has_state,
            final(self).health.successful_refreshes == old(self).health.successful_refreshes + 1,
            final(self).health.failed_refreshes == old(self).health.failed_refreshes,
            final(self).health.last_success_nanos == Some(now_nanos),
            final(self).health.last_error is None,
    {
        let changed = match &self.snapshot {
            None => true,
            Some(current) => !content_eq(&**current, &reading.snapshot),
        };
        if changed {
            let SessionReading { snapshot, window_addresses } = reading;
            self.sequence = self.sequence + 1;
            self.snapshot = Some(Arc::new(snapshot));
            self.window_addresses = window_addresses;
        }
        self.health.has_state = true;
        self.health.successful_refreshes = self.health.successful_refreshes + 1;
        self.health.last_success_nanos = Some(now_nanos);
        self.health.last_error = None;
        changed
    }

    /// A refresh failed: the last good snapshot is kept, and the failure is
    /// recorded.
    pub fn record_failure(&mut self, error: &AdapterError)
        requires
            old(self).health.failed_refreshes < u64::MAX,
        ensures
            old(self).inv() ==> final(self).inv(),
            final(self).sequence == old(self).sequence,
            final(self).snapshot == old(self).snapshot,
            final(self).addresses() == old(self).addresses(),
            final(self).health.failed_refreshes == old(self).health.failed_refreshes + 1,
            final(self).health.successful_refreshes == old(self).health.successful_refreshes,
            final(self).health.has_state == old(self).health.has_state,
            final(self).health.last_success_nanos == old(self).health.last_success_nanos,
            final(self).health.last_error matches Some(m) && m@ == adapter_error_text(*error),
    {
        self.health.failed_refreshes = self.health.failed_refreshes + 1;
        self.health.last_error = Some(adapter_error_message(error));
    }

    /// The compositor address behind a handle the current snapshot issued;
    /// `None` for unknown or stale handles, so callers fail closed.
    pub fn resolve_window_address(&self, handle: &str) -> (r: Option<String>)
        ensures
            match r {
                Some(a) => address_for(self.addresses(), handle@) == Some(a@),
                None => address_for(self.addresses(), handle@) is None,
            },
    {
        let ghost pairs = self.addresses();
        let key = handle.to_owned();
        let mut i: usize = 0;
        assert(pairs.skip(0) =~= pairs);
        while i < self.window_addresses.len()
            invariant
                i <= self.window_addresses@.len(),
                pairs == self.addresses(),
                key@ == handle@,
                address_for(pairs, handle@) == address_for(pairs.skip(i as int), handle@),
            decreases self.window_addresses@.len() - i,
        {
            assert(pairs.skip(i as int)[0] == (self.window_addresses@[i as int].0@, self.window_addresses@[i as int].1@));
            assert(pairs.skip(i as int).drop_first() =~= pairs.skip(i + 1));
            if self.window_addresses[i].0 == key {
                return Some(self.window_addresses[i].1.clone());
            }
            i = i + 1;
        }
        None
    }
}

/// What an adapter error reads as.
pub open spec fn adapter_error_text(error: AdapterError) -> Seq<char> {
    match error {
        AdapterError::Query(reason) => "Hyprland command socket query failed: "@ + reason@,
        AdapterError::TooManyWorkspaces => "Hyprland reports more than 128 workspaces"@,
        AdapterError::TooManyWindows => "Hyprland reports more than 1024 windows"@,
    }
}

/// The text of an adapter error.
pub fn adapter_error_message(error: &AdapterError) -> (m: String)
    ensures
        m@ == adapter_error_text(*error),
{
    match error {
        AdapterError::Query(reason) => crate::text::concat("Hyprland command socket query failed: ", reason.as_str()),
        AdapterError::TooManyWorkspaces => "Hyprland reports more than 128 workspaces".to_owned(),
        AdapterError::TooManyWindows => "Hyprland reports more than 1024 windows".to_owned(),
    }
}


/// The first delay before a failed refresh is retried, in nanoseconds.
pub const REFRESH_BACKOFF_BASE_NANOS: u128 = 250_000_000;
/// The longest delay between refresh retries, in nanoseconds.
pub const REFRESH_BACKOFF_MAX_NANOS: u128 = 4_000_000_000;

/// The retry delay after `backoff`: doubled, capped at the maximum.
pub fn next_refresh_backoff(backoff_nanos: u128) -> (r: u128)
    requires
        backoff_nanos <= REFRESH_BACKOFF_MAX_NANOS,
    ensures
        r == (if 2 * backoff_nanos < REFRESH_BACKOFF_MAX_NANOS {
            2 * backoff_nanos
        } else {
            REFRESH_BACKOFF_MAX_NANOS as int
        }),
        backoff_nanos <= r <= REFRESH_BACKOFF_MAX_NANOS,
{
    let doubled = backoff_nanos * 2;
    if doubled < REFRESH_BACKOFF_MAX_NANOS {
        doubled
    } else {
        REFRESH_BACKOFF_MAX_NANOS
    }
}


/// Two snapshots show the same content exactly when their workspaces,
/// windows (every field of each, by view), active workspace and active
/// window are the same; only the sequence number is left out. A change in
/// any workspace field (name, monitor, count, urgency, ...) is a change.
pub proof fn lemma_content_is_every_field_but_the_sequence(a: WorkspaceSnapshot, b: WorkspaceSnapshot)
    ensures
        (snapshot_content(a) == snapshot_content(b)) == (workspace_views(a.workspaces@) == workspace_views(
            b.workspaces@,
        ) && window_views(a.windows@) == window_views(b.windows@) && opt_view(a.active_workspace_handle)
            == opt_view(b.active_workspace_handle) && opt_view(a.active_window_handle) == opt_view(
            b.active_window_handle,
        )),
{
}

} // verus!
