//! The typed Core ↔ frontend contract: bounds, snapshot models, requests,
//! responses, and the validation rules every served snapshot obeys.
use vstd::prelude::*;
use vstd::utf8::encode_utf8;

use crate::text::{
    append_chars, append_str, chars_of, decimal_chars, decimal_of, parse_unsigned,
    parse_unsigned_spec, string_of,
};

verus! {

/// Core, the native bridge, and the frontend require an exact match.
pub const PROTOCOL_VERSION: u8 = 5;
pub const MAX_MESSAGE_BYTES: usize = 65536;
pub const HANDSHAKE_TIMEOUT_SECONDS: u64 = 5;
pub const DEFAULT_APPLICATION_PAGE_SIZE: u16 = 32;
pub const MAX_APPLICATION_PAGE_SIZE: u16 = 64;
pub const MAX_WORKSPACES: usize = 128;
pub const MAX_WINDOWS: usize = 1024;
pub const DEFAULT_TELEMETRY_INTERVAL_MS: u32 = 1000;
pub const MIN_TELEMETRY_INTERVAL_MS: u32 = 250;
pub const MAX_TELEMETRY_INTERVAL_MS: u32 = 10000;
pub const MAX_TELEMETRY_DEVICES: u16 = 64;
pub const MAX_TELEMETRY_INTERFACES: u16 = 64;
pub const MAX_TELEMETRY_PAYLOAD_BYTES: usize = 4096;
/// Maximum number of MPRIS players carried in one media snapshot.
pub const MAX_MEDIA_PLAYERS: usize = 16;
/// Maximum number of notifications carried in one bounded notification feed.
pub const MAX_NOTIFICATIONS: usize = 32;
/// Maximum byte length (UTF-8) of any media/notification string field.
pub const MAX_STRING_BYTES: usize = 256;
/// Frame budget for a serialized media snapshot, enforced by Core.
pub const MAX_MEDIA_PAYLOAD_BYTES: usize = 4096;
/// Frame budget for a serialized notification feed, enforced by Core.
pub const MAX_NOTIFICATION_PAYLOAD_BYTES: usize = 4096;
pub const CLIENT_NAME: &'static str = "velora-godot";
pub const SERVER_NAME: &'static str = "velora-core";

/// What `str::len` returns for a character sequence: the length of its
/// UTF-8 encoding, as a `usize`.
pub open spec fn byte_len(s: Seq<char>) -> usize {
    encode_utf8(s).len() as usize
}

/// The UTF-8 byte length of a string.
pub fn string_byte_len(s: &String) -> (n: usize)
    ensures
        n == byte_len(s@),
{
    s.as_str().len()
}

/// The views of a sequence of strings.
pub open spec fn string_views(v: Seq<String>) -> Seq<Seq<char>> {
    v.map_values(|x: String| x@)
}

/// The handle at `i` is non-empty and differs from every earlier handle.
pub open spec fn handle_ok(hs: Seq<Seq<char>>, i: int) -> bool {
    hs[i].len() > 0 && forall|j: int| 0 <= j < i ==> hs[j] != hs[i]
}

/// Whether the handle at `i` is acceptable depends only on the handles up to it.
pub proof fn lemma_handle_ok_prefix(hs: Seq<Seq<char>>, n: int, i: int)
    requires
        0 <= i < n <= hs.len(),
    ensures
        handle_ok(hs.take(n), i) == handle_ok(hs, i),
{
    assert forall|j: int| 0 <= j < i implies hs.take(n)[j] == hs[j] by {}
}

/// Every handle is non-empty and no handle occurs twice.
pub open spec fn handles_ok(hs: Seq<Seq<char>>) -> bool {
    forall|i: int| 0 <= i < hs.len() ==> handle_ok(hs, i)
}

pub fn handle_ok_exec(hs: &Vec<String>, i: usize) -> (b: bool)
    requires
        i < hs@.len(),
    ensures
        b == handle_ok(string_views(hs@), i as int),
{
    assert(string_views(hs@)[i as int] == hs@[i as int]@);
    if hs[i].as_str().is_empty() {
        return false;
    }
    let mut j: usize = 0;
    while j < i
        invariant
            j <= i < hs@.len(),
            forall|k: int| 0 <= k < j ==> string_views(hs@)[k] != string_views(hs@)[i as int],
        decreases i - j,
    {
        assert(string_views(hs@)[j as int] == hs@[j as int]@);
        if hs[j] == hs[i] {
            return false;
        }
        j = j + 1;
    }
    true
}

pub fn contains_string(hs: &Vec<String>, h: &String) -> (b: bool)
    ensures
        b == string_views(hs@).contains(h@),
{
    let mut j: usize = 0;
    while j < hs.len()
        invariant
            j <= hs@.len(),
            forall|k: int| 0 <= k < j ==> string_views(hs@)[k] != h@,
        decreases hs@.len() - j,
    {
        assert(string_views(hs@)[j as int] == hs@[j as int]@);
        if hs[j] == *h {
            return true;
        }
        j = j + 1;
    }
    false
}

pub fn clone_string(s: &String) -> (out: String)
    ensures
        out@ == s@,
{
    s.clone()
}

pub fn clone_opt_string(s: &Option<String>) -> (out: Option<String>)
    ensures
        opt_view(out) == opt_view(*s),
{
    match s {
        Some(v) => Some(v.clone()),
        None => None,
    }
}

pub open spec fn opt_view(s: Option<String>) -> Option<Seq<char>> {
    match s {
        Some(v) => Some(v@),
        None => None,
    }
}

#[derive(Debug, Clone, Copy, PartialEq, Eq, Structural)]
pub enum HyprlandAvailability {
    Available,
    Unavailable,
    Incompatible,
}

#[derive(Debug, Clone, PartialEq, Eq)]
pub struct HyprlandCapabilities {
    pub availability: HyprlandAvailability,
    pub version: Option<String>,
    pub can_query_workspaces: bool,
    pub can_query_windows: bool,
    pub can_query_active_workspace: bool,
    pub can_query_active_window: bool,
    pub can_receive_events: bool,
}

impl HyprlandCapabilities {
    pub open spec fn no_capabilities(&self) -> bool {
        &&& self.version.is_none()
        &&& !self.can_query_workspaces
        &&& !self.can_query_windows
        &&& !self.can_query_active_workspace
        &&& !self.can_query_active_window
        &&& !self.can_receive_events
    }

    pub fn unavailable() -> (c: Self)
        ensures
            c.availability == HyprlandAvailability::Unavailable,
            c.no_capabilities(),
    {
        Self {
            availability: HyprlandAvailability::Unavailable,
            version: None,
            can_query_workspaces: false,
            can_query_windows: false,
            can_query_active_workspace: false,
            can_query_active_window: false,
            can_receive_events: false,
        }
    }

    pub fn incompatible() -> (c: Self)
        ensures
            c.availability == HyprlandAvailability::Incompatible,
            c.no_capabilities(),
    {
        Self { availability: HyprlandAvailability::Incompatible, ..Self::unavailable() }
    }
}

#[derive(Debug, Clone, PartialEq, Eq)]
pub struct Workspace {
    /// Opaque, snapshot-issued identifier. The frontend must not manufacture this.
    pub handle: String,
    pub name: String,
    pub index: i32,
    pub monitor: Option<String>,
    pub window_count: u16,
    pub is_active: bool,
    pub is_special: bool,
    pub is_urgent: bool,
}

#[derive(Debug, Clone, PartialEq, Eq)]
pub struct Window {
    /// Opaque, snapshot-issued identifier. This is never a raw compositor selector.
    pub handle: String,
    pub workspace_handle: String,
    pub title: String,
    pub class: String,
    pub is_active: bool,
    pub is_floating: bool,
    pub is_fullscreen: bool,
}

#[derive(Debug, Clone, PartialEq, Eq)]
pub struct WorkspaceSnapshot {
    /// Monotonically increasing within one Core session. Clients ignore older values.
    pub sequence: u64,
    pub workspaces: Vec<Workspace>,
    pub windows: Vec<Window>,
    pub active_workspace_handle: Option<String>,
    pub active_window_handle: Option<String>,
}

#[derive(Debug, Clone, Copy, PartialEq, Eq, Structural)]
pub enum SnapshotValidationError {
    TooManyWorkspaces,
    TooManyWindows,
    InvalidWorkspaceHandle,
    InvalidWindowHandle,
    UnknownWindowWorkspace,
    UnknownActiveWorkspace,
    UnknownActiveWindow,
}

pub open spec fn workspace_handles(ws: Seq<Workspace>) -> Seq<Seq<char>> {
    ws.map_values(|w: Workspace| w.handle@)
}

pub open spec fn window_handles(ws: Seq<Window>) -> Seq<Seq<char>> {
    ws.map_values(|w: Window| w.handle@)
}

/// The first window problem at or after `i`: a bad handle, or a window on
/// a workspace that is not in the snapshot.
pub open spec fn window_problem(
    workspaces: Seq<Seq<char>>,
    windows: Seq<Window>,
    i: int,
) -> Option<SnapshotValidationError>
    decreases windows.len() - i,
{
    if i < 0 || i >= windows.len() {
        None
    } else if !handle_ok(window_handles(windows), i) {
        Some(SnapshotValidationError::InvalidWindowHandle)
    } else if !workspaces.contains(windows[i].workspace_handle@) {
        Some(SnapshotValidationError::UnknownWindowWorkspace)
    } else {
        window_problem(workspaces, windows, i + 1)
    }
}

impl WorkspaceSnapshot {
    /// The outcome of validation, in the order the checks are made.
    pub open spec fn validation(&self) -> Result<(), SnapshotValidationError> {
        let wsh = workspace_handles(self.workspaces@);
        let wih = window_handles(self.windows@);
        if self.workspaces@.len() > MAX_WORKSPACES {
            Err(SnapshotValidationError::TooManyWorkspaces)
        } else if self.windows@.len() > MAX_WINDOWS {
            Err(SnapshotValidationError::TooManyWindows)
        } else if !handles_ok(wsh) {
            Err(SnapshotValidationError::InvalidWorkspaceHandle)
        } else if window_problem(wsh, self.windows@, 0) is Some {
            Err(window_problem(wsh, self.windows@, 0).unwrap())
        } else if self.active_workspace_handle is Some && !wsh.contains(
            self.active_workspace_handle.unwrap()@,
        ) {
            Err(SnapshotValidationError::UnknownActiveWorkspace)
        } else if self.active_window_handle is Some && !wih.contains(
            self.active_window_handle.unwrap()@,
        ) {
            Err(SnapshotValidationError::UnknownActiveWindow)
        } else {
            Ok(())
        }
    }

    pub fn is_newer_than(&self, sequence: u64) -> (b: bool)
        ensures
            b == (self.sequence > sequence),
    {
        self.sequence > sequence
    }

    #[verifier::loop_isolation(false)]
    pub fn validate(&self) -> (r: Result<(), SnapshotValidationError>)
        ensures
            r == self.validation(),
    {
        if self.workspaces.len() > MAX_WORKSPACES {
            return Err(SnapshotValidationError::TooManyWorkspaces);
        }
        if self.windows.len() > MAX_WINDOWS {
            return Err(SnapshotValidationError::TooManyWindows);
        }
        let mut wsh: Vec<String> = Vec::new();
        let mut i: usize = 0;
        while i < self.workspaces.len()
            invariant
                i <= self.workspaces@.len(),
                string_views(wsh@) == workspace_handles(self.workspaces@).take(i as int),
            decreases self.workspaces@.len() - i,
        {
            let ghost prev = string_views(wsh@);
            let h = clone_string(&self.workspaces[i].handle);
            wsh.push(h);
            assert(string_views(wsh@) =~= prev.push(h@));
            assert(workspace_handles(self.workspaces@).take(i + 1) =~= workspace_handles(
                self.workspaces@,
            ).take(i as int).push(self.workspaces@[i as int].handle@));
            i = i + 1;
        }
        assert(string_views(wsh@) =~= workspace_handles(self.workspaces@));
        let mut i: usize = 0;
        while i < wsh.len()
            invariant
                i <= wsh@.len(),
                forall|k: int| 0 <= k < i ==> handle_ok(string_views(wsh@), k),
            decreases wsh@.len() - i,
        {
            if !handle_ok_exec(&wsh, i) {
                return Err(SnapshotValidationError::InvalidWorkspaceHandle);
            }
            i = i + 1;
        }
        let ghost wsv = workspace_handles(self.workspaces@);
        let mut wih: Vec<String> = Vec::new();
        let mut i: usize = 0;
        while i < self.windows.len()
            invariant
                i <= self.windows@.len(),
                wsv == string_views(wsh@),
                handles_ok(wsv),
                string_views(wih@) == window_handles(self.windows@).take(i as int),
                window_problem(wsv, self.windows@, 0) == window_problem(wsv, self.windows@, i as int),
            decreases self.windows@.len() - i,
        {
            let ghost prev = string_views(wih@);
            let h = clone_string(&self.windows[i].handle);
            wih.push(h);
            assert(string_views(wih@) =~= prev.push(h@));
            assert(window_handles(self.windows@).take(i + 1) =~= window_handles(self.windows@).take(
                i as int,
            ).push(self.windows@[i as int].handle@));
            assert(string_views(wih@).take(i + 1) =~= string_views(wih@));
            if !handle_ok_exec(&wih, i) {
                proof {
                    lemma_handle_ok_prefix(window_handles(self.windows@), i + 1, i as int);
                }
                return Err(SnapshotValidationError::InvalidWindowHandle);
            }
            proof {
                lemma_handle_ok_prefix(window_handles(self.windows@), i + 1, i as int);
            }
            if !contains_string(&wsh, &self.windows[i].workspace_handle) {
                return Err(SnapshotValidationError::UnknownWindowWorkspace);
            }
            i = i + 1;
        }
        assert(string_views(wih@) =~= window_handles(self.windows@));
        if let Some(handle) = &self.active_workspace_handle {
            if !contains_string(&wsh, handle) {
                return Err(SnapshotValidationError::UnknownActiveWorkspace);
            }
        }
        if let Some(handle) = &self.active_window_handle {
            if !contains_string(&wih, handle) {
                return Err(SnapshotValidationError::UnknownActiveWindow);
            }
        }
        Ok(())
    }
}

/// Availability is explicit so zero remains a real measurement rather than an
/// error sentinel. `WarmingUp` is used while a counter-based metric waits for
/// the second sample needed to calculate a rate.
#[derive(Debug, Clone, Copy, PartialEq, Eq, Structural)]
pub enum TelemetryAvailability {
    Available,
    WarmingUp,
    Offline,
    Unavailable,
}

#[derive(Debug, Clone, Copy, PartialEq, Eq, Structural)]
pub struct CpuTelemetry {
    pub availability: TelemetryAvailability,
    /// `10_000` basis points represents 100.00% utilization.
    pub utilization_basis_points: Option<u16>,
    pub logical_cpu_count: u16,
    /// Load averages are fixed-point values where `1_000` represents 1.0.
    pub load_1m_milli: u32,
    pub load_5m_milli: u32,
    pub load_15m_milli: u32,
}

#[derive(Debug, Clone, Copy, PartialEq, Eq, Structural)]
pub struct MemoryTelemetry {
    pub availability: TelemetryAvailability,
    pub total_bytes: u64,
    pub available_bytes: u64,
    pub used_bytes: u64,
    pub cached_bytes: u64,
    pub swap_total_bytes: u64,
    pub swap_used_bytes: u64,
}

#[derive(Debug, Clone, Copy, PartialEq, Eq, Structural)]
pub struct DiskTelemetry {
    pub availability: TelemetryAvailability,
    pub read_bytes_per_second: u64,
    pub write_bytes_per_second: u64,
    pub device_count: u16,
}

#[derive(Debug, Clone, Copy, PartialEq, Eq, Structural)]
pub struct NetworkTelemetry {
    pub availability: TelemetryAvailability,
    pub receive_bytes_per_second: u64,
    pub transmit_bytes_per_second: u64,
    pub interface_count: u16,
}

#[derive(Debug, Clone, Copy, PartialEq, Eq, Structural)]
pub struct TelemetrySnapshot {
    /// Monotonically increasing within one Core session.
    pub sequence: u64,
    pub sampled_at_unix_ms: u64,
    pub sample_interval_ms: u32,
    pub cpu: CpuTelemetry,
    pub memory: MemoryTelemetry,
    pub disk: DiskTelemetry,
    pub network: NetworkTelemetry,
}

#[derive(Debug, Clone, Copy, PartialEq, Eq, Structural)]
pub enum TelemetryValidationError {
    InvalidSampleInterval,
    InvalidCpuUtilization,
    InvalidMemoryTotals,
    InvalidSwapTotals,
    TooManyDevices,
    TooManyInterfaces,
}

/// Memory totals are consistent: every part fits in the total, and used is
/// exactly total minus available.
pub open spec fn memory_consistent(m: MemoryTelemetry) -> bool {
    &&& m.available_bytes <= m.total_bytes
    &&& m.used_bytes <= m.total_bytes
    &&& m.cached_bytes <= m.total_bytes
    &&& m.used_bytes == m.total_bytes - m.available_bytes
}

impl TelemetrySnapshot {
    /// The outcome of validation, in the order the checks are made.
    pub open spec fn validation(&self) -> Result<(), TelemetryValidationError> {
        if !(MIN_TELEMETRY_INTERVAL_MS <= self.sample_interval_ms <= MAX_TELEMETRY_INTERVAL_MS) {
            Err(TelemetryValidationError::InvalidSampleInterval)
        } else if self.cpu.utilization_basis_points is Some
            && self.cpu.utilization_basis_points.unwrap() > 10000 {
            Err(TelemetryValidationError::InvalidCpuUtilization)
        } else if !memory_consistent(self.memory) {
            Err(TelemetryValidationError::InvalidMemoryTotals)
        } else if self.memory.swap_used_bytes > self.memory.swap_total_bytes {
            Err(TelemetryValidationError::InvalidSwapTotals)
        } else if self.disk.device_count > MAX_TELEMETRY_DEVICES {
            Err(TelemetryValidationError::TooManyDevices)
        } else if self.network.interface_count > MAX_TELEMETRY_INTERFACES {
            Err(TelemetryValidationError::TooManyInterfaces)
        } else {
            Ok(())
        }
    }

    pub fn is_newer_than(&self, sequence: u64) -> (b: bool)
        ensures
            b == (self.sequence > sequence),
    {
        self.sequence > sequence
    }

    #[verifier::loop_isolation(false)]
    pub fn validate(&self) -> (r: Result<(), TelemetryValidationError>)
        ensures
            r == self.validation(),
    {
        if !(MIN_TELEMETRY_INTERVAL_MS <= self.sample_interval_ms
            && self.sample_interval_ms <= MAX_TELEMETRY_INTERVAL_MS) {
            return Err(TelemetryValidationError::InvalidSampleInterval);
        }
        if let Some(value) = self.cpu.utilization_basis_points {
            if value > 10000 {
                return Err(TelemetryValidationError::InvalidCpuUtilization);
            }
        }
        let m = self.memory;
        let used_expected = if m.total_bytes >= m.available_bytes {
            m.total_bytes - m.available_bytes
        } else {
            0
        };
        if m.available_bytes > m.total_bytes || m.used_bytes > m.total_bytes || m.cached_bytes
            > m.total_bytes || m.used_bytes != used_expected {
            return Err(TelemetryValidationError::InvalidMemoryTotals);
        }
        if m.swap_used_bytes > m.swap_total_bytes {
            return Err(TelemetryValidationError::InvalidSwapTotals);
        }
        if self.disk.device_count > MAX_TELEMETRY_DEVICES {
            return Err(TelemetryValidationError::TooManyDevices);
        }
        if self.network.interface_count > MAX_TELEMETRY_INTERFACES {
            return Err(TelemetryValidationError::TooManyInterfaces);
        }
        Ok(())
    }
}

/// MPRIS `PlaybackStatus` values. A player that has not reported a status yet
/// is normalized to `Stopped` by Core rather than inventing a fourth variant.
#[derive(Debug, Clone, Copy, PartialEq, Eq, Structural)]
pub enum PlaybackStatus {
    Playing,
    Paused,
    Stopped,
}

/// One MPRIS player normalized for the media console. The handle is opaque and
/// snapshot-issued; a raw D-Bus well-known name never crosses Velora IPC.
#[derive(Debug, Clone, PartialEq, Eq)]
pub struct MediaPlayer {
    /// Opaque, snapshot-issued identifier. Never a raw bus name.
    pub handle: String,
    /// Human-readable player identity (for example "Spotify"). Never a bus name.
    pub identity: String,
    pub status: PlaybackStatus,
    pub title: Option<String>,
    pub artist: Option<String>,
    pub album: Option<String>,
    /// Track length in microseconds, when known.
    pub length_micros: Option<u64>,
    /// Playback position in microseconds.
    pub position_micros: u64,
    pub can_play: bool,
    pub can_pause: bool,
    pub can_go_next: bool,
    pub can_go_previous: bool,
    pub can_seek: bool,
    pub can_control: bool,
}

/// The single authoritative media snapshot Core serves to the frontend.
#[derive(Debug, Clone, PartialEq, Eq)]
pub struct MediaSnapshot {
    /// Monotonically increasing within one Core session.
    pub sequence: u64,
    pub players: Vec<MediaPlayer>,
    pub active_player_handle: Option<String>,
}

#[derive(Debug, Clone, Copy, PartialEq, Eq, Structural)]
pub enum MediaSnapshotValidationError {
    TooManyPlayers,
    InvalidPlayerHandle,
    StringTooLong,
    UnknownActivePlayer,
}

/// An optional string that, when present, is at most `MAX_STRING_BYTES` long.
pub open spec fn opt_fits(s: Option<String>) -> bool {
    s is Some ==> byte_len(s.unwrap()@) <= MAX_STRING_BYTES
}

pub fn opt_fits_exec(s: &Option<String>) -> (b: bool)
    ensures
        b == opt_fits(*s),
{
    match s {
        Some(v) => string_byte_len(v) <= MAX_STRING_BYTES,
        None => true,
    }
}

impl MediaPlayer {
    /// Every human-readable string fits the byte ceiling.
    pub open spec fn strings_fit(&self) -> bool {
        &&& byte_len(self.identity@) <= MAX_STRING_BYTES
        &&& opt_fits(self.title)
        &&& opt_fits(self.artist)
        &&& opt_fits(self.album)
    }

    pub fn validate_strings(&self) -> (r: Result<(), MediaSnapshotValidationError>)
        ensures
            r is Ok <==> self.strings_fit(),
            r is Err ==> r == Err::<(), _>(MediaSnapshotValidationError::StringTooLong),
    {
        if string_byte_len(&self.identity) > MAX_STRING_BYTES || !opt_fits_exec(&self.title)
            || !opt_fits_exec(&self.artist) || !opt_fits_exec(&self.album) {
            return Err(MediaSnapshotValidationError::StringTooLong);
        }
        Ok(())
    }
}

pub open spec fn player_handles(ps: Seq<MediaPlayer>) -> Seq<Seq<char>> {
    ps.map_values(|p: MediaPlayer| p.handle@)
}

/// The first player problem at or after `i`.
pub open spec fn player_problem(ps: Seq<MediaPlayer>, i: int) -> Option<
    MediaSnapshotValidationError,
>
    decreases ps.len() - i,
{
    if i < 0 || i >= ps.len() {
        None
    } else if !handle_ok(player_handles(ps), i) {
        Some(MediaSnapshotValidationError::InvalidPlayerHandle)
    } else if !ps[i].strings_fit() {
        Some(MediaSnapshotValidationError::StringTooLong)
    } else {
        player_problem(ps, i + 1)
    }
}

impl MediaSnapshot {
    /// The outcome of validation, in the order the checks are made.
    pub open spec fn validation(&self) -> Result<(), MediaSnapshotValidationError> {
        if self.players@.len() > MAX_MEDIA_PLAYERS {
            Err(MediaSnapshotValidationError::TooManyPlayers)
        } else if player_problem(self.players@, 0) is Some {
            Err(player_problem(self.players@, 0).unwrap())
        } else if self.active_player_handle is Some && !player_handles(self.players@).contains(
            self.active_player_handle.unwrap()@,
        ) {
            Err(MediaSnapshotValidationError::UnknownActivePlayer)
        } else {
            Ok(())
        }
    }

    pub fn is_newer_than(&self, sequence: u64) -> (b: bool)
        ensures
            b == (self.sequence > sequence),
    {
        self.sequence > sequence
    }

    #[verifier::loop_isolation(false)]
    pub fn validate(&self) -> (r: Result<(), MediaSnapshotValidationError>)
        ensures
            r == self.validation(),
    {
        if self.players.len() > MAX_MEDIA_PLAYERS {
            return Err(MediaSnapshotValidationError::TooManyPlayers);
        }
        let mut hs: Vec<String> = Vec::new();
        let mut i: usize = 0;
        while i < self.players.len()
            invariant
                i <= self.players@.len(),
                string_views(hs@) == player_handles(self.players@).take(i as int),
                player_problem(self.players@, 0) == player_problem(self.players@, i as int),
            decreases self.players@.len() - i,
        {
            let ghost prev = string_views(hs@);
            let h = clone_string(&self.players[i].handle);
            hs.push(h);
            assert(string_views(hs@) =~= prev.push(h@));
            assert(player_handles(self.players@).take(i + 1) =~= player_handles(self.players@).take(
                i as int,
            ).push(self.players@[i as int].handle@));
            if !handle_ok_exec(&hs, i) {
                proof {
                    lemma_handle_ok_prefix(player_handles(self.players@), i + 1, i as int);
                }
                return Err(MediaSnapshotValidationError::InvalidPlayerHandle);
            }
            proof {
                lemma_handle_ok_prefix(player_handles(self.players@), i + 1, i as int);
            }
            if self.players[i].validate_strings().is_err() {
                return Err(MediaSnapshotValidationError::StringTooLong);
            }
            i = i + 1;
        }
        assert(string_views(hs@) =~= player_handles(self.players@));
        if let Some(handle) = &self.active_player_handle {
            if !contains_string(&hs, handle) {
                return Err(MediaSnapshotValidationError::UnknownActivePlayer);
            }
        }
        Ok(())
    }
}

/// The text of a media snapshot validation failure.
pub open spec fn media_validation_text(error: MediaSnapshotValidationError) -> Seq<char> {
    match error {
        MediaSnapshotValidationError::TooManyPlayers => "media snapshot contains more than 16 players"@,
        MediaSnapshotValidationError::InvalidPlayerHandle => "media snapshot contains an empty or duplicate player handle"@,
        MediaSnapshotValidationError::StringTooLong => "media snapshot string exceeds 256 bytes"@,
        MediaSnapshotValidationError::UnknownActivePlayer => "active player handle is not in the snapshot"@,
    }
}

/// The text of a media snapshot validation failure.
pub fn media_validation_message(error: MediaSnapshotValidationError) -> (m: &'static str)
    ensures
        m@ == media_validation_text(error),
{
    match error {
        MediaSnapshotValidationError::TooManyPlayers => "media snapshot contains more than 16 players",
        MediaSnapshotValidationError::InvalidPlayerHandle => "media snapshot contains an empty or duplicate player handle",
        MediaSnapshotValidationError::StringTooLong => "media snapshot string exceeds 256 bytes",
        MediaSnapshotValidationError::UnknownActivePlayer => "active player handle is not in the snapshot",
    }
}

/// Notifications urgency levels (`0` low, `1` normal, `2` critical).
#[derive(Debug, Clone, Copy, PartialEq, Eq, Structural)]
pub enum NotificationUrgency {
    Low,
    Normal,
    Critical,
}

/// One observed notification. The handle is opaque and feed-issued; the raw
/// daemon replacement id never crosses Velora IPC.
#[derive(Debug, Clone, PartialEq, Eq)]
pub struct Notification {
    /// Opaque, feed-issued identifier. Never a raw daemon id.
    pub handle: String,
    pub app_name: String,
    pub summary: String,
    pub body: String,
    pub urgency: NotificationUrgency,
    /// Unix timestamp in milliseconds when the notification was posted.
    pub timestamp_unix_ms: u64,
}

/// The bounded, memory-only notification feed Core serves to the frontend.
#[derive(Debug, Clone, PartialEq, Eq)]
pub struct NotificationFeed {
    /// Monotonically increasing within one Core session.
    pub sequence: u64,
    pub notifications: Vec<Notification>,
}

#[derive(Debug, Clone, Copy, PartialEq, Eq, Structural)]
pub enum NotificationFeedValidationError {
    TooManyNotifications,
    InvalidNotificationHandle,
    StringTooLong,
}

impl Notification {
    /// Every text field fits the byte ceiling.
    pub open spec fn strings_fit(&self) -> bool {
        &&& byte_len(self.app_name@) <= MAX_STRING_BYTES
        &&& byte_len(self.summary@) <= MAX_STRING_BYTES
        &&& byte_len(self.body@) <= MAX_STRING_BYTES
    }

    pub fn validate_strings(&self) -> (r: Result<(), NotificationFeedValidationError>)
        ensures
            r is Ok <==> self.strings_fit(),
            r is Err ==> r == Err::<(), _>(NotificationFeedValidationError::StringTooLong),
    {
        if string_byte_len(&self.app_name) > MAX_STRING_BYTES || string_byte_len(&self.summary)
            > MAX_STRING_BYTES || string_byte_len(&self.body) > MAX_STRING_BYTES {
            return Err(NotificationFeedValidationError::StringTooLong);
        }
        Ok(())
    }
}

pub open spec fn notification_handles(ns: Seq<Notification>) -> Seq<Seq<char>> {
    ns.map_values(|n: Notification| n.handle@)
}

/// The first notification problem at or after `i`.
pub open spec fn notification_problem(ns: Seq<Notification>, i: int) -> Option<
    NotificationFeedValidationError,
>
    decreases ns.len() - i,
{
    if i < 0 || i >= ns.len() {
        None
    } else if !handle_ok(notification_handles(ns), i) {
        Some(NotificationFeedValidationError::InvalidNotificationHandle)
    } else if !ns[i].strings_fit() {
        Some(NotificationFeedValidationError::StringTooLong)
    } else {
        notification_problem(ns, i + 1)
    }
}

impl NotificationFeed {
    /// The outcome of validation, in the order the checks are made.
    pub open spec fn validation(&self) -> Result<(), NotificationFeedValidationError> {
        if self.notifications@.len() > MAX_NOTIFICATIONS {
            Err(NotificationFeedValidationError::TooManyNotifications)
        } else if notification_problem(self.notifications@, 0) is Some {
            Err(notification_problem(self.notifications@, 0).unwrap())
        } else {
            Ok(())
        }
    }

    pub fn is_newer_than(&self, sequence: u64) -> (b: bool)
        ensures
            b == (self.sequence > sequence),
    {
        self.sequence > sequence
    }

    #[verifier::loop_isolation(false)]
    pub fn validate(&self) -> (r: Result<(), NotificationFeedValidationError>)
        ensures
            r == self.validation(),
    {
        if self.notifications.len() > MAX_NOTIFICATIONS {
            return Err(NotificationFeedValidationError::TooManyNotifications);
        }
        let mut hs: Vec<String> = Vec::new();
        let mut i: usize = 0;
        while i < self.notifications.len()
            invariant
                i <= self.notifications@.len(),
                string_views(hs@) == notification_handles(self.notifications@).take(i as int),
                notification_problem(self.notifications@, 0) == notification_problem(
                    self.notifications@,
                    i as int,
                ),
            decreases self.notifications@.len() - i,
        {
            let ghost prev = string_views(hs@);
            let h = clone_string(&self.notifications[i].handle);
            hs.push(h);
            assert(string_views(hs@) =~= prev.push(h@));
            assert(notification_handles(self.notifications@).take(i + 1) =~= notification_handles(
                self.notifications@,
            ).take(i as int).push(self.notifications@[i as int].handle@));
            if !handle_ok_exec(&hs, i) {
                proof {
                    lemma_handle_ok_prefix(notification_handles(self.notifications@), i + 1, i as int);
                }
                return Err(NotificationFeedValidationError::InvalidNotificationHandle);
            }
            proof {
                lemma_handle_ok_prefix(notification_handles(self.notifications@), i + 1, i as int);
            }
            if self.notifications[i].validate_strings().is_err() {
                return Err(NotificationFeedValidationError::StringTooLong);
            }
            i = i + 1;
        }
        Ok(())
    }
}

/// The only control verbs the frontend may send.
#[derive(Debug, Clone, Copy, PartialEq, Eq, Structural)]
pub enum MediaControlVerb {
    Play,
    Pause,
    PlayPause,
    Stop,
    Next,
    Previous,
}

#[derive(Debug, Clone, PartialEq, Eq)]
pub struct Application {
    pub id: String,
    pub name: String,
    /// The desktop entry `Exec` line.
    pub exec_line: String,
    pub icon: Option<String>,
    pub categories: Vec<String>,
    pub terminal: bool,
}

#[derive(Debug, Clone, PartialEq, Eq)]
pub enum Request {
    Hello { protocol_version: u8, client_name: String, client_version: String },
    Ping { protocol_version: u8, request_id: u64 },
    ListApplications { protocol_version: u8, request_id: u64, offset: u32, limit: u16 },
    LaunchApplication { protocol_version: u8, request_id: u64, desktop_id: String },
    GetHyprlandCapabilities { protocol_version: u8, request_id: u64 },
    GetWorkspaceSnapshot { protocol_version: u8, request_id: u64 },
    /// A snapshot-issued opaque handle; raw compositor selectors are never accepted.
    SwitchWorkspace { protocol_version: u8, request_id: u64, workspace_handle: String },
    /// A snapshot-issued opaque handle; never a raw selector string.
    FocusWindow { protocol_version: u8, request_id: u64, window_handle: String },
    /// Returns Core's latest cached sample; clients cannot choose a sampling rate.
    GetTelemetrySnapshot { protocol_version: u8, request_id: u64 },
    GetMediaSnapshot { protocol_version: u8, request_id: u64 },
    GetNotifications { protocol_version: u8, request_id: u64 },
    /// A snapshot-issued opaque handle; raw bus names are never accepted.
    SendMediaControl {
        protocol_version: u8,
        request_id: u64,
        player_handle: String,
        verb: MediaControlVerb,
    },
}

#[derive(Debug, Clone, PartialEq, Eq)]
pub enum Response {
    Welcome { protocol_version: u8, server_name: String, server_version: String },
    Pong { protocol_version: u8, request_id: u64 },
    Applications {
        protocol_version: u8,
        request_id: u64,
        applications: Vec<Application>,
        next_offset: Option<u32>,
        total: u32,
    },
    Error { protocol_version: u8, code: String, message: String, retryable: bool },
    LaunchAccepted { protocol_version: u8, request_id: u64, desktop_id: String, process_id: u32 },
    LaunchRejected {
        protocol_version: u8,
        request_id: u64,
        desktop_id: String,
        code: String,
        message: String,
        retryable: bool,
    },
    HyprlandCapabilities {
        protocol_version: u8,
        request_id: u64,
        capabilities: HyprlandCapabilities,
    },
    WorkspaceSnapshot { protocol_version: u8, request_id: u64, snapshot: WorkspaceSnapshot },
    WorkspaceSnapshotRejected {
        protocol_version: u8,
        request_id: u64,
        code: WorkspaceSnapshotError,
        retryable: bool,
    },
    SwitchAccepted { protocol_version: u8, request_id: u64, workspace_handle: String },
    SwitchRejected {
        protocol_version: u8,
        request_id: u64,
        workspace_handle: String,
        code: WorkspaceSwitchError,
    },
    FocusAccepted { protocol_version: u8, request_id: u64, window_handle: String },
    FocusRejected {
        protocol_version: u8,
        request_id: u64,
        window_handle: String,
        code: WindowFocusError,
    },
    TelemetrySnapshot { protocol_version: u8, request_id: u64, snapshot: TelemetrySnapshot },
    TelemetrySnapshotRejected {
        protocol_version: u8,
        request_id: u64,
        code: TelemetrySnapshotError,
        retryable: bool,
    },
    MediaSnapshot { protocol_version: u8, request_id: u64, snapshot: MediaSnapshot },
    MediaSnapshotRejected {
        protocol_version: u8,
        request_id: u64,
        code: MediaSnapshotError,
        retryable: bool,
    },
    Notifications { protocol_version: u8, request_id: u64, feed: NotificationFeed },
    NotificationsRejected {
        protocol_version: u8,
        request_id: u64,
        code: NotificationsError,
        retryable: bool,
    },
    MediaControlAccepted { protocol_version: u8, request_id: u64, player_handle: String },
    MediaControlRejected {
        protocol_version: u8,
        request_id: u64,
        player_handle: String,
        code: MediaControlError,
    },
}

#[derive(Debug, Clone, Copy, PartialEq, Eq, Structural)]
pub enum TelemetrySnapshotError {
    Disabled,
    SnapshotNotReady,
    SamplerUnavailable,
}

#[derive(Debug, Clone, Copy, PartialEq, Eq, Structural)]
pub enum WorkspaceSnapshotError {
    HyprlandUnavailable,
    HyprlandIncompatible,
    SnapshotNotReady,
}

#[derive(Debug, Clone, Copy, PartialEq, Eq, Structural)]
pub enum WorkspaceSwitchError {
    HyprlandUnavailable,
    HyprlandIncompatible,
    InvalidWorkspaceHandle,
    UnknownWorkspaceHandle,
    UnsupportedWorkspace,
    SwitchFailed,
}

#[derive(Debug, Clone, Copy, PartialEq, Eq, Structural)]
pub enum WindowFocusError {
    HyprlandUnavailable,
    HyprlandIncompatible,
    UnknownWindowHandle,
    FocusFailed,
}

#[derive(Debug, Clone, Copy, PartialEq, Eq, Structural)]
pub enum MediaSnapshotError {
    MediaUnavailable,
    SnapshotNotReady,
}

#[derive(Debug, Clone, Copy, PartialEq, Eq, Structural)]
pub enum MediaControlError {
    MediaUnavailable,
    UnknownPlayer,
    StaleHandle,
    ControlUnavailable,
    ControlFailed,
}

#[derive(Debug, Clone, Copy, PartialEq, Eq, Structural)]
pub enum NotificationsError {
    NotificationsUnavailable,
    MonitorRestricted,
    FeedNotReady,
}

impl Request {
    /// The protocol version carried by every request variant.
    pub open spec fn version_field(&self) -> u8 {
        match self {
            Request::Hello { protocol_version, .. } => *protocol_version,
            Request::Ping { protocol_version, .. } => *protocol_version,
            Request::ListApplications { protocol_version, .. } => *protocol_version,
            Request::LaunchApplication { protocol_version, .. } => *protocol_version,
            Request::GetHyprlandCapabilities { protocol_version, .. } => *protocol_version,
            Request::GetWorkspaceSnapshot { protocol_version, .. } => *protocol_version,
            Request::SwitchWorkspace { protocol_version, .. } => *protocol_version,
            Request::FocusWindow { protocol_version, .. } => *protocol_version,
            Request::GetTelemetrySnapshot { protocol_version, .. } => *protocol_version,
            Request::GetMediaSnapshot { protocol_version, .. } => *protocol_version,
            Request::GetNotifications { protocol_version, .. } => *protocol_version,
            Request::SendMediaControl { protocol_version, .. } => *protocol_version,
        }
    }

    pub fn protocol_version(&self) -> (v: u8)
        ensures
            v == self.version_field(),
    {
        match self {
            Request::Hello { protocol_version, .. }
            | Request::Ping { protocol_version, .. }
            | Request::ListApplications { protocol_version, .. }
            | Request::LaunchApplication { protocol_version, .. }
            | Request::GetHyprlandCapabilities { protocol_version, .. }
            | Request::GetWorkspaceSnapshot { protocol_version, .. }
            | Request::SwitchWorkspace { protocol_version, .. }
            | Request::FocusWindow { protocol_version, .. }
            | Request::GetTelemetrySnapshot { protocol_version, .. }
            | Request::GetMediaSnapshot { protocol_version, .. }
            | Request::GetNotifications { protocol_version, .. }
            | Request::SendMediaControl { protocol_version, .. } => *protocol_version,
        }
    }
}

/// `r` is an error of the current protocol version with this code, message
/// and retry hint.
pub open spec fn error_response(r: Response, code: Seq<char>, message: Seq<char>, retryable: bool) -> bool {
    r matches Response::Error { protocol_version: v, code: c, message: m, retryable: t } && v
        == PROTOCOL_VERSION && c@ == code && m@ == message && t == retryable
}

/// Every field of an application, by its view.
pub open spec fn app_view(a: Application) -> (
    Seq<char>,
    Seq<char>,
    Seq<char>,
    Option<Seq<char>>,
    Seq<Seq<char>>,
    bool,
) {
    (a.id@, a.name@, a.exec_line@, opt_view(a.icon), string_views(a.categories@), a.terminal)
}

pub open spec fn app_views(s: Seq<Application>) -> Seq<
    (Seq<char>, Seq<char>, Seq<char>, Option<Seq<char>>, Seq<Seq<char>>, bool),
> {
    s.map_values(|a: Application| app_view(a))
}

pub fn clone_strings(v: &Vec<String>) -> (r: Vec<String>)
    ensures
        string_views(r@) == string_views(v@),
{
    let mut r: Vec<String> = Vec::new();
    let mut i: usize = 0;
    while i < v.len()
        invariant
            i <= v@.len(),
            string_views(r@) == string_views(v@).take(i as int),
        decreases v@.len() - i,
    {
        let ghost before = string_views(r@);
        r.push(clone_string(&v[i]));
        assert(string_views(r@) =~= before.push(v@[i as int]@));
        assert(string_views(v@).take(i + 1) =~= string_views(v@).take(i as int).push(v@[i as int]@));
        i = i + 1;
    }
    assert(string_views(v@).take(i as int) =~= string_views(v@));
    r
}

/// A copy of an application with every field equal.
pub fn clone_application(a: &Application) -> (r: Application)
    ensures
        app_view(r) == app_view(*a),
{
    Application {
        id: clone_string(&a.id),
        name: clone_string(&a.name),
        exec_line: clone_string(&a.exec_line),
        icon: clone_opt_string(&a.icon),
        categories: clone_strings(&a.categories),
        terminal: a.terminal,
    }
}

impl Response {
    /// An error response of the current protocol version.
    pub fn error(code: &str, message: &str, retryable: bool) -> (r: Self)
        ensures
            error_response(r, code@, message@, retryable),
    {
        Response::Error {
            protocol_version: PROTOCOL_VERSION,
            code: code.to_owned(),
            message: message.to_owned(),
            retryable,
        }
    }
}

#[derive(Debug, Clone, Copy, PartialEq, Eq, Structural)]
pub enum SocketPathError {
    MissingRuntimeIdentity,
    InvalidUid,
}

/// `Path::join` of the socket file name onto a directory.
pub open spec fn joined_socket_path(dir: Seq<char>) -> Seq<char> {
    if dir.len() > 0 && dir.last() != '/' {
        dir + seq!['/'] + "velora.sock"@
    } else {
        dir + "velora.sock"@
    }
}

/// The Core socket location: an explicit override wins, then the runtime
/// directory, then a per-UID path under `/tmp`.
pub open spec fn socket_path_spec(
    velora_socket: Option<Seq<char>>,
    runtime_dir: Option<Seq<char>>,
    uid: Option<Seq<char>>,
) -> Result<Seq<char>, SocketPathError> {
    match (velora_socket, runtime_dir, uid) {
        (Some(path), _, _) => Ok(path),
        (None, Some(dir), _) => Ok(joined_socket_path(dir)),
        (None, None, None) => Err(SocketPathError::MissingRuntimeIdentity),
        (None, None, Some(text)) => match parse_unsigned_spec(text, 0xffff_ffff) {
            Some(n) => Ok("/tmp/velora-"@ + decimal_chars(n) + ".sock"@),
            None => Err(SocketPathError::InvalidUid),
        },
    }
}

pub open spec fn opt_str_view(s: Option<&str>) -> Option<Seq<char>> {
    match s {
        Some(v) => Some(v@),
        None => None,
    }
}

/// Resolves the socket path from the values of `VELORA_SOCKET`,
/// `XDG_RUNTIME_DIR` and `UID`.
pub fn socket_path_from(velora_socket: Option<&str>, runtime_dir: Option<&str>, uid: Option<&str>) -> (r: Result<String, SocketPathError>)
    ensures
        match r {
            Ok(path) => socket_path_spec(opt_str_view(velora_socket), opt_str_view(runtime_dir), opt_str_view(uid)) == Ok::<Seq<char>, SocketPathError>(path@),
            Err(e) => socket_path_spec(opt_str_view(velora_socket), opt_str_view(runtime_dir), opt_str_view(uid)) == Err::<Seq<char>, SocketPathError>(e),
        },
{
    if let Some(path) = velora_socket {
        return Ok(path.to_owned());
    }
    if let Some(dir) = runtime_dir {
        let mut out = chars_of(dir);
        let ghost base = out@;
        if out.len() > 0 && out[out.len() - 1] != '/' {
            out.push('/');
            assert(out@ =~= base + seq!['/']);
        }
        append_str(&mut out, "velora.sock");
        let path = string_of(out.as_slice());
        assert(path@ == joined_socket_path(dir@));
        return Ok(path);
    }
    let Some(text) = uid else {
        return Err(SocketPathError::MissingRuntimeIdentity);
    };
    let chars = chars_of(text);
    match parse_unsigned(chars.as_slice(), 0xffff_ffff) {
        Some(n) => {
            let mut out: Vec<char> = Vec::new();
            append_str(&mut out, "/tmp/velora-");
            let digits = decimal_of(n);
            append_chars(&mut out, digits.as_slice());
            append_str(&mut out, ".sock");
            assert(out@ =~= "/tmp/velora-"@ + decimal_chars(n as nat) + ".sock"@);
            Ok(string_of(out.as_slice()))
        },
        None => Err(SocketPathError::InvalidUid),
    }
}

} // verus!
