//! The MPRIS listener's decisions: which bus signals mean the media state is
//! stale, and how reconnection is paced. Connecting, subscribing, receiving
//! signals, marking the dirty slot, reading the clock and sleeping are the
//! caller's.
use vstd::prelude::*;

use crate::dbus::MPRIS_NAME_PREFIX;
use crate::notifications::{opt_is, MessageKind};
use crate::protocol::byte_len;
use crate::text::{chars_of, eq_str, starts_with, starts_with_str};

verus! {

pub const DBUS_INTERFACE: &'static str = "org.freedesktop.DBus";
pub const NAME_OWNER_CHANGED_MEMBER: &'static str = "NameOwnerChanged";
pub const PROPERTIES_INTERFACE: &'static str = "org.freedesktop.DBus.Properties";
pub const PROPERTIES_CHANGED_MEMBER: &'static str = "PropertiesChanged";
/// Namespace of every MPRIS interface (`org.mpris.MediaPlayer2` and its
/// `.Player`).
pub const MPRIS_INTERFACE_NAMESPACE: &'static str = "org.mpris.MediaPlayer2";
/// Longest accepted bus or interface name, in bytes.
pub const MAX_NAME_BYTES: usize = 256;
/// Longest representable `Duration`, in nanoseconds.
pub const MAX_DURATION_NANOS: u128 = 18446744073709551615999999999u128;

/// A recognized MPRIS invalidation hint; it never carries player state.
#[derive(Debug, Clone, Copy, PartialEq, Eq, Structural)]
pub enum MprisSignal {
    /// A player appeared, disappeared or changed owners.
    PlayerChurn,
    /// A player reported changed properties.
    PlayerProperties,
}

/// A received signal as the listener reads it: kind, member, interface,
/// and the first body argument when the body decodes as a
/// `NameOwnerChanged` (name, old owner, new owner) or as a
/// `PropertiesChanged` (interface, changed, invalidated) payload.
#[derive(Debug, Clone)]
pub struct SignalMessage {
    pub kind: MessageKind,
    pub member: Option<String>,
    pub interface: Option<String>,
    pub owner_change_name: Option<String>,
    pub properties_interface: Option<String>,
}

/// A non-empty well-known name of at most `MAX_NAME_BYTES` bytes in the
/// `org.mpris.MediaPlayer2.` namespace.
pub open spec fn is_mpris_player_name(name: Seq<char>) -> bool {
    name.len() > 0 && byte_len(name) <= MAX_NAME_BYTES && starts_with(name, MPRIS_NAME_PREFIX@)
}

/// A non-empty interface name of at most `MAX_NAME_BYTES` bytes that is
/// `org.mpris.MediaPlayer2` or inside its namespace.
pub open spec fn is_mpris_interface(name: Seq<char>) -> bool {
    name.len() > 0 && byte_len(name) <= MAX_NAME_BYTES && (name == MPRIS_INTERFACE_NAMESPACE@
        || starts_with(name, MPRIS_NAME_PREFIX@))
}

pub fn mpris_player_name(name: &str) -> (b: bool)
    ensures
        b == is_mpris_player_name(name@),
{
    let chars = chars_of(name);
    chars.len() > 0 && name.len() <= MAX_NAME_BYTES && starts_with_str(chars.as_slice(), MPRIS_NAME_PREFIX)
}

pub fn mpris_interface(name: &str) -> (b: bool)
    ensures
        b == is_mpris_interface(name@),
{
    let chars = chars_of(name);
    chars.len() > 0 && name.len() <= MAX_NAME_BYTES && (eq_str(chars.as_slice(), MPRIS_INTERFACE_NAMESPACE)
        || starts_with_str(chars.as_slice(), MPRIS_NAME_PREFIX))
}

fn opt_is_exec(s: &Option<String>, lit: &str) -> (b: bool)
    ensures
        b == opt_is(*s, lit@),
{
    match s {
        Some(v) => eq_str(chars_of(v.as_str()).as_slice(), lit),
        None => false,
    }
}

/// Player churn: a `NameOwnerChanged` signal of the bus driver for an MPRIS
/// player name. Anything else, a malformed body included, is no hint.
pub open spec fn name_owner_hint(m: SignalMessage) -> Option<MprisSignal> {
    if m.kind == MessageKind::Signal && opt_is(m.member, NAME_OWNER_CHANGED_MEMBER@) && opt_is(
        m.interface,
        DBUS_INTERFACE@,
    ) && (m.owner_change_name matches Some(n) && is_mpris_player_name(n@)) {
        Some(MprisSignal::PlayerChurn)
    } else {
        None
    }
}

/// Changed player properties: a `PropertiesChanged` signal for an MPRIS
/// interface. Anything else, a malformed body included, is no hint.
pub open spec fn properties_hint(m: SignalMessage) -> Option<MprisSignal> {
    if m.kind == MessageKind::Signal && opt_is(m.member, PROPERTIES_CHANGED_MEMBER@) && opt_is(
        m.interface,
        PROPERTIES_INTERFACE@,
    ) && (m.properties_interface matches Some(i) && is_mpris_interface(i@)) {
        Some(MprisSignal::PlayerProperties)
    } else {
        None
    }
}

pub fn parse_name_owner_changed(message: &SignalMessage) -> (r: Option<MprisSignal>)
    ensures
        r == name_owner_hint(*message),
{
    if message.kind != MessageKind::Signal || !opt_is_exec(&message.member, NAME_OWNER_CHANGED_MEMBER)
        || !opt_is_exec(&message.interface, DBUS_INTERFACE) {
        return None;
    }
    match &message.owner_change_name {
        Some(name) => if mpris_player_name(name.as_str()) {
            Some(MprisSignal::PlayerChurn)
        } else {
            None
        },
        None => None,
    }
}

pub fn parse_properties_changed(message: &SignalMessage) -> (r: Option<MprisSignal>)
    ensures
        r == properties_hint(*message),
{
    if message.kind != MessageKind::Signal || !opt_is_exec(&message.member, PROPERTIES_CHANGED_MEMBER)
        || !opt_is_exec(&message.interface, PROPERTIES_INTERFACE) {
        return None;
    }
    match &message.properties_interface {
        Some(interface) => if mpris_interface(interface.as_str()) {
            Some(MprisSignal::PlayerProperties)
        } else {
            None
        },
        None => None,
    }
}

/// Reconnect pacing, in nanoseconds.
#[derive(Debug, Clone, Copy, PartialEq, Eq, Structural)]
pub struct ListenerConfig {
    pub initial_backoff_nanos: u128,
    pub max_backoff_nanos: u128,
}

impl ListenerConfig {
    /// Half a second at first, at most eight seconds.
    pub fn production() -> (c: Self)
        ensures
            c.initial_backoff_nanos == 500_000_000,
            c.max_backoff_nanos == 8_000_000_000,
    {
        ListenerConfig { initial_backoff_nanos: 500_000_000, max_backoff_nanos: 8_000_000_000 }
    }
}

/// Typed failure of the listener; none of them is fatal.
#[derive(Debug, Clone, PartialEq, Eq)]
pub enum ListenerError {
    InvalidAddress,
    Connect(String),
    Subscribe(String),
    TimedOut,
}

impl ListenerError {
    pub fn message(&self) -> (m: String)
        ensures
            m@ == (match *self {
            ListenerError::InvalidAddress => "session bus address override is not valid UTF-8"@,
            ListenerError::Connect(reason) => "failed to connect to the session bus: "@ + reason@,
            ListenerError::Subscribe(reason) => "MPRIS signal subscription failed: "@ + reason@,
            ListenerError::TimedOut => "MPRIS listener connection timed out"@,
        }),
    {
        match self {
            ListenerError::InvalidAddress => "session bus address override is not valid UTF-8".to_owned(),
            ListenerError::Connect(reason) => crate::text::concat(
                "failed to connect to the session bus: ",
                reason.as_str(),
            ),
            ListenerError::Subscribe(reason) => crate::text::concat(
                "MPRIS signal subscription failed: ",
                reason.as_str(),
            ),
            ListenerError::TimedOut => "MPRIS listener connection timed out".to_owned(),
        }
    }
}

/// The backoff after `backoff`: doubled, capped at `max`; `max` when the
/// doubled duration is not representable.
pub open spec fn next_backoff_spec(backoff: int, max: int) -> int {
    if 2 * backoff > MAX_DURATION_NANOS {
        max
    } else if 2 * backoff < max {
        2 * backoff
    } else {
        max
    }
}

/// Grows the reconnect backoff exponentially, capped at `max_nanos`.
pub fn next_backoff(backoff_nanos: u128, max_nanos: u128) -> (r: u128)
    requires
        backoff_nanos <= MAX_DURATION_NANOS,
        max_nanos <= MAX_DURATION_NANOS,
    ensures
        r == next_backoff_spec(backoff_nanos as int, max_nanos as int),
{
    if backoff_nanos > MAX_DURATION_NANOS / 2 {
        return max_nanos;
    }
    let doubled = backoff_nanos * 2;
    if doubled < max_nanos {
        doubled
    } else {
        max_nanos
    }
}

/// A backoff within its cap grows or stays, and stays within the cap.
pub proof fn lemma_backoff_bounded(backoff: int, max: int)
    requires
        0 <= backoff <= max <= MAX_DURATION_NANOS,
    ensures
        backoff <= next_backoff_spec(backoff, max) <= max,
{
}

/// The jitter added to half the backoff: the clock's sub-second nanoseconds
/// reduced into `[0, spread]` milliseconds.
pub fn jitter_millis(subsec_nanos: u64, spread_millis: u64) -> (r: u64)
    ensures
        r == subsec_nanos as int % (spread_millis as int + 1),
        r <= spread_millis,
{
    if spread_millis == u64::MAX {
        subsec_nanos
    } else {
        subsec_nanos % (spread_millis + 1)
    }
}

/// The delay before reconnecting after `backoff_nanos`: half the backoff plus
/// a jitter of whole milliseconds, taken from the clock's sub-second
/// nanoseconds, that never exceeds the other half.
pub open spec fn reconnect_delay_spec(backoff: int, subsec_nanos: int) -> int {
    let half = backoff / 2;
    let spread = ((half / 1_000_000) as u64) as int;
    half + (subsec_nanos % (spread + 1)) * 1_000_000
}

/// Half the backoff plus jitter: at least half the backoff, at most all of
/// it, and never zero for a backoff of two nanoseconds or more.
pub fn reconnect_delay(backoff_nanos: u128, subsec_nanos: u32) -> (r: u128)
    requires
        backoff_nanos <= MAX_DURATION_NANOS,
    ensures
        r == reconnect_delay_spec(backoff_nanos as int, subsec_nanos as int),
        backoff_nanos / 2 <= r <= backoff_nanos,
        backoff_nanos >= 2 ==> r > 0,
{
    let half: u128 = backoff_nanos / 2;
    let half_millis: u128 = half / 1_000_000;
    let spread: u64 = half_millis as u64;
    assert(spread as u128 <= half_millis) by (bit_vector)
        requires
            spread == half_millis as u64,
    ;
    let jitter: u64 = jitter_millis(subsec_nanos as u64, spread);
    assert(jitter as u128 * 1_000_000 <= half) by (nonlinear_arith)
        requires
            jitter <= spread,
            spread as u128 <= half_millis,
            half_millis == half / 1_000_000,
    ;
    half + jitter as u128 * 1_000_000
}

} // verus!
