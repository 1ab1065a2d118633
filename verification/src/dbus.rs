//! Session-bus capability decisions: which bus names are MPRIS players, how
//! a failed call is classified, and what the probe reports. Connecting to
//! the bus and making the calls are the caller's.
use vstd::prelude::*;

use crate::hyprland::{bounded, bounded_string};
use crate::protocol::MAX_MEDIA_PLAYERS;
use crate::text::{chars_of, starts_with, starts_with_str};

verus! {

/// Maximum length of a reported MPRIS player name, in characters.
pub const MAX_MPRIS_NAME_CHARS: usize = 256;
/// Maximum length of a Notifications daemon server-information field.
pub const MAX_NOTIFICATION_FIELD_CHARS: usize = 256;
pub const MPRIS_NAME_PREFIX: &'static str = "org.mpris.MediaPlayer2.";
pub const ACCESS_DENIED_ERROR: &'static str = "org.freedesktop.DBus.Error.AccessDenied";

/// Whether the session bus is reachable.
#[derive(Debug, Clone, Copy, PartialEq, Eq, Structural)]
pub enum BusAvailability {
    Available,
    Unavailable,
}

/// Whether MPRIS media observation is possible.
#[derive(Debug, Clone, Copy, PartialEq, Eq, Structural)]
pub enum MediaAvailability {
    Available,
    Unavailable,
}

/// Whether notification observation is possible. `Restricted` means the bus
/// reached us but denied the observation attempt (monitoring access).
#[derive(Debug, Clone, Copy, PartialEq, Eq, Structural)]
pub enum NotificationAvailability {
    Available,
    Unavailable,
    Restricted,
}

/// The Notifications daemon's reported server information.
#[derive(Debug, Clone, PartialEq, Eq)]
pub struct NotificationsServerInfo {
    pub name: String,
    pub vendor: String,
    pub version: String,
    pub spec_version: String,
}

/// The result of the D-Bus capability probe.
#[derive(Debug, Clone, PartialEq, Eq)]
pub struct DbusCapabilities {
    pub bus: BusAvailability,
    pub media: MediaAvailability,
    pub notifications: NotificationAvailability,
    pub notifications_daemon: Option<NotificationsServerInfo>,
    pub mpris_players: Vec<String>,
}

impl DbusCapabilities {
    /// Nothing is reachable.
    pub fn unavailable() -> (c: Self)
        ensures
            c.bus == BusAvailability::Unavailable,
            c.media == MediaAvailability::Unavailable,
            c.notifications == NotificationAvailability::Unavailable,
            c.notifications_daemon is None,
            c.mpris_players@.len() == 0,
    {
        Self {
            bus: BusAvailability::Unavailable,
            media: MediaAvailability::Unavailable,
            notifications: NotificationAvailability::Unavailable,
            notifications_daemon: None,
            mpris_players: Vec::new(),
        }
    }
}

/// Typed failure of the read-only session-bus probe; the messages of the
/// underlying bus errors are kept as text.
#[derive(Debug, Clone, PartialEq, Eq)]
pub enum DbusError {
    InvalidAddress,
    Connect(String),
    Call(String),
    AccessDenied,
}

impl DbusError {
    /// The error's text.
    pub open spec fn message_text(&self) -> Seq<char> {
        match *self {
            DbusError::InvalidAddress => "session bus address override is not valid UTF-8"@,
            DbusError::Connect(reason) => "failed to connect to the session bus: "@ + reason@,
            DbusError::Call(reason) => "D-Bus probe call failed: "@ + reason@,
            DbusError::AccessDenied => "access to notification observation was denied"@,
        }
    }

    /// The error's text.
    pub fn message(&self) -> (m: String)
        ensures
            m@ == self.message_text(),
    {
        match self {
            DbusError::InvalidAddress => "session bus address override is not valid UTF-8".to_owned(),
            DbusError::Connect(reason) => crate::text::concat(
                "failed to connect to the session bus: ",
                reason.as_str(),
            ),
            DbusError::Call(reason) => crate::text::concat("D-Bus probe call failed: ", reason.as_str()),
            DbusError::AccessDenied => "access to notification observation was denied".to_owned(),
        }
    }
}

/// A failed call is a denial when the bus answered with the standard
/// access-denied error name.
pub fn call_error(error_name: Option<&str>, message: String) -> (e: DbusError)
    ensures
        match error_name {
            Some(n) => if n@ == ACCESS_DENIED_ERROR@ {
                e is AccessDenied
            } else {
                e == DbusError::Call(message)
            },
            None => e == DbusError::Call(message),
        },
{
    match error_name {
        Some(n) => {
            let chars = chars_of(n);
            if crate::text::eq_str(chars.as_slice(), ACCESS_DENIED_ERROR) {
                DbusError::AccessDenied
            } else {
                DbusError::Call(message)
            }
        },
        None => DbusError::Call(message),
    }
}

/// A denial restricts notification observation; any other failure makes it
/// unavailable.
pub fn classify_notifications_error(error: &DbusError) -> (a: NotificationAvailability)
    ensures
        a == if *error is AccessDenied {
            NotificationAvailability::Restricted
        } else {
            NotificationAvailability::Unavailable
        },
{
    match error {
        DbusError::AccessDenied => NotificationAvailability::Restricted,
        _ => NotificationAvailability::Unavailable,
    }
}

pub open spec fn str_views(v: Seq<&str>) -> Seq<Seq<char>> {
    v.map_values(|s: &str| s@)
}

/// The MPRIS player names among `names`, trimmed and bounded, at most
/// `MAX_MEDIA_PLAYERS` of them, in order.
pub open spec fn player_names(names: Seq<Seq<char>>) -> Seq<Seq<char>>
    decreases names.len(),
{
    if names.len() == 0 {
        Seq::empty()
    } else {
        let rest = player_names(names.drop_last());
        if rest.len() < MAX_MEDIA_PLAYERS && starts_with(names.last(), MPRIS_NAME_PREFIX@) {
            rest.push(bounded(names.last(), MAX_MPRIS_NAME_CHARS as nat))
        } else {
            rest
        }
    }
}

proof fn lemma_player_names_capped(names: Seq<Seq<char>>)
    ensures
        player_names(names).len() <= MAX_MEDIA_PLAYERS,
    decreases names.len(),
{
    if names.len() > 0 {
        lemma_player_names_capped(names.drop_last());
    }
}

/// Keeps only `org.mpris.MediaPlayer2.*` well-known names, bounded and
/// trimmed.
pub fn mpris_player_names(names: &[&str]) -> (r: Vec<String>)
    ensures
        crate::protocol::string_views(r@) == player_names(str_views(names@)),
        r@.len() <= MAX_MEDIA_PLAYERS,
{
    let ghost all = str_views(names@);
    let mut out: Vec<String> = Vec::new();
    let mut i: usize = 0;
    while i < names.len()
        invariant
            i <= names@.len(),
            all == str_views(names@),
            crate::protocol::string_views(out@) == player_names(all.take(i as int)),
        decreases names@.len() - i,
    {
        proof {
            assert(all.take(i + 1).drop_last() =~= all.take(i as int));
            assert(all.take(i + 1).last() == names@[i as int]@);
            lemma_player_names_capped(all.take(i as int));
        }
        let chars = chars_of(names[i]);
        if out.len() < MAX_MEDIA_PLAYERS && starts_with_str(chars.as_slice(), MPRIS_NAME_PREFIX) {
            let ghost before = crate::protocol::string_views(out@);
            let name = bounded_string(names[i], MAX_MPRIS_NAME_CHARS);
            out.push(name);
            assert(crate::protocol::string_views(out@) =~= before.push(name@));
        }
        i = i + 1;
    }
    assert(all.take(i as int) =~= all);
    proof {
        lemma_player_names_capped(all);
    }
    out
}

/// The probe's report from its two observations, made once the bus
/// connected: the daemon's server information (raw name, vendor, version
/// and specification version) and the bus's name list.
pub fn probe_report(
    server_information: Result<(String, String, String, String), DbusError>,
    names: Result<Vec<String>, DbusError>,
) -> (c: DbusCapabilities)
    ensures
        c.bus == BusAvailability::Available,
        match server_information {
            Ok(info) => c.notifications == NotificationAvailability::Available
                && (c.notifications_daemon matches Some(d) && d.name@ == bounded(
                info.0@,
                MAX_NOTIFICATION_FIELD_CHARS as nat,
            ) && d.vendor@ == bounded(info.1@, MAX_NOTIFICATION_FIELD_CHARS as nat)
                && d.version@ == bounded(info.2@, MAX_NOTIFICATION_FIELD_CHARS as nat)
                && d.spec_version@ == bounded(info.3@, MAX_NOTIFICATION_FIELD_CHARS as nat)),
            Err(e) => c.notifications == (if e is AccessDenied {
                NotificationAvailability::Restricted
            } else {
                NotificationAvailability::Unavailable
            }) && c.notifications_daemon is None,
        },
        match names {
            Ok(all) => c.media == MediaAvailability::Available && crate::protocol::string_views(
                c.mpris_players@,
            ) == player_names(crate::protocol::string_views(all@)),
            Err(_) => c.media == MediaAvailability::Unavailable && c.mpris_players@.len() == 0,
        },
{
    let (notifications, notifications_daemon) = match server_information {
        Ok((name, vendor, version, spec_version)) => (
            NotificationAvailability::Available,
            Some(
                NotificationsServerInfo {
                    name: bounded_string(name.as_str(), MAX_NOTIFICATION_FIELD_CHARS),
                    vendor: bounded_string(vendor.as_str(), MAX_NOTIFICATION_FIELD_CHARS),
                    version: bounded_string(version.as_str(), MAX_NOTIFICATION_FIELD_CHARS),
                    spec_version: bounded_string(spec_version.as_str(), MAX_NOTIFICATION_FIELD_CHARS),
                },
            ),
        ),
        Err(error) => (classify_notifications_error(&error), None),
    };
    let (media, mpris_players) = match names {
        Ok(all) => {
            let mut refs: Vec<&str> = Vec::new();
            let mut i: usize = 0;
            while i < all.len()
                invariant
                    i <= all@.len(),
                    str_views(refs@) == crate::protocol::string_views(all@).take(i as int),
                decreases all@.len() - i,
            {
                let ghost before = str_views(refs@);
                refs.push(all[i].as_str());
                assert(str_views(refs@) =~= before.push(all@[i as int]@));
                assert(crate::protocol::string_views(all@).take(i + 1) =~= crate::protocol::string_views(all@).take(i as int).push(all@[i as int]@));
                i = i + 1;
            }
            assert(crate::protocol::string_views(all@).take(i as int) =~= crate::protocol::string_views(all@));
            (MediaAvailability::Available, mpris_player_names(refs.as_slice()))
        },
        Err(_) => (MediaAvailability::Unavailable, Vec::new()),
    };
    DbusCapabilities {
        bus: BusAvailability::Available,
        media,
        notifications,
        notifications_daemon,
        mpris_players,
    }
}

} // verus!
