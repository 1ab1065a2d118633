//! The notification observer's decisions and its bounded, memory-only feed:
//! which bus messages are `Notify` calls and what they say, how an urgency
//! hint maps to a level, how a monitor failure degrades availability, and
//! how the feed issues handles, bounds strings and drops the oldest entries.
//! Connecting, becoming a monitor, receiving messages, reading the clock and
//! measuring an encoding are the caller's.
use std::sync::Arc;
use vstd::prelude::*;

use crate::dbus::{NotificationAvailability, ACCESS_DENIED_ERROR};
use crate::mpris::bounded_text;
use crate::protocol::{
    byte_len, handle_ok, notification_handles, notification_problem, Notification,
    NotificationFeed, NotificationUrgency, MAX_NOTIFICATIONS, MAX_NOTIFICATION_PAYLOAD_BYTES,
    MAX_STRING_BYTES,
};
use crate::text::{decimal_chars, decimal_value, eq_str, chars_of};

verus! {

pub const NOTIFICATIONS_INTERFACE: &'static str = "org.freedesktop.Notifications";
pub const NOTIFY_MEMBER: &'static str = "Notify";
pub const HANDLE_PREFIX: &'static str = "notification:";

/// One normalized observation of a `Notify` call: the application name,
/// summary and body, and the urgency level. Nothing else of the call
/// (replaced id, icon, actions, timeout, the daemon's id) is kept.
#[derive(Debug, Clone, PartialEq, Eq)]
pub struct NotifyObservation {
    pub app_name: String,
    pub summary: String,
    pub body: String,
    pub urgency: NotificationUrgency,
}

/// The kind of a bus message.
#[derive(Debug, Clone, Copy, PartialEq, Eq, Structural)]
pub enum MessageKind {
    MethodCall,
    MethodReturn,
    Error,
    Signal,
}

/// The positional `Notify` arguments the feed reads, and the `urgency`
/// hint: absent, a byte, or present with another type.
#[derive(Debug, Clone)]
pub struct NotifyArguments {
    pub app_name: String,
    pub summary: String,
    pub body: String,
    pub urgency_hint: Option<Option<u8>>,
}

/// A monitored bus message as the observer reads it: kind, member,
/// interface, and the body decoded as `Notify` arguments or the decoding
/// error's text.
#[derive(Debug)]
pub struct BusMessage {
    pub kind: MessageKind,
    pub member: Option<String>,
    pub interface: Option<String>,
    pub body: Result<NotifyArguments, String>,
}

/// A `Notify` call whose content cannot be used; it is dropped.
#[derive(Debug, Clone, PartialEq, Eq)]
pub enum NotifyParseError {
    MalformedBody(String),
    MalformedUrgency,
}

impl NotifyParseError {
    pub fn message(&self) -> (m: String)
        ensures
            m@ == (match *self {
            NotifyParseError::MalformedBody(reason) => "notification body could not be decoded: "@ + reason@,
            NotifyParseError::MalformedUrgency => "notification urgency hint is malformed"@,
        }),
    {
        match self {
            NotifyParseError::MalformedBody(reason) => crate::text::concat(
                "notification body could not be decoded: ",
                reason.as_str(),
            ),
            NotifyParseError::MalformedUrgency => "notification urgency hint is malformed".to_owned(),
        }
    }
}

/// The level of an `urgency` hint: normal when absent; the bytes 0, 1 and
/// 2 are low, normal and critical; anything else is malformed.
pub open spec fn urgency_of(hint: Option<Option<u8>>) -> Result<NotificationUrgency, NotifyParseError> {
    match hint {
        None => Ok(NotificationUrgency::Normal),
        Some(Some(0u8)) => Ok(NotificationUrgency::Low),
        Some(Some(1u8)) => Ok(NotificationUrgency::Normal),
        Some(Some(2u8)) => Ok(NotificationUrgency::Critical),
        _ => Err(NotifyParseError::MalformedUrgency),
    }
}

pub fn urgency_from_hint(hint: Option<Option<u8>>) -> (r: Result<NotificationUrgency, NotifyParseError>)
    ensures
        r == urgency_of(hint),
{
    match hint {
        None => Ok(NotificationUrgency::Normal),
        Some(Some(0u8)) => Ok(NotificationUrgency::Low),
        Some(Some(1u8)) => Ok(NotificationUrgency::Normal),
        Some(Some(2u8)) => Ok(NotificationUrgency::Critical),
        _ => Err(NotifyParseError::MalformedUrgency),
    }
}

pub open spec fn opt_is(s: Option<String>, lit: Seq<char>) -> bool {
    s matches Some(v) && v@ == lit
}

/// Whether a message is a `Notify` method call on the Notifications
/// interface.
pub open spec fn is_notify_call(m: BusMessage) -> bool {
    m.kind == MessageKind::MethodCall && opt_is(m.member, NOTIFY_MEMBER@) && opt_is(
        m.interface,
        NOTIFICATIONS_INTERFACE@,
    )
}

fn opt_is_exec(s: &Option<String>, lit: &str) -> (b: bool)
    ensures
        b == opt_is(*s, lit@),
{
    match s {
        Some(v) => eq_str(chars_of(v.as_str()).as_slice(), lit),
        None => false,
    }
}

/// The observation a message carries: `None` for anything but a `Notify`
/// call; for a `Notify` call, its arguments, or the failure to decode its
/// body or urgency.
pub fn parse_notify(message: &BusMessage) -> (r: Result<Option<NotifyObservation>, NotifyParseError>)
    ensures
        !is_notify_call(*message) ==> r == Ok::<Option<NotifyObservation>, NotifyParseError>(None),
        is_notify_call(*message) ==> match message.body {
            Err(reason) => r == Err::<Option<NotifyObservation>, _>(NotifyParseError::MalformedBody(reason)),
            Ok(args) => match urgency_of(args.urgency_hint) {
                Err(e) => r == Err::<Option<NotifyObservation>, _>(e),
                Ok(u) => r matches Ok(Some(o)) && o.app_name@ == args.app_name@ && o.summary@
                    == args.summary@ && o.body@ == args.body@ && o.urgency == u,
            },
        },
{
    if message.kind != MessageKind::MethodCall {
        return Ok(None);
    }
    if !opt_is_exec(&message.member, NOTIFY_MEMBER) {
        return Ok(None);
    }
    if !opt_is_exec(&message.interface, NOTIFICATIONS_INTERFACE) {
        return Ok(None);
    }
    match &message.body {
        Err(reason) => Err(NotifyParseError::MalformedBody(reason.clone())),
        Ok(args) => {
            let urgency = match urgency_from_hint(args.urgency_hint) {
                Ok(u) => u,
                Err(e) => return Err(e),
            };
            Ok(
                Some(
                    NotifyObservation {
                        app_name: args.app_name.clone(),
                        summary: args.summary.clone(),
                        body: args.body.clone(),
                        urgency,
                    },
                ),
            )
        },
    }
}

/// Why the monitor could not be set up.
#[derive(Debug, Clone, PartialEq, Eq)]
pub enum MonitorError {
    InvalidAddress,
    Connect(String),
    Call(String),
    AccessDenied,
    TimedOut,
}

impl MonitorError {
    pub fn message(&self) -> (m: String)
        ensures
            m@ == (match *self {
            MonitorError::InvalidAddress => "session bus address override is not valid UTF-8"@,
            MonitorError::Connect(reason) => "failed to connect to the session bus: "@ + reason@,
            MonitorError::Call(reason) => "monitoring call failed: "@ + reason@,
            MonitorError::AccessDenied => "monitoring was denied by the bus"@,
            MonitorError::TimedOut => "notification monitor setup timed out"@,
        }),
    {
        match self {
            MonitorError::InvalidAddress => "session bus address override is not valid UTF-8".to_owned(),
            MonitorError::Connect(reason) => crate::text::concat(
                "failed to connect to the session bus: ",
                reason.as_str(),
            ),
            MonitorError::Call(reason) => crate::text::concat("monitoring call failed: ", reason.as_str()),
            MonitorError::AccessDenied => "monitoring was denied by the bus".to_owned(),
            MonitorError::TimedOut => "notification monitor setup timed out".to_owned(),
        }
    }
}

/// A failed `BecomeMonitor` call: a denial when the bus answered with the
/// standard access-denied error name, otherwise a call failure.
pub fn monitor_call_error(error_name: Option<&str>, message: String) -> (e: MonitorError)
    ensures
        match error_name {
            Some(n) => if n@ == ACCESS_DENIED_ERROR@ {
                e is AccessDenied
            } else {
                e == MonitorError::Call(message)
            },
            None => e == MonitorError::Call(message),
        },
{
    match error_name {
        Some(n) => if eq_str(chars_of(n).as_slice(), ACCESS_DENIED_ERROR) {
            MonitorError::AccessDenied
        } else {
            MonitorError::Call(message)
        },
        None => MonitorError::Call(message),
    }
}

/// A denied monitor is restricted (and not retried); any other failure
/// leaves notifications unavailable.
pub fn monitor_error_availability(error: &MonitorError) -> (a: NotificationAvailability)
    ensures
        a == (if *error is AccessDenied {
            NotificationAvailability::Restricted
        } else {
            NotificationAvailability::Unavailable
        }),
{
    match error {
        MonitorError::AccessDenied => NotificationAvailability::Restricted,
        _ => NotificationAvailability::Unavailable,
    }
}

/// The text trimmed and cut to at most `max_bytes` UTF-8 bytes, at a
/// character boundary.
pub fn bounded_string(value: &str, max_bytes: usize) -> (r: String)
    ensures
        r@ == crate::text::prefix_within(crate::text::trim(value@), max_bytes as nat),
        crate::text::utf8_len(r@) <= max_bytes,
{
    let r = crate::text::byte_bounded(value, max_bytes);
    proof {
        crate::text::lemma_prefix_within(crate::text::trim(value@), max_bytes as nat);
    }
    r
}

/// The handle issued for the `n`-th observed notification.
pub open spec fn handle_text(n: nat) -> Seq<char> {
    HANDLE_PREFIX@ + decimal_chars(n)
}

/// The number a handle was issued for.
pub open spec fn handle_number(h: Seq<char>) -> nat {
    decimal_value(h.skip(13))
}

pub type NotificationView = (Seq<char>, Seq<char>, Seq<char>, Seq<char>, NotificationUrgency, u64);

pub open spec fn notification_view(n: Notification) -> NotificationView {
    (n.handle@, n.app_name@, n.summary@, n.body@, n.urgency, n.timestamp_unix_ms)
}

pub open spec fn notification_views(ns: Seq<Notification>) -> Seq<NotificationView> {
    ns.map_values(|n: Notification| notification_view(n))
}

/// Some measurement of a feed with this sequence and these entries came out
/// over the payload budget.
pub open spec fn feed_oversize_seen<F: Fn(&NotificationFeed) -> usize>(size: F, sequence: u64, ns: Seq<NotificationView>) -> bool {
    exists|c: NotificationFeed, n: usize|
        #![trigger size.ensures((&c,), n)]
        c.sequence == sequence && notification_views(c.notifications@) == ns && size.ensures((&c,), n)
            && n > MAX_NOTIFICATION_PAYLOAD_BYTES
}

/// Some measurement of a feed with this sequence and these entries fit the
/// payload budget.
pub open spec fn feed_fit_seen<F: Fn(&NotificationFeed) -> usize>(size: F, sequence: u64, ns: Seq<NotificationView>) -> bool {
    exists|c: NotificationFeed, n: usize|
        #![trigger size.ensures((&c,), n)]
        c.sequence == sequence && notification_views(c.notifications@) == ns && size.ensures((&c,), n)
            && n <= MAX_NOTIFICATION_PAYLOAD_BYTES
}

/// Dropping the `k` oldest of `all` is what the bounds ask: each longer
/// suffix had too many entries or was measured over the budget, and the
/// kept one (unless nothing is kept) has few enough and was measured within.
pub open spec fn drop_oldest_ok<F: Fn(&NotificationFeed) -> usize>(size: F, sequence: u64, all: Seq<NotificationView>, k: int) -> bool {
    &&& 0 <= k <= all.len()
    &&& forall|j: int|
        0 <= j < k ==> all.len() - j > MAX_NOTIFICATIONS || feed_oversize_seen(
            size,
            sequence,
            #[trigger] all.skip(j),
        )
    &&& k < all.len() ==> all.len() - k <= MAX_NOTIFICATIONS && feed_fit_seen(size, sequence, all.skip(k))
}

/// The feed state: its sequence, the next handle number, the entries
/// (oldest first), the monitor's availability, and the feed last published.
pub struct NotificationState {
    pub sequence: u64,
    pub next_handle: u64,
    pub notifications: Vec<Notification>,
    pub availability: NotificationAvailability,
    pub published: Option<Arc<NotificationFeed>>,
}

pub open spec fn feed_view(f: Option<Arc<NotificationFeed>>) -> Option<(u64, Seq<NotificationView>)> {
    match f {
        Some(a) => Some((a.sequence, notification_views(a.notifications@))),
        None => None,
    }
}

impl NotificationState {
    /// The state's invariant: few enough entries, every string bounded,
    /// handles issued in increasing order below `next_handle`, and the
    /// published feed showing exactly the entries.
    pub open spec fn inv(&self) -> bool {
        let ns = self.notifications@;
        &&& ns.len() <= MAX_NOTIFICATIONS
        &&& forall|i: int| 0 <= i < ns.len() ==> (#[trigger] ns[i]).strings_fit()
        &&& forall|i: int|
            0 <= i < ns.len() ==> (#[trigger] ns[i]).handle@ == handle_text(handle_number(ns[i].handle@))
                && handle_number(ns[i].handle@) < self.next_handle
        &&& forall|i: int, j: int|
            0 <= i < j < ns.len() ==> handle_number((#[trigger] ns[i]).handle@) < handle_number(
                (#[trigger] ns[j]).handle@,
            )
        &&& self.next_handle >= 1
        &&& match feed_view(self.published) {
            Some((s, v)) => s == self.sequence && v == notification_views(ns),
            None => self.sequence == 0 && ns.len() == 0,
        }
    }

    pub fn new() -> (s: Self)
        ensures
            s.inv(),
            s.sequence == 0,
            s.next_handle == 1,
            s.notifications@.len() == 0,
            s.availability == NotificationAvailability::Unavailable,
            s.published is None,
    {
        NotificationState {
            sequence: 0,
            next_handle: 1,
            notifications: Vec::new(),
            availability: NotificationAvailability::Unavailable,
            published: None,
        }
    }

    /// The feed last published, or `None` before the first observation.
    pub fn current(&self) -> (r: Option<Arc<NotificationFeed>>)
        ensures
            feed_view(r) == feed_view(self.published),
    {
        match &self.published {
            Some(f) => Some(crate::telemetry::runtime::share(f)),
            None => None,
        }
    }

    pub fn availability(&self) -> (a: NotificationAvailability)
        ensures
            a == self.availability,
    {
        self.availability
    }

    pub fn set_availability(&mut self, availability: NotificationAvailability)
        ensures
            final(self).availability == availability,
            final(self).sequence == old(self).sequence,
            final(self).next_handle == old(self).next_handle,
            final(self).notifications == old(self).notifications,
            final(self).published == old(self).published,
    {
        self.availability = availability;
    }

    /// Inserts one observed notification at `timestamp_unix_ms`: it gets
    /// the next feed-issued handle and its strings are trimmed and bounded;
    /// then the oldest entries are dropped until at most `MAX_NOTIFICATIONS`
    /// remain and `size`, which measures a feed's encoding, fits
    /// `MAX_NOTIFICATION_PAYLOAD_BYTES`. The new feed is published.
    pub fn observe<F: Fn(&NotificationFeed) -> usize>(&mut self, observation: NotifyObservation, timestamp_unix_ms: u64, size: F)
        requires
            old(self).inv(),
            old(self).sequence < u64::MAX,
            old(self).next_handle < u64::MAX,
            forall|c: &NotificationFeed| size.requires((c,)),
        ensures
            final(self).inv(),
            final(self).sequence == old(self).sequence + 1,
            final(self).next_handle == old(self).next_handle + 1,
            final(self).availability == old(self).availability,
            feed_view(final(self).published) == Some((final(self).sequence, notification_views(final(self).notifications@))),
            ({
                let fresh: NotificationView = (
                    handle_text(old(self).next_handle as nat),
                    bounded_text(observation.app_name@),
                    bounded_text(observation.summary@),
                    bounded_text(observation.body@),
                    observation.urgency,
                    timestamp_unix_ms,
                );
                let all = notification_views(old(self).notifications@).push(fresh);
                exists|k: int|
                    drop_oldest_ok(size, final(self).sequence, all, k) && notification_views(
                        final(self).notifications@,
                    ) == all.skip(k)
            }),
    {
        proof {
            crate::text::lemma_decimal_round_trip(self.next_handle as nat);
        }
        let ghost old_state = *self;
        let sequence = self.sequence + 1;
        let number = self.next_handle;
        let mut handle_chars = chars_of(HANDLE_PREFIX);
        let digits = crate::text::decimal_of(number);
        crate::text::append_chars(&mut handle_chars, digits.as_slice());
        let handle = crate::text::string_of(handle_chars.as_slice());
        proof {
            reveal_strlit("notification:");
            assert(handle@ == handle_text(number as nat));
            assert(handle@.skip(13) =~= decimal_chars(number as nat));
        }
        let app_name = bounded_string(observation.app_name.as_str(), MAX_STRING_BYTES);
        let summary = bounded_string(observation.summary.as_str(), MAX_STRING_BYTES);
        let body = bounded_string(observation.body.as_str(), MAX_STRING_BYTES);
        proof {
            crate::text::lemma_utf8_len_encode(app_name@);
            crate::text::lemma_utf8_len_encode(summary@);
            crate::text::lemma_utf8_len_encode(body@);
        }
        let fresh = Notification {
            handle,
            app_name,
            summary,
            body,
            urgency: observation.urgency,
            timestamp_unix_ms,
        };
        let ghost fresh_view = notification_view(fresh);
        let mut list = clone_notifications(&self.notifications);
        list.push(fresh);
        let ghost all = notification_views(old_state.notifications@).push(fresh_view);
        assert(notification_views(list@) =~= all);
        let ghost mut k: int = 0;
        loop
            invariant
                0 <= k <= all.len(),
                all.len() <= MAX_NOTIFICATIONS + 1,
                notification_views(list@) == all.skip(k),
                forall|j: int|
                    0 <= j < k ==> all.len() - j > MAX_NOTIFICATIONS || feed_oversize_seen(
                        size,
                        sequence,
                        #[trigger] all.skip(j),
                    ),
                forall|c: &NotificationFeed| size.requires((c,)),
            ensures
                drop_oldest_ok(size, sequence, all, k),
                notification_views(list@) == all.skip(k),
            decreases all.len() - k,
        {
            assert(notification_views(list@).len() == list@.len());
            assert(list@.len() == all.len() - k);
            if list.len() == 0 {
                break;
            }
            if list.len() <= MAX_NOTIFICATIONS {
                let candidate = NotificationFeed { sequence, notifications: clone_notifications(&list) };
                let measured = size(&candidate);
                if measured <= MAX_NOTIFICATION_PAYLOAD_BYTES {
                    assert(size.ensures((&candidate,), measured));
                    assert(feed_fit_seen(size, sequence, all.skip(k)));
                    break;
                }
                assert(size.ensures((&candidate,), measured));
                assert(feed_oversize_seen(size, sequence, all.skip(k)));
            }
            list.remove(0);
            proof {
                assert(all.skip(k).drop_first() =~= all.skip(k + 1));
                k = k + 1;
            }
        }
        let feed = NotificationFeed { sequence, notifications: clone_notifications(&list) };
        self.sequence = sequence;
        self.next_handle = number + 1;
        self.notifications = list;
        self.published = Some(Arc::new(feed));
        proof {
            let ns = self.notifications@;
            let olds = old_state.notifications@;
            assert forall|i: int| 0 <= i < ns.len() implies ns[i].handle@ == handle_text(
                handle_number(ns[i].handle@),
            ) && handle_number(ns[i].handle@) < self.next_handle && (#[trigger] ns[i]).strings_fit() by {
                assert(notification_views(ns)[i] == all[i + k]);
                if i + k < olds.len() {
                    assert(notification_views(olds)[i + k] == notification_view(olds[i + k]));
                    assert(olds[i + k].strings_fit());
                }
            }
            assert forall|i: int, j: int| 0 <= i < j < ns.len() implies handle_number(
                (#[trigger] ns[i]).handle@,
            ) < handle_number((#[trigger] ns[j]).handle@) by {
                assert(notification_views(ns)[i] == all[i + k]);
                assert(notification_views(ns)[j] == all[j + k]);
                if j + k < olds.len() {
                    assert(notification_views(olds)[i + k] == notification_view(olds[i + k]));
                    assert(notification_views(olds)[j + k] == notification_view(olds[j + k]));
                } else {
                    assert(notification_views(olds)[i + k] == notification_view(olds[i + k]));
                }
            }
        }
    }
}

pub fn clone_notification(n: &Notification) -> (r: Notification)
    ensures
        notification_view(r) == notification_view(*n),
{
    Notification {
        handle: n.handle.clone(),
        app_name: n.app_name.clone(),
        summary: n.summary.clone(),
        body: n.body.clone(),
        urgency: n.urgency,
        timestamp_unix_ms: n.timestamp_unix_ms,
    }
}

pub fn clone_notifications(v: &Vec<Notification>) -> (r: Vec<Notification>)
    ensures
        notification_views(r@) == notification_views(v@),
        r@.len() == v@.len(),
        forall|i: int| 0 <= i < v@.len() ==> (#[trigger] r@[i]).strings_fit() == v@[i].strings_fit(),
{
    let mut r: Vec<Notification> = Vec::new();
    let mut i: usize = 0;
    while i < v.len()
        invariant
            i <= v@.len(),
            r@.len() == i,
            notification_views(r@) == notification_views(v@).take(i as int),
            forall|j: int| 0 <= j < i ==> (#[trigger] r@[j]).strings_fit() == v@[j].strings_fit(),
        decreases v@.len() - i,
    {
        let ghost prev = notification_views(r@);
        let c = clone_notification(&v[i]);
        r.push(c);
        assert(notification_views(r@) =~= prev.push(notification_view(c)));
        assert(notification_views(v@).take(i + 1) =~= notification_views(v@).take(i as int).push(
            notification_view(v@[i as int]),
        ));
        i = i + 1;
    }
    assert(notification_views(v@).take(i as int) =~= notification_views(v@));
    r
}


proof fn lemma_no_problem_from(fs: Seq<Notification>, i: int)
    requires
        0 <= i <= fs.len(),
        forall|j: int| 0 <= j < fs.len() ==> (#[trigger] fs[j]).strings_fit(),
        forall|j: int| 0 <= j < fs.len() ==> (#[trigger] fs[j]).handle@.len() > 0,
        forall|a: int, b: int| 0 <= a < b < fs.len() ==> (#[trigger] fs[a]).handle@ != (#[trigger] fs[b]).handle@,
    ensures
        notification_problem(fs, i) is None,
    decreases fs.len() - i,
{
    if i < fs.len() {
        lemma_no_problem_from(fs, i + 1);
        let hs = notification_handles(fs);
        assert(hs[i] == fs[i].handle@);
        assert forall|j: int| 0 <= j < i implies hs[j] != hs[i] by {
            assert(hs[j] == fs[j].handle@);
        }
        assert(handle_ok(hs, i));
    }
}

/// Every feed the state publishes passes the protocol's validation: at most
/// `MAX_NOTIFICATIONS` entries, each with a non-empty handle no other entry
/// shares and strings within `MAX_STRING_BYTES`.
pub proof fn lemma_published_feed_validates(state: NotificationState)
    requires
        state.inv(),
    ensures
        state.published matches Some(f) ==> f.validation() is Ok,
{
    if let Some(f) = state.published {
        let fs = f.notifications@;
        let ns = state.notifications@;
        assert(notification_views(fs) == notification_views(ns));
        assert(fs.len() == notification_views(fs).len());
        assert forall|j: int| 0 <= j < fs.len() implies (#[trigger] fs[j]).strings_fit() && fs[j].handle@.len() > 0 by {
            assert(notification_views(fs)[j] == notification_views(ns)[j]);
            assert(ns[j].strings_fit());
            reveal_strlit("notification:");
            assert(ns[j].handle@ == handle_text(handle_number(ns[j].handle@)));
        }
        assert forall|a: int, b: int| 0 <= a < b < fs.len() implies (#[trigger] fs[a]).handle@ != (#[trigger] fs[b]).handle@ by {
            assert(notification_views(fs)[a] == notification_views(ns)[a]);
            assert(notification_views(fs)[b] == notification_views(ns)[b]);
            assert(handle_number(ns[a].handle@) < handle_number(ns[b].handle@));
        }
        lemma_no_problem_from(fs, 0);
    }
}

} // verus!
