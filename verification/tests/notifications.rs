use serde_json::Value;
use velora::dbus::NotificationAvailability;
use velora::notifications::{
    bounded_string, monitor_call_error, monitor_error_availability, parse_notify,
    urgency_from_hint, BusMessage, MessageKind, MonitorError, NotificationState,
    NotifyArguments, NotifyObservation, NotifyParseError, NOTIFICATIONS_INTERFACE,
    NOTIFY_MEMBER,
};
use velora::protocol::{
    NotificationFeed, NotificationUrgency, MAX_NOTIFICATIONS, MAX_NOTIFICATION_PAYLOAD_BYTES,
    MAX_STRING_BYTES,
};

fn urgency_text(urgency: NotificationUrgency) -> &'static str {
    match urgency {
        NotificationUrgency::Low => "low",
        NotificationUrgency::Normal => "normal",
        NotificationUrgency::Critical => "critical",
    }
}

/// The length of the feed's JSON encoding (field order does not change the
/// length).
fn encoded_feed_len(feed: &NotificationFeed) -> usize {
    let entries: Vec<Value> = feed
        .notifications
        .iter()
        .map(|n| {
            let mut map = serde_json::Map::new();
            map.insert("handle".to_owned(), Value::from(n.handle.clone()));
            map.insert("app_name".to_owned(), Value::from(n.app_name.clone()));
            map.insert("summary".to_owned(), Value::from(n.summary.clone()));
            map.insert("body".to_owned(), Value::from(n.body.clone()));
            map.insert("urgency".to_owned(), Value::from(urgency_text(n.urgency)));
            map.insert("timestamp_unix_ms".to_owned(), Value::from(n.timestamp_unix_ms));
            Value::Object(map)
        })
        .collect();
    let mut map = serde_json::Map::new();
    map.insert("sequence".to_owned(), Value::from(feed.sequence));
    map.insert("notifications".to_owned(), Value::Array(entries));
    serde_json::to_vec(&Value::Object(map)).unwrap().len()
}

fn observation(app_name: &str) -> NotifyObservation {
    NotifyObservation {
        app_name: app_name.to_owned(),
        summary: "Summary".to_owned(),
        body: "Body".to_owned(),
        urgency: NotificationUrgency::Normal,
    }
}

fn observe(store: &mut NotificationState, observation: NotifyObservation, timestamp: u64) {
    store.observe(observation, timestamp, encoded_feed_len);
}

fn notify_message(app_name: &str, summary: &str, body: &str, urgency: Option<u8>) -> BusMessage {
    BusMessage {
        kind: MessageKind::MethodCall,
        member: Some(NOTIFY_MEMBER.to_owned()),
        interface: Some(NOTIFICATIONS_INTERFACE.to_owned()),
        body: Ok(NotifyArguments {
            app_name: app_name.to_owned(),
            summary: summary.to_owned(),
            body: body.to_owned(),
            urgency_hint: urgency.map(Some),
        }),
    }
}

#[test]
fn feed_is_bounded_with_drop_oldest() {
    let mut store = NotificationState::new();
    for index in 0..(MAX_NOTIFICATIONS + 5) {
        observe(&mut store, observation(&format!("app-{index}")), index as u64);
    }

    let feed = store.current().unwrap();
    assert!(feed.notifications.len() <= MAX_NOTIFICATIONS);
    assert_ne!(feed.notifications[0].app_name, "app-0");
    assert_eq!(
        feed.notifications.last().unwrap().app_name,
        format!("app-{}", MAX_NOTIFICATIONS + 4)
    );
    assert!(encoded_feed_len(&feed) <= MAX_NOTIFICATION_PAYLOAD_BYTES);
    feed.validate().unwrap();
}

#[test]
fn payload_budget_drops_oldest_full_width_notifications() {
    let mut store = NotificationState::new();
    for index in 0..MAX_NOTIFICATIONS {
        observe(
            &mut store,
            NotifyObservation {
                app_name: format!("app-{index}"),
                summary: "s".repeat(MAX_STRING_BYTES),
                body: "b".repeat(MAX_STRING_BYTES),
                urgency: NotificationUrgency::Normal,
            },
            index as u64,
        );
    }

    let feed = store.current().unwrap();
    assert!(feed.notifications.len() < MAX_NOTIFICATIONS);
    assert!(encoded_feed_len(&feed) <= MAX_NOTIFICATION_PAYLOAD_BYTES);
    assert_eq!(
        feed.notifications.last().unwrap().app_name,
        format!("app-{}", MAX_NOTIFICATIONS - 1)
    );
}

#[test]
fn handles_are_feed_issued_and_unique() {
    let mut store = NotificationState::new();
    observe(&mut store, observation("a"), 1);
    observe(&mut store, observation("b"), 2);

    let feed = store.current().unwrap();
    assert_eq!(feed.notifications[0].handle, "notification:1");
    assert_eq!(feed.notifications[1].handle, "notification:2");
    assert_ne!(feed.notifications[0].handle, feed.notifications[1].handle);
}

#[test]
fn observation_strings_are_bounded() {
    let mut store = NotificationState::new();
    let mut observation = observation("app");
    observation.summary = "s".repeat(MAX_STRING_BYTES + 100);
    observe(&mut store, observation, 1);

    let feed = store.current().unwrap();
    assert_eq!(feed.notifications[0].summary.len(), MAX_STRING_BYTES);
    feed.validate().unwrap();
}

#[test]
fn empty_feed_has_no_current() {
    let store = NotificationState::new();
    assert!(store.current().is_none());
}

#[test]
fn availability_transitions() {
    let mut store = NotificationState::new();
    assert_eq!(store.availability(), NotificationAvailability::Unavailable);

    store.set_availability(NotificationAvailability::Available);
    assert_eq!(store.availability(), NotificationAvailability::Available);

    store.set_availability(NotificationAvailability::Restricted);
    assert_eq!(store.availability(), NotificationAvailability::Restricted);
}

#[test]
fn parses_a_valid_notify_method_call() {
    let message = notify_message("App", "Summary", "Body", Some(2));
    let observation = parse_notify(&message).unwrap().unwrap();
    assert_eq!(observation.app_name, "App");
    assert_eq!(observation.summary, "Summary");
    assert_eq!(observation.body, "Body");
    assert_eq!(observation.urgency, NotificationUrgency::Critical);
}

#[test]
fn missing_urgency_defaults_to_normal() {
    let message = notify_message("App", "Summary", "Body", None);
    let observation = parse_notify(&message).unwrap().unwrap();
    assert_eq!(observation.urgency, NotificationUrgency::Normal);
}

#[test]
fn urgency_boundaries_map_to_typed_levels() {
    for (byte, expected) in [
        (0, NotificationUrgency::Low),
        (1, NotificationUrgency::Normal),
        (2, NotificationUrgency::Critical),
    ] {
        let message = notify_message("App", "Summary", "Body", Some(byte));
        assert_eq!(parse_notify(&message).unwrap().unwrap().urgency, expected);
    }
}

#[test]
fn ignores_non_notify_members_and_signals() {
    let method_call = BusMessage {
        kind: MessageKind::MethodCall,
        member: Some("GetCapabilities".to_owned()),
        interface: Some(NOTIFICATIONS_INTERFACE.to_owned()),
        body: Err("wrong signature".to_owned()),
    };
    assert!(parse_notify(&method_call).unwrap().is_none());

    let signal = BusMessage {
        kind: MessageKind::Signal,
        member: Some("NotificationClosed".to_owned()),
        interface: Some(NOTIFICATIONS_INTERFACE.to_owned()),
        body: Err("wrong signature".to_owned()),
    };
    assert!(parse_notify(&signal).unwrap().is_none());
}

#[test]
fn malformed_body_fails_closed() {
    let message = BusMessage {
        kind: MessageKind::MethodCall,
        member: Some(NOTIFY_MEMBER.to_owned()),
        interface: Some(NOTIFICATIONS_INTERFACE.to_owned()),
        body: Err("signature mismatch".to_owned()),
    };
    assert!(matches!(
        parse_notify(&message),
        Err(NotifyParseError::MalformedBody(_))
    ));
}

#[test]
fn malformed_urgency_fails_closed() {
    let mut message = notify_message("App", "Summary", "Body", None);
    if let Ok(arguments) = &mut message.body {
        arguments.urgency_hint = Some(None);
    }
    assert_eq!(
        parse_notify(&message).unwrap_err().message(),
        NotifyParseError::MalformedUrgency.message()
    );
}

#[test]
fn urgency_bytes_beyond_critical_are_malformed() {
    assert_eq!(urgency_from_hint(Some(Some(3))), Err(NotifyParseError::MalformedUrgency));
    assert_eq!(urgency_from_hint(None), Ok(NotificationUrgency::Normal));
}

#[test]
fn notify_on_another_interface_is_ignored() {
    let mut message = notify_message("App", "Summary", "Body", Some(1));
    message.interface = Some("org.example.Other".to_owned());
    assert_eq!(parse_notify(&message), Ok(None));
}

#[test]
fn denied_monitoring_classifies_as_restricted() {
    assert_eq!(
        monitor_error_availability(&MonitorError::AccessDenied),
        NotificationAvailability::Restricted
    );
    assert_eq!(
        monitor_error_availability(&MonitorError::InvalidAddress),
        NotificationAvailability::Unavailable
    );
    assert_eq!(
        monitor_call_error(Some("org.freedesktop.DBus.Error.AccessDenied"), "no".to_owned()),
        MonitorError::AccessDenied
    );
    assert_eq!(
        monitor_call_error(None, "io".to_owned()),
        MonitorError::Call("io".to_owned())
    );
}

#[test]
fn notifications_strings_are_trimmed_and_byte_bounded() {
    assert_eq!(bounded_string("  padded  ", 8), "padded");
    assert_eq!(bounded_string("short", 100), "short");

    let multibyte = "🦀".repeat(MAX_STRING_BYTES);
    let bounded = bounded_string(&multibyte, MAX_STRING_BYTES);
    assert!(bounded.len() <= MAX_STRING_BYTES);
    assert!(std::str::from_utf8(bounded.as_bytes()).is_ok());
}

#[test]
fn every_observation_bumps_the_sequence() {
    let mut store = NotificationState::new();
    for index in 0..100 {
        observe(&mut store, observation(&format!("app-{index}")), index);
    }
    let feed = store.current().unwrap();
    assert_eq!(feed.sequence, 100);
    assert_eq!(feed.notifications.last().unwrap().app_name, "app-99");
    assert_eq!(
        feed.notifications.last().unwrap().handle,
        "notification:100"
    );
}
