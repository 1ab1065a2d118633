use std::time::{Duration, SystemTime, UNIX_EPOCH};

use velora::mpris_events::{
    jitter_millis, next_backoff, reconnect_delay, parse_name_owner_changed, parse_properties_changed,
    ListenerConfig, MprisSignal, SignalMessage, DBUS_INTERFACE, MAX_NAME_BYTES,
    NAME_OWNER_CHANGED_MEMBER, PROPERTIES_CHANGED_MEMBER, PROPERTIES_INTERFACE,
};
use velora::notifications::MessageKind;

const TEST_PLAYER_NAME: &str = "org.mpris.MediaPlayer2.testplayer";

fn name_owner_changed_message(name: &str) -> SignalMessage {
    SignalMessage {
        kind: MessageKind::Signal,
        member: Some(NAME_OWNER_CHANGED_MEMBER.to_owned()),
        interface: Some(DBUS_INTERFACE.to_owned()),
        owner_change_name: Some(name.to_owned()),
        properties_interface: None,
    }
}

fn properties_changed_message(interface: &str) -> SignalMessage {
    SignalMessage {
        kind: MessageKind::Signal,
        member: Some(PROPERTIES_CHANGED_MEMBER.to_owned()),
        interface: Some(PROPERTIES_INTERFACE.to_owned()),
        owner_change_name: None,
        properties_interface: Some(interface.to_owned()),
    }
}

#[test]
fn recognizes_mpris_name_owner_changes() {
    assert_eq!(
        parse_name_owner_changed(&name_owner_changed_message(TEST_PLAYER_NAME)),
        Some(MprisSignal::PlayerChurn)
    );
}

#[test]
fn ignores_non_mpris_and_malformed_name_owner_changes() {
    assert_eq!(
        parse_name_owner_changed(&name_owner_changed_message("org.freedesktop.Notifications")),
        None
    );
    assert_eq!(parse_name_owner_changed(&name_owner_changed_message("")), None);

    let long = format!("org.mpris.MediaPlayer2.{}", "x".repeat(MAX_NAME_BYTES));
    assert_eq!(parse_name_owner_changed(&name_owner_changed_message(&long)), None);

    let method_call = SignalMessage {
        kind: MessageKind::MethodCall,
        member: Some("ListNames".to_owned()),
        interface: Some(DBUS_INTERFACE.to_owned()),
        owner_change_name: None,
        properties_interface: None,
    };
    assert_eq!(parse_name_owner_changed(&method_call), None);
}

#[test]
fn recognizes_mpris_properties_changes_for_both_interfaces() {
    assert_eq!(
        parse_properties_changed(&properties_changed_message("org.mpris.MediaPlayer2.Player")),
        Some(MprisSignal::PlayerProperties)
    );
    assert_eq!(
        parse_properties_changed(&properties_changed_message("org.mpris.MediaPlayer2")),
        Some(MprisSignal::PlayerProperties)
    );
}

#[test]
fn ignores_non_mpris_and_malformed_properties_changes() {
    assert_eq!(
        parse_properties_changed(&properties_changed_message("org.freedesktop.Notifications")),
        None
    );
    assert_eq!(
        parse_properties_changed(&properties_changed_message("org.mpris.MediaPlayer2NotAPlayer")),
        None
    );
    let mut malformed = properties_changed_message("org.mpris.MediaPlayer2.Player");
    malformed.properties_interface = None;
    assert_eq!(parse_properties_changed(&malformed), None);
}

#[test]
fn backoff_grows_exponentially_and_is_bounded() {
    let max = Duration::from_millis(8).as_nanos();
    let mut backoff = Duration::from_millis(1).as_nanos();
    for _ in 0..10 {
        let next = next_backoff(backoff, max);
        assert!(next >= backoff);
        assert!(next <= max);
        backoff = next;
    }
    assert_eq!(backoff, max);
}

#[test]
fn backoff_at_the_largest_duration_stays_at_the_cap() {
    let max = Duration::MAX.as_nanos();
    assert_eq!(next_backoff(max, max), max);
    assert_eq!(next_backoff(max / 2 + 1, 5), 5);
}

#[test]
fn production_pacing_starts_at_half_a_second_and_caps_at_eight() {
    let config = ListenerConfig::production();
    assert_eq!(config.initial_backoff_nanos, Duration::from_millis(500).as_nanos());
    assert_eq!(config.max_backoff_nanos, Duration::from_secs(8).as_nanos());
}

#[test]
fn jitter_stays_within_its_spread() {
    assert_eq!(jitter_millis(999_999_999, 0), 0);
    assert_eq!(jitter_millis(1_234, 1_000), 1_234 % 1_001);
    assert!(jitter_millis(123_456_789, 2_500) <= 2_500);
    assert_eq!(jitter_millis(7, u64::MAX), 7);
}

fn clock_subsec_nanos() -> u32 {
    SystemTime::now()
        .duration_since(UNIX_EPOCH)
        .map(|since| since.subsec_nanos())
        .unwrap_or(0)
}

#[test]
fn reconnect_delay_stays_within_bounds_and_is_never_zero() {
    for backoff in [
        Duration::from_millis(5),
        Duration::from_millis(40),
        Duration::from_secs(8),
    ] {
        let delay = Duration::from_nanos(
            reconnect_delay(backoff.as_nanos(), clock_subsec_nanos()) as u64,
        );
        assert!(delay >= backoff.div_f64(2.0));
        assert!(delay <= backoff);
        assert!(delay > Duration::ZERO);
    }
}

#[test]
fn reconnect_delay_adds_whole_milliseconds_of_jitter() {
    // Half of 40 ms is 20 ms; 7_000_123 ns of clock reduce to 7_000_123 % 21 = 4 ms.
    assert_eq!(reconnect_delay(40_000_000, 7_000_123), 24_000_000);
    assert_eq!(reconnect_delay(40_000_000, 0), 20_000_000);
    assert_eq!(reconnect_delay(3, 999), 1);
}
