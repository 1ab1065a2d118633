use velora::dbus::{
    call_error, classify_notifications_error, mpris_player_names, probe_report,
    BusAvailability, DbusCapabilities, DbusError, MediaAvailability, NotificationAvailability,
    MAX_MPRIS_NAME_CHARS, MAX_NOTIFICATION_FIELD_CHARS,
};
use velora::events::{parse_event_line, SessionEvent};
use velora::hyprland::bounded_string;
use velora::protocol::MAX_MEDIA_PLAYERS;

#[test]
fn filters_only_mpris_player_names_within_bounds() {
    let long: String = "y".repeat(MAX_MPRIS_NAME_CHARS + 100);
    let names = [
        "org.mpris.MediaPlayer2.spotify".to_string(),
        "org.freedesktop.Notifications".to_string(),
        ":1.42".to_string(),
        format!("org.mpris.MediaPlayer2.{long}"),
    ];
    let refs: Vec<&str> = names.iter().map(String::as_str).collect();
    let players = mpris_player_names(&refs);
    assert_eq!(players.len(), 2);
    assert_eq!(players[0], "org.mpris.MediaPlayer2.spotify");
    assert!(players[1].starts_with("org.mpris.MediaPlayer2."));
    assert_eq!(players[1].chars().count(), MAX_MPRIS_NAME_CHARS);
}

#[test]
fn caps_mpris_players_at_the_probe_limit() {
    let names: Vec<String> = (0..MAX_MEDIA_PLAYERS + 5)
        .map(|i| format!("org.mpris.MediaPlayer2.player{i}"))
        .collect();
    let refs: Vec<&str> = names.iter().map(String::as_str).collect();
    let players = mpris_player_names(&refs);
    assert_eq!(players.len(), MAX_MEDIA_PLAYERS);
}

#[test]
fn denied_access_classifies_as_restricted() {
    assert_eq!(
        classify_notifications_error(&DbusError::AccessDenied),
        NotificationAvailability::Restricted
    );
}

#[test]
fn other_call_failures_classify_as_unavailable() {
    let call_error = DbusError::Call("I/O error: boom".to_owned());
    assert_eq!(
        classify_notifications_error(&call_error),
        NotificationAvailability::Unavailable
    );
    assert_eq!(
        classify_notifications_error(&DbusError::InvalidAddress),
        NotificationAvailability::Unavailable
    );
    assert_eq!(
        classify_notifications_error(&DbusError::Connect("Unsupported".to_owned())),
        NotificationAvailability::Unavailable
    );
}

#[test]
fn dbus_strings_are_trimmed_and_char_bounded() {
    assert_eq!(bounded_string("  padded  ", 8), "padded");
    let long = "🦀".repeat(MAX_NOTIFICATION_FIELD_CHARS + 50);
    assert_eq!(
        bounded_string(&long, MAX_NOTIFICATION_FIELD_CHARS)
            .chars()
            .count(),
        MAX_NOTIFICATION_FIELD_CHARS
    );
}

#[test]
fn access_denied_error_name_is_a_denial() {
    assert_eq!(
        call_error(Some("org.freedesktop.DBus.Error.AccessDenied"), "no".to_owned()),
        DbusError::AccessDenied
    );
    assert_eq!(
        call_error(Some("org.freedesktop.DBus.Error.Failed"), "no".to_owned()),
        DbusError::Call("no".to_owned())
    );
    assert_eq!(
        call_error(None, "io".to_owned()),
        DbusError::Call("io".to_owned())
    );
}

#[test]
fn probe_report_bounds_daemon_fields_and_filters_players() {
    let report = probe_report(
        Ok((
            "  dunst ".to_owned(),
            "knopwob".to_owned(),
            "1.9".to_owned(),
            "1.2".to_owned(),
        )),
        Ok(vec![
            "org.mpris.MediaPlayer2.mpv".to_owned(),
            "org.freedesktop.DBus".to_owned(),
        ]),
    );
    assert_eq!(report.bus, BusAvailability::Available);
    assert_eq!(report.notifications, NotificationAvailability::Available);
    assert_eq!(report.notifications_daemon.as_ref().unwrap().name, "dunst");
    assert_eq!(report.media, MediaAvailability::Available);
    assert_eq!(report.mpris_players, vec!["org.mpris.MediaPlayer2.mpv".to_owned()]);

    let denied = probe_report(Err(DbusError::AccessDenied), Err(DbusError::Call("x".to_owned())));
    assert_eq!(denied.notifications, NotificationAvailability::Restricted);
    assert!(denied.notifications_daemon.is_none());
    assert_eq!(denied.media, MediaAvailability::Unavailable);
    assert!(denied.mpris_players.is_empty());
}

#[test]
fn unavailable_capabilities_report_nothing() {
    let capabilities = DbusCapabilities::unavailable();
    assert_eq!(capabilities.bus, BusAvailability::Unavailable);
    assert_eq!(capabilities.media, MediaAvailability::Unavailable);
    assert_eq!(capabilities.notifications, NotificationAvailability::Unavailable);
    assert!(capabilities.notifications_daemon.is_none());
    assert!(capabilities.mpris_players.is_empty());
}

#[test]
fn dbus_error_messages_name_the_failure() {
    assert_eq!(
        DbusError::Connect("refused".to_owned()).message(),
        "failed to connect to the session bus: refused"
    );
    assert_eq!(
        DbusError::AccessDenied.message(),
        "access to notification observation was denied"
    );
}

#[test]
fn parses_every_required_event_kind() {
    assert_eq!(parse_event_line("workspace>>2"), Some(SessionEvent::WorkspaceChanged));
    assert_eq!(
        parse_event_line("workspace>>special:magic"),
        Some(SessionEvent::WorkspaceChanged)
    );
    assert_eq!(
        parse_event_line("activespecial>>special:magic,eDP-1"),
        Some(SessionEvent::WorkspaceChanged)
    );
    assert_eq!(
        parse_event_line("focusedmon>>eDP-1,2"),
        Some(SessionEvent::FocusedMonitorChanged)
    );
    assert_eq!(
        parse_event_line("openwindow>>0x55f0aaaa,1,code,Editor"),
        Some(SessionEvent::WindowOpened)
    );
    assert_eq!(
        parse_event_line("closenwindow>>0x55f0aaaa"),
        Some(SessionEvent::WindowClosed)
    );
    assert_eq!(
        parse_event_line("closewindow>>0x55f0aaaa"),
        Some(SessionEvent::WindowClosed)
    );
    assert_eq!(
        parse_event_line("movewindow>>0x55f0aaaa,3"),
        Some(SessionEvent::WindowMoved)
    );
    assert_eq!(
        parse_event_line("movewindowv2>>0x55f0aaaa,3"),
        Some(SessionEvent::WindowMoved)
    );
    assert_eq!(
        parse_event_line("activewindow>>,"),
        Some(SessionEvent::ActiveWindowChanged)
    );
    assert_eq!(
        parse_event_line("activewindow>>code,Editor"),
        Some(SessionEvent::ActiveWindowChanged)
    );
    assert_eq!(
        parse_event_line("activewindowv2>>0x55f0aaaa"),
        Some(SessionEvent::ActiveWindowChanged)
    );
}

#[test]
fn ignores_unknown_malformed_and_oversized_lines() {
    assert_eq!(parse_event_line("configreloaded>>"), None);
    assert_eq!(parse_event_line("somerandomevent>>payload"), None);
    assert_eq!(parse_event_line(""), None);
    assert_eq!(parse_event_line("\n"), None);
    assert_eq!(parse_event_line("no separator here"), None);
    assert_eq!(parse_event_line("workspace>single"), None);
    assert_eq!(
        parse_event_line(&format!("workspace>>{}", "x".repeat(600))),
        None
    );
}

#[test]
fn duplicates_are_parsed_identically_and_stay_harmless() {
    let first = parse_event_line("openwindow>>0x55f0aaaa,1,code,Editor");
    let second = parse_event_line("openwindow>>0x55f0aaaa,1,code,Editor");
    assert_eq!(first, second);
}
