use serde_json::Value;
use velora::core_protocol;
use velora::protocol::{
    socket_path_from, CpuTelemetry, DiskTelemetry, MediaPlayer, MediaSnapshot,
    MediaSnapshotValidationError, MemoryTelemetry, NetworkTelemetry, Notification,
    NotificationFeed, NotificationFeedValidationError, NotificationUrgency, PlaybackStatus,
    Request, Response, SnapshotValidationError, SocketPathError, TelemetryAvailability,
    TelemetrySnapshot, TelemetryValidationError, Window, Workspace, WorkspaceSnapshot,
    DEFAULT_TELEMETRY_INTERVAL_MS, MAX_MEDIA_PAYLOAD_BYTES, MAX_MEDIA_PLAYERS,
    MAX_NOTIFICATIONS, MAX_NOTIFICATION_PAYLOAD_BYTES, MAX_STRING_BYTES, MAX_TELEMETRY_DEVICES,
    MAX_TELEMETRY_INTERFACES, MAX_TELEMETRY_INTERVAL_MS, MIN_TELEMETRY_INTERVAL_MS,
    PROTOCOL_VERSION,
};

#[test]
fn error_constructor_uses_current_protocol() {
    assert_eq!(
        Response::error("handshake_required", "send hello first", false),
        Response::Error {
            protocol_version: PROTOCOL_VERSION,
            code: "handshake_required".to_owned(),
            message: "send hello first".to_owned(),
            retryable: false,
        }
    );
}

fn test_snapshot() -> WorkspaceSnapshot {
    WorkspaceSnapshot {
        sequence: 7,
        workspaces: vec![Workspace {
            handle: "workspace:1".to_owned(),
            name: "1".to_owned(),
            index: 1,
            monitor: Some("eDP-1".to_owned()),
            window_count: 1,
            is_active: true,
            is_special: false,
            is_urgent: false,
        }],
        windows: vec![Window {
            handle: "window:opaque-1".to_owned(),
            workspace_handle: "workspace:1".to_owned(),
            title: "Editor".to_owned(),
            class: "code".to_owned(),
            is_active: true,
            is_floating: false,
            is_fullscreen: false,
        }],
        active_workspace_handle: Some("workspace:1".to_owned()),
        active_window_handle: Some("window:opaque-1".to_owned()),
    }
}

#[test]
fn snapshot_validation_rejects_unknown_handles_and_detects_stale_sequences() {
    let mut snapshot = test_snapshot();
    assert!(snapshot.validate().is_ok());
    assert!(snapshot.is_newer_than(6));
    assert!(!snapshot.is_newer_than(7));

    snapshot.windows[0].workspace_handle = "workspace:missing".to_owned();
    assert_eq!(
        snapshot.validate(),
        Err(SnapshotValidationError::UnknownWindowWorkspace)
    );
}

#[test]
fn snapshot_validation_reports_unknown_active_references() {
    let mut snapshot = test_snapshot();
    snapshot.active_window_handle = Some("window:missing".to_owned());
    assert_eq!(
        snapshot.validate(),
        Err(SnapshotValidationError::UnknownActiveWindow)
    );
    snapshot.active_window_handle = None;
    snapshot.active_workspace_handle = Some("workspace:missing".to_owned());
    assert_eq!(
        snapshot.validate(),
        Err(SnapshotValidationError::UnknownActiveWorkspace)
    );
}

fn test_telemetry_snapshot() -> TelemetrySnapshot {
    TelemetrySnapshot {
        sequence: 8,
        sampled_at_unix_ms: 1_777_777_777_000,
        sample_interval_ms: DEFAULT_TELEMETRY_INTERVAL_MS,
        cpu: CpuTelemetry {
            availability: TelemetryAvailability::Available,
            utilization_basis_points: Some(3_725),
            logical_cpu_count: 8,
            load_1m_milli: 750,
            load_5m_milli: 1_250,
            load_15m_milli: 2_000,
        },
        memory: MemoryTelemetry {
            availability: TelemetryAvailability::Available,
            total_bytes: 16 * 1024 * 1024 * 1024,
            available_bytes: 10 * 1024 * 1024 * 1024,
            used_bytes: 6 * 1024 * 1024 * 1024,
            cached_bytes: 2 * 1024 * 1024 * 1024,
            swap_total_bytes: 4 * 1024 * 1024 * 1024,
            swap_used_bytes: 512 * 1024 * 1024,
        },
        disk: DiskTelemetry {
            availability: TelemetryAvailability::Available,
            read_bytes_per_second: 1_048_576,
            write_bytes_per_second: 524_288,
            device_count: 2,
        },
        network: NetworkTelemetry {
            availability: TelemetryAvailability::Offline,
            receive_bytes_per_second: 0,
            transmit_bytes_per_second: 0,
            interface_count: 0,
        },
    }
}

#[test]
fn validates_telemetry_policy_and_bounds() {
    let mut snapshot = test_telemetry_snapshot();
    assert!(snapshot.validate().is_ok());
    assert!(snapshot.is_newer_than(7));
    assert!(!snapshot.is_newer_than(8));

    snapshot.sample_interval_ms = MIN_TELEMETRY_INTERVAL_MS - 1;
    assert_eq!(
        snapshot.validate(),
        Err(TelemetryValidationError::InvalidSampleInterval)
    );
    snapshot.sample_interval_ms = DEFAULT_TELEMETRY_INTERVAL_MS;
    snapshot.cpu.utilization_basis_points = Some(10_001);
    assert_eq!(
        snapshot.validate(),
        Err(TelemetryValidationError::InvalidCpuUtilization)
    );
    snapshot.cpu.utilization_basis_points = Some(10_000);
    snapshot.disk.device_count = MAX_TELEMETRY_DEVICES + 1;
    assert_eq!(
        snapshot.validate(),
        Err(TelemetryValidationError::TooManyDevices)
    );

    snapshot.disk.device_count = MAX_TELEMETRY_DEVICES;
    snapshot.network.interface_count = MAX_TELEMETRY_INTERFACES + 1;
    assert_eq!(
        snapshot.validate(),
        Err(TelemetryValidationError::TooManyInterfaces)
    );

    snapshot.network.interface_count = MAX_TELEMETRY_INTERFACES;
    snapshot.memory.available_bytes = snapshot.memory.total_bytes + 1;
    assert_eq!(
        snapshot.validate(),
        Err(TelemetryValidationError::InvalidMemoryTotals)
    );

    snapshot.memory.available_bytes = 10 * 1024 * 1024 * 1024;
    snapshot.memory.used_bytes = 6 * 1024 * 1024 * 1024;
    snapshot.sample_interval_ms = MAX_TELEMETRY_INTERVAL_MS + 1;
    assert_eq!(
        snapshot.validate(),
        Err(TelemetryValidationError::InvalidSampleInterval)
    );
}

#[test]
fn telemetry_validation_rejects_swap_use_beyond_swap_total() {
    let mut snapshot = test_telemetry_snapshot();
    snapshot.memory.swap_used_bytes = snapshot.memory.swap_total_bytes + 1;
    assert_eq!(
        snapshot.validate(),
        Err(TelemetryValidationError::InvalidSwapTotals)
    );
}

fn test_media_player(handle: &str) -> MediaPlayer {
    MediaPlayer {
        handle: handle.to_owned(),
        identity: "Spotify".to_owned(),
        status: PlaybackStatus::Playing,
        title: Some("Velora Theme".to_owned()),
        artist: Some("Velora".to_owned()),
        album: Some("Phase 5".to_owned()),
        length_micros: Some(250_000_000),
        position_micros: 12_500_000,
        can_play: true,
        can_pause: true,
        can_go_next: true,
        can_go_previous: true,
        can_seek: true,
        can_control: true,
    }
}

fn test_media_snapshot() -> MediaSnapshot {
    MediaSnapshot {
        sequence: 9,
        players: vec![test_media_player("player:opaque-1")],
        active_player_handle: Some("player:opaque-1".to_owned()),
    }
}

fn test_notification(handle: &str) -> Notification {
    Notification {
        handle: handle.to_owned(),
        app_name: "Velora".to_owned(),
        summary: "Build complete".to_owned(),
        body: "The release gate passed.".to_owned(),
        urgency: NotificationUrgency::Normal,
        timestamp_unix_ms: 1_777_777_777_000,
    }
}

fn test_notification_feed() -> NotificationFeed {
    NotificationFeed {
        sequence: 5,
        notifications: vec![test_notification("notification:opaque-1")],
    }
}

#[test]
fn media_snapshot_validation_detects_bounds_and_stale_sequences() {
    let mut snapshot = test_media_snapshot();
    assert!(snapshot.validate().is_ok());
    assert!(snapshot.is_newer_than(8));
    assert!(!snapshot.is_newer_than(9));

    snapshot.active_player_handle = Some("player:missing".to_owned());
    assert_eq!(
        snapshot.validate(),
        Err(MediaSnapshotValidationError::UnknownActivePlayer)
    );
    snapshot.active_player_handle = Some("player:opaque-1".to_owned());

    snapshot.players.push(test_media_player("player:opaque-1"));
    assert_eq!(
        snapshot.validate(),
        Err(MediaSnapshotValidationError::InvalidPlayerHandle)
    );
    snapshot.players.pop();

    snapshot.players[0].handle.clear();
    assert_eq!(
        snapshot.validate(),
        Err(MediaSnapshotValidationError::InvalidPlayerHandle)
    );
    snapshot.players[0].handle = "player:opaque-1".to_owned();

    snapshot.players[0].title = Some("t".repeat(MAX_STRING_BYTES + 1));
    assert_eq!(
        snapshot.validate(),
        Err(MediaSnapshotValidationError::StringTooLong)
    );
}

#[test]
fn media_snapshot_rejects_too_many_players() {
    let mut snapshot = test_media_snapshot();
    snapshot.players = (0..=MAX_MEDIA_PLAYERS)
        .map(|index| test_media_player(&format!("player:{index}")))
        .collect();
    assert_eq!(
        snapshot.validate(),
        Err(MediaSnapshotValidationError::TooManyPlayers)
    );
}

#[test]
fn notification_feed_validation_detects_bounds_and_stale_sequences() {
    let mut feed = test_notification_feed();
    assert!(feed.validate().is_ok());
    assert!(feed.is_newer_than(4));
    assert!(!feed.is_newer_than(5));

    feed.notifications
        .push(test_notification("notification:opaque-1"));
    assert_eq!(
        feed.validate(),
        Err(NotificationFeedValidationError::InvalidNotificationHandle)
    );
    feed.notifications.pop();

    feed.notifications[0].handle.clear();
    assert_eq!(
        feed.validate(),
        Err(NotificationFeedValidationError::InvalidNotificationHandle)
    );
    feed.notifications[0].handle = "notification:opaque-1".to_owned();

    feed.notifications[0].body = "b".repeat(MAX_STRING_BYTES + 1);
    assert_eq!(
        feed.validate(),
        Err(NotificationFeedValidationError::StringTooLong)
    );
}

#[test]
fn notification_feed_rejects_too_many_entries() {
    let mut feed = test_notification_feed();
    feed.notifications = (0..=MAX_NOTIFICATIONS)
        .map(|index| test_notification(&format!("notification:{index}")))
        .collect();
    assert_eq!(
        feed.validate(),
        Err(NotificationFeedValidationError::TooManyNotifications)
    );
}

#[test]
fn protocol_v5_bounds_are_aligned() {
    assert_eq!(PROTOCOL_VERSION, 5);
    assert_eq!(MAX_MEDIA_PLAYERS, 16);
    assert_eq!(MAX_NOTIFICATIONS, 32);
    assert_eq!(MAX_STRING_BYTES, 256);
    assert_eq!(MAX_MEDIA_PAYLOAD_BYTES, 4 * 1024);
    assert_eq!(MAX_NOTIFICATION_PAYLOAD_BYTES, 4 * 1024);
}

#[test]
fn requests_report_the_version_they_carry() {
    let ping = Request::Ping {
        protocol_version: 3,
        request_id: 1,
    };
    assert_eq!(ping.protocol_version(), 3);
}

#[test]
fn socket_path_prefers_the_override_then_the_runtime_directory_then_the_uid() {
    assert_eq!(
        socket_path_from(Some("/tmp/velora.sock"), Some("/run/user/1000"), Some("1000")),
        Ok("/tmp/velora.sock".to_owned())
    );
    assert_eq!(
        socket_path_from(None, Some("/run/user/1000"), None),
        Ok("/run/user/1000/velora.sock".to_owned())
    );
    assert_eq!(
        socket_path_from(None, None, Some("1000")),
        Ok("/tmp/velora-1000.sock".to_owned())
    );
    assert_eq!(
        socket_path_from(None, None, None),
        Err(SocketPathError::MissingRuntimeIdentity)
    );
    assert_eq!(
        socket_path_from(None, None, Some("root")),
        Err(SocketPathError::InvalidUid)
    );
}

#[test]
fn launcher_requests_report_their_protocol_version() {
    let ping = core_protocol::Request::Ping {
        protocol_version: core_protocol::PROTOCOL_VERSION,
    };
    assert_eq!(ping.protocol_version(), 1);
    let launch = core_protocol::Request::LaunchApp {
        protocol_version: 7,
        desktop_id: "firefox.desktop".to_owned(),
    };
    assert_eq!(launch.protocol_version(), 7);
}

fn availability_text(availability: TelemetryAvailability) -> &'static str {
    match availability {
        TelemetryAvailability::Available => "available",
        TelemetryAvailability::WarmingUp => "warming_up",
        TelemetryAvailability::Offline => "offline",
        TelemetryAvailability::Unavailable => "unavailable",
    }
}

fn object(entries: Vec<(&str, Value)>) -> Value {
    let mut map = serde_json::Map::new();
    for (key, value) in entries {
        map.insert(key.to_owned(), value);
    }
    Value::Object(map)
}

/// The length of a telemetry snapshot response's JSON encoding.
fn telemetry_response_len(request_id: u64, s: &TelemetrySnapshot) -> usize {
    let value = object(vec![
        ("type", Value::from("telemetry_snapshot")),
        ("protocol_version", Value::from(PROTOCOL_VERSION)),
        ("request_id", Value::from(request_id)),
        (
            "snapshot",
            object(vec![
                ("sequence", Value::from(s.sequence)),
                ("sampled_at_unix_ms", Value::from(s.sampled_at_unix_ms)),
                ("sample_interval_ms", Value::from(s.sample_interval_ms)),
                (
                    "cpu",
                    object(vec![
                        ("availability", Value::from(availability_text(s.cpu.availability))),
                        (
                            "utilization_basis_points",
                            s.cpu.utilization_basis_points.map_or(Value::Null, Value::from),
                        ),
                        ("logical_cpu_count", Value::from(s.cpu.logical_cpu_count)),
                        ("load_1m_milli", Value::from(s.cpu.load_1m_milli)),
                        ("load_5m_milli", Value::from(s.cpu.load_5m_milli)),
                        ("load_15m_milli", Value::from(s.cpu.load_15m_milli)),
                    ]),
                ),
                (
                    "memory",
                    object(vec![
                        ("availability", Value::from(availability_text(s.memory.availability))),
                        ("total_bytes", Value::from(s.memory.total_bytes)),
                        ("available_bytes", Value::from(s.memory.available_bytes)),
                        ("used_bytes", Value::from(s.memory.used_bytes)),
                        ("cached_bytes", Value::from(s.memory.cached_bytes)),
                        ("swap_total_bytes", Value::from(s.memory.swap_total_bytes)),
                        ("swap_used_bytes", Value::from(s.memory.swap_used_bytes)),
                    ]),
                ),
                (
                    "disk",
                    object(vec![
                        ("availability", Value::from(availability_text(s.disk.availability))),
                        ("read_bytes_per_second", Value::from(s.disk.read_bytes_per_second)),
                        ("write_bytes_per_second", Value::from(s.disk.write_bytes_per_second)),
                        ("device_count", Value::from(s.disk.device_count)),
                    ]),
                ),
                (
                    "network",
                    object(vec![
                        ("availability", Value::from(availability_text(s.network.availability))),
                        ("receive_bytes_per_second", Value::from(s.network.receive_bytes_per_second)),
                        ("transmit_bytes_per_second", Value::from(s.network.transmit_bytes_per_second)),
                        ("interface_count", Value::from(s.network.interface_count)),
                    ]),
                ),
            ]),
        ),
    ]);
    serde_json::to_string(&value).unwrap().len()
}

#[test]
fn max_width_snapshot_stays_under_payload_limit_and_validates() {
    let mut snapshot = test_telemetry_snapshot();
    snapshot.disk.device_count = MAX_TELEMETRY_DEVICES;
    snapshot.network.interface_count = MAX_TELEMETRY_INTERFACES;
    snapshot.cpu.utilization_basis_points = Some(10_000);
    snapshot.disk.read_bytes_per_second = u64::MAX;
    snapshot.disk.write_bytes_per_second = u64::MAX;
    snapshot.network.receive_bytes_per_second = u64::MAX;
    snapshot.network.transmit_bytes_per_second = u64::MAX;
    snapshot.memory.total_bytes = u64::MAX;
    snapshot.memory.available_bytes = u64::MAX - 1;
    snapshot.memory.used_bytes = 1;
    snapshot.memory.cached_bytes = u64::MAX / 2;
    snapshot.memory.swap_total_bytes = u64::MAX;
    snapshot.memory.swap_used_bytes = u64::MAX - 1;

    assert!(snapshot.validate().is_ok());
    assert!(telemetry_response_len(50, &snapshot) <= velora::protocol::MAX_TELEMETRY_PAYLOAD_BYTES);
}

fn status_text(status: PlaybackStatus) -> &'static str {
    match status {
        PlaybackStatus::Playing => "playing",
        PlaybackStatus::Paused => "paused",
        PlaybackStatus::Stopped => "stopped",
    }
}

fn opt_text(value: &Option<String>) -> Value {
    value.clone().map_or(Value::Null, Value::from)
}

/// The length of a media snapshot response's JSON encoding.
fn media_response_len(request_id: u64, snapshot: &MediaSnapshot) -> usize {
    let players: Vec<Value> = snapshot
        .players
        .iter()
        .map(|p| {
            object(vec![
                ("handle", Value::from(p.handle.clone())),
                ("identity", Value::from(p.identity.clone())),
                ("status", Value::from(status_text(p.status))),
                ("title", opt_text(&p.title)),
                ("artist", opt_text(&p.artist)),
                ("album", opt_text(&p.album)),
                ("length_micros", p.length_micros.map_or(Value::Null, Value::from)),
                ("position_micros", Value::from(p.position_micros)),
                ("can_play", Value::from(p.can_play)),
                ("can_pause", Value::from(p.can_pause)),
                ("can_go_next", Value::from(p.can_go_next)),
                ("can_go_previous", Value::from(p.can_go_previous)),
                ("can_seek", Value::from(p.can_seek)),
                ("can_control", Value::from(p.can_control)),
            ])
        })
        .collect();
    let value = object(vec![
        ("type", Value::from("media_snapshot")),
        ("protocol_version", Value::from(PROTOCOL_VERSION)),
        ("request_id", Value::from(request_id)),
        (
            "snapshot",
            object(vec![
                ("sequence", Value::from(snapshot.sequence)),
                ("players", Value::Array(players)),
                ("active_player_handle", opt_text(&snapshot.active_player_handle)),
            ]),
        ),
    ]);
    serde_json::to_string(&value).unwrap().len()
}

#[test]
fn full_media_snapshot_stays_under_the_transport_limit() {
    let mut snapshot = test_media_snapshot();
    snapshot.players = (0..MAX_MEDIA_PLAYERS)
        .map(|index| MediaPlayer {
            handle: format!("player:{index}"),
            identity: format!("Player {index}"),
            status: PlaybackStatus::Paused,
            title: Some(format!("Title {index}")),
            artist: Some(format!("Artist {index}")),
            album: Some(format!("Album {index}")),
            length_micros: Some(u64::MAX),
            position_micros: u64::MAX,
            can_play: false,
            can_pause: false,
            can_go_next: false,
            can_go_previous: false,
            can_seek: false,
            can_control: false,
        })
        .collect();
    snapshot.active_player_handle = Some("player:0".to_owned());

    assert!(snapshot.validate().is_ok());
    assert!(media_response_len(81, &snapshot) <= velora::protocol::MAX_MESSAGE_BYTES);
}
