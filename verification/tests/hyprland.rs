use velora::hyprland::{
    window_dispatch_command, workspace_dispatch_command,
    normalize_session_snapshot, parse_version_value, valid_instance_signature, AdapterError, Json,
    MAX_WINDOW_TITLE_CHARS,
};
use velora::protocol::{WorkspaceSnapshot, MAX_WINDOWS, MAX_WORKSPACES};
use velora::session::adapter_error_message;

/// A compositor reply as the adapter reads it.
fn json(value: &serde_json::Value) -> Json {
    match value {
        serde_json::Value::Null => Json::Null,
        serde_json::Value::Bool(b) => Json::Bool(*b),
        serde_json::Value::Number(n) => Json::Number {
            integer: n.as_i64(),
            nonzero: n.as_f64().is_some_and(|v| v != 0.0),
        },
        serde_json::Value::String(s) => Json::Text(s.clone()),
        serde_json::Value::Array(items) => Json::Array(items.iter().map(json).collect()),
        serde_json::Value::Object(map) => {
            Json::Object(map.iter().map(|(k, v)| (k.clone(), json(v))).collect())
        }
    }
}

fn parse(text: &str) -> Json {
    json(&serde_json::from_str::<serde_json::Value>(text).unwrap())
}

fn normalize(
    sequence: u64,
    workspaces: &Json,
    windows: &Json,
    active_workspace: &Json,
    active_window: &Json,
) -> Result<WorkspaceSnapshot, AdapterError> {
    normalize_session_snapshot(sequence, workspaces, windows, active_workspace, active_window)
        .map(|reading| reading.snapshot)
}

#[test]
fn parses_only_non_empty_structured_version_values() {
    assert_eq!(
        parse_version_value(&parse(r#"{"tag": " v0.56.2 "}"#)).as_deref(),
        Some("v0.56.2")
    );
    assert_eq!(parse_version_value(&parse(r#"{"tag": ""}"#)), None);
    assert_eq!(parse_version_value(&parse(r#"["not an object"]"#)), None);
}

fn fixture_workspaces() -> Json {
    parse(
        r#"[
            {
                "id": 1,
                "name": "1",
                "monitor": "eDP-1",
                "monitorId": 0,
                "windows": 1,
                "hasfullscreen": false,
                "lastwindow": "0x55f0aaaa",
                "lastwindowtitle": "Editor",
                "unknownFutureField": {"nested": true}
            },
            {
                "id": 2,
                "name": "2",
                "monitor": "DP-1",
                "windows": 1
            },
            {
                "id": -1337,
                "name": "special:notes",
                "monitor": "eDP-1",
                "windows": 0
            }
        ]"#,
    )
}

fn fixture_windows() -> Json {
    parse(
        r#"[
            {
                "address": "0x55f0aaaa",
                "mapped": true,
                "hidden": false,
                "workspace": {"id": 1, "name": "1"},
                "title": "Editor - velora",
                "class": "code",
                "floating": false,
                "fullscreen": 0,
                "urgent": false,
                "pid": 4242,
                "xwayland": false
            },
            {
                "address": "0x55f0bbbb",
                "mapped": true,
                "workspace": {"id": 2, "name": "2"},
                "title": "Terminal",
                "class": "foot",
                "floating": true,
                "fullscreen": true,
                "urgent": true
            },
            {
                "address": "0x55f0cccc",
                "mapped": false,
                "workspace": {"id": 1, "name": "1"},
                "title": "unmapped window is skipped"
            },
            {
                "address": "0x55f0dddd",
                "mapped": true,
                "workspace": {"id": 99, "name": "99"},
                "title": "orphaned workspace window is skipped"
            }
        ]"#,
    )
}

fn normalized_fixture_snapshot() -> WorkspaceSnapshot {
    normalize(
        5,
        &fixture_workspaces(),
        &fixture_windows(),
        &parse(r#"{"id": 2, "name": "2", "monitor": "DP-1"}"#),
        &parse(r#"{"address": "0x55f0bbbb", "workspace": {"id": 2}}"#),
    )
    .unwrap()
}

#[test]
fn normalizes_workspaces_windows_and_active_state() {
    let snapshot = normalized_fixture_snapshot();

    assert_eq!(snapshot.sequence, 5);
    assert_eq!(snapshot.workspaces.len(), 3);
    assert_eq!(snapshot.windows.len(), 2);

    let first = snapshot
        .workspaces
        .iter()
        .find(|workspace| workspace.handle == "workspace:1")
        .unwrap();
    assert_eq!(first.name, "1");
    assert_eq!(first.monitor.as_deref(), Some("eDP-1"));
    assert_eq!(first.window_count, 1);
    assert!(!first.is_special);

    let special = snapshot
        .workspaces
        .iter()
        .find(|workspace| workspace.handle == "workspace:-1337")
        .unwrap();
    assert!(special.is_special);
    assert_eq!(special.window_count, 0);

    let second = snapshot
        .workspaces
        .iter()
        .find(|workspace| workspace.handle == "workspace:2")
        .unwrap();
    assert!(second.is_active);
    assert!(second.is_urgent);

    let terminal = snapshot
        .windows
        .iter()
        .find(|window| window.class == "foot")
        .unwrap();
    assert_eq!(terminal.workspace_handle, "workspace:2");
    assert!(terminal.is_active);
    assert!(terminal.is_floating);
    assert!(terminal.is_fullscreen);

    let editor = snapshot
        .windows
        .iter()
        .find(|window| window.class == "code")
        .unwrap();
    assert!(!editor.is_active);
    assert_eq!(
        snapshot.active_workspace_handle.as_deref(),
        Some("workspace:2")
    );
    assert_eq!(snapshot.active_window_handle, Some(terminal.handle.clone()));
    snapshot.validate().unwrap();
}

#[test]
fn tolerates_missing_and_malformed_entries() {
    let snapshot = normalize(
        1,
        &parse(
            r#"[
                {"id": 3},
                {"name": "no id"},
                {"id": "not-a-number", "name": "4"},
                "garbage",
                {"id": 4, "name": "", "monitor": ""}
            ]"#,
        ),
        &parse(
            r#"[
                {"mapped": true, "workspace": {"id": 3}},
                {"address": "", "workspace": {"id": 3}},
                {"address": "0xff01", "workspace": {"id": null}},
                {"address": "0xff02", "workspace": "corrupt"},
                {"address": "0xff03", "workspace": {"id": 3}, "title": 42}
            ]"#,
        ),
        &parse("{}"),
        &parse("{}"),
    )
    .unwrap();

    assert_eq!(snapshot.workspaces.len(), 2);
    assert!(snapshot.workspaces.iter().any(|w| w.handle == "workspace:3"));
    assert_eq!(snapshot.workspaces[0].name, "3");

    assert_eq!(snapshot.windows.len(), 1);
    assert_eq!(snapshot.windows[0].workspace_handle, "workspace:3");
    assert_eq!(snapshot.workspaces[0].window_count, 1);
    assert!(snapshot.active_workspace_handle.is_none());
    assert!(snapshot.active_window_handle.is_none());
}

#[test]
fn malformed_top_level_responses_are_typed_errors() {
    let error = normalize(
        1,
        &parse(r#"{"unexpected": "shape"}"#),
        &parse("[]"),
        &parse("{}"),
        &parse("{}"),
    )
    .unwrap_err();
    assert!(adapter_error_message(&error).contains("not an array"));

    assert!(normalize(
        1,
        &parse("[]"),
        &parse(r#""not an array either""#),
        &parse("{}"),
        &parse("{}"),
    )
    .is_err());
}

#[test]
fn oversized_collections_are_rejected() {
    let many_workspaces: Vec<Json> = (0..=MAX_WORKSPACES)
        .map(|id| parse(&format!(r#"{{"id": {id}, "name": "{id}"}}"#)))
        .collect();
    assert!(matches!(
        normalize(
            1,
            &Json::Array(many_workspaces),
            &parse("[]"),
            &parse("{}"),
            &parse("{}"),
        ),
        Err(AdapterError::TooManyWorkspaces)
    ));

    let mut workspaces = Vec::new();
    for id in 0..MAX_WORKSPACES {
        workspaces.push(parse(&format!(r#"{{"id": {id}, "name": "{id}"}}"#)));
    }
    let mut clients = Vec::new();
    for id in 0..=MAX_WINDOWS {
        clients.push(parse(&format!(
            r#"{{"address": "0x{id:x}", "mapped": true, "workspace": {{"id": 0}}}}"#
        )));
    }
    assert!(matches!(
        normalize(
            1,
            &Json::Array(workspaces),
            &Json::Array(clients),
            &parse("{}"),
            &parse("{}"),
        ),
        Err(AdapterError::TooManyWindows)
    ));
}

#[test]
fn window_handles_are_opaque_stable_and_collision_free() {
    let snapshot = normalized_fixture_snapshot();

    for window in &snapshot.windows {
        assert!(!window.handle.contains("0x"));
        assert!(window.handle.starts_with("window:"));
    }
    let again = normalized_fixture_snapshot();
    let editor = |snapshot: &WorkspaceSnapshot| {
        snapshot
            .windows
            .iter()
            .find(|window| window.class == "code")
            .unwrap()
            .handle
            .clone()
    };
    assert_eq!(editor(&snapshot), editor(&again));
    assert_ne!(
        editor(&snapshot),
        snapshot
            .windows
            .iter()
            .find(|window| window.class == "foot")
            .unwrap()
            .handle
    );
}

#[test]
fn active_references_outside_the_snapshot_are_dropped() {
    let snapshot = normalize(
        1,
        &fixture_workspaces(),
        &fixture_windows(),
        &parse(r#"{"id": 77, "name": "77"}"#),
        &parse(r#"{"address": "0xdeadbeef"}"#),
    )
    .unwrap();

    assert!(snapshot.active_workspace_handle.is_none());
    assert!(snapshot.active_window_handle.is_none());
    assert!(snapshot.workspaces.iter().all(|workspace| !workspace.is_active));
    assert!(snapshot.windows.iter().all(|window| !window.is_active));
}

#[test]
fn hyprland_strings_are_trimmed_and_char_bounded() {
    let long_title: String = "🦀".repeat(MAX_WINDOW_TITLE_CHARS + 50);
    let mut window = serde_json::Map::new();
    window.insert("address".to_owned(), serde_json::Value::from("0x1"));
    window.insert("mapped".to_owned(), serde_json::Value::from(true));
    window.insert(
        "workspace".to_owned(),
        serde_json::from_str(r#"{"id": 1}"#).unwrap(),
    );
    window.insert("title".to_owned(), serde_json::Value::from(long_title));
    window.insert("class".to_owned(), serde_json::Value::from(" x "));
    let windows = serde_json::Value::Array(vec![serde_json::Value::Object(window)]);
    let snapshot = normalize(
        1,
        &parse(r#"[{"id": 1, "name": "  padded  "}]"#),
        &json(&windows),
        &parse("{}"),
        &parse("{}"),
    )
    .unwrap();

    assert_eq!(snapshot.workspaces[0].name, "padded");
    assert_eq!(
        snapshot.windows[0].title.chars().count(),
        MAX_WINDOW_TITLE_CHARS
    );
    assert_eq!(snapshot.windows[0].class, "x");
}

#[test]
fn readings_keep_the_private_window_addresses() {
    let reading = normalize_session_snapshot(
        5,
        &fixture_workspaces(),
        &fixture_windows(),
        &parse("{}"),
        &parse("{}"),
    )
    .unwrap();
    assert_eq!(reading.window_addresses.len(), reading.snapshot.windows.len());
    assert!(reading
        .window_addresses
        .iter()
        .any(|(_, address)| address == "0x55f0bbbb"));
}

#[test]
fn instance_signatures_reject_path_syntax() {
    assert_eq!(
        valid_instance_signature("abc123_1700000000_42"),
        Some("abc123_1700000000_42")
    );
    assert_eq!(valid_instance_signature(""), None);
    assert_eq!(valid_instance_signature("../escape"), None);
    assert_eq!(valid_instance_signature("a/b"), None);
    assert_eq!(valid_instance_signature(".."), None);
}

#[test]
fn dispatch_commands_use_the_focus_dispatcher() {
    assert_eq!(
        workspace_dispatch_command(3),
        r#"dispatch hl.dsp.focus({ workspace = "3" })"#
    );
    assert_eq!(
        window_dispatch_command("0xaa"),
        r#"dispatch hl.dsp.focus({ window = "address:0xaa" })"#
    );
}
