use velora::hyprland::{AdapterError, SessionReading};
use velora::protocol::{Window, Workspace, WorkspaceSnapshot};
use velora::session::{
    next_refresh_backoff, SessionState, REFRESH_BACKOFF_BASE_NANOS, REFRESH_BACKOFF_MAX_NANOS,
};

fn reading(sequence: u64, title: &str) -> SessionReading {
    SessionReading {
        snapshot: WorkspaceSnapshot {
            sequence,
            workspaces: vec![Workspace {
                handle: "workspace:1".to_owned(),
                name: "1".to_owned(),
                index: 1,
                monitor: None,
                window_count: 1,
                is_active: true,
                is_special: false,
                is_urgent: false,
            }],
            windows: vec![Window {
                handle: "window:abc".to_owned(),
                workspace_handle: "workspace:1".to_owned(),
                title: title.to_owned(),
                class: "code".to_owned(),
                is_active: true,
                is_floating: false,
                is_fullscreen: false,
            }],
            active_workspace_handle: Some("workspace:1".to_owned()),
            active_window_handle: Some("window:abc".to_owned()),
        },
        window_addresses: vec![("window:abc".to_owned(), "0x55f0aaaa".to_owned())],
    }
}

#[test]
fn refresh_populates_the_store_with_a_monotonic_sequence() {
    let mut state = SessionState::new();
    let next = state.next_sequence();
    assert!(state.apply_reading(reading(next, "Editor"), 10));
    assert_eq!(state.sequence, 1);
    assert_eq!(state.snapshot.as_ref().unwrap().sequence, 1);
    assert!(state.health.has_state);
    assert_eq!(state.health.last_success_nanos, Some(10));
}

#[test]
fn session_store_unchanged_content_keeps_the_published_sequence() {
    let mut state = SessionState::new();
    let next = state.next_sequence();
    assert!(state.apply_reading(reading(next, "Editor"), 1));
    let next = state.next_sequence();
    assert!(!state.apply_reading(reading(next, "Editor"), 2));
    assert_eq!(state.sequence, 1);
    assert_eq!(state.health.successful_refreshes, 2);
}

#[test]
fn changed_content_bumps_the_sequence() {
    let mut state = SessionState::new();
    let next = state.next_sequence();
    state.apply_reading(reading(next, "Editor"), 1);
    let next = state.next_sequence();
    assert!(state.apply_reading(reading(next, "Editor - saved"), 2));
    assert_eq!(state.sequence, 2);
}

#[test]
fn failed_refresh_retains_last_good_state_and_records_health() {
    let mut state = SessionState::new();
    let next = state.next_sequence();
    state.apply_reading(reading(next, "Editor"), 1);
    state.record_failure(&AdapterError::Query("connection refused".to_owned()));
    assert_eq!(state.sequence, 1);
    assert_eq!(state.health.failed_refreshes, 1);
    assert_eq!(
        state.health.last_error.as_deref(),
        Some("Hyprland command socket query failed: connection refused")
    );
    assert_eq!(
        state.resolve_window_address("window:abc").as_deref(),
        Some("0x55f0aaaa")
    );
    assert_eq!(state.resolve_window_address("window:stale"), None);
}

#[test]
fn refresh_backoff_doubles_up_to_its_cap() {
    assert_eq!(next_refresh_backoff(REFRESH_BACKOFF_BASE_NANOS), 500_000_000);
    assert_eq!(next_refresh_backoff(3_000_000_000), REFRESH_BACKOFF_MAX_NANOS);
    assert_eq!(
        next_refresh_backoff(REFRESH_BACKOFF_MAX_NANOS),
        REFRESH_BACKOFF_MAX_NANOS
    );
}
