use serde_json::Value;
use velora::media::{bound_payload, select_focused, MediaState, MediaStoreError};
use velora::protocol::{
    MediaPlayer, MediaSnapshot, PlaybackStatus, MAX_MEDIA_PAYLOAD_BYTES, MAX_MEDIA_PLAYERS,
    MAX_STRING_BYTES,
};

fn opt_text(value: &Option<String>) -> Value {
    match value {
        Some(text) => Value::from(text.clone()),
        None => Value::Null,
    }
}

fn status_text(status: PlaybackStatus) -> &'static str {
    match status {
        PlaybackStatus::Playing => "playing",
        PlaybackStatus::Paused => "paused",
        PlaybackStatus::Stopped => "stopped",
    }
}

fn player_json(player: &MediaPlayer) -> Value {
    let mut map = serde_json::Map::new();
    map.insert("handle".to_owned(), Value::from(player.handle.clone()));
    map.insert("identity".to_owned(), Value::from(player.identity.clone()));
    map.insert("status".to_owned(), Value::from(status_text(player.status)));
    map.insert("title".to_owned(), opt_text(&player.title));
    map.insert("artist".to_owned(), opt_text(&player.artist));
    map.insert("album".to_owned(), opt_text(&player.album));
    map.insert(
        "length_micros".to_owned(),
        match player.length_micros {
            Some(length) => Value::from(length),
            None => Value::Null,
        },
    );
    map.insert("position_micros".to_owned(), Value::from(player.position_micros));
    map.insert("can_play".to_owned(), Value::from(player.can_play));
    map.insert("can_pause".to_owned(), Value::from(player.can_pause));
    map.insert("can_go_next".to_owned(), Value::from(player.can_go_next));
    map.insert("can_go_previous".to_owned(), Value::from(player.can_go_previous));
    map.insert("can_seek".to_owned(), Value::from(player.can_seek));
    map.insert("can_control".to_owned(), Value::from(player.can_control));
    Value::Object(map)
}

/// The length of the snapshot's JSON encoding (field order does not change
/// the length).
fn encoded_len(snapshot: &MediaSnapshot) -> usize {
    let mut map = serde_json::Map::new();
    map.insert("sequence".to_owned(), Value::from(snapshot.sequence));
    map.insert(
        "players".to_owned(),
        Value::Array(snapshot.players.iter().map(player_json).collect()),
    );
    map.insert(
        "active_player_handle".to_owned(),
        opt_text(&snapshot.active_player_handle),
    );
    serde_json::to_string(&Value::Object(map)).unwrap().len()
}

fn player(handle: &str, status: PlaybackStatus) -> MediaPlayer {
    MediaPlayer {
        handle: handle.to_owned(),
        identity: format!("Player {handle}"),
        status,
        title: None,
        artist: None,
        album: None,
        length_micros: None,
        position_micros: 0,
        can_play: true,
        can_pause: true,
        can_go_next: true,
        can_go_previous: true,
        can_seek: true,
        can_control: true,
    }
}

fn apply(store: &mut MediaState, players: Vec<MediaPlayer>) -> Result<bool, MediaStoreError> {
    store.apply(players, encoded_len, 0)
}

#[test]
fn apply_populates_a_monotonic_snapshot() {
    let mut store = MediaState::new();
    assert!(apply(&mut store, vec![player("player:1", PlaybackStatus::Playing)]).unwrap());
    let snapshot = store.current().unwrap();
    assert_eq!(snapshot.sequence, 1);
    assert_eq!(snapshot.players.len(), 1);
    assert_eq!(snapshot.active_player_handle.as_deref(), Some("player:1"));
    snapshot.validate().unwrap();
    assert!(store.health.has_state);
    assert_eq!(store.health.successful_refreshes, 1);
}

#[test]
fn media_store_unchanged_content_keeps_the_published_sequence() {
    let mut store = MediaState::new();
    assert!(apply(&mut store, vec![player("player:1", PlaybackStatus::Playing)]).unwrap());
    assert!(!apply(&mut store, vec![player("player:1", PlaybackStatus::Playing)]).unwrap());
    assert_eq!(store.current().unwrap().sequence, 1);
    assert_eq!(store.health.successful_refreshes, 2);
}

#[test]
fn changed_content_bumps_the_sequence_and_publishes() {
    let mut store = MediaState::new();
    assert!(apply(&mut store, vec![player("player:1", PlaybackStatus::Playing)]).unwrap());
    assert!(apply(&mut store, vec![player("player:1", PlaybackStatus::Paused)]).unwrap());
    assert_eq!(store.current().unwrap().sequence, 2);
    assert_eq!(
        store.current().unwrap().players[0].status,
        PlaybackStatus::Paused
    );
}

#[test]
fn identical_content_is_not_republished() {
    let mut store = MediaState::new();
    assert!(apply(&mut store, vec![player("player:1", PlaybackStatus::Playing)]).unwrap());
    let before = store.current().unwrap();
    assert!(!apply(&mut store, vec![player("player:1", PlaybackStatus::Playing)]).unwrap());
    assert!(std::sync::Arc::ptr_eq(&before, &store.current().unwrap()));
}

#[test]
fn vanished_players_are_replaced_cleanly() {
    let mut store = MediaState::new();
    apply(
        &mut store,
        vec![
            player("player:1", PlaybackStatus::Playing),
            player("player:2", PlaybackStatus::Paused),
        ],
    )
    .unwrap();
    assert_eq!(store.current().unwrap().players.len(), 2);

    apply(&mut store, vec![player("player:2", PlaybackStatus::Paused)]).unwrap();
    let snapshot = store.current().unwrap();
    assert_eq!(snapshot.players.len(), 1);
    assert_eq!(snapshot.players[0].handle, "player:2");

    apply(&mut store, vec![]).unwrap();
    let snapshot = store.current().unwrap();
    assert!(snapshot.players.is_empty());
    assert_eq!(snapshot.active_player_handle, None);
    snapshot.validate().unwrap();
}

#[test]
fn invalid_snapshot_retains_last_good_and_records_health() {
    let mut store = MediaState::new();
    apply(&mut store, vec![player("player:1", PlaybackStatus::Playing)]).unwrap();

    let error = apply(
        &mut store,
        vec![
            player("player:dup", PlaybackStatus::Playing),
            player("player:dup", PlaybackStatus::Paused),
        ],
    )
    .unwrap_err();
    assert!(matches!(error, MediaStoreError::InvalidSnapshot(_)));

    assert_eq!(store.current().unwrap().sequence, 1);
    assert_eq!(store.health.failed_refreshes, 1);
    assert!(store.health.last_error.is_some());
}

#[test]
fn record_failure_retains_last_good_state() {
    let mut store = MediaState::new();
    apply(&mut store, vec![player("player:1", PlaybackStatus::Playing)]).unwrap();

    store.record_failure("boom");
    assert_eq!(store.current().unwrap().sequence, 1);
    assert_eq!(store.health.failed_refreshes, 1);
    assert_eq!(store.health.last_error.as_deref(), Some("boom"));
}

#[test]
fn focused_player_prefers_playing_then_previous_then_first() {
    let paused = player("player:a", PlaybackStatus::Paused);
    let playing = player("player:b", PlaybackStatus::Playing);

    assert_eq!(
        select_focused(&[paused.clone(), playing.clone()], Some("player:a")).as_deref(),
        Some("player:b")
    );
    assert_eq!(
        select_focused(
            &[paused.clone(), player("player:c", PlaybackStatus::Stopped)],
            Some("player:c")
        )
        .as_deref(),
        Some("player:c")
    );
    assert_eq!(
        select_focused(std::slice::from_ref(&paused), Some("player:missing")).as_deref(),
        Some("player:a")
    );
    assert_eq!(select_focused(&[], None), None);
}

#[test]
fn store_is_bounded_to_a_single_snapshot() {
    let mut store = MediaState::new();
    for index in 0..100 {
        apply(
            &mut store,
            vec![player(&format!("player:{index}"), PlaybackStatus::Playing)],
        )
        .unwrap();
    }
    assert_eq!(store.current().unwrap().players.len(), 1);
    assert_eq!(store.health.successful_refreshes, 100);
}

#[test]
fn position_changes_are_meaningful_publications() {
    let mut store = MediaState::new();
    let mut track = player("player:1", PlaybackStatus::Playing);
    track.position_micros = 1_000;
    assert!(apply(&mut store, vec![track.clone()]).unwrap());

    let mut advanced = track;
    advanced.position_micros = 2_000;
    assert!(
        apply(&mut store, vec![advanced]).unwrap(),
        "a position change must republish"
    );
    assert_eq!(store.current().unwrap().sequence, 2);
    assert_eq!(store.current().unwrap().players[0].position_micros, 2_000);
}

fn full_width_player(handle: &str) -> MediaPlayer {
    MediaPlayer {
        handle: handle.to_owned(),
        identity: "i".repeat(MAX_STRING_BYTES),
        status: PlaybackStatus::Playing,
        title: Some("t".repeat(MAX_STRING_BYTES)),
        artist: Some("a".repeat(MAX_STRING_BYTES)),
        album: Some("l".repeat(MAX_STRING_BYTES)),
        length_micros: Some(250_000_000),
        position_micros: 0,
        can_play: true,
        can_pause: true,
        can_go_next: true,
        can_go_previous: true,
        can_seek: true,
        can_control: true,
    }
}

#[test]
fn payload_budget_truncates_optional_metadata() {
    let mut store = MediaState::new();
    let players: Vec<MediaPlayer> = (0..MAX_MEDIA_PLAYERS)
        .map(|index| full_width_player(&format!("player:{index}")))
        .collect();
    assert!(apply(&mut store, players).unwrap());

    let snapshot = store.current().unwrap();
    assert!(
        encoded_len(&snapshot) <= MAX_MEDIA_PAYLOAD_BYTES,
        "served snapshot must never exceed the payload budget"
    );
    assert!(
        snapshot.players[0].title.as_ref().unwrap().len() < MAX_STRING_BYTES,
        "oversized metadata must be truncated to fit"
    );
    snapshot.validate().unwrap();
}

#[test]
fn payload_budget_leaves_small_snapshots_untouched() {
    let mut store = MediaState::new();
    let mut track = player("player:1", PlaybackStatus::Playing);
    track.title = Some("Velora Theme".to_owned());
    track.artist = Some("Velora".to_owned());
    assert!(apply(&mut store, vec![track]).unwrap());

    let snapshot = store.current().unwrap();
    assert_eq!(snapshot.players[0].title.as_deref(), Some("Velora Theme"));
    assert_eq!(snapshot.players[0].artist.as_deref(), Some("Velora"));
    assert!(encoded_len(&snapshot) <= MAX_MEDIA_PAYLOAD_BYTES);
}

#[test]
fn bound_payload_rejects_a_candidate_that_cannot_fit() {
    let players: Vec<MediaPlayer> = (0..64)
        .map(|index| MediaPlayer {
            handle: format!("player:{index:04x}"),
            identity: String::new(),
            status: PlaybackStatus::Stopped,
            title: None,
            artist: None,
            album: None,
            length_micros: None,
            position_micros: 0,
            can_play: true,
            can_pause: true,
            can_go_next: true,
            can_go_previous: true,
            can_seek: true,
            can_control: true,
        })
        .collect();
    let snapshot = MediaSnapshot {
        sequence: 1,
        players,
        active_player_handle: None,
    };
    assert!(
        encoded_len(&snapshot) > MAX_MEDIA_PAYLOAD_BYTES,
        "fixture must actually overflow the budget"
    );
    assert!(bound_payload(snapshot, encoded_len).is_none());
}

#[test]
fn bound_payload_halves_the_longest_string_first() {
    let mut long = player("player:1", PlaybackStatus::Playing);
    long.title = Some("x".repeat(100));
    long.identity = "id".to_owned();
    let snapshot = MediaSnapshot {
        sequence: 3,
        players: vec![long],
        active_player_handle: Some("player:1".to_owned()),
    };
    let budget = encoded_len(&snapshot) - 1;
    let bounded = bound_payload(snapshot, |s: &MediaSnapshot| {
        encoded_len(s) + MAX_MEDIA_PAYLOAD_BYTES - budget
    })
    .unwrap();
    assert_eq!(bounded.players[0].title.as_deref(), Some("x".repeat(50).as_str()));
    assert_eq!(bounded.players[0].identity, "id");
    assert_eq!(bounded.sequence, 3);
    assert_eq!(bounded.active_player_handle.as_deref(), Some("player:1"));
}

#[test]
fn players_are_ordered_by_handle_before_focus_is_chosen() {
    let mut store = MediaState::new();
    apply(
        &mut store,
        vec![
            player("player:b", PlaybackStatus::Paused),
            player("player:a", PlaybackStatus::Paused),
        ],
    )
    .unwrap();
    let snapshot = store.current().unwrap();
    assert_eq!(snapshot.players[0].handle, "player:a");
    assert_eq!(snapshot.players[1].handle, "player:b");
    assert_eq!(snapshot.active_player_handle.as_deref(), Some("player:a"));
}

#[test]
fn unfittable_snapshot_is_refused_and_last_good_kept() {
    let mut store = MediaState::new();
    apply(&mut store, vec![player("player:1", PlaybackStatus::Playing)]).unwrap();
    let error = store
        .apply(
            vec![player("player:2", PlaybackStatus::Playing)],
            |_: &MediaSnapshot| MAX_MEDIA_PAYLOAD_BYTES + 1,
            5,
        )
        .unwrap_err();
    assert_eq!(error, MediaStoreError::PayloadTooLarge);
    assert_eq!(store.current().unwrap().players[0].handle, "player:1");
    assert_eq!(store.health.failed_refreshes, 1);
    assert_eq!(
        store.health.last_error.as_deref(),
        Some("media snapshot exceeds the 4096-byte payload budget")
    );
}
