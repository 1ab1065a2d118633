use velora::mpris::{
    artist_field, bounded_string, micros_value, normalize_player, opaque_player_handle,
    playback_status, player_method, validate_player_name, MprisError, PropValue,
    MAX_ARTIST_ENTRIES, MAX_PLAYER_NAME_CHARS,
};
use velora::protocol::{MediaControlVerb, PlaybackStatus, MAX_STRING_BYTES};

type Props = Vec<(String, PropValue)>;

fn str_value(text: &str) -> PropValue {
    PropValue::Text(text.to_owned())
}

fn string_array(items: &[&str]) -> PropValue {
    PropValue::Array(items.iter().map(|item| Some(item.to_string())).collect())
}

fn metadata_dict(entries: Vec<(&str, PropValue)>) -> PropValue {
    PropValue::Dict(
        entries
            .into_iter()
            .map(|(key, value)| (key.to_owned(), value))
            .collect(),
    )
}

fn full_props(metadata: PropValue) -> Props {
    vec![
        ("PlaybackStatus".to_owned(), str_value("Playing")),
        ("Metadata".to_owned(), metadata),
        ("Position".to_owned(), PropValue::Int64(12_500_000)),
        ("CanPlay".to_owned(), PropValue::Bool(true)),
        ("CanPause".to_owned(), PropValue::Bool(true)),
        ("CanGoNext".to_owned(), PropValue::Bool(true)),
        ("CanGoPrevious".to_owned(), PropValue::Bool(true)),
        ("CanSeek".to_owned(), PropValue::Bool(true)),
        ("CanControl".to_owned(), PropValue::Bool(true)),
    ]
}

fn media2_props(identity: &str) -> Props {
    vec![("Identity".to_owned(), str_value(identity))]
}

fn well_formed_metadata() -> PropValue {
    metadata_dict(vec![
        ("xesam:title", str_value("Velora Theme")),
        ("xesam:artist", string_array(&["Velora", "Guest"])),
        ("xesam:album", str_value("Phase 5")),
        ("mpris:length", PropValue::Int64(250_000_000)),
    ])
}

#[test]
fn normalizes_a_well_formed_player() {
    let player = normalize_player(
        "org.mpris.MediaPlayer2.spotify",
        &media2_props("Spotify"),
        &full_props(well_formed_metadata()),
    )
    .unwrap();
    assert_eq!(player.identity, "Spotify");
    assert_eq!(player.status, PlaybackStatus::Playing);
    assert_eq!(player.title.as_deref(), Some("Velora Theme"));
    assert_eq!(player.artist.as_deref(), Some("Velora, Guest"));
    assert_eq!(player.album.as_deref(), Some("Phase 5"));
    assert_eq!(player.length_micros, Some(250_000_000));
    assert_eq!(player.position_micros, 12_500_000);
    assert!(player.can_play);
    assert!(player.can_pause);
    assert!(player.can_go_next);
    assert!(player.can_go_previous);
    assert!(player.can_seek);
    assert!(player.can_control);
}

#[test]
fn tolerates_missing_metadata_and_flags() {
    let player = normalize_player("org.mpris.MediaPlayer2.spotify", &Vec::new(), &Vec::new())
        .unwrap();
    assert_eq!(player.identity, "");
    assert_eq!(player.status, PlaybackStatus::Stopped);
    assert_eq!(player.title, None);
    assert_eq!(player.artist, None);
    assert_eq!(player.album, None);
    assert_eq!(player.length_micros, None);
    assert_eq!(player.position_micros, 0);
    assert!(!player.can_play);
    assert!(!player.can_pause);
    assert!(!player.can_go_next);
    assert!(!player.can_go_previous);
    assert!(!player.can_seek);
    assert!(!player.can_control);
}

#[test]
fn tolerates_mistyped_fields_without_error() {
    let player_props: Props = vec![
        ("PlaybackStatus".to_owned(), PropValue::Int64(42)),
        (
            "Metadata".to_owned(),
            metadata_dict(vec![
                ("xesam:title", PropValue::Int64(7)),
                ("xesam:artist", PropValue::Bool(true)),
                ("xesam:album", PropValue::UInt64(9)),
                ("mpris:length", str_value("not-a-number")),
            ]),
        ),
        ("Position".to_owned(), str_value("also-not-a-number")),
        ("CanPlay".to_owned(), str_value("yes")),
        ("CanControl".to_owned(), PropValue::Int64(1)),
    ];
    let player =
        normalize_player("org.mpris.MediaPlayer2.spotify", &Vec::new(), &player_props).unwrap();
    assert_eq!(player.status, PlaybackStatus::Stopped);
    assert_eq!(player.title, None);
    assert_eq!(player.artist, None);
    assert_eq!(player.album, None);
    assert_eq!(player.length_micros, None);
    assert_eq!(player.position_micros, 0);
    assert!(!player.can_play);
    assert!(!player.can_control);
}

#[test]
fn ignores_additional_metadata_fields() {
    let metadata = metadata_dict(vec![
        ("xesam:title", str_value("Velora Theme")),
        ("xesam:url", str_value("https://example.com/track")),
        ("xesam:trackNumber", PropValue::Int64(3)),
        ("mpris:artUrl", str_value("https://example.com/art.png")),
    ]);
    let player = normalize_player(
        "org.mpris.MediaPlayer2.spotify",
        &media2_props("Spotify"),
        &full_props(metadata),
    )
    .unwrap();
    assert_eq!(player.title.as_deref(), Some("Velora Theme"));
    assert_eq!(player.album, None);
    assert_eq!(player.length_micros, None);
}

#[test]
fn malformed_metadata_is_a_typed_error() {
    let player_props: Props = vec![("Metadata".to_owned(), str_value("not-a-dictionary"))];
    let error = normalize_player("org.mpris.MediaPlayer2.spotify", &Vec::new(), &player_props)
        .unwrap_err();
    assert!(matches!(error, MprisError::MalformedMetadata { .. }));
}

#[test]
fn playback_status_normalizes_unknown_and_known_values() {
    let statuses = [
        ("Playing", PlaybackStatus::Playing),
        ("Paused", PlaybackStatus::Paused),
        ("Stopped", PlaybackStatus::Stopped),
    ];
    for (raw, expected) in statuses {
        let props: Props = vec![("PlaybackStatus".to_owned(), str_value(raw))];
        assert_eq!(playback_status(&props), expected, "raw status {raw}");
    }
    let unknown: Props = vec![("PlaybackStatus".to_owned(), str_value("Buffering"))];
    assert_eq!(playback_status(&unknown), PlaybackStatus::Stopped);
    assert_eq!(playback_status(&Vec::new()), PlaybackStatus::Stopped);
}

#[test]
fn length_requires_a_positive_value_but_position_accepts_zero() {
    assert_eq!(
        micros_value(Some(&PropValue::Int64(250_000_000))),
        Some(250_000_000)
    );
    assert_eq!(micros_value(Some(&PropValue::Int64(0))), Some(0));
    assert_eq!(micros_value(Some(&PropValue::Int64(-5))), None);
    assert_eq!(
        micros_value(Some(&PropValue::UInt64(250_000_000))),
        Some(250_000_000)
    );
    assert_eq!(micros_value(Some(&str_value("nope"))), None);
}

#[test]
fn artist_arrays_are_bounded_and_single_strings_are_accepted() {
    let metadata: Props = vec![("xesam:artist".to_owned(), str_value("Solo Artist"))];
    assert_eq!(artist_field(&metadata).as_deref(), Some("Solo Artist"));

    let many: Vec<String> = (0..(MAX_ARTIST_ENTRIES + 10))
        .map(|index| format!("Artist {index}"))
        .collect();
    let metadata: Props = vec![(
        "xesam:artist".to_owned(),
        PropValue::Array(many.into_iter().map(Some).collect()),
    )];
    let joined = artist_field(&metadata).unwrap();
    assert!(joined.len() <= MAX_STRING_BYTES);
    assert!(!joined.contains(&format!("Artist {MAX_ARTIST_ENTRIES}")));
}

#[test]
fn mpris_strings_are_trimmed_and_byte_bounded() {
    assert_eq!(bounded_string("  padded  "), "padded");
    let long = "🦀".repeat(MAX_STRING_BYTES + 50);
    let bounded = bounded_string(&long);
    assert!(bounded.len() <= MAX_STRING_BYTES);
    assert!(bounded.chars().count() < long.chars().count());
}

#[test]
fn player_handles_are_opaque_stable_and_collision_free() {
    let spotify = opaque_player_handle("org.mpris.MediaPlayer2.spotify");
    let vlc = opaque_player_handle("org.mpris.MediaPlayer2.vlc");
    assert!(spotify.starts_with("player:"));
    assert!(!spotify.contains("org.mpris"));
    assert_eq!(spotify, opaque_player_handle("org.mpris.MediaPlayer2.spotify"));
    assert_ne!(spotify, vlc);
}

#[test]
fn player_names_are_validated() {
    assert!(validate_player_name("org.mpris.MediaPlayer2.spotify").is_ok());
    assert!(validate_player_name("").is_err());
    let too_long = "x".repeat(MAX_PLAYER_NAME_CHARS + 1);
    assert!(validate_player_name(&too_long).is_err());
}

#[test]
fn control_verbs_map_to_exactly_the_fixed_player_methods() {
    assert_eq!(player_method(MediaControlVerb::Play), "Play");
    assert_eq!(player_method(MediaControlVerb::Pause), "Pause");
    assert_eq!(player_method(MediaControlVerb::PlayPause), "PlayPause");
    assert_eq!(player_method(MediaControlVerb::Stop), "Stop");
    assert_eq!(player_method(MediaControlVerb::Next), "Next");
    assert_eq!(player_method(MediaControlVerb::Previous), "Previous");
}

#[test]
fn double_positions_are_whole_microseconds() {
    assert_eq!(micros_value(Some(&PropValue::Double(Some(42)))), Some(42));
    assert_eq!(micros_value(Some(&PropValue::Double(None))), None);
    assert_eq!(micros_value(None), None);
}

#[test]
fn artist_arrays_skip_non_string_elements() {
    let metadata: Props = vec![(
        "xesam:artist".to_owned(),
        PropValue::Array(vec![Some(" A ".to_owned()), None, Some("B".to_owned())]),
    )];
    assert_eq!(artist_field(&metadata).as_deref(), Some("A, B"));
}
