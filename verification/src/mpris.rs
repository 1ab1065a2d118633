//! The read-only MPRIS adapter's rules: which player names are accepted, the
//! fixed control methods, opaque player handles, and the normalization of a
//! player's raw properties into the protocol model. The bus calls are the
//! caller's.
use vstd::prelude::*;

use crate::hyprland::{default_hash, hash_text, hex16, hex_chars};
use crate::protocol::{
    byte_len, opt_view, string_byte_len, MediaControlVerb, MediaPlayer, PlaybackStatus,
    MAX_STRING_BYTES,
};
use crate::text::{
    append_chars, byte_bounded, chars_of, concat, eq_str, prefix_within, string_of, trim,
    trim_chars, utf8_len,
};

verus! {

/// Maximum length of a player bus name accepted for hashing, in bytes.
pub const MAX_PLAYER_NAME_CHARS: usize = 256;
/// Maximum number of `xesam:artist` entries joined into the single artist
/// string.
pub const MAX_ARTIST_ENTRIES: usize = 16;

/// Typed failure of the adapter.
#[derive(Debug, Clone, PartialEq, Eq)]
pub enum MprisError {
    InvalidPlayerName,
    /// A bus call failed; the player's name and the bus error's message.
    Call { player: String, message: String },
    MalformedMetadata { player: String },
}

/// A player name is accepted when it is non-empty and at most
/// `MAX_PLAYER_NAME_CHARS` bytes long.
pub fn validate_player_name(player_name: &str) -> (r: Result<(), MprisError>)
    ensures
        r is Ok <==> (player_name@.len() > 0 && byte_len(player_name@) <= MAX_PLAYER_NAME_CHARS),
        r is Err ==> r == Err::<(), MprisError>(MprisError::InvalidPlayerName),
{
    if player_name.is_empty() || player_name.len() > MAX_PLAYER_NAME_CHARS {
        Err(MprisError::InvalidPlayerName)
    } else {
        Ok(())
    }
}

pub open spec fn method_of(verb: MediaControlVerb) -> Seq<char> {
    match verb {
        MediaControlVerb::Play => "Play"@,
        MediaControlVerb::Pause => "Pause"@,
        MediaControlVerb::PlayPause => "PlayPause"@,
        MediaControlVerb::Stop => "Stop"@,
        MediaControlVerb::Next => "Next"@,
        MediaControlVerb::Previous => "Previous"@,
    }
}

/// The fixed, argument-free `org.mpris.MediaPlayer2.Player` method each
/// allowlisted verb maps to: the complete write surface.
pub fn player_method(verb: MediaControlVerb) -> (m: &'static str)
    ensures
        m@ == method_of(verb),
{
    match verb {
        MediaControlVerb::Play => "Play",
        MediaControlVerb::Pause => "Pause",
        MediaControlVerb::PlayPause => "PlayPause",
        MediaControlVerb::Stop => "Stop",
        MediaControlVerb::Next => "Next",
        MediaControlVerb::Previous => "Previous",
    }
}

/// The opaque handle of a player: a one-way hash of its bus name.
pub open spec fn player_handle(name: Seq<char>) -> Seq<char> {
    "player:"@ + hex_chars(default_hash(name) as nat, 16)
}

pub fn opaque_player_handle(player_name: &str) -> (r: String)
    ensures
        r@ == player_handle(player_name@),
{
    let h = hash_text(player_name);
    let mut out = chars_of("player:");
    let digits = hex16(h);
    append_chars(&mut out, digits.as_slice());
    string_of(out.as_slice())
}

/// A trimmed, byte-bounded string (`MAX_STRING_BYTES`) that always fits the
/// protocol's ceiling; it never splits a character.
pub open spec fn bounded_text(s: Seq<char>) -> Seq<char> {
    prefix_within(trim(s), MAX_STRING_BYTES as nat)
}

pub fn bounded_string(value: &str) -> (r: String)
    ensures
        r@ == bounded_text(value@),
        utf8_len(r@) <= MAX_STRING_BYTES,
{
    let r = byte_bounded(value, MAX_STRING_BYTES);
    proof {
        crate::text::lemma_prefix_within(trim(value@), MAX_STRING_BYTES as nat);
    }
    r
}

/// Bounded text always fits the protocol's byte ceiling.
pub proof fn lemma_bounded_fits(s: Seq<char>)
    ensures
        byte_len(bounded_text(s)) <= MAX_STRING_BYTES,
{
    crate::text::lemma_prefix_within(trim(s), MAX_STRING_BYTES as nat);
    crate::text::lemma_utf8_len_encode(bounded_text(s));
}

/// One raw property value, holding what normalization reads of it. A
/// double is held as whole microseconds when it is finite and not negative.
#[derive(Debug)]
pub enum PropValue {
    Text(String),
    Bool(bool),
    Int64(i64),
    UInt64(u64),
    Double(Option<u64>),
    /// An array: each element's text when it is a string.
    Array(Vec<Option<String>>),
    /// A dictionary with string keys.
    Dict(Vec<(String, PropValue)>),
    Other,
}

/// The value under `key`, if any.
pub open spec fn prop_from(props: Seq<(String, PropValue)>, key: Seq<char>, i: int) -> Option<PropValue>
    decreases props.len() - i,
{
    if i < 0 || i >= props.len() {
        None
    } else if props[i].0@ == key {
        Some(props[i].1)
    } else {
        prop_from(props, key, i + 1)
    }
}

pub open spec fn prop(props: Seq<(String, PropValue)>, key: Seq<char>) -> Option<PropValue> {
    prop_from(props, key, 0)
}

pub fn get_prop<'a>(props: &'a Vec<(String, PropValue)>, key: &str) -> (r: Option<&'a PropValue>)
    ensures
        match r {
            Some(v) => prop(props@, key@) == Some(*v),
            None => prop(props@, key@) is None,
        },
{
    let mut i: usize = 0;
    while i < props.len()
        invariant
            i <= props@.len(),
            prop_from(props@, key@, 0) == prop_from(props@, key@, i as int),
        decreases props@.len() - i,
    {
        let name = chars_of(props[i].0.as_str());
        if eq_str(name.as_slice(), key) {
            return Some(&props[i].1);
        }
        i = i + 1;
    }
    None
}

/// A text property, bounded; a missing or mistyped value is `None`.
pub open spec fn string_prop(props: Seq<(String, PropValue)>, key: Seq<char>) -> Option<Seq<char>> {
    match prop(props, key) {
        Some(PropValue::Text(s)) => Some(bounded_text(s@)),
        _ => None,
    }
}

pub fn string_field(props: &Vec<(String, PropValue)>, key: &str) -> (r: Option<String>)
    ensures
        opt_view(r) == string_prop(props@, key@),
{
    match get_prop(props, key) {
        Some(PropValue::Text(s)) => Some(bounded_string(s.as_str())),
        _ => None,
    }
}

/// A `Can*` flag; a missing or mistyped value is `false`.
pub open spec fn bool_prop(props: Seq<(String, PropValue)>, key: Seq<char>) -> bool {
    match prop(props, key) {
        Some(PropValue::Bool(b)) => b,
        _ => false,
    }
}

pub fn bool_field(props: &Vec<(String, PropValue)>, key: &str) -> (r: bool)
    ensures
        r == bool_prop(props@, key@),
{
    match get_prop(props, key) {
        Some(PropValue::Bool(b)) => *b,
        _ => false,
    }
}

/// A microsecond value: a non-negative signed integer, an unsigned integer,
/// or a finite non-negative double; anything else is `None`.
pub open spec fn micros(v: Option<PropValue>) -> Option<u64> {
    match v {
        Some(PropValue::Int64(n)) => if n >= 0 {
            Some(n as u64)
        } else {
            None
        },
        Some(PropValue::UInt64(n)) => Some(n),
        Some(PropValue::Double(d)) => d,
        _ => None,
    }
}

pub fn micros_value(v: Option<&PropValue>) -> (r: Option<u64>)
    ensures
        r == micros(
            match v {
                Some(x) => Some(*x),
                None => None,
            },
        ),
{
    match v {
        Some(PropValue::Int64(n)) => if *n >= 0 {
            Some(*n as u64)
        } else {
            None
        },
        Some(PropValue::UInt64(n)) => Some(*n),
        Some(PropValue::Double(d)) => *d,
        _ => None,
    }
}

/// `PlaybackStatus`: `Playing` and `Paused` are kept; anything else,
/// missing or unrecognized, is `Stopped`.
pub open spec fn status_of(props: Seq<(String, PropValue)>) -> PlaybackStatus {
    match prop(props, "PlaybackStatus"@) {
        Some(PropValue::Text(s)) => if trim(s@) == "Playing"@ {
            PlaybackStatus::Playing
        } else if trim(s@) == "Paused"@ {
            PlaybackStatus::Paused
        } else {
            PlaybackStatus::Stopped
        },
        _ => PlaybackStatus::Stopped,
    }
}

pub fn playback_status(props: &Vec<(String, PropValue)>) -> (r: PlaybackStatus)
    ensures
        r == status_of(props@),
{
    match get_prop(props, "PlaybackStatus") {
        Some(PropValue::Text(s)) => {
            let chars = chars_of(s.as_str());
            let t = trim_chars(chars.as_slice());
            if eq_str(t.as_slice(), "Playing") {
                PlaybackStatus::Playing
            } else if eq_str(t.as_slice(), "Paused") {
                PlaybackStatus::Paused
            } else {
                PlaybackStatus::Stopped
            }
        },
        _ => PlaybackStatus::Stopped,
    }
}

/// The texts joined with `sep` between them.
pub open spec fn join(parts: Seq<Seq<char>>, sep: Seq<char>) -> Seq<char>
    decreases parts.len(),
{
    if parts.len() == 0 {
        Seq::empty()
    } else if parts.len() == 1 {
        parts[0]
    } else {
        join(parts.drop_last(), sep) + sep + parts.last()
    }
}

/// The bounded, non-empty artist names of an array, at most
/// `MAX_ARTIST_ENTRIES` of them.
pub open spec fn artist_names(elements: Seq<Option<String>>) -> Seq<Seq<char>>
    decreases elements.len(),
{
    if elements.len() == 0 {
        Seq::empty()
    } else {
        let rest = artist_names(elements.drop_last());
        match elements.last() {
            Some(s) => if bounded_text(s@).len() > 0 && rest.len() < MAX_ARTIST_ENTRIES {
                rest.push(bounded_text(s@))
            } else {
                rest
            },
            None => rest,
        }
    }
}

/// `xesam:artist` as one bounded string: an array of names joined by
/// `, `, or a single name; empty or mistyped values are `None`.
pub open spec fn artist_of(metadata: Seq<(String, PropValue)>) -> Option<Seq<char>> {
    match prop(metadata, "xesam:artist"@) {
        Some(PropValue::Array(elements)) => {
            let names = artist_names(elements@);
            if names.len() == 0 {
                None
            } else {
                Some(bounded_text(join(names, ", "@)))
            }
        },
        Some(PropValue::Text(s)) => if bounded_text(s@).len() == 0 {
            None
        } else {
            Some(bounded_text(bounded_text(s@)))
        },
        _ => None,
    }
}

proof fn lemma_artist_names_capped(elements: Seq<Option<String>>)
    ensures
        artist_names(elements).len() <= MAX_ARTIST_ENTRIES,
    decreases elements.len(),
{
    if elements.len() > 0 {
        lemma_artist_names_capped(elements.drop_last());
    }
}

pub fn artist_field(metadata: &Vec<(String, PropValue)>) -> (r: Option<String>)
    ensures
        opt_view(r) == artist_of(metadata@),
{
    match get_prop(metadata, "xesam:artist") {
        Some(PropValue::Array(elements)) => {
            let mut names: Vec<String> = Vec::new();
            let mut i: usize = 0;
            while i < elements.len()
                invariant
                    i <= elements@.len(),
                    crate::protocol::string_views(names@) == artist_names(elements@.take(i as int)),
                decreases elements@.len() - i,
            {
                proof {
                    assert(elements@.take(i + 1).drop_last() =~= elements@.take(i as int));
                    assert(elements@.take(i + 1).last() == elements@[i as int]);
                    lemma_artist_names_capped(elements@.take(i as int));
                }
                if let Some(text) = &elements[i] {
                    let bounded = bounded_string(text.as_str());
                    if string_byte_len(&bounded) > 0 && names.len() < MAX_ARTIST_ENTRIES {
                        let ghost before = crate::protocol::string_views(names@);
                        proof {
                            crate::text::lemma_utf8_len_encode(bounded@);
                        }
                        names.push(bounded);
                        assert(crate::protocol::string_views(names@) =~= before.push(bounded@));
                    } else {
                        proof {
                            crate::text::lemma_utf8_len_encode(bounded@);
                            if bounded@.len() > 0 {
                                assert(utf8_len(bounded@) > 0);
                            }
                        }
                    }
                }
                i = i + 1;
            }
            assert(elements@.take(i as int) =~= elements@);
            if names.len() == 0 {
                return None;
            }
            let joined = join_names(&names);
            Some(bounded_string(joined.as_str()))
        },
        Some(PropValue::Text(text)) => {
            let bounded = bounded_string(text.as_str());
            if string_byte_len(&bounded) == 0 {
                proof {
                    crate::text::lemma_utf8_len_encode(bounded@);
                    if bounded@.len() > 0 {
                        assert(utf8_len(bounded@) > 0);
                    }
                }
                return None;
            }
            proof {
                crate::text::lemma_utf8_len_encode(bounded@);
            }
            Some(bounded_string(bounded.as_str()))
        },
        _ => None,
    }
}

fn join_names(names: &Vec<String>) -> (r: String)
    requires
        names@.len() > 0,
    ensures
        r@ == join(crate::protocol::string_views(names@), ", "@),
{
    let ghost v = crate::protocol::string_views(names@);
    let mut out = chars_of(names[0].as_str());
    let mut i: usize = 1;
    assert(v.take(1) =~= seq![v[0]]);
    assert(join(v.take(1), ", "@) == v[0]);
    while i < names.len()
        invariant
            1 <= i <= names@.len(),
            v == crate::protocol::string_views(names@),
            out@ == join(v.take(i as int), ", "@),
        decreases names@.len() - i,
    {
        crate::text::append_str(&mut out, ", ");
        let part = chars_of(names[i].as_str());
        append_chars(&mut out, part.as_slice());
        assert(v.take(i + 1).drop_last() =~= v.take(i as int));
        assert(v.take(i + 1).last() == v[i as int]);
        i = i + 1;
    }
    assert(v.take(i as int) =~= v);
    string_of(out.as_slice())
}

/// A player by the views of its fields, in declaration order.
pub type PlayerView = (
    Seq<char>,
    Seq<char>,
    PlaybackStatus,
    Option<Seq<char>>,
    Option<Seq<char>>,
    Option<Seq<char>>,
    Option<u64>,
    u64,
    (bool, bool, bool, bool, bool, bool),
);

pub open spec fn player_view(p: MediaPlayer) -> PlayerView {
    (
        p.handle@,
        p.identity@,
        p.status,
        opt_view(p.title),
        opt_view(p.artist),
        opt_view(p.album),
        p.length_micros,
        p.position_micros,
        (p.can_play, p.can_pause, p.can_go_next, p.can_go_previous, p.can_seek, p.can_control),
    )
}

/// The player's metadata dictionary: empty when absent, refused when it is
/// not a dictionary.
pub open spec fn metadata_of(player: Seq<(String, PropValue)>) -> Option<Seq<(String, PropValue)>> {
    match prop(player, "Metadata"@) {
        None => Some(Seq::empty()),
        Some(PropValue::Dict(entries)) => Some(entries@),
        Some(_) => None,
    }
}

/// The normalized player for the bus name and the two property sets, or
/// `None` when the metadata is malformed. Missing, mistyped and additional
/// fields are tolerated: strings are bounded, a track length must be
/// positive, a position defaults to zero, and flags default to `false`.
pub open spec fn normalized_player(
    name: Seq<char>,
    media2: Seq<(String, PropValue)>,
    player: Seq<(String, PropValue)>,
) -> Option<PlayerView> {
    match metadata_of(player) {
        None => None,
        Some(metadata) => Some(
            (
                player_handle(name),
                match string_prop(media2, "Identity"@) {
                    Some(s) => s,
                    None => Seq::empty(),
                },
                status_of(player),
                string_prop(metadata, "xesam:title"@),
                artist_of(metadata),
                string_prop(metadata, "xesam:album"@),
                match micros(prop(metadata, "mpris:length"@)) {
                    Some(m) => if m > 0 {
                        Some(m)
                    } else {
                        None
                    },
                    None => None,
                },
                match micros(prop(player, "Position"@)) {
                    Some(m) => m,
                    None => 0,
                },
                (
                    bool_prop(player, "CanPlay"@),
                    bool_prop(player, "CanPause"@),
                    bool_prop(player, "CanGoNext"@),
                    bool_prop(player, "CanGoPrevious"@),
                    bool_prop(player, "CanSeek"@),
                    bool_prop(player, "CanControl"@),
                ),
            ),
        ),
    }
}

/// Normalizes raw property dictionaries into a protocol player.
pub fn normalize_player(
    player_name: &str,
    media2: &Vec<(String, PropValue)>,
    player: &Vec<(String, PropValue)>,
) -> (r: Result<MediaPlayer, MprisError>)
    ensures
        match normalized_player(player_name@, media2@, player@) {
            Some(v) => r matches Ok(p) && player_view(p) == v,
            None => r matches Err(MprisError::MalformedMetadata { player: n }) && n@ == player_name@,
        },
        r matches Ok(p) ==> p.strings_fit(),
{
    let empty: Vec<(String, PropValue)> = Vec::new();
    let metadata: &Vec<(String, PropValue)> = match get_prop(player, "Metadata") {
        None => &empty,
        Some(PropValue::Dict(entries)) => entries,
        Some(_) => {
            return Err(MprisError::MalformedMetadata { player: player_name.to_owned() });
        },
    };
    assert(empty@ =~= Seq::<(String, PropValue)>::empty());
    let identity = match string_field(media2, "Identity") {
        Some(s) => s,
        None => String::new(),
    };
    let title = string_field(metadata, "xesam:title");
    let artist = artist_field(metadata);
    let album = string_field(metadata, "xesam:album");
    proof {
        match prop(media2@, "Identity"@) {
            Some(PropValue::Text(t)) => lemma_bounded_fits(t@),
            _ => {
                crate::text::lemma_utf8_len_encode(identity@);
            },
        }
        match prop(metadata@, "xesam:title"@) {
            Some(PropValue::Text(t)) => lemma_bounded_fits(t@),
            _ => {},
        }
        match prop(metadata@, "xesam:album"@) {
            Some(PropValue::Text(t)) => lemma_bounded_fits(t@),
            _ => {},
        }
        match prop(metadata@, "xesam:artist"@) {
            Some(PropValue::Array(elements)) => {
                lemma_bounded_fits(join(artist_names(elements@), ", "@));
            },
            Some(PropValue::Text(t)) => lemma_bounded_fits(bounded_text(t@)),
            _ => {},
        }
    }
    let length_micros = match micros_value(get_prop(metadata, "mpris:length")) {
        Some(m) => if m > 0 {
            Some(m)
        } else {
            None
        },
        None => None,
    };
    let position_micros = match micros_value(get_prop(player, "Position")) {
        Some(m) => m,
        None => 0,
    };
    Ok(
        MediaPlayer {
            handle: opaque_player_handle(player_name),
            identity,
            status: playback_status(player),
            title,
            artist,
            album,
            length_micros,
            position_micros,
            can_play: bool_field(player, "CanPlay"),
            can_pause: bool_field(player, "CanPause"),
            can_go_next: bool_field(player, "CanGoNext"),
            can_go_previous: bool_field(player, "CanGoPrevious"),
            can_seek: bool_field(player, "CanSeek"),
            can_control: bool_field(player, "CanControl"),
        },
    )
}

} // verus!
