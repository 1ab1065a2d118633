//! The authoritative media snapshot store: the focused-player rule,
//! changed-only publication, and the payload budget that truncates
//! human-readable strings. Listing and reading the players over the bus, and
//! measuring an encoding, are the caller's.
use std::sync::Arc;
use vstd::prelude::*;

use crate::mpris::{player_view, PlayerView};
use crate::protocol::{
    byte_len, handle_ok, opt_view, player_handles, player_problem, string_byte_len, MediaPlayer,
    MediaSnapshot, MediaSnapshotValidationError, PlaybackStatus, MAX_MEDIA_PAYLOAD_BYTES,
    MAX_MEDIA_PLAYERS, MAX_STRING_BYTES,
};
use crate::session::StoreHealth;
use crate::text::{chars_of, prefix_within, string_of, text_le, text_le_exec};

verus! {

pub open spec fn player_views(ps: Seq<MediaPlayer>) -> Seq<PlayerView> {
    ps.map_values(|p: MediaPlayer| player_view(p))
}

/// The position of the first playing player, if any.
pub open spec fn first_playing(ps: Seq<PlayerView>) -> Option<int> {
    if exists|i: int| 0 <= i < ps.len() && ps[i].2 == PlaybackStatus::Playing {
        Some(
            choose|i: int|
                0 <= i < ps.len() && ps[i].2 == PlaybackStatus::Playing && forall|j: int|
                    0 <= j < i ==> ps[j].2 != PlaybackStatus::Playing,
        )
    } else {
        None
    }
}

/// The focused player: the first one that is playing; otherwise the
/// previously focused one if it is still present; otherwise the first.
pub open spec fn focused(ps: Seq<PlayerView>, previous: Option<Seq<char>>) -> Option<Seq<char>> {
    match first_playing(ps) {
        Some(i) => Some(ps[i].0),
        None => match previous {
            Some(h) if exists|i: int| 0 <= i < ps.len() && ps[i].0 == h => Some(h),
            _ => if ps.len() > 0 {
                Some(ps[0].0)
            } else {
                None
            },
        },
    }
}

pub open spec fn opt_str_view(s: Option<&str>) -> Option<Seq<char>> {
    match s {
        Some(v) => Some(v@),
        None => None,
    }
}

/// Chooses the focused player deterministically.
pub fn select_focused(players: &[MediaPlayer], previous_focused: Option<&str>) -> (r: Option<String>)
    ensures
        opt_view(r) == focused(player_views(players@), opt_str_view(previous_focused)),
{
    let ghost v = player_views(players@);
    let mut i: usize = 0;
    while i < players.len()
        invariant
            i <= players@.len(),
            v == player_views(players@),
            forall|j: int| 0 <= j < i ==> v[j].2 != PlaybackStatus::Playing,
        decreases players@.len() - i,
    {
        assert(v[i as int] == player_view(players@[i as int]));
        if players[i].status == PlaybackStatus::Playing {
            proof {
                let k = choose|k: int|
                    0 <= k < v.len() && v[k].2 == PlaybackStatus::Playing && forall|j: int|
                        0 <= j < k ==> v[j].2 != PlaybackStatus::Playing;
                assert(k == i as int) by {
                    if k > i {
                        assert(v[i as int].2 == PlaybackStatus::Playing);
                    }
                }
            }
            return Some(players[i].handle.clone());
        }
        i = i + 1;
    }
    if let Some(handle) = previous_focused {
        let key = handle.to_owned();
        let mut j: usize = 0;
        while j < players.len()
            invariant
                j <= players@.len(),
                v == player_views(players@),
                key@ == handle@,
                previous_focused == Some(handle),
                forall|k: int| 0 <= k < v.len() ==> v[k].2 != PlaybackStatus::Playing,
                forall|k: int| 0 <= k < j ==> v[k].0 != handle@,
            decreases players@.len() - j,
        {
            assert(v[j as int] == player_view(players@[j as int]));
            if players[j].handle == key {
                assert(v[j as int].0 == handle@);
                assert(first_playing(v) is None);
                return Some(key);
            }
            j = j + 1;
        }
    }
    assert(first_playing(v) is None);
    if players.len() > 0 {
        assert(v[0] == player_view(players@[0]));
        Some(players[0].handle.clone())
    } else {
        None
    }
}

fn opt_eq(a: &Option<String>, b: &Option<String>) -> (r: bool)
    ensures
        r == (opt_view(*a) == opt_view(*b)),
{
    match (a, b) {
        (Some(x), Some(y)) => *x == *y,
        (None, None) => true,
        _ => false,
    }
}

fn player_eq(a: &MediaPlayer, b: &MediaPlayer) -> (r: bool)
    ensures
        r == (player_view(*a) == player_view(*b)),
{
    a.handle == b.handle && a.identity == b.identity && a.status == b.status && opt_eq(
        &a.title,
        &b.title,
    ) && opt_eq(&a.artist, &b.artist) && opt_eq(&a.album, &b.album) && a.length_micros
        == b.length_micros && a.position_micros == b.position_micros && a.can_play == b.can_play
        && a.can_pause == b.can_pause && a.can_go_next == b.can_go_next && a.can_go_previous
        == b.can_go_previous && a.can_seek == b.can_seek && a.can_control == b.can_control
}

/// What a snapshot shows: its players (position included, since playback
/// position is authoritative state) and its focused player.
pub open spec fn media_content(s: MediaSnapshot) -> (Seq<PlayerView>, Option<Seq<char>>) {
    (player_views(s.players@), opt_view(s.active_player_handle))
}

/// Whether two snapshots show the same content, whatever their sequence.
pub fn content_eq(current: &MediaSnapshot, fresh: &MediaSnapshot) -> (r: bool)
    ensures
        r == (media_content(*current) == media_content(*fresh)),
        r == (player_views(current.players@) == player_views(fresh.players@) && opt_view(
            current.active_player_handle,
        ) == opt_view(fresh.active_player_handle)),
{
    let ghost a = player_views(current.players@);
    let ghost b = player_views(fresh.players@);
    if current.players.len() != fresh.players.len() {
        assert(a.len() != b.len());
        return false;
    }
    let mut i: usize = 0;
    while i < current.players.len()
        invariant
            i <= current.players@.len() == fresh.players@.len(),
            a == player_views(current.players@),
            b == player_views(fresh.players@),
            forall|j: int| 0 <= j < i ==> a[j] == b[j],
        decreases current.players@.len() - i,
    {
        if !player_eq(&current.players[i], &fresh.players[i]) {
            assert(a[i as int] != b[i as int]);
            return false;
        }
        i = i + 1;
    }
    assert(a =~= b);
    opt_eq(&current.active_player_handle, &fresh.active_player_handle)
}

/// `p` inserted after every player whose handle does not order after it.
pub open spec fn insert_by_handle(s: Seq<PlayerView>, p: PlayerView) -> Seq<PlayerView>
    decreases s.len(),
{
    if s.len() == 0 {
        seq![p]
    } else if text_le(s.last().0, p.0) {
        s.push(p)
    } else {
        insert_by_handle(s.drop_last(), p).push(s.last())
    }
}

/// A stable sort by handle.
pub open spec fn sort_by_handle(s: Seq<PlayerView>) -> Seq<PlayerView>
    decreases s.len(),
{
    if s.len() == 0 {
        Seq::empty()
    } else {
        insert_by_handle(sort_by_handle(s.drop_last()), s.last())
    }
}

proof fn lemma_insert_by_handle_at(s: Seq<PlayerView>, p: PlayerView, pos: int)
    requires
        0 <= pos <= s.len(),
        pos == 0 || text_le(s[pos - 1].0, p.0),
        forall|k: int| pos <= k < s.len() ==> !text_le(#[trigger] s[k].0, p.0),
    ensures
        insert_by_handle(s, p) == s.take(pos).push(p) + s.skip(pos),
    decreases s.len(),
{
    if s.len() == pos {
        assert(s.skip(pos) =~= Seq::<PlayerView>::empty());
        if pos == 0 {
            assert(s.take(pos).push(p) =~= seq![p]);
        } else {
            assert(s.take(pos) =~= s);
        }
        assert(s.take(pos).push(p) + s.skip(pos) =~= s.take(pos).push(p));
    } else {
        let d = s.drop_last();
        assert(!text_le(s[s.len() - 1].0, p.0));
        assert forall|k: int| pos <= k < d.len() implies !text_le(#[trigger] d[k].0, p.0) by {
            assert(d[k] == s[k]);
        }
        if pos > 0 {
            assert(d[pos - 1] == s[pos - 1]);
        }
        lemma_insert_by_handle_at(d, p, pos);
        assert(d.take(pos) =~= s.take(pos));
        assert((d.take(pos).push(p) + d.skip(pos)).push(s.last()) =~= s.take(pos).push(p) + s.skip(
            pos,
        ));
    }
}

/// Orders players by handle, keeping the read order among equal handles.
pub fn sort_players(players: Vec<MediaPlayer>) -> (r: Vec<MediaPlayer>)
    ensures
        player_views(r@) == sort_by_handle(player_views(players@)),
{
    let ghost all = player_views(players@);
    let mut rest = players;
    let mut out: Vec<MediaPlayer> = Vec::new();
    let ghost mut k: int = 0;
    while rest.len() > 0
        invariant
            0 <= k <= all.len(),
            player_views(rest@) == all.skip(k),
            player_views(out@) == sort_by_handle(all.take(k)),
        decreases rest@.len(),
    {
        let p = rest.remove(0);
        proof {
            assert(all.skip(k)[0] == player_view(p));
            assert(all.skip(k).drop_first() =~= all.skip(k + 1));
            assert(player_views(rest@) =~= all.skip(k + 1));
            assert(all.take(k + 1).drop_last() =~= all.take(k));
            assert(all.take(k + 1).last() == player_view(p));
        }
        let ghost ov = player_views(out@);
        let mut pos: usize = out.len();
        while pos > 0 && !text_le_exec(&out[pos - 1].handle, &p.handle)
            invariant
                pos <= out@.len(),
                ov == player_views(out@),
                forall|j: int| pos <= j < ov.len() ==> !text_le(#[trigger] ov[j].0, p.handle@),
            decreases pos,
        {
            assert(ov[pos - 1] == player_view(out@[pos - 1]));
            pos = pos - 1;
        }
        proof {
            if pos > 0 {
                assert(ov[pos - 1] == player_view(out@[pos - 1]));
            }
            lemma_insert_by_handle_at(ov, player_view(p), pos as int);
        }
        let ghost pv = player_view(p);
        out.insert(pos, p);
        proof {
            assert(player_views(out@) =~= ov.take(pos as int).push(pv) + ov.skip(pos as int));
            k = k + 1;
        }
    }
    assert(all.take(k) =~= all);
    out
}

/// A truncatable string of a player: the human-readable identity and the
/// optional metadata. Handles, status, numbers and flags are never touched.
#[derive(Debug, Clone, Copy, PartialEq, Eq, Structural)]
pub enum StringField {
    Identity,
    Title,
    Artist,
    Album,
}

pub open spec fn opt_len(s: Option<Seq<char>>) -> nat {
    match s {
        Some(t) => byte_len(t) as nat,
        None => 0,
    }
}

/// The field's length in bytes; zero for an absent optional field.
pub open spec fn field_len(f: StringField, p: PlayerView) -> nat {
    match f {
        StringField::Identity => byte_len(p.1) as nat,
        StringField::Title => opt_len(p.3),
        StringField::Artist => opt_len(p.4),
        StringField::Album => opt_len(p.5),
    }
}

/// A text cut to the longest prefix that fits half its byte length.
pub open spec fn halved(s: Seq<char>) -> Seq<char> {
    prefix_within(s, (byte_len(s) / 2) as nat)
}

pub open spec fn halved_opt(s: Option<Seq<char>>) -> Option<Seq<char>> {
    match s {
        Some(t) => Some(halved(t)),
        None => None,
    }
}

/// The player with the field halved.
pub open spec fn shrunk(f: StringField, p: PlayerView) -> PlayerView {
    match f {
        StringField::Identity => (p.0, halved(p.1), p.2, p.3, p.4, p.5, p.6, p.7, p.8),
        StringField::Title => (p.0, p.1, p.2, halved_opt(p.3), p.4, p.5, p.6, p.7, p.8),
        StringField::Artist => (p.0, p.1, p.2, p.3, halved_opt(p.4), p.5, p.6, p.7, p.8),
        StringField::Album => (p.0, p.1, p.2, p.3, p.4, halved_opt(p.5), p.6, p.7, p.8),
    }
}

fn opt_byte_len(s: &Option<String>) -> (n: usize)
    ensures
        n == opt_len(opt_view(*s)),
{
    match s {
        Some(t) => string_byte_len(t),
        None => 0,
    }
}

fn halve(text: &String) -> (r: String)
    ensures
        r@ == halved(text@),
{
    let half = string_byte_len(text) / 2;
    crate::text::prefix_bytes(text.as_str(), half)
}

fn halve_opt(text: &Option<String>) -> (r: Option<String>)
    ensures
        opt_view(r) == halved_opt(opt_view(*text)),
{
    match text {
        Some(t) => Some(halve(t)),
        None => None,
    }
}

impl StringField {
    pub fn len(self, player: &MediaPlayer) -> (n: usize)
        ensures
            n == field_len(self, player_view(*player)),
    {
        match self {
            StringField::Identity => string_byte_len(&player.identity),
            StringField::Title => opt_byte_len(&player.title),
            StringField::Artist => opt_byte_len(&player.artist),
            StringField::Album => opt_byte_len(&player.album),
        }
    }

    /// Halves the field, cutting at a character boundary.
    pub fn shrink(self, player: &mut MediaPlayer)
        ensures
            player_view(*final(player)) == shrunk(self, player_view(*old(player))),
    {
        match self {
            StringField::Identity => {
                let t = halve(&player.identity);
                player.identity = t;
            },
            StringField::Title => {
                let t = halve_opt(&player.title);
                player.title = t;
            },
            StringField::Artist => {
                let t = halve_opt(&player.artist);
                player.artist = t;
            },
            StringField::Album => {
                let t = halve_opt(&player.album);
                player.album = t;
            },
        }
    }
}

/// One candidate weighed against the best so far: it wins only when it is
/// non-empty and strictly longer, so ties keep the earlier candidate.
pub open spec fn better(best: Option<(int, StringField, nat)>, i: int, f: StringField, len: nat) -> Option<(int, StringField, nat)> {
    if len > 0 && (best is None || len > best.unwrap().2) {
        Some((i, f, len))
    } else {
        best
    }
}

/// The best candidate after weighing one player's fields in order.
pub open spec fn best_with(best: Option<(int, StringField, nat)>, i: int, p: PlayerView) -> Option<(int, StringField, nat)> {
    let b1 = better(best, i, StringField::Identity, field_len(StringField::Identity, p));
    let b2 = better(b1, i, StringField::Title, field_len(StringField::Title, p));
    let b3 = better(b2, i, StringField::Artist, field_len(StringField::Artist, p));
    better(b3, i, StringField::Album, field_len(StringField::Album, p))
}

/// The longest truncatable field among the first `n` players.
pub open spec fn best_among(ps: Seq<PlayerView>, n: int) -> Option<(int, StringField, nat)>
    decreases n,
{
    if n <= 0 {
        None
    } else {
        best_with(best_among(ps, n - 1), n - 1, ps[n - 1])
    }
}

/// The longest non-empty truncatable field, the earliest among equals.
pub open spec fn longest(ps: Seq<PlayerView>) -> Option<(int, StringField)> {
    match best_among(ps, ps.len() as int) {
        Some((i, f, _)) => Some((i, f)),
        None => None,
    }
}

proof fn lemma_best_among(ps: Seq<PlayerView>, n: int)
    requires
        0 <= n <= ps.len(),
    ensures
        best_among(ps, n) matches Some(b) ==> 0 <= b.0 < n && b.2 > 0 && b.2 == field_len(b.1, ps[b.0]),
    decreases n,
{
    if n > 0 {
        lemma_best_among(ps, n - 1);
    }
}

fn weigh(best: Option<(usize, StringField, usize)>, i: usize, f: StringField, len: usize) -> (r: Option<(usize, StringField, usize)>)
    ensures
        opt_best(r) == better(opt_best(best), i as int, f, len as nat),
{
    match best {
        Some((_, _, max)) => if len > 0 && len > max {
            Some((i, f, len))
        } else {
            best
        },
        None => if len > 0 {
            Some((i, f, len))
        } else {
            None
        },
    }
}

pub open spec fn opt_best(b: Option<(usize, StringField, usize)>) -> Option<(int, StringField, nat)> {
    match b {
        Some((i, f, n)) => Some((i as int, f, n as nat)),
        None => None,
    }
}

/// The longest non-empty truncatable field of the snapshot's players.
pub fn longest_optional_field(snapshot: &MediaSnapshot) -> (r: Option<(usize, StringField)>)
    ensures
        match longest(player_views(snapshot.players@)) {
            Some((i, f)) => r == Some((i as usize, f)),
            None => r is None,
        },
{
    let ghost v = player_views(snapshot.players@);
    let mut best: Option<(usize, StringField, usize)> = None;
    let mut i: usize = 0;
    while i < snapshot.players.len()
        invariant
            i <= snapshot.players@.len(),
            v == player_views(snapshot.players@),
            opt_best(best) == best_among(v, i as int),
        decreases snapshot.players@.len() - i,
    {
        let player = &snapshot.players[i];
        assert(v[i as int] == player_view(*player));
        let b1 = weigh(best, i, StringField::Identity, StringField::Identity.len(player));
        let b2 = weigh(b1, i, StringField::Title, StringField::Title.len(player));
        let b3 = weigh(b2, i, StringField::Artist, StringField::Artist.len(player));
        best = weigh(b3, i, StringField::Album, StringField::Album.len(player));
        i = i + 1;
    }
    match best {
        Some((index, field, _)) => Some((index, field)),
        None => None,
    }
}


/// The players after halving their longest truncatable field, or `None`
/// when no field is left to shrink.
pub open spec fn shrink_once(ps: Seq<PlayerView>) -> Option<Seq<PlayerView>> {
    match longest(ps) {
        Some((i, f)) => Some(ps.update(i, shrunk(f, ps[i]))),
        None => None,
    }
}

/// The players after `k` rounds of shrinking.
pub open spec fn shrink_rounds(ps: Seq<PlayerView>, k: nat) -> Option<Seq<PlayerView>>
    decreases k,
{
    if k == 0 {
        Some(ps)
    } else {
        match shrink_rounds(ps, (k - 1) as nat) {
            Some(q) => shrink_once(q),
            None => None,
        }
    }
}

/// Some measurement of a snapshot with these players, sequence and focus
/// came out over the payload budget.
pub open spec fn oversize_seen<F: Fn(&MediaSnapshot) -> usize>(
    size: F,
    sequence: u64,
    ps: Seq<PlayerView>,
    active: Option<String>,
) -> bool {
    exists|c: MediaSnapshot, n: usize|
        #![trigger size.ensures((&c,), n)]
        c.sequence == sequence && player_views(c.players@) == ps && c.active_player_handle == active
            && size.ensures((&c,), n) && n > MAX_MEDIA_PAYLOAD_BYTES
}

/// Every round before the `k`-th was measured over the budget.
pub open spec fn rounds_oversized<F: Fn(&MediaSnapshot) -> usize>(
    size: F,
    s: MediaSnapshot,
    k: nat,
) -> bool {
    forall|j: nat|
        j < k ==> #[trigger] shrink_rounds(player_views(s.players@), j) is Some && oversize_seen(
            size,
            s.sequence,
            shrink_rounds(player_views(s.players@), j).unwrap(),
            s.active_player_handle,
        )
}

/// The total byte length of a player's truncatable fields.
pub open spec fn fields_len(p: PlayerView) -> nat {
    field_len(StringField::Identity, p) + field_len(StringField::Title, p) + field_len(
        StringField::Artist,
        p,
    ) + field_len(StringField::Album, p)
}

pub open spec fn total_len(ps: Seq<PlayerView>) -> nat
    decreases ps.len(),
{
    if ps.len() == 0 {
        0
    } else {
        total_len(ps.drop_last()) + fields_len(ps.last())
    }
}

proof fn lemma_total_len_update(ps: Seq<PlayerView>, i: int, q: PlayerView)
    requires
        0 <= i < ps.len(),
    ensures
        total_len(ps.update(i, q)) + fields_len(ps[i]) == total_len(ps) + fields_len(q),
    decreases ps.len(),
{
    let u = ps.update(i, q);
    if i == ps.len() - 1 {
        assert(u.drop_last() =~= ps.drop_last());
    } else {
        lemma_total_len_update(ps.drop_last(), i, q);
        assert(u.drop_last() =~= ps.drop_last().update(i, q));
    }
}

proof fn lemma_halved_shorter(t: Seq<char>)
    requires
        byte_len(t) > 0,
    ensures
        byte_len(halved(t)) < byte_len(t),
{
    crate::text::lemma_prefix_within(t, (byte_len(t) / 2) as nat);
    crate::text::lemma_utf8_len_encode(halved(t));
}

proof fn lemma_shrunk_shorter(f: StringField, p: PlayerView)
    requires
        field_len(f, p) > 0,
    ensures
        fields_len(shrunk(f, p)) < fields_len(p),
{
    match f {
        StringField::Identity => lemma_halved_shorter(p.1),
        StringField::Title => lemma_halved_shorter(p.3.unwrap()),
        StringField::Artist => lemma_halved_shorter(p.4.unwrap()),
        StringField::Album => lemma_halved_shorter(p.5.unwrap()),
    }
}

/// Bounds a snapshot to `MAX_MEDIA_PAYLOAD_BYTES` by halving its longest
/// truncatable string (the earliest among equals) until `size`, which
/// measures a snapshot's encoding, fits it. Sequence and focus are kept.
/// `None` when the snapshot is still over the budget with no string left
/// to shrink.
#[verifier::loop_isolation(false)]
pub fn bound_payload<F: Fn(&MediaSnapshot) -> usize>(snapshot: MediaSnapshot, size: F) -> (r: Option<MediaSnapshot>)
    requires
        forall|c: &MediaSnapshot| size.requires((c,)),
    ensures
        match r {
            Some(out) => bounded_from(size, snapshot, out),
            None => unfittable(size, snapshot),
        },
{
    let ghost init = snapshot;
    let ghost v0 = player_views(snapshot.players@);
    let mut snapshot = snapshot;
    let ghost mut k: nat = 0;
    loop
        invariant
            forall|c: &MediaSnapshot| size.requires((c,)),
            snapshot.sequence == init.sequence,
            snapshot.active_player_handle == init.active_player_handle,
            v0 == player_views(init.players@),
            shrink_rounds(v0, k) == Some(player_views(snapshot.players@)),
            rounds_oversized(size, init, k),
        decreases total_len(player_views(snapshot.players@)),
    {
        let measured = size(&snapshot);
        if measured <= MAX_MEDIA_PAYLOAD_BYTES {
            assert(size.ensures((&snapshot,), measured));
            assert(shrink_rounds(v0, k) == Some(player_views(snapshot.players@))
                && rounds_oversized(size, init, k));
            return Some(snapshot);
        }
        let ghost cur = player_views(snapshot.players@);
        assert(oversize_seen(size, init.sequence, cur, init.active_player_handle));
        match longest_optional_field(&snapshot) {
            None => {
                assert(shrink_once(cur) is None);
                assert(rounds_oversized(size, init, k + 1)) by {
                    assert forall|j: nat| j < k + 1 implies #[trigger] shrink_rounds(v0, j) is Some
                        && oversize_seen(size, init.sequence, shrink_rounds(v0, j).unwrap(), init.active_player_handle) by {
                        if j < k {
                            assert(rounds_oversized(size, init, k));
                        }
                    }
                }
                assert(shrink_once(shrink_rounds(v0, k).unwrap()) is None);
                return None;
            },
            Some((index, field)) => {
                proof {
                    lemma_best_among(cur, cur.len() as int);
                }
                let mut player = snapshot.players.remove(index);
                field.shrink(&mut player);
                let ghost q = player_view(player);
                snapshot.players.insert(index, player);
                proof {
                    assert(player_views(snapshot.players@) =~= cur.update(index as int, q));
                    assert(shrink_once(cur) == Some(cur.update(index as int, q)));
                    assert(shrink_rounds(v0, k + 1) == shrink_once(cur));
                    lemma_shrunk_shorter(field, cur[index as int]);
                    lemma_total_len_update(cur, index as int, q);
                    assert forall|j: nat| j < k + 1 implies #[trigger] shrink_rounds(v0, j) is Some
                        && oversize_seen(size, init.sequence, shrink_rounds(v0, j).unwrap(), init.active_player_handle) by {
                        if j < k {
                            assert(rounds_oversized(size, init, k));
                        }
                    }
                    k = k + 1;
                }
            },
        }
    }
}


/// A snapshot with these players (by view), sequence and focus.
pub open spec fn is_candidate(c: MediaSnapshot, sequence: u64, ps: Seq<PlayerView>, focus: Option<Seq<char>>) -> bool {
    c.sequence == sequence && player_views(c.players@) == ps && opt_view(c.active_player_handle) == focus
}

/// `out` is what bounding `c` gives: the same sequence and focus, some
/// number of shrinking rounds each measured over the budget before it, and
/// a measurement of `out` within the budget.
pub open spec fn bounded_from<F: Fn(&MediaSnapshot) -> usize>(size: F, c: MediaSnapshot, out: MediaSnapshot) -> bool {
    &&& out.sequence == c.sequence
    &&& out.active_player_handle == c.active_player_handle
    &&& exists|n: usize| size.ensures((&out,), n) && n <= MAX_MEDIA_PAYLOAD_BYTES
    &&& exists|k: nat|
        shrink_rounds(player_views(c.players@), k) == Some(player_views(out.players@))
            && rounds_oversized(size, c, k)
}

/// Bounding `c` ran out of strings to shrink while still over the budget.
pub open spec fn unfittable<F: Fn(&MediaSnapshot) -> usize>(size: F, c: MediaSnapshot) -> bool {
    exists|k: nat|
        {
            &&& rounds_oversized(size, c, k + 1)
            &&& shrink_once(shrink_rounds(player_views(c.players@), k).unwrap()) is None
        }
}

/// Typed failure of the media store. A missing bus, a denied read or an
/// invalid snapshot never publishes partial state.
#[derive(Debug, Clone, PartialEq, Eq)]
pub enum MediaStoreError {
    InvalidAddress,
    Connect(String),
    ListPlayers(crate::dbus::DbusError),
    InvalidSnapshot(MediaSnapshotValidationError),
    PayloadTooLarge,
    TimedOut,
}

impl MediaStoreError {
    /// What the error reads as.
    pub open spec fn message_text(self) -> Seq<char> {
        match self {
            MediaStoreError::InvalidAddress => "session bus address override is not valid UTF-8"@,
            MediaStoreError::Connect(reason) => "failed to connect to the session bus: "@ + reason@,
            MediaStoreError::ListPlayers(error) => "failed to list MPRIS players: "@ + error.message_text(),
            MediaStoreError::InvalidSnapshot(error) => "built media snapshot failed validation: "@
                + crate::protocol::media_validation_text(error),
            MediaStoreError::PayloadTooLarge => "media snapshot exceeds the 4096-byte payload budget"@,
            MediaStoreError::TimedOut => "media snapshot refresh timed out"@,
        }
    }

    /// The error's text.
    pub fn message(&self) -> (m: String)
        ensures
            m@ == self.message_text(),
    {
        match self {
            MediaStoreError::InvalidAddress => "session bus address override is not valid UTF-8".to_owned(),
            MediaStoreError::Connect(reason) => crate::text::concat(
                "failed to connect to the session bus: ",
                reason.as_str(),
            ),
            MediaStoreError::ListPlayers(error) => {
                let inner = error.message();
                crate::text::concat("failed to list MPRIS players: ", inner.as_str())
            },
            MediaStoreError::InvalidSnapshot(error) => {
                let inner = crate::protocol::media_validation_message(*error);
                crate::text::concat("built media snapshot failed validation: ", inner)
            },
            MediaStoreError::PayloadTooLarge => "media snapshot exceeds the 4096-byte payload budget".to_owned(),
            MediaStoreError::TimedOut => "media snapshot refresh timed out".to_owned(),
        }
    }
}

pub open spec fn media_arc_view(s: Option<Arc<MediaSnapshot>>) -> Option<MediaSnapshot> {
    match s {
        Some(a) => Some(*a),
        None => None,
    }
}

/// The focused handle of a published snapshot, if any.
pub open spec fn published_focus(s: Option<MediaSnapshot>) -> Option<Seq<char>> {
    match s {
        Some(v) => opt_view(v.active_player_handle),
        None => None,
    }
}

/// The store's state: exactly one published snapshot (no history), its
/// sequence, and health.
pub struct MediaState {
    pub sequence: u64,
    pub snapshot: Option<Arc<MediaSnapshot>>,
    pub health: StoreHealth,
}

impl MediaState {
    /// The published snapshot, if any, passes validation and carries the
    /// state's sequence.
    pub open spec fn inv(&self) -> bool {
        match media_arc_view(self.snapshot) {
            Some(s) => s.validation() is Ok && s.sequence == self.sequence,
            None => self.sequence == 0,
        }
    }

    pub fn new() -> (s: Self)
        ensures
            s.inv(),
            s.sequence == 0,
            s.snapshot is None,
            !s.health.has_state,
            s.health.successful_refreshes == 0,
            s.health.failed_refreshes == 0,
            s.health.last_error is None,
    {
        MediaState { sequence: 0, snapshot: None, health: StoreHealth::new() }
    }

    /// The cached snapshot, or `None` before the first successful refresh.
    pub fn current(&self) -> (r: Option<Arc<MediaSnapshot>>)
        ensures
            media_arc_view(r) == media_arc_view(self.snapshot),
    {
        match &self.snapshot {
            Some(s) => Some(crate::telemetry::runtime::share(s)),
            None => None,
        }
    }

    /// Replaces the authoritative snapshot from a freshly read player list
    /// at monotonic time `now_nanos`. The players are ordered by handle, the
    /// focused player chosen, the candidate validated and bounded to the
    /// payload budget with `size`; it is published only when its content
    /// differs from the current snapshot. Returns whether it was published.
    /// A failure keeps the last good snapshot and records health.
    pub fn apply<F: Fn(&MediaSnapshot) -> usize>(&mut self, players: Vec<MediaPlayer>, size: F, now_nanos: u128) -> (r: Result<bool, MediaStoreError>)
        requires
            old(self).inv(),
            forall|c: &MediaSnapshot| size.requires((c,)),
            old(self).sequence < u64::MAX,
            old(self).health.successful_refreshes < u64::MAX,
            old(self).health.failed_refreshes < u64::MAX,
        ensures
            final(self).inv(),
            ({
                let sorted = sort_by_handle(player_views(players@));
                let focus = focused(sorted, published_focus(media_arc_view(old(self).snapshot)));
                let next = (old(self).sequence + 1) as u64;
                match r {
                    Ok(changed) => exists|c: MediaSnapshot, out: MediaSnapshot|
                        {
                            &&& is_candidate(c, next, sorted, focus)
                            &&& c.validation() is Ok
                            &&& bounded_from(size, c, out)
                            &&& out.validation() is Ok
                            &&& changed == (media_arc_view(old(self).snapshot) is None || media_content(
                                media_arc_view(old(self).snapshot).unwrap(),
                            ) != media_content(out))
                            &&& changed ==> final(self).sequence == next && media_arc_view(
                                final(self).snapshot,
                            ) == Some(out)
                            &&& !changed ==> final(self).sequence == old(self).sequence
                                && final(self).snapshot == old(self).snapshot
                        },
                    Err(MediaStoreError::InvalidSnapshot(e)) => exists|c: MediaSnapshot|
                        is_candidate(c, next, sorted, focus) && c.validation() == Err::<(), _>(e),
                    Err(MediaStoreError::PayloadTooLarge) => exists|c: MediaSnapshot|
                        is_candidate(c, next, sorted, focus) && c.validation() is Ok && unfittable(
                            size,
                            c,
                        ),
                    Err(_) => false,
                }
            }),
            r is Ok ==> {
                &&& final(self).health.has_state
                &&& final(self).health.successful_refreshes == old(self).health.successful_refreshes + 1
                &&& final(self).health.failed_refreshes == old(self).health.failed_refreshes
                &&& final(self).health.last_success_nanos == Some(now_nanos)
                &&& final(self).health.last_error is None
            },
            r is Err ==> {
                &&& final(self).sequence == old(self).sequence
                &&& final(self).snapshot == old(self).snapshot
                &&& final(self).health.has_state == old(self).health.has_state
                &&& final(self).health.successful_refreshes == old(self).health.successful_refreshes
                &&& final(self).health.failed_refreshes == old(self).health.failed_refreshes + 1
                &&& final(self).health.last_success_nanos == old(self).health.last_success_nanos
                &&& final(self).health.last_error matches Some(m) && m@ == r->Err_0.message_text()
            },
    {
        let players = sort_players(players);
        let next_sequence = self.sequence + 1;
        let previous_focused: Option<&str> = match &self.snapshot {
            Some(s) => match &s.active_player_handle {
                Some(h) => Some(h.as_str()),
                None => None,
            },
            None => None,
        };
        let ghost sorted = player_views(players@);
        let ghost focus = focused(sorted, published_focus(media_arc_view(self.snapshot)));
        assert(opt_str_view(previous_focused) == published_focus(media_arc_view(self.snapshot)));
        let active_player_handle = select_focused(players.as_slice(), previous_focused);
        let fresh = MediaSnapshot { sequence: next_sequence, players, active_player_handle };
        assert(is_candidate(fresh, next_sequence, sorted, focus));
        if let Err(error) = fresh.validate() {
            assert(is_candidate(fresh, next_sequence, sorted, focus) && fresh.validation() == Err::<(), _>(error));
            let failure = MediaStoreError::InvalidSnapshot(error);
            self.health.failed_refreshes = self.health.failed_refreshes + 1;
            self.health.last_error = Some(failure.message());
            return Err(failure);
        }
        let ghost c = fresh;
        let fresh = match bound_payload(fresh, size) {
            Some(out) => out,
            None => {
                assert(is_candidate(c, next_sequence, sorted, focus) && c.validation() is Ok && unfittable(size, c));
                let failure = MediaStoreError::PayloadTooLarge;
                self.health.failed_refreshes = self.health.failed_refreshes + 1;
                self.health.last_error = Some(failure.message());
                return Err(failure);
            },
        };
        let changed = match &self.snapshot {
            None => true,
            Some(current) => !content_eq(&**current, &fresh),
        };
        let ghost out = fresh;
        if changed {
            self.sequence = next_sequence;
            self.snapshot = Some(Arc::new(fresh));
        }
        self.health.has_state = true;
        self.health.successful_refreshes = self.health.successful_refreshes + 1;
        self.health.last_success_nanos = Some(now_nanos);
        self.health.last_error = None;
        proof {
            lemma_bounded_snapshot_validates(size, c, out);
        }
        assert(is_candidate(c, next_sequence, sorted, focus) && c.validation() is Ok && bounded_from(size, c, out));
        Ok(changed)
    }

    /// A refresh failed: the last good snapshot is kept and the failure
    /// recorded.
    pub fn record_failure(&mut self, error: &str)
        requires
            old(self).health.failed_refreshes < u64::MAX,
        ensures
            old(self).inv() ==> final(self).inv(),
            final(self).sequence == old(self).sequence,
            final(self).snapshot == old(self).snapshot,
            final(self).health.failed_refreshes == old(self).health.failed_refreshes + 1,
            final(self).health.successful_refreshes == old(self).health.successful_refreshes,
            final(self).health.has_state == old(self).health.has_state,
            final(self).health.last_success_nanos == old(self).health.last_success_nanos,
            final(self).health.last_error is Some && final(self).health.last_error.unwrap()@ == error@,
    {
        self.health.failed_refreshes = self.health.failed_refreshes + 1;
        self.health.last_error = Some(error.to_owned());
    }
}


/// A player's human-readable strings fit the byte ceiling, by view.
pub open spec fn view_fits(p: PlayerView) -> bool {
    &&& byte_len(p.1) <= MAX_STRING_BYTES
    &&& (p.3 matches Some(t) ==> byte_len(t) <= MAX_STRING_BYTES)
    &&& (p.4 matches Some(t) ==> byte_len(t) <= MAX_STRING_BYTES)
    &&& (p.5 matches Some(t) ==> byte_len(t) <= MAX_STRING_BYTES)
}

pub open spec fn view_handles(ps: Seq<PlayerView>) -> Seq<Seq<char>> {
    ps.map_values(|p: PlayerView| p.0)
}

/// What snapshot validation checks, stated over the players' views and the
/// focused handle.
pub open spec fn views_valid(ps: Seq<PlayerView>, active: Option<Seq<char>>) -> bool {
    &&& ps.len() <= MAX_MEDIA_PLAYERS
    &&& forall|i: int| 0 <= i < ps.len() ==> handle_ok(view_handles(ps), i) && view_fits(#[trigger] ps[i])
    &&& (active matches Some(h) ==> view_handles(ps).contains(h))
}

proof fn lemma_player_problem_none(ps: Seq<MediaPlayer>, i: int)
    requires
        0 <= i <= ps.len(),
    ensures
        player_problem(ps, i) is None <==> forall|j: int|
            i <= j < ps.len() ==> handle_ok(player_handles(ps), j) && (#[trigger] ps[j]).strings_fit(),
    decreases ps.len() - i,
{
    if i < ps.len() {
        lemma_player_problem_none(ps, i + 1);
        if player_problem(ps, i) is None {
            assert forall|j: int| i <= j < ps.len() implies handle_ok(player_handles(ps), j)
                && (#[trigger] ps[j]).strings_fit() by {
                if j > i {
                    assert(i + 1 <= j);
                }
            }
        }
    }
}

proof fn lemma_validation_views(s: MediaSnapshot)
    ensures
        s.validation() is Ok <==> views_valid(player_views(s.players@), opt_view(s.active_player_handle)),
{
    let ps = s.players@;
    let vs = player_views(ps);
    lemma_player_problem_none(ps, 0);
    assert(view_handles(vs) =~= player_handles(ps));
    assert forall|i: int| 0 <= i < ps.len() implies (#[trigger] ps[i]).strings_fit() == view_fits(vs[i]) by {
        assert(vs[i] == player_view(ps[i]));
    }
    if s.validation() is Ok {
        assert forall|i: int| 0 <= i < vs.len() implies handle_ok(view_handles(vs), i) && view_fits(#[trigger] vs[i]) by {
            assert(ps[i].strings_fit());
        }
    }
    if views_valid(vs, opt_view(s.active_player_handle)) {
        assert forall|j: int| 0 <= j < ps.len() implies handle_ok(player_handles(ps), j) && (#[trigger] ps[j]).strings_fit() by {
            assert(view_fits(vs[j]));
        }
    }
}

proof fn lemma_halved_le(t: Seq<char>)
    ensures
        byte_len(halved(t)) <= byte_len(t),
{
    crate::text::lemma_prefix_within(t, (byte_len(t) / 2) as nat);
    crate::text::lemma_utf8_len_encode(halved(t));
}

proof fn lemma_shrink_once_valid(ps: Seq<PlayerView>, active: Option<Seq<char>>)
    requires
        views_valid(ps, active),
        shrink_once(ps) is Some,
    ensures
        views_valid(shrink_once(ps).unwrap(), active),
{
    let (i, f) = longest(ps).unwrap();
    lemma_best_among(ps, ps.len() as int);
    let q = shrunk(f, ps[i]);
    let ps2 = ps.update(i, q);
    assert(view_handles(ps2) =~= view_handles(ps));
    match f {
        StringField::Identity => lemma_halved_le(ps[i].1),
        StringField::Title => if ps[i].3 is Some {
            lemma_halved_le(ps[i].3.unwrap());
        },
        StringField::Artist => if ps[i].4 is Some {
            lemma_halved_le(ps[i].4.unwrap());
        },
        StringField::Album => if ps[i].5 is Some {
            lemma_halved_le(ps[i].5.unwrap());
        },
    }
    assert(view_fits(ps[i]));
    assert(view_fits(q));
    assert forall|j: int| 0 <= j < ps2.len() implies handle_ok(view_handles(ps2), j) && view_fits(#[trigger] ps2[j]) by {
        if j != i {
            assert(ps2[j] == ps[j]);
        }
    }
}

proof fn lemma_shrink_rounds_valid(ps: Seq<PlayerView>, active: Option<Seq<char>>, k: nat)
    requires
        views_valid(ps, active),
        shrink_rounds(ps, k) is Some,
    ensures
        views_valid(shrink_rounds(ps, k).unwrap(), active),
    decreases k,
{
    if k > 0 {
        lemma_shrink_rounds_valid(ps, active, (k - 1) as nat);
        lemma_shrink_once_valid(shrink_rounds(ps, (k - 1) as nat).unwrap(), active);
    }
}

/// Bounding a valid snapshot to the payload budget keeps it valid: only
/// human-readable strings are shortened; handles, focus and the number of
/// players are untouched.
pub proof fn lemma_bounded_snapshot_validates<F: Fn(&MediaSnapshot) -> usize>(size: F, c: MediaSnapshot, out: MediaSnapshot)
    requires
        c.validation() is Ok,
        bounded_from(size, c, out),
    ensures
        out.validation() is Ok,
{
    let k = choose|k: nat|
        shrink_rounds(player_views(c.players@), k) == Some(player_views(out.players@))
            && rounds_oversized(size, c, k);
    lemma_validation_views(c);
    lemma_shrink_rounds_valid(player_views(c.players@), opt_view(c.active_player_handle), k);
    lemma_validation_views(out);
}


/// Focus selection is idempotent: choosing again among the same players,
/// with the previous choice as the previous focus, keeps that choice.
pub proof fn lemma_focus_idempotent(ps: Seq<PlayerView>, previous: Option<Seq<char>>)
    ensures
        focused(ps, focused(ps, previous)) == focused(ps, previous),
{
    if first_playing(ps) is None {
        if ps.len() > 0 {
            assert(ps[0].0 == ps[0].0);
        }
    }
}

/// Applying the same players again after a publication changes nothing:
/// the second candidate has the first one's players and focus, and, where
/// bounding it under the next sequence number shortens the same strings
/// (the case it does not is a measure that grows past the budget with the
/// longer sequence number), its bounded form shows the published content,
/// so the store reports no change and keeps its sequence.
pub proof fn lemma_reapply_unchanged<F: Fn(&MediaSnapshot) -> usize>(
    size: F,
    sorted: Seq<PlayerView>,
    previous: Option<Seq<char>>,
    sequence: u64,
    first: MediaSnapshot,
    published: MediaSnapshot,
    second: MediaSnapshot,
    bounded: MediaSnapshot,
)
    requires
        is_candidate(first, sequence, sorted, focused(sorted, previous)),
        bounded_from(size, first, published),
        is_candidate(second, (sequence + 1) as u64, sorted, focused(sorted, published_focus(Some(published)))),
        bounded_from(size, second, bounded),
        player_views(bounded.players@) == player_views(published.players@),
    ensures
        player_views(second.players@) == player_views(first.players@),
        opt_view(second.active_player_handle) == opt_view(first.active_player_handle),
        media_content(bounded) == media_content(published),
{
    lemma_focus_idempotent(sorted, previous);
}

} // verus!
