//! Normalization of Hyprland's JSON replies into the shared, validated
//! session model, and the decisions of the capability probe. Talking to the
//! compositor's sockets is the caller's; it hands the decoded replies here.
use std::collections::hash_map::DefaultHasher;
use std::hash::{BuildHasher, BuildHasherDefault};
use vstd::prelude::*;

use crate::protocol::{
    HyprlandAvailability, HyprlandCapabilities, SnapshotValidationError, Window, Workspace,
    WorkspaceSnapshot, MAX_WINDOWS, MAX_WORKSPACES, opt_view, window_handles, workspace_handles,
};
use crate::text::{
    append_chars, append_str, chars_of, decimal_chars, decimal_of, eq_str, starts_with,
    starts_with_str, string_of, trim, trim_chars,
};

verus! {

pub const MAX_WORKSPACE_NAME_CHARS: usize = 128;
pub const MAX_WINDOW_TITLE_CHARS: usize = 256;
pub const MAX_WINDOW_CLASS_CHARS: usize = 128;
pub const MAX_MONITOR_NAME_CHARS: usize = 64;

/// A decoded JSON value, holding what normalization reads of it: a number's
/// integer value when it is one, and whether it is non-zero.
#[derive(Debug)]
pub enum Json {
    Null,
    Bool(bool),
    Number { integer: Option<i64>, nonzero: bool },
    Text(String),
    Array(Vec<Json>),
    Object(Vec<(String, Json)>),
}

/// The value under `key`, when `j` is an object that has it.
pub open spec fn json_get(j: Json, key: Seq<char>) -> Option<Json> {
    match j {
        Json::Object(entries) => field_from(entries@, key, 0),
        _ => None,
    }
}

pub open spec fn field_from(entries: Seq<(String, Json)>, key: Seq<char>, i: int) -> Option<Json>
    decreases entries.len() - i,
{
    if i < 0 || i >= entries.len() {
        None
    } else if entries[i].0@ == key {
        Some(entries[i].1)
    } else {
        field_from(entries, key, i + 1)
    }
}

pub open spec fn json_i64(j: Option<Json>) -> Option<i64> {
    match j {
        Some(Json::Number { integer, .. }) => integer,
        _ => None,
    }
}

pub open spec fn json_text(j: Option<Json>) -> Option<Seq<char>> {
    match j {
        Some(Json::Text(s)) => Some(s@),
        _ => None,
    }
}

/// A flag that counts as set: `true`, or a non-zero number.
pub open spec fn truthy(j: Json) -> bool {
    match j {
        Json::Bool(b) => b,
        Json::Number { nonzero, .. } => nonzero,
        _ => false,
    }
}

pub open spec fn flag(j: Option<Json>) -> bool {
    match j {
        Some(v) => truthy(v),
        None => false,
    }
}

pub fn get<'a>(j: &'a Json, key: &str) -> (r: Option<&'a Json>)
    ensures
        match r {
            Some(v) => json_get(*j, key@) == Some(*v),
            None => json_get(*j, key@) is None,
        },
{
    match j {
        Json::Object(entries) => {
            let mut i: usize = 0;
            while i < entries.len()
                invariant
                    i <= entries@.len(),
                    json_get(*j, key@) == field_from(entries@, key@, 0),
                    field_from(entries@, key@, 0) == field_from(entries@, key@, i as int),
                decreases entries@.len() - i,
            {
                let name = chars_of(entries[i].0.as_str());
                if eq_str(name.as_slice(), key) {
                    return Some(&entries[i].1);
                }
                i = i + 1;
            }
            None
        },
        _ => None,
    }
}

pub fn as_i64(j: Option<&Json>) -> (r: Option<i64>)
    ensures
        r == json_i64(match j {
            Some(v) => Some(*v),
            None => None,
        }),
{
    match j {
        Some(Json::Number { integer, .. }) => *integer,
        _ => None,
    }
}

pub fn as_text<'a>(j: Option<&'a Json>) -> (r: Option<&'a String>)
    ensures
        match r {
            Some(s) => json_text(
                match j {
                    Some(v) => Some(*v),
                    None => None,
                },
            ) == Some(s@),
            None => json_text(
                match j {
                    Some(v) => Some(*v),
                    None => None,
                },
            ) is None,
        },
{
    match j {
        Some(Json::Text(s)) => Some(s),
        _ => None,
    }
}

pub fn is_truthy(j: Option<&Json>) -> (b: bool)
    ensures
        b == flag(
            match j {
                Some(v) => Some(*v),
                None => None,
            },
        ),
{
    match j {
        Some(Json::Bool(b)) => *b,
        Some(Json::Number { nonzero, .. }) => *nonzero,
        _ => false,
    }
}

/// `str::trim` then the first `max` characters.
pub open spec fn bounded(s: Seq<char>, max: nat) -> Seq<char> {
    let t = trim(s);
    if t.len() > max {
        t.take(max as int)
    } else {
        t
    }
}

pub fn bounded_string(value: &str, max_chars: usize) -> (r: String)
    ensures
        r@ == bounded(value@, max_chars as nat),
{
    let chars = chars_of(value);
    let t = trim_chars(chars.as_slice());
    if t.len() > max_chars {
        let mut out: Vec<char> = Vec::new();
        let mut i: usize = 0;
        while i < max_chars
            invariant
                i <= max_chars < t@.len(),
                out@ == t@.take(i as int),
            decreases max_chars - i,
        {
            out.push(t[i]);
            i = i + 1;
            assert(out@ =~= t@.take(i as int));
        }
        string_of(out.as_slice())
    } else {
        string_of(t.as_slice())
    }
}

/// The decimal text of a signed integer.
pub open spec fn signed_decimal(i: int) -> Seq<char> {
    if i < 0 {
        seq!['-'] + decimal_chars((-i) as nat)
    } else {
        decimal_chars(i as nat)
    }
}

pub fn signed_decimal_of(i: i64) -> (r: Vec<char>)
    ensures
        r@ == signed_decimal(i as int),
{
    if i < 0 {
        let magnitude: u64 = (0i128 - i as i128) as u64;
        let mut out: Vec<char> = Vec::new();
        out.push('-');
        let digits = decimal_of(magnitude);
        append_chars(&mut out, digits.as_slice());
        assert(out@ =~= seq!['-'] + decimal_chars((-i) as nat));
        out
    } else {
        decimal_of(i as u64)
    }
}

/// The lowercase hexadecimal digit for `d < 16`.
pub open spec fn hex_digit(d: nat) -> char {
    if d < 10 {
        (d + 48) as char
    } else {
        (d + 87) as char
    }
}

/// The last `count` hexadecimal digits of `n`, zero-padded.
pub open spec fn hex_chars(n: nat, count: nat) -> Seq<char>
    decreases count,
{
    if count == 0 {
        Seq::empty()
    } else {
        hex_chars(n / 16, (count - 1) as nat).push(hex_digit(n % 16))
    }
}

fn hex_digit_exec(d: u64) -> (c: char)
    requires
        d < 16,
    ensures
        c == hex_digit(d as nat),
{
    if d < 10 {
        ((d as u8) + 48u8) as char
    } else {
        ((d as u8) + 87u8) as char
    }
}

/// `format!("{:016x}", n)`.
pub fn hex16(n: u64) -> (r: Vec<char>)
    ensures
        r@ == hex_chars(n as nat, 16),
{
    hex_padded(n, 16)
}

fn hex_padded(n: u64, count: usize) -> (r: Vec<char>)
    ensures
        r@ == hex_chars(n as nat, count as nat),
    decreases count,
{
    if count == 0 {
        let r: Vec<char> = Vec::new();
        assert(r@ =~= Seq::<char>::empty());
        r
    } else {
        let mut r = hex_padded(n / 16, count - 1);
        r.push(hex_digit_exec(n % 16));
        r
    }
}

/// What a fresh `DefaultHasher` yields after hashing the text `s` as a `str`.
pub uninterp spec fn default_hash(s: Seq<char>) -> u64;

/// `BuildHasher::hash_one` (std) of the text on the builder of default
/// hashers, `BuildHasherDefault<DefaultHasher>`: the text hashed into a
/// fresh `DefaultHasher`, then `finish`. That hasher is built with fixed
/// keys, so the result is a function of the text alone; the contract names
/// it.
#[verifier::external_body]
pub(crate) fn hash_text(s: &str) -> (h: u64)
    ensures
        h == default_hash(s@),
{
    BuildHasherDefault::<DefaultHasher>::default().hash_one(s)
}

/// The opaque handle of a window: a one-way hash of its compositor address,
/// so no raw selector reaches the frontend.
pub open spec fn window_handle(address: Seq<char>) -> Seq<char> {
    "window:"@ + hex_chars(default_hash(address) as nat, 16)
}

pub fn opaque_window_handle(address: &str) -> (r: String)
    ensures
        r@ == window_handle(address@),
{
    let h = hash_text(address);
    let mut out = chars_of("window:");
    let digits = hex16(h);
    append_chars(&mut out, digits.as_slice());
    string_of(out.as_slice())
}

/// The handle of the workspace with the given ID.
pub open spec fn workspace_handle(id: int) -> Seq<char> {
    "workspace:"@ + signed_decimal(id)
}

pub fn workspace_handle_of(id: i64) -> (r: String)
    ensures
        r@ == workspace_handle(id as int),
{
    let mut out = chars_of("workspace:");
    let digits = signed_decimal_of(id);
    append_chars(&mut out, digits.as_slice());
    string_of(out.as_slice())
}

/// The dispatcher command that focuses the workspace with compositor id
/// `index`.
pub open spec fn workspace_focus_command(index: int) -> Seq<char> {
    "dispatch hl.dsp.focus({ workspace = \""@ + signed_decimal(index) + "\" })"@
}

/// Builds the one command a workspace switch sends to the compositor.
pub fn workspace_dispatch_command(index: i32) -> (r: String)
    ensures
        r@ == workspace_focus_command(index as int),
{
    let mut out = chars_of("dispatch hl.dsp.focus({ workspace = \"");
    let digits = signed_decimal_of(index as i64);
    append_chars(&mut out, digits.as_slice());
    append_str(&mut out, "\" })");
    string_of(out.as_slice())
}

/// The dispatcher command that focuses the window at compositor address
/// `address`.
pub open spec fn window_focus_command(address: Seq<char>) -> Seq<char> {
    "dispatch hl.dsp.focus({ window = \"address:"@ + address + "\" })"@
}

/// Builds the one command a window focus sends to the compositor.
pub fn window_dispatch_command(address: &str) -> (r: String)
    ensures
        r@ == window_focus_command(address@),
{
    let mut out = chars_of("dispatch hl.dsp.focus({ window = \"address:");
    let a = chars_of(address);
    append_chars(&mut out, a.as_slice());
    append_str(&mut out, "\" })");
    string_of(out.as_slice())
}

/// A workspace by the views of its fields: handle, name, index, monitor,
/// window count, active, special, urgent.
pub type WorkspaceView = (Seq<char>, Seq<char>, i32, Option<Seq<char>>, u16, bool, bool, bool);

/// A window by the views of its fields: handle, workspace handle, title,
/// class, active, floating, fullscreen.
pub type WindowView = (Seq<char>, Seq<char>, Seq<char>, Seq<char>, bool, bool, bool);

pub open spec fn workspace_view(w: Workspace) -> WorkspaceView {
    (w.handle@, w.name@, w.index, opt_view(w.monitor), w.window_count, w.is_active, w.is_special, w.is_urgent)
}

pub open spec fn workspace_views(ws: Seq<Workspace>) -> Seq<WorkspaceView> {
    ws.map_values(|w: Workspace| workspace_view(w))
}

pub open spec fn window_view(w: Window) -> WindowView {
    (w.handle@, w.workspace_handle@, w.title@, w.class@, w.is_active, w.is_floating, w.is_fullscreen)
}

pub open spec fn window_views(ws: Seq<Window>) -> Seq<WindowView> {
    ws.map_values(|w: Window| window_view(w))
}

pub open spec fn clamp_i32(i: i64) -> i32 {
    if i < i32::MIN {
        i32::MIN
    } else if i > i32::MAX {
        i32::MAX
    } else {
        i as i32
    }
}

pub open spec fn text_or_empty(t: Option<Seq<char>>) -> Seq<char> {
    match t {
        Some(s) => s,
        None => Seq::empty(),
    }
}

/// One entry of the workspace listing: it needs an integer `id`; a missing
/// name reads as the ID, a special name or a negative ID marks a special
/// workspace, and an empty monitor name is dropped.
pub open spec fn parsed_workspace(raw: Json) -> Option<WorkspaceView> {
    match json_i64(json_get(raw, "id"@)) {
        None => None,
        Some(id) => {
            let name = bounded(text_or_empty(json_text(json_get(raw, "name"@))), MAX_WORKSPACE_NAME_CHARS as nat);
            let display = if name.len() == 0 {
                signed_decimal(id as int)
            } else {
                name
            };
            let monitor = match json_text(json_get(raw, "monitor"@)) {
                Some(m) => if bounded(m, MAX_MONITOR_NAME_CHARS as nat).len() > 0 {
                    Some(bounded(m, MAX_MONITOR_NAME_CHARS as nat))
                } else {
                    None
                },
                None => None,
            };
            Some(
                (
                    workspace_handle(id as int),
                    display,
                    clamp_i32(id),
                    monitor,
                    0u16,
                    false,
                    id < 0 || starts_with(display, "special:"@),
                    false,
                ),
            )
        },
    }
}

pub fn parse_workspace(raw: &Json) -> (r: Option<Workspace>)
    ensures
        match r {
            Some(w) => parsed_workspace(*raw) == Some(workspace_view(w)),
            None => parsed_workspace(*raw) is None,
        },
{
    let id = match as_i64(get(raw, "id")) {
        Some(id) => id,
        None => return None,
    };
    let name = match as_text(get(raw, "name")) {
        Some(text) => bounded_string(text.as_str(), MAX_WORKSPACE_NAME_CHARS),
        None => bounded_string("", MAX_WORKSPACE_NAME_CHARS),
    };
    proof {
        reveal_strlit("");
        assert(""@ =~= Seq::<char>::empty());
    }
    let display_name = if name.as_str().is_empty() {
        let digits = signed_decimal_of(id);
        string_of(digits.as_slice())
    } else {
        name
    };
    let display_chars = chars_of(display_name.as_str());
    let is_special = id < 0 || starts_with_str(display_chars.as_slice(), "special:");
    let monitor = match as_text(get(raw, "monitor")) {
        Some(text) => {
            let bounded_monitor = bounded_string(text.as_str(), MAX_MONITOR_NAME_CHARS);
            if bounded_monitor.as_str().is_empty() {
                None
            } else {
                Some(bounded_monitor)
            }
        },
        None => None,
    };
    let index: i32 = if id < i32::MIN as i64 {
        i32::MIN
    } else if id > i32::MAX as i64 {
        i32::MAX
    } else {
        id as i32
    };
    Some(
        Workspace {
            handle: workspace_handle_of(id),
            name: display_name,
            index,
            monitor,
            window_count: 0,
            is_active: false,
            is_special,
            is_urgent: false,
        },
    )
}

/// A window and what normalization needs besides: whether it is urgent and
/// its compositor address.
pub type ClientView = (WindowView, bool, Seq<char>);

/// One entry of the client listing: it needs a non-empty address and a
/// workspace with an integer ID; an entry explicitly not mapped is dropped.
pub open spec fn parsed_client(raw: Json) -> Option<ClientView> {
    match json_text(json_get(raw, "address"@)) {
        None => None,
        Some(address) => if address.len() == 0 {
            None
        } else if json_get(raw, "mapped"@) is Some && !truthy(json_get(raw, "mapped"@).unwrap()) {
            None
        } else {
            match json_get(raw, "workspace"@) {
                None => None,
                Some(w) => match json_i64(json_get(w, "id"@)) {
                    None => None,
                    Some(workspace_id) => Some(
                        (
                            (
                                window_handle(address),
                                workspace_handle(workspace_id as int),
                                bounded(text_or_empty(json_text(json_get(raw, "title"@))), MAX_WINDOW_TITLE_CHARS as nat),
                                bounded(text_or_empty(json_text(json_get(raw, "class"@))), MAX_WINDOW_CLASS_CHARS as nat),
                                false,
                                flag(json_get(raw, "floating"@)),
                                flag(json_get(raw, "fullscreen"@)),
                            ),
                            flag(json_get(raw, "urgent"@)),
                            address,
                        ),
                    ),
                },
            }
        },
    }
}

/// A parsed client: its window, whether it is urgent, and its address.
pub struct ParsedClient {
    pub window: Window,
    pub is_urgent: bool,
    pub address: String,
}

pub open spec fn client_view(c: ParsedClient) -> ClientView {
    (window_view(c.window), c.is_urgent, c.address@)
}

pub open spec fn client_views(cs: Seq<ParsedClient>) -> Seq<ClientView> {
    cs.map_values(|c: ParsedClient| client_view(c))
}

fn some_ref<'a>(j: &'a Json) -> (r: Option<&'a Json>)
    ensures
        r == Some(j),
{
    Some(j)
}

pub fn parse_client(raw: &Json) -> (r: Option<ParsedClient>)
    ensures
        match r {
            Some(c) => parsed_client(*raw) == Some(client_view(c)),
            None => parsed_client(*raw) is None,
        },
{
    let address = match as_text(get(raw, "address")) {
        Some(a) => a,
        None => return None,
    };
    if address.as_str().is_empty() {
        return None;
    }
    if let Some(mapped) = get(raw, "mapped") {
        if !is_truthy(some_ref(mapped)) {
            return None;
        }
    }
    let workspace = match get(raw, "workspace") {
        Some(w) => w,
        None => return None,
    };
    let workspace_id = match as_i64(get(workspace, "id")) {
        Some(id) => id,
        None => return None,
    };
    let title = match as_text(get(raw, "title")) {
        Some(t) => bounded_string(t.as_str(), MAX_WINDOW_TITLE_CHARS),
        None => bounded_string("", MAX_WINDOW_TITLE_CHARS),
    };
    let class = match as_text(get(raw, "class")) {
        Some(t) => bounded_string(t.as_str(), MAX_WINDOW_CLASS_CHARS),
        None => bounded_string("", MAX_WINDOW_CLASS_CHARS),
    };
    proof {
        assert(""@ =~= Seq::<char>::empty()) by {
            reveal_strlit("");
        }
    }
    Some(
        ParsedClient {
            window: Window {
                handle: opaque_window_handle(address.as_str()),
                workspace_handle: workspace_handle_of(workspace_id),
                title,
                class,
                is_active: false,
                is_floating: is_truthy(get(raw, "floating")),
                is_fullscreen: is_truthy(get(raw, "fullscreen")),
            },
            is_urgent: is_truthy(get(raw, "urgent")),
            address: clone_text(address),
        },
    )
}

fn clone_text(s: &String) -> (r: String)
    ensures
        r@ == s@,
{
    s.clone()
}

/// Why a session could not be read.
#[derive(Debug)]
pub enum AdapterError {
    /// A query failed or its reply was unusable; the reason.
    Query(String),
    TooManyWorkspaces,
    TooManyWindows,
}

/// Why the listings could not be normalized.
#[derive(Debug, Clone, Copy, PartialEq, Eq, Structural)]
pub enum Refusal {
    WorkspacesNotArray,
    WindowsNotArray,
    TooManyWorkspaces,
    TooManyWindows,
}

/// Some workspace already has the handle `h`.
pub open spec fn has_handle(ws: Seq<WorkspaceView>, h: Seq<char>) -> bool {
    exists|i: int| 0 <= i < ws.len() && ws[i].0 == h
}

/// The usable workspaces of a listing, the first of each handle kept.
pub open spec fn parsed_workspaces(entries: Seq<Json>) -> Seq<WorkspaceView>
    decreases entries.len(),
{
    if entries.len() == 0 {
        Seq::empty()
    } else {
        let rest = parsed_workspaces(entries.drop_last());
        match parsed_workspace(entries.last()) {
            Some(w) => if has_handle(rest, w.0) {
                rest
            } else {
                rest.push(w)
            },
            None => rest,
        }
    }
}

/// The usable clients of a listing, in order.
pub open spec fn parsed_clients(entries: Seq<Json>) -> Seq<ClientView>
    decreases entries.len(),
{
    if entries.len() == 0 {
        Seq::empty()
    } else {
        let rest = parsed_clients(entries.drop_last());
        match parsed_client(entries.last()) {
            Some(c) => rest.push(c),
            None => rest,
        }
    }
}

/// The clients whose workspace is in the listing.
pub open spec fn retained_clients(cs: Seq<ClientView>, ws: Seq<WorkspaceView>) -> Seq<ClientView>
    decreases cs.len(),
{
    if cs.len() == 0 {
        Seq::empty()
    } else {
        let rest = retained_clients(cs.drop_last(), ws);
        if has_handle(ws, cs.last().0.1) {
            rest.push(cs.last())
        } else {
            rest
        }
    }
}

/// How many of the clients are on the workspace `h`.
pub open spec fn windows_on(h: Seq<char>, cs: Seq<ClientView>) -> nat
    decreases cs.len(),
{
    if cs.len() == 0 {
        0
    } else {
        windows_on(h, cs.drop_last()) + if cs.last().0.1 == h {
            1nat
        } else {
            0nat
        }
    }
}

/// Some urgent client is on the workspace `h`.
pub open spec fn urgent_on(h: Seq<char>, cs: Seq<ClientView>) -> bool {
    exists|i: int| 0 <= i < cs.len() && cs[i].0.1 == h && cs[i].1
}

/// The active workspace, when the compositor names one that is listed.
pub open spec fn active_workspace(raw: Json, ws: Seq<WorkspaceView>) -> Option<Seq<char>> {
    match json_i64(json_get(raw, "id"@)) {
        Some(id) => if has_handle(ws, workspace_handle(id as int)) {
            Some(workspace_handle(id as int))
        } else {
            None
        },
        None => None,
    }
}

/// The active window, when the compositor names one that is listed.
pub open spec fn active_window(raw: Json, cs: Seq<ClientView>) -> Option<Seq<char>> {
    match json_text(json_get(raw, "address"@)) {
        Some(address) => if address.len() > 0 && exists|i: int|
            0 <= i < cs.len() && cs[i].0.0 == window_handle(address) {
            Some(window_handle(address))
        } else {
            None
        },
        None => None,
    }
}

/// A workspace with its window count, urgency and activity filled in.
pub open spec fn finished_workspace(w: WorkspaceView, cs: Seq<ClientView>, active: Option<Seq<char>>) -> WorkspaceView {
    (w.0, w.1, w.2, w.3, windows_on(w.0, cs) as u16, active == Some(w.0), w.6, urgent_on(w.0, cs))
}

/// Workspaces order by specialness (regular first), then index.
pub open spec fn ws_key_le(a: WorkspaceView, b: WorkspaceView) -> bool {
    (!a.6 && b.6) || (a.6 == b.6 && a.2 <= b.2)
}

/// `w` inserted after every workspace that does not order after it.
pub open spec fn insert_sorted(s: Seq<WorkspaceView>, w: WorkspaceView) -> Seq<WorkspaceView>
    decreases s.len(),
{
    if s.len() == 0 {
        seq![w]
    } else if ws_key_le(s.last(), w) {
        s.push(w)
    } else {
        insert_sorted(s.drop_last(), w).push(s.last())
    }
}

/// A stable sort by specialness, then index.
pub open spec fn sort_workspaces(s: Seq<WorkspaceView>) -> Seq<WorkspaceView>
    decreases s.len(),
{
    if s.len() == 0 {
        Seq::empty()
    } else {
        insert_sorted(sort_workspaces(s.drop_last()), s.last())
    }
}

/// The normalized session: workspaces, windows, active workspace and
/// active window, or why the listings were refused.
pub open spec fn normalized_session(
    raw_workspaces: Json,
    raw_windows: Json,
    raw_active_workspace: Json,
    raw_active_window: Json,
) -> Result<(Seq<WorkspaceView>, Seq<ClientView>, Option<Seq<char>>, Option<Seq<char>>), Refusal> {
    match raw_workspaces {
        Json::Array(wentries) => {
            let ws = parsed_workspaces(wentries@);
            if ws.len() > MAX_WORKSPACES {
                Err(Refusal::TooManyWorkspaces)
            } else {
                match raw_windows {
                    Json::Array(centries) => {
                        let all = parsed_clients(centries@);
                        if all.len() > MAX_WINDOWS {
                            Err(Refusal::TooManyWindows)
                        } else {
                            let cs = retained_clients(all, ws);
                            let active_ws = active_workspace(raw_active_workspace, ws);
                            let active_win = active_window(raw_active_window, cs);
                            Ok(
                                (
                                    sort_workspaces(
                                        ws.map_values(
                                            |w: WorkspaceView| finished_workspace(w, cs, active_ws),
                                        ),
                                    ),
                                    cs.map_values(
                                        |c: ClientView|
                                            (
                                                (
                                                    c.0.0,
                                                    c.0.1,
                                                    c.0.2,
                                                    c.0.3,
                                                    active_win == Some(c.0.0),
                                                    c.0.5,
                                                    c.0.6,
                                                ),
                                                c.1,
                                                c.2,
                                            ),
                                    ),
                                    active_ws,
                                    active_win,
                                ),
                            )
                        }
                    },
                    _ => Err(Refusal::WindowsNotArray),
                }
            }
        },
        _ => Err(Refusal::WorkspacesNotArray),
    }
}

fn workspace_listed(ws: &Vec<Workspace>, h: &String) -> (b: bool)
    ensures
        b == has_handle(workspace_views(ws@), h@),
{
    let ghost v = workspace_views(ws@);
    let mut i: usize = 0;
    while i < ws.len()
        invariant
            i <= ws@.len(),
            v == workspace_views(ws@),
            forall|j: int| 0 <= j < i ==> v[j].0 != h@,
        decreases ws@.len() - i,
    {
        assert(v[i as int].0 == ws@[i as int].handle@);
        if ws[i].handle == *h {
            return true;
        }
        i = i + 1;
    }
    false
}

fn collect_workspaces(entries: &Vec<Json>) -> (ws: Vec<Workspace>)
    ensures
        workspace_views(ws@) == parsed_workspaces(entries@),
{
    let mut ws: Vec<Workspace> = Vec::new();
    let mut i: usize = 0;
    while i < entries.len()
        invariant
            i <= entries@.len(),
            workspace_views(ws@) == parsed_workspaces(entries@.take(i as int)),
        decreases entries@.len() - i,
    {
        assert(entries@.take(i + 1).drop_last() =~= entries@.take(i as int));
        assert(entries@.take(i + 1).last() == entries@[i as int]);
        if let Some(w) = parse_workspace(&entries[i]) {
            if !workspace_listed(&ws, &w.handle) {
                let ghost before = workspace_views(ws@);
                ws.push(w);
                assert(workspace_views(ws@) =~= before.push(workspace_view(w)));
            }
        }
        i = i + 1;
    }
    assert(entries@.take(i as int) =~= entries@);
    ws
}

fn collect_clients(entries: &Vec<Json>) -> (cs: Vec<ParsedClient>)
    ensures
        client_views(cs@) == parsed_clients(entries@),
{
    let mut cs: Vec<ParsedClient> = Vec::new();
    let mut i: usize = 0;
    while i < entries.len()
        invariant
            i <= entries@.len(),
            client_views(cs@) == parsed_clients(entries@.take(i as int)),
        decreases entries@.len() - i,
    {
        assert(entries@.take(i + 1).drop_last() =~= entries@.take(i as int));
        assert(entries@.take(i + 1).last() == entries@[i as int]);
        if let Some(c) = parse_client(&entries[i]) {
            let ghost before = client_views(cs@);
            let ghost cv = client_view(c);
            cs.push(c);
            assert(client_views(cs@) =~= before.push(cv));
        }
        i = i + 1;
    }
    assert(entries@.take(i as int) =~= entries@);
    cs
}

fn retain_listed(cs: Vec<ParsedClient>, ws: &Vec<Workspace>) -> (r: Vec<ParsedClient>)
    ensures
        client_views(r@) == retained_clients(client_views(cs@), workspace_views(ws@)),
{
    let ghost all = client_views(cs@);
    let ghost wv = workspace_views(ws@);
    let mut rest = cs;
    let mut kept: Vec<ParsedClient> = Vec::new();
    let ghost mut k: int = 0;
    while rest.len() > 0
        invariant
            0 <= k <= all.len(),
            client_views(rest@) == all.skip(k),
            client_views(kept@) == retained_clients(all.take(k), wv),
            wv == workspace_views(ws@),
        decreases rest@.len(),
    {
        let c = rest.remove(0);
        proof {
            assert(all.skip(k)[0] == client_view(c));
            assert(all.skip(k).drop_first() =~= all.skip(k + 1));
            assert(client_views(rest@) =~= all.skip(k + 1));
            assert(all.take(k + 1).drop_last() =~= all.take(k));
            assert(all.take(k + 1).last() == client_view(c));
        }
        if workspace_listed(ws, &c.window.workspace_handle) {
            let ghost before = client_views(kept@);
            let ghost cv = client_view(c);
            kept.push(c);
            assert(client_views(kept@) =~= before.push(cv));
        }
        proof {
            k = k + 1;
        }
    }
    assert(all.take(k) =~= all);
    kept
}

fn count_on(h: &String, cs: &Vec<ParsedClient>) -> (r: (u16, bool))
    requires
        cs@.len() <= MAX_WINDOWS,
    ensures
        r.0 == windows_on(h@, client_views(cs@)),
        r.1 == urgent_on(h@, client_views(cs@)),
{
    let ghost v = client_views(cs@);
    let mut count: u16 = 0;
    let mut urgent = false;
    let mut i: usize = 0;
    while i < cs.len()
        invariant
            i <= cs@.len() <= MAX_WINDOWS,
            v == client_views(cs@),
            count == windows_on(h@, v.take(i as int)),
            count <= i,
            urgent == exists|j: int| 0 <= j < i && v[j].0.1 == h@ && v[j].1,
        decreases cs@.len() - i,
    {
        assert(v.take(i + 1).drop_last() =~= v.take(i as int));
        assert(v.take(i + 1).last() == v[i as int]);
        assert(v[i as int] == client_view(cs@[i as int]));
        if cs[i].window.workspace_handle == *h {
            count = count + 1;
            if cs[i].is_urgent {
                urgent = true;
            }
        }
        i = i + 1;
    }
    assert(v.take(i as int) =~= v);
    (count, urgent)
}

fn finish_workspaces(
    ws: Vec<Workspace>,
    cs: &Vec<ParsedClient>,
    active: &Option<String>,
) -> (r: Vec<Workspace>)
    requires
        cs@.len() <= MAX_WINDOWS,
    ensures
        workspace_views(r@) == workspace_views(ws@).map_values(
            |w: WorkspaceView| finished_workspace(w, client_views(cs@), opt_view(*active)),
        ),
{
    let ghost all = workspace_views(ws@);
    let ghost cv = client_views(cs@);
    let ghost av = opt_view(*active);
    let ghost target = all.map_values(|w: WorkspaceView| finished_workspace(w, cv, av));
    let mut rest = ws;
    let mut done: Vec<Workspace> = Vec::new();
    let ghost mut k: int = 0;
    while rest.len() > 0
        invariant
            0 <= k <= all.len(),
            workspace_views(rest@) == all.skip(k),
            workspace_views(done@) == target.take(k),
            target == all.map_values(|w: WorkspaceView| finished_workspace(w, cv, av)),
            cv == client_views(cs@),
            av == opt_view(*active),
            cs@.len() <= MAX_WINDOWS,
        decreases rest@.len(),
    {
        let mut w = rest.remove(0);
        proof {
            assert(all.skip(k)[0] == workspace_view(w));
            assert(all.skip(k).drop_first() =~= all.skip(k + 1));
            assert(workspace_views(rest@) =~= all.skip(k + 1));
            assert(all[k] == workspace_view(w));
        }
        let (count, urgent) = count_on(&w.handle, cs);
        w.window_count = count;
        w.is_urgent = urgent;
        w.is_active = match active {
            Some(h) => *h == w.handle,
            None => false,
        };
        let ghost before = workspace_views(done@);
        done.push(w);
        proof {
            assert(workspace_views(done@) =~= before.push(workspace_view(w)));
            assert(target.take(k + 1) =~= target.take(k).push(target[k]));
            k = k + 1;
        }
    }
    assert(target.take(k) =~= target);
    done
}

fn key_le(a: &Workspace, b: &Workspace) -> (r: bool)
    ensures
        r == ws_key_le(workspace_view(*a), workspace_view(*b)),
{
    (!a.is_special && b.is_special) || (a.is_special == b.is_special && a.index <= b.index)
}

proof fn lemma_insert_at(s: Seq<WorkspaceView>, w: WorkspaceView, pos: int)
    requires
        0 <= pos <= s.len(),
        pos == 0 || ws_key_le(s[pos - 1], w),
        forall|k: int| pos <= k < s.len() ==> !ws_key_le(#[trigger] s[k], w),
    ensures
        insert_sorted(s, w) == s.take(pos).push(w) + s.skip(pos),
    decreases s.len(),
{
    if s.len() == pos {
        assert(s.skip(pos) =~= Seq::<WorkspaceView>::empty());
        if pos == 0 {
            assert(s.take(pos).push(w) =~= seq![w]);
        } else {
            assert(s.take(pos) =~= s);
        }
        assert(s.take(pos).push(w) + s.skip(pos) =~= s.take(pos).push(w));
    } else {
        let d = s.drop_last();
        assert(!ws_key_le(s[s.len() - 1], w));
        assert forall|k: int| pos <= k < d.len() implies !ws_key_le(#[trigger] d[k], w) by {
            assert(d[k] == s[k]);
        }
        if pos > 0 {
            assert(d[pos - 1] == s[pos - 1]);
        }
        lemma_insert_at(d, w, pos);
        assert(d.take(pos) =~= s.take(pos));
        assert((d.take(pos).push(w) + d.skip(pos)).push(s.last()) =~= s.take(pos).push(w) + s.skip(pos));
    }
}

fn sort_by_position(ws: Vec<Workspace>) -> (r: Vec<Workspace>)
    ensures
        workspace_views(r@) == sort_workspaces(workspace_views(ws@)),
{
    let ghost all = workspace_views(ws@);
    let mut rest = ws;
    let mut out: Vec<Workspace> = Vec::new();
    let ghost mut k: int = 0;
    while rest.len() > 0
        invariant
            0 <= k <= all.len(),
            workspace_views(rest@) == all.skip(k),
            workspace_views(out@) == sort_workspaces(all.take(k)),
        decreases rest@.len(),
    {
        let w = rest.remove(0);
        proof {
            assert(all.skip(k)[0] == workspace_view(w));
            assert(all.skip(k).drop_first() =~= all.skip(k + 1));
            assert(workspace_views(rest@) =~= all.skip(k + 1));
            assert(all.take(k + 1).drop_last() =~= all.take(k));
            assert(all.take(k + 1).last() == workspace_view(w));
        }
        let ghost ov = workspace_views(out@);
        let mut pos: usize = out.len();
        while pos > 0 && !key_le(&out[pos - 1], &w)
            invariant
                pos <= out@.len(),
                ov == workspace_views(out@),
                forall|j: int| pos <= j < ov.len() ==> !ws_key_le(#[trigger] ov[j], workspace_view(w)),
            decreases pos,
        {
            assert(ov[pos - 1] == workspace_view(out@[pos - 1]));
            pos = pos - 1;
        }
        proof {
            if pos > 0 {
                assert(ov[pos - 1] == workspace_view(out@[pos - 1]));
            }
            lemma_insert_at(ov, workspace_view(w), pos as int);
        }
        let ghost wv = workspace_view(w);
        out.insert(pos, w);
        proof {
            assert(workspace_views(out@) =~= ov.take(pos as int).push(wv) + ov.skip(pos as int));
            k = k + 1;
        }
    }
    assert(all.take(k) =~= all);
    out
}

/// A window with its activity filled in.
pub open spec fn finished_window(c: ClientView, active: Option<Seq<char>>) -> WindowView {
    (c.0.0, c.0.1, c.0.2, c.0.3, active == Some(c.0.0), c.0.5, c.0.6)
}

fn finish_windows(cs: Vec<ParsedClient>, active: &Option<String>) -> (r: (Vec<Window>, Vec<(String, String)>))
    ensures
        window_views(r.0@) == client_views(cs@).map_values(
            |c: ClientView| finished_window(c, opt_view(*active)),
        ),
        address_views(r.1@) == client_views(cs@).map_values(|c: ClientView| (c.0.0, c.2)),
{
    let ghost all = client_views(cs@);
    let ghost av = opt_view(*active);
    let mut rest = cs;
    let mut windows: Vec<Window> = Vec::new();
    let mut addresses: Vec<(String, String)> = Vec::new();
    let ghost mut k: int = 0;
    while rest.len() > 0
        invariant
            0 <= k <= all.len(),
            client_views(rest@) == all.skip(k),
            window_views(windows@) == all.take(k).map_values(|c: ClientView| finished_window(c, av)),
            address_views(addresses@) == all.take(k).map_values(|c: ClientView| (c.0.0, c.2)),
            av == opt_view(*active),
        decreases rest@.len(),
    {
        let c = rest.remove(0);
        proof {
            assert(all.skip(k)[0] == client_view(c));
            assert(all.skip(k).drop_first() =~= all.skip(k + 1));
            assert(client_views(rest@) =~= all.skip(k + 1));
            assert(all[k] == client_view(c));
        }
        let ParsedClient { window, is_urgent: _, address } = c;
        let mut window = window;
        window.is_active = match active {
            Some(h) => *h == window.handle,
            None => false,
        };
        let handle = clone_text(&window.handle);
        let ghost wb = window_views(windows@);
        let ghost ab = address_views(addresses@);
        let ghost wv = window_view(window);
        let ghost pair = (handle@, address@);
        windows.push(window);
        addresses.push((handle, address));
        proof {
            assert(window_views(windows@) =~= wb.push(wv));
            assert(address_views(addresses@) =~= ab.push(pair));
            assert(all.take(k + 1) =~= all.take(k).push(all[k]));
            assert(all.take(k + 1).map_values(|c: ClientView| finished_window(c, av)) =~= all.take(
                k,
            ).map_values(|c: ClientView| finished_window(c, av)).push(finished_window(all[k], av)));
            assert(all.take(k + 1).map_values(|c: ClientView| (c.0.0, c.2)) =~= all.take(
                k,
            ).map_values(|c: ClientView| (c.0.0, c.2)).push((all[k].0.0, all[k].2)));
            k = k + 1;
        }
    }
    assert(all.take(k) =~= all);
    (windows, addresses)
}

/// Pairs of strings by their views.
pub open spec fn address_views(v: Seq<(String, String)>) -> Seq<(Seq<char>, Seq<char>)> {
    v.map_values(|p: (String, String)| (p.0@, p.1@))
}

/// A normalized session: the snapshot, and each listed window's handle with
/// its compositor address, which never leaves Core.
pub struct SessionReading {
    pub snapshot: WorkspaceSnapshot,
    pub window_addresses: Vec<(String, String)>,
}

/// The reading carries the normalized session.
pub open spec fn reading_matches(
    reading: SessionReading,
    sequence: u64,
    session: (Seq<WorkspaceView>, Seq<ClientView>, Option<Seq<char>>, Option<Seq<char>>),
) -> bool {
    let (ws, cs, active_ws, active_win) = session;
    &&& reading.snapshot.sequence == sequence
    &&& workspace_views(reading.snapshot.workspaces@) == ws
    &&& window_views(reading.snapshot.windows@) == cs.map_values(|c: ClientView| c.0)
    &&& opt_view(reading.snapshot.active_workspace_handle) == active_ws
    &&& opt_view(reading.snapshot.active_window_handle) == active_win
    &&& address_views(reading.window_addresses@) == cs.map_values(|c: ClientView| (c.0.0, c.2))
}

/// The error each refusal is reported with.
pub open spec fn refusal_error(e: AdapterError, r: Refusal) -> bool {
    match r {
        Refusal::WorkspacesNotArray => e matches AdapterError::Query(m) && m@
            == "workspace listing is not an array"@,
        Refusal::WindowsNotArray => e matches AdapterError::Query(m) && m@
            == "window listing is not an array"@,
        Refusal::TooManyWorkspaces => e is TooManyWorkspaces,
        Refusal::TooManyWindows => e is TooManyWindows,
    }
}

/// Normalizes the four listings into a validated snapshot with the given
/// sequence. Entries that are unusable are skipped; a listing of the wrong
/// shape or over its limit is refused, and so is a result that fails
/// validation (possible only when two window handles collide).
pub fn normalize_session_snapshot(
    sequence: u64,
    raw_workspaces: &Json,
    raw_windows: &Json,
    raw_active_workspace: &Json,
    raw_active_window: &Json,
) -> (r: Result<SessionReading, AdapterError>)
    ensures
        match normalized_session(*raw_workspaces, *raw_windows, *raw_active_workspace, *raw_active_window) {
            Err(refusal) => r matches Err(e) && refusal_error(e, refusal),
            Ok(session) => match r {
                Ok(reading) => reading_matches(reading, sequence, session)
                    && reading.snapshot.validation() is Ok,
                Err(e) => (e matches AdapterError::Query(m) && m@ == "normalized session failed validation"@)
                    && exists|s: SessionReading| reading_matches(s, sequence, session) && s.snapshot.validation() is Err,
            },
        },
{
    let wentries = match raw_workspaces {
        Json::Array(v) => v,
        _ => return Err(AdapterError::Query("workspace listing is not an array".to_owned())),
    };
    let ws = collect_workspaces(wentries);
    if ws.len() > MAX_WORKSPACES {
        return Err(AdapterError::TooManyWorkspaces);
    }
    let centries = match raw_windows {
        Json::Array(v) => v,
        _ => return Err(AdapterError::Query("window listing is not an array".to_owned())),
    };
    let all = collect_clients(centries);
    if all.len() > MAX_WINDOWS {
        return Err(AdapterError::TooManyWindows);
    }
    let ghost wsv = workspace_views(ws@);
    let ghost allv = client_views(all@);
    let cs = retain_listed(all, &ws);
    let ghost csv = client_views(cs@);
    proof {
        lemma_retained_len(allv, wsv);
    }
    let active_workspace_handle: Option<String> = match as_i64(get(raw_active_workspace, "id")) {
        Some(id) => {
            let h = workspace_handle_of(id);
            if workspace_listed(&ws, &h) {
                Some(h)
            } else {
                None
            }
        },
        None => None,
    };
    let active_window_handle: Option<String> = match as_text(get(raw_active_window, "address")) {
        Some(address) => {
            if address.as_str().is_empty() {
                None
            } else {
                let h = opaque_window_handle(address.as_str());
                if window_listed(&cs, &h) {
                    Some(h)
                } else {
                    None
                }
            }
        },
        None => None,
    };
    let finished = finish_workspaces(ws, &cs, &active_workspace_handle);
    let workspaces = sort_by_position(finished);
    let (windows, window_addresses) = finish_windows(cs, &active_window_handle);
    let snapshot = WorkspaceSnapshot {
        sequence,
        workspaces,
        windows,
        active_workspace_handle,
        active_window_handle,
    };
    let reading = SessionReading { snapshot, window_addresses };
    proof {
        let session = normalized_session(*raw_workspaces, *raw_windows, *raw_active_workspace, *raw_active_window);
        assert(csv.map_values(|c: ClientView| finished_window(c, opt_view(reading.snapshot.active_window_handle)))
            =~= session->Ok_0.1.map_values(|c: ClientView| c.0));
        assert(csv.map_values(|c: ClientView| (c.0.0, c.2)) =~= session->Ok_0.1.map_values(
            |c: ClientView| (c.0.0, c.2),
        ));
        assert(reading_matches(reading, sequence, session->Ok_0));
    }
    if reading.snapshot.validate().is_err() {
        return Err(AdapterError::Query("normalized session failed validation".to_owned()));
    }
    Ok(reading)
}

proof fn lemma_retained_len(cs: Seq<ClientView>, ws: Seq<WorkspaceView>)
    ensures
        retained_clients(cs, ws).len() <= cs.len(),
    decreases cs.len(),
{
    if cs.len() > 0 {
        lemma_retained_len(cs.drop_last(), ws);
    }
}

fn window_listed(cs: &Vec<ParsedClient>, h: &String) -> (b: bool)
    ensures
        b == exists|i: int| 0 <= i < client_views(cs@).len() && client_views(cs@)[i].0.0 == h@,
{
    let ghost v = client_views(cs@);
    let mut i: usize = 0;
    while i < cs.len()
        invariant
            i <= cs@.len(),
            v == client_views(cs@),
            forall|j: int| 0 <= j < i ==> v[j].0.0 != h@,
        decreases cs@.len() - i,
    {
        assert(v[i as int].0.0 == cs@[i as int].window.handle@);
        if cs[i].window.handle == *h {
            return true;
        }
        i = i + 1;
    }
    false
}

/// The first of the fields `tag` and `version` that holds text.
pub open spec fn version_field(v: Json) -> Option<Seq<char>> {
    match json_text(json_get(v, "tag"@)) {
        Some(t) => Some(t),
        None => json_text(json_get(v, "version"@)),
    }
}

/// The compositor version in a `j/version` reply: the reply itself when it
/// is text, else its `tag` or `version` field; trimmed, and only when not
/// empty.
pub open spec fn version_of(v: Json) -> Option<Seq<char>> {
    match v {
        Json::Text(t) => if trim(t@).len() > 0 {
            Some(trim(t@))
        } else {
            None
        },
        Json::Object(_) => match version_field(v) {
            Some(t) => if trim(t).len() > 0 {
                Some(trim(t))
            } else {
                None
            },
            None => None,
        },
        _ => None,
    }
}

pub fn parse_version_value(value: &Json) -> (r: Option<String>)
    ensures
        match r {
            Some(s) => version_of(*value) == Some(s@),
            None => version_of(*value) is None,
        },
{
    let text: &String = match value {
        Json::Text(t) => t,
        Json::Object(_) => match as_text(get(value, "tag")) {
            Some(t) => t,
            None => match as_text(get(value, "version")) {
                Some(t) => t,
                None => return None,
            },
        },
        _ => return None,
    };
    let chars = chars_of(text.as_str());
    let trimmed = trim_chars(chars.as_slice());
    if trimmed.len() == 0 {
        None
    } else {
        Some(string_of(trimmed.as_slice()))
    }
}

/// `Path::join` of a relative name onto a directory.
pub open spec fn path_join(dir: Seq<char>, name: Seq<char>) -> Seq<char> {
    if dir.len() > 0 && dir.last() != '/' {
        dir + seq!['/'] + name
    } else {
        dir + name
    }
}

pub(crate) fn path_join_exec(dir: &[char], name: &str) -> (r: Vec<char>)
    ensures
        r@ == path_join(dir@, name@),
{
    let mut out: Vec<char> = Vec::new();
    let mut i: usize = 0;
    while i < dir.len()
        invariant
            i <= dir@.len(),
            out@ == dir@.take(i as int),
        decreases dir@.len() - i,
    {
        out.push(dir[i]);
        i = i + 1;
        assert(out@ =~= dir@.take(i as int));
    }
    assert(dir@.take(i as int) =~= dir@);
    if dir.len() > 0 && dir[dir.len() - 1] != '/' {
        out.push('/');
    }
    let before = out.len();
    append_str(&mut out, name);
    out
}

/// Only separators and single `.` pieces: `Path::components` yields
/// nothing from such text.
pub open spec fn trivial_tail(t: Seq<char>) -> bool {
    forall|i: int|
        0 <= i < t.len() ==> (#[trigger] t[i] == '/' || t[i] == '.') && (t[i] == '.' && i + 1 < t.len()
            ==> t[i + 1] != '.')
}

/// A Hyprland instance signature: non-empty, at most 128 bytes, and a
/// single plain path component (so it cannot climb out of or escape the
/// runtime directory).
pub open spec fn valid_signature(s: Seq<char>) -> bool {
    &&& s.len() > 0
    &&& crate::text::utf8_len(s) <= 128
    &&& match crate::text::find_char(s, '/') {
        None => s != "."@ && s != ".."@,
        Some(i) => {
            let piece = s.take(i);
            piece.len() > 0 && piece != "."@ && piece != ".."@ && trivial_tail(s.skip(i + 1))
        },
    }
}

fn trivial_tail_exec(t: &[char]) -> (b: bool)
    ensures
        b == trivial_tail(t@),
{
    let mut i: usize = 0;
    while i < t.len()
        invariant
            i <= t@.len(),
            forall|j: int|
                0 <= j < i ==> (#[trigger] t@[j] == '/' || t@[j] == '.') && (t@[j] == '.' && j + 1
                    < t@.len() ==> t@[j + 1] != '.'),
        decreases t@.len() - i,
    {
        let c = t[i];
        if !(c == '/' || c == '.') {
            return false;
        }
        if c == '.' && i + 1 < t.len() && t[i + 1] == '.' {
            return false;
        }
        i = i + 1;
    }
    true
}

/// The instance signature, when it is valid.
pub fn valid_instance_signature(value: &str) -> (r: Option<&str>)
    ensures
        match r {
            Some(v) => valid_signature(value@) && v@ == value@,
            None => !valid_signature(value@),
        },
{
    let s = chars_of(value);
    if s.len() == 0 || crate::text::utf8_len_capped(s.as_slice(), 128) > 128 {
        return None;
    }
    let ok = match crate::text::find_char_exec(s.as_slice(), '/') {
        None => !eq_str(s.as_slice(), ".") && !eq_str(s.as_slice(), ".."),
        Some(i) => {
            let piece = crate::text::copy_range(s.as_slice(), 0, i);
            let n = s.len();
            let tail = crate::text::copy_range(s.as_slice(), i + 1, n);
            assert(piece@ =~= s@.take(i as int));
            assert(tail@ =~= s@.skip(i + 1));
            piece.len() > 0 && !eq_str(piece.as_slice(), ".") && !eq_str(piece.as_slice(), "..")
                && trivial_tail_exec(tail.as_slice())
        },
    };
    if ok {
        Some(value)
    } else {
        None
    }
}

/// The command and event sockets of the instance, when the runtime
/// directory is absolute and the signature is valid: under
/// `<runtime>/hypr/<signature>/`.
pub open spec fn instance_socket_paths(runtime_dir: Seq<char>, signature: Seq<char>) -> (Seq<char>, Seq<char>) {
    let dir = path_join(path_join(runtime_dir, "hypr"@), signature);
    (path_join(dir, ".socket.sock"@), path_join(dir, ".socket2.sock"@))
}

pub fn instance_sockets(runtime_dir: Option<&str>, signature: Option<&str>) -> (r: Option<(String, String)>)
    ensures
        match (runtime_dir, signature) {
            (Some(d), Some(sig)) => if d@.len() > 0 && d@[0] == '/' && valid_signature(sig@) {
                r matches Some(p) && (p.0@, p.1@) == instance_socket_paths(d@, sig@)
            } else {
                r is None
            },
            _ => r is None,
        },
{
    let (dir, sig) = match (runtime_dir, signature) {
        (Some(d), Some(s)) => (d, s),
        _ => return None,
    };
    let d = chars_of(dir);
    if d.len() == 0 || d[0] != '/' {
        return None;
    }
    let sig = match valid_instance_signature(sig) {
        Some(s) => s,
        None => return None,
    };
    let hypr = path_join_exec(d.as_slice(), "hypr");
    let instance = path_join_exec(hypr.as_slice(), sig);
    let command = path_join_exec(instance.as_slice(), ".socket.sock");
    let event = path_join_exec(instance.as_slice(), ".socket2.sock");
    Some((string_of(command.as_slice()), string_of(event.as_slice())))
}

/// The probe's verdict from what it found: both sockets present, a version
/// read, the four queries answered, and events receivable make Hyprland
/// available; missing sockets or version make it incompatible.
pub fn probe_capabilities(
    sockets_present: bool,
    version: Option<String>,
    can_query_workspaces: bool,
    can_query_windows: bool,
    can_query_active_workspace: bool,
    can_query_active_window: bool,
    can_receive_events: bool,
) -> (c: HyprlandCapabilities)
    ensures
        !sockets_present || version is None ==> c.availability == HyprlandAvailability::Incompatible
            && c.no_capabilities(),
        sockets_present && version is Some ==> {
            &&& c.availability == if can_query_workspaces && can_query_windows
                && can_query_active_workspace && can_query_active_window && can_receive_events {
                HyprlandAvailability::Available
            } else {
                HyprlandAvailability::Incompatible
            }
            &&& c.version == version
            &&& c.can_query_workspaces == can_query_workspaces
            &&& c.can_query_windows == can_query_windows
            &&& c.can_query_active_workspace == can_query_active_workspace
            &&& c.can_query_active_window == can_query_active_window
            &&& c.can_receive_events == can_receive_events
        },
{
    if !sockets_present || version.is_none() {
        return HyprlandCapabilities::incompatible();
    }
    let availability = if can_query_workspaces && can_query_windows && can_query_active_workspace
        && can_query_active_window && can_receive_events {
        HyprlandAvailability::Available
    } else {
        HyprlandAvailability::Incompatible
    };
    HyprlandCapabilities {
        availability,
        version,
        can_query_workspaces,
        can_query_windows,
        can_query_active_workspace,
        can_query_active_window,
        can_receive_events,
    }
}


/// How many of the windows are on the workspace `h`.
pub open spec fn window_count_on(h: Seq<char>, wins: Seq<WindowView>) -> nat
    decreases wins.len(),
{
    if wins.len() == 0 {
        0
    } else {
        window_count_on(h, wins.drop_last()) + if wins.last().1 == h {
            1nat
        } else {
            0nat
        }
    }
}

/// Regular workspaces come before special ones, each kind by index.
pub open spec fn workspaces_sorted(ws: Seq<WorkspaceView>) -> bool {
    forall|i: int, j: int| 0 <= i < j < ws.len() ==> ws_key_le(#[trigger] ws[i], #[trigger] ws[j])
}

proof fn lemma_insert_sorted_members(s: Seq<WorkspaceView>, w: WorkspaceView)
    ensures
        insert_sorted(s, w).len() == s.len() + 1,
        forall|k: int|
            0 <= k < insert_sorted(s, w).len() ==> #[trigger] insert_sorted(s, w)[k] == w || s.contains(
                insert_sorted(s, w)[k],
            ),
    decreases s.len(),
{
    if s.len() > 0 {
        if ws_key_le(s.last(), w) {
            let r = s.push(w);
            assert forall|k: int| 0 <= k < r.len() implies #[trigger] r[k] == w || s.contains(r[k]) by {
                if k < s.len() {
                    assert(r[k] == s[k]);
                }
            }
        } else {
            let d = s.drop_last();
            lemma_insert_sorted_members(d, w);
            let q = insert_sorted(d, w);
            let r = q.push(s.last());
            assert forall|k: int| 0 <= k < r.len() implies #[trigger] r[k] == w || s.contains(r[k]) by {
                if k < q.len() {
                    assert(r[k] == q[k]);
                    if q[k] != w {
                        let m = choose|m: int| 0 <= m < d.len() && d[m] == q[k];
                        assert(s[m] == q[k]);
                    }
                } else {
                    assert(s[s.len() - 1] == r[k]);
                }
            }
        }
    }
}

proof fn lemma_insert_sorted_sorted(s: Seq<WorkspaceView>, w: WorkspaceView)
    requires
        workspaces_sorted(s),
    ensures
        workspaces_sorted(insert_sorted(s, w)),
    decreases s.len(),
{
    if s.len() > 0 {
        if ws_key_le(s.last(), w) {
            let r = s.push(w);
            assert forall|i: int, j: int| 0 <= i < j < r.len() implies ws_key_le(#[trigger] r[i], #[trigger] r[j]) by {
                assert(r[i] == s[i]);
                if j < s.len() {
                    assert(r[j] == s[j]);
                } else if i < s.len() - 1 {
                    assert(ws_key_le(s[i], s[s.len() - 1]));
                }
            }
        } else {
            let d = s.drop_last();
            assert forall|i: int, j: int| 0 <= i < j < d.len() implies ws_key_le(#[trigger] d[i], #[trigger] d[j]) by {
                assert(ws_key_le(s[i], s[j]));
            }
            lemma_insert_sorted_sorted(d, w);
            lemma_insert_sorted_members(d, w);
            let q = insert_sorted(d, w);
            let r = q.push(s.last());
            assert forall|i: int, j: int| 0 <= i < j < r.len() implies ws_key_le(#[trigger] r[i], #[trigger] r[j]) by {
                assert(r[i] == q[i]);
                if j < q.len() {
                    assert(r[j] == q[j]);
                } else {
                    assert(r[j] == s[s.len() - 1]);
                    if q[i] != w {
                        assert(q[i] == w || d.contains(q[i]));
                        let m = choose|m: int| 0 <= m < d.len() && d[m] == q[i];
                        assert(ws_key_le(s[m], s[s.len() - 1]));
                    }
                }
            }
        }
    }
}

proof fn lemma_sort_workspaces(s: Seq<WorkspaceView>)
    ensures
        workspaces_sorted(sort_workspaces(s)),
        sort_workspaces(s).len() == s.len(),
        forall|k: int| 0 <= k < sort_workspaces(s).len() ==> s.contains(#[trigger] sort_workspaces(s)[k]),
    decreases s.len(),
{
    if s.len() > 0 {
        let d = s.drop_last();
        lemma_sort_workspaces(d);
        lemma_insert_sorted_sorted(sort_workspaces(d), s.last());
        lemma_insert_sorted_members(sort_workspaces(d), s.last());
        let r = sort_workspaces(s);
        assert forall|k: int| 0 <= k < r.len() implies s.contains(#[trigger] r[k]) by {
            if r[k] == s.last() {
                assert(s[s.len() - 1] == r[k]);
            } else {
                let sd = sort_workspaces(d);
                assert(sd.contains(r[k]));
                let m = choose|m: int| 0 <= m < sd.len() && sd[m] == r[k];
                assert(d.contains(sd[m]));
                let n = choose|n: int| 0 <= n < d.len() && d[n] == sd[m];
                assert(s[n] == r[k]);
            }
        }
    } else {
        assert(sort_workspaces(s) =~= Seq::<WorkspaceView>::empty());
    }
}

proof fn lemma_windows_on_bounded(h: Seq<char>, cs: Seq<ClientView>)
    ensures
        windows_on(h, cs) <= cs.len(),
    decreases cs.len(),
{
    if cs.len() > 0 {
        lemma_windows_on_bounded(h, cs.drop_last());
    }
}

proof fn lemma_window_count(h: Seq<char>, cs: Seq<ClientView>, wins: Seq<WindowView>)
    requires
        wins.len() == cs.len(),
        forall|i: int| 0 <= i < cs.len() ==> (#[trigger] wins[i]).1 == cs[i].0.1,
    ensures
        windows_on(h, cs) == window_count_on(h, wins),
    decreases cs.len(),
{
    if cs.len() > 0 {
        let cd = cs.drop_last();
        let wd = wins.drop_last();
        assert forall|i: int| 0 <= i < cd.len() implies (#[trigger] wd[i]).1 == cd[i].0.1 by {
            assert(wd[i] == wins[i]);
        }
        lemma_window_count(h, cd, wd);
        assert(wins.last() == wins[wins.len() - 1]);
    }
}

/// Every snapshot the normalization returns (its result is `Ok`, so it
/// carries the normalized session and validates) has the shape the session
/// model promises: the given sequence; regular workspaces before special
/// ones, each kind by index; each workspace's window count the number of its
/// windows; a workspace or window marked active exactly when it is the
/// active one; and an active workspace or window only when it is listed, so
/// that active references outside the listings are dropped.
pub proof fn lemma_normalized_snapshot_shape(
    sequence: u64,
    raw_workspaces: Json,
    raw_windows: Json,
    raw_active_workspace: Json,
    raw_active_window: Json,
    reading: SessionReading,
)
    requires
        normalized_session(raw_workspaces, raw_windows, raw_active_workspace, raw_active_window) matches Ok(
            session,
        ) && reading_matches(reading, sequence, session),
        reading.snapshot.validation() is Ok,
    ensures
        ({
            let s = reading.snapshot;
            let ws = workspace_views(s.workspaces@);
            let wins = window_views(s.windows@);
            &&& s.sequence == sequence
            &&& workspaces_sorted(ws)
            &&& forall|k: int| 0 <= k < ws.len() ==> (#[trigger] ws[k]).4 == window_count_on(ws[k].0, wins)
            &&& forall|k: int| 0 <= k < ws.len() && (#[trigger] ws[k]).7 ==> ws[k].4 > 0
            &&& forall|k: int| 0 <= k < ws.len() ==> (#[trigger] ws[k]).5 == (opt_view(s.active_workspace_handle) == Some(ws[k].0))
            &&& forall|k: int| 0 <= k < wins.len() ==> (#[trigger] wins[k]).4 == (opt_view(s.active_window_handle) == Some(wins[k].0))
            &&& s.active_workspace_handle matches Some(h) ==> exists|k: int| 0 <= k < ws.len() && #[trigger] ws[k].0 == h@
            &&& s.active_window_handle matches Some(h) ==> exists|k: int| 0 <= k < wins.len() && #[trigger] wins[k].0 == h@
        }),
{
    let session = normalized_session(raw_workspaces, raw_windows, raw_active_workspace, raw_active_window)->Ok_0;
    let s = reading.snapshot;
    let ws = workspace_views(s.workspaces@);
    let wins = window_views(s.windows@);
    let wentries = raw_workspaces->Array_0;
    let centries = raw_windows->Array_0;
    let wp = parsed_workspaces(wentries@);
    let all = parsed_clients(centries@);
    let cs = retained_clients(all, wp);
    let aw = active_workspace(raw_active_workspace, wp);
    let fin = wp.map_values(|w: WorkspaceView| finished_workspace(w, cs, aw));
    assert(session.0 == sort_workspaces(fin));
    assert(ws == sort_workspaces(fin));
    lemma_sort_workspaces(fin);
    lemma_retained_len(all, wp);
    assert(wins =~= session.1.map_values(|c: ClientView| c.0));
    assert forall|i: int| 0 <= i < cs.len() implies (#[trigger] wins[i]).1 == cs[i].0.1 by {
        assert(wins[i] == session.1[i].0);
    }
    assert forall|k: int| 0 <= k < ws.len() implies (#[trigger] ws[k]).4 == window_count_on(ws[k].0, wins)
        && ws[k].5 == (opt_view(s.active_workspace_handle) == Some(ws[k].0)) by {
        assert(fin.contains(ws[k]));
        let m = choose|m: int| 0 <= m < fin.len() && fin[m] == ws[k];
        assert(fin[m] == finished_workspace(wp[m], cs, aw));
        lemma_windows_on_bounded(wp[m].0, cs);
        lemma_window_count(wp[m].0, cs, wins);
    }
    lemma_urgent_workspaces_have_urgent_windows(raw_workspaces, raw_windows, raw_active_workspace, raw_active_window);
    let wsh = workspace_handles(s.workspaces@);
    let wih = window_handles(s.windows@);
    if s.active_workspace_handle is Some {
        let h = s.active_workspace_handle.unwrap();
        assert(wsh.contains(h@));
        let k = choose|k: int| 0 <= k < wsh.len() && wsh[k] == h@;
        assert(ws[k].0 == h@);
    }
    if s.active_window_handle is Some {
        let h = s.active_window_handle.unwrap();
        assert(wih.contains(h@));
        let k = choose|k: int| 0 <= k < wih.len() && wih[k] == h@;
        assert(wins[k].0 == h@);
    }
}


proof fn lemma_windows_on_positive(h: Seq<char>, cs: Seq<ClientView>, i: int)
    requires
        0 <= i < cs.len(),
        cs[i].0.1 == h,
    ensures
        windows_on(h, cs) > 0,
    decreases cs.len(),
{
    if i < cs.len() - 1 {
        lemma_windows_on_positive(h, cs.drop_last(), i);
    }
}

/// In a normalized session a workspace is urgent exactly when one of the
/// retained windows on that workspace is urgent, so a workspace without
/// windows is never urgent.
pub proof fn lemma_urgent_workspaces_have_urgent_windows(
    raw_workspaces: Json,
    raw_windows: Json,
    raw_active_workspace: Json,
    raw_active_window: Json,
)
    requires
        normalized_session(raw_workspaces, raw_windows, raw_active_workspace, raw_active_window) is Ok,
    ensures
        ({
            let session = normalized_session(raw_workspaces, raw_windows, raw_active_workspace, raw_active_window)->Ok_0;
            let ws = session.0;
            let cs = session.1;
            &&& forall|k: int|
                0 <= k < ws.len() ==> ((#[trigger] ws[k]).7 <==> exists|i: int|
                    0 <= i < cs.len() && cs[i].0.1 == ws[k].0 && cs[i].1)
            &&& forall|k: int| 0 <= k < ws.len() && (#[trigger] ws[k]).7 ==> ws[k].4 > 0
        }),
{
    let session = normalized_session(raw_workspaces, raw_windows, raw_active_workspace, raw_active_window)->Ok_0;
    let wentries = raw_workspaces->Array_0;
    let centries = raw_windows->Array_0;
    let wp = parsed_workspaces(wentries@);
    let all = parsed_clients(centries@);
    let cs = retained_clients(all, wp);
    let aw = active_workspace(raw_active_workspace, wp);
    let fin = wp.map_values(|w: WorkspaceView| finished_workspace(w, cs, aw));
    let ws = session.0;
    assert(ws == sort_workspaces(fin));
    lemma_sort_workspaces(fin);
    lemma_retained_len(all, wp);
    assert(session.1.len() == cs.len());
    assert forall|i: int| 0 <= i < cs.len() implies (#[trigger] session.1[i]).0.1 == cs[i].0.1 && session.1[i].1
        == cs[i].1 by {}
    assert forall|k: int| 0 <= k < ws.len() implies ((#[trigger] ws[k]).7 <==> exists|i: int|
        0 <= i < session.1.len() && session.1[i].0.1 == ws[k].0 && session.1[i].1) && (ws[k].7 ==> ws[k].4 > 0) by {
        assert(fin.contains(ws[k]));
        let m = choose|m: int| 0 <= m < fin.len() && fin[m] == ws[k];
        assert(fin[m] == finished_workspace(wp[m], cs, aw));
        lemma_windows_on_bounded(wp[m].0, cs);
        if ws[k].7 {
            let i = choose|i: int| 0 <= i < cs.len() && cs[i].0.1 == wp[m].0 && cs[i].1;
            assert(session.1[i].0.1 == cs[i].0.1);
            lemma_windows_on_positive(wp[m].0, cs, i);
        }
        if exists|i: int| 0 <= i < session.1.len() && session.1[i].0.1 == ws[k].0 && session.1[i].1 {
            let i = choose|i: int| 0 <= i < session.1.len() && session.1[i].0.1 == ws[k].0 && session.1[i].1;
            assert(session.1[i].0.1 == cs[i].0.1 && session.1[i].1 == cs[i].1);
        }
    }
}

} // verus!
