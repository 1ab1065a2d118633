//! Typed parsing of Hyprland event-socket lines. Events are invalidation
//! hints only: they never build state, they only request a fresh snapshot.
use vstd::prelude::*;

use crate::text::{chars_of, copy_range, eq_str, find_char, find_char_exec, utf8_len, utf8_len_capped};

verus! {

#[derive(Debug, Clone, Copy, PartialEq, Eq, Structural)]
pub enum SessionEvent {
    WorkspaceChanged,
    FocusedMonitorChanged,
    WindowOpened,
    WindowClosed,
    WindowMoved,
    ActiveWindowChanged,
}

pub const MAX_EVENT_LINE_BYTES: usize = 512;

/// The line without one trailing line feed.
pub open spec fn strip_newline(s: Seq<char>) -> Seq<char> {
    if s.len() > 0 && s.last() == '\n' {
        s.drop_last()
    } else {
        s
    }
}

/// The event each recognised kind stands for.
pub open spec fn event_kind(kind: Seq<char>) -> Option<SessionEvent> {
    if kind == "workspace"@ || kind == "activespecial"@ {
        Some(SessionEvent::WorkspaceChanged)
    } else if kind == "focusedmon"@ || kind == "monitoradded"@ {
        Some(SessionEvent::FocusedMonitorChanged)
    } else if kind == "openwindow"@ {
        Some(SessionEvent::WindowOpened)
    } else if kind == "closenwindow"@ || kind == "closewindow"@ {
        Some(SessionEvent::WindowClosed)
    } else if kind == "movewindow"@ || kind == "movewindowv2"@ {
        Some(SessionEvent::WindowMoved)
    } else if kind == "activewindow"@ || kind == "activewindowv2"@ {
        Some(SessionEvent::ActiveWindowChanged)
    } else {
        None
    }
}

/// What one `event>>payload` line means: its kind is the text before the
/// first `>`, which must be followed by a second `>`. Empty lines, lines of
/// more than `MAX_EVENT_LINE_BYTES` bytes, malformed lines and unknown kinds
/// mean nothing.
pub open spec fn event_line(s: Seq<char>) -> Option<SessionEvent> {
    let l = strip_newline(s);
    if l.len() == 0 || utf8_len(l) > MAX_EVENT_LINE_BYTES {
        None
    } else {
        match find_char(l, '>') {
            None => None,
            Some(i) => if i + 1 < l.len() && l[i + 1] == '>' {
                event_kind(l.take(i))
            } else {
                None
            },
        }
    }
}

fn event_kind_exec(kind: &[char]) -> (r: Option<SessionEvent>)
    ensures
        r == event_kind(kind@),
{
    if eq_str(kind, "workspace") || eq_str(kind, "activespecial") {
        Some(SessionEvent::WorkspaceChanged)
    } else if eq_str(kind, "focusedmon") || eq_str(kind, "monitoradded") {
        Some(SessionEvent::FocusedMonitorChanged)
    } else if eq_str(kind, "openwindow") {
        Some(SessionEvent::WindowOpened)
    } else if eq_str(kind, "closenwindow") || eq_str(kind, "closewindow") {
        Some(SessionEvent::WindowClosed)
    } else if eq_str(kind, "movewindow") || eq_str(kind, "movewindowv2") {
        Some(SessionEvent::WindowMoved)
    } else if eq_str(kind, "activewindow") || eq_str(kind, "activewindowv2") {
        Some(SessionEvent::ActiveWindowChanged)
    } else {
        None
    }
}

/// Parses one `event>>payload` line.
pub fn parse_event_line(line: &str) -> (r: Option<SessionEvent>)
    ensures
        r == event_line(line@),
{
    let mut l = chars_of(line);
    if l.len() > 0 && l[l.len() - 1] == '\n' {
        l.pop();
    }
    assert(l@ == strip_newline(line@));
    if l.len() == 0 || utf8_len_capped(l.as_slice(), MAX_EVENT_LINE_BYTES) > MAX_EVENT_LINE_BYTES {
        return None;
    }
    let i = match find_char_exec(l.as_slice(), '>') {
        Some(i) => i,
        None => return None,
    };
    if i + 1 >= l.len() || l[i + 1] != '>' {
        return None;
    }
    let kind = copy_range(l.as_slice(), 0, i);
    assert(kind@ =~= l@.take(i as int));
    event_kind_exec(kind.as_slice())
}

} // verus!
