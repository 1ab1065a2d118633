//! Application launch policy: which registered entries may start, with which
//! arguments, and how often. Reading the desktop file, checking executables
//! on disk and spawning the process are the caller's.
use freedesktop_desktop_entry::DesktopEntry;
use vstd::prelude::*;

use crate::named::{lookup, NamedCounters};
use crate::apps::{decode_desktop_entry, desktop_entry_fields};
use crate::protocol::{opt_view, string_views, Application};
use crate::text::{chars_of, concat, eq_str};

verus! {

/// At most this many launched processes may run at once.
pub const MAX_ACTIVE_PROCESSES: usize = 8;
/// The same entry may not be launched twice within this many nanoseconds.
pub const LAUNCH_COOLDOWN_NANOS: u128 = 500_000_000;

#[derive(Debug, Clone, PartialEq, Eq)]
pub enum LaunchError {
    UnknownApplication,
    TerminalRequired,
    MalformedEntry(String),
    UnsupportedFieldCode,
    ShellWrapperRejected,
    ExecutableUnavailable(String),
    RateLimited,
    ProcessLimitReached,
    /// The process could not be spawned; the operating system's message.
    Spawn(String),
}

impl LaunchError {
    pub open spec fn code_of(&self) -> Seq<char> {
        match self {
            LaunchError::UnknownApplication => "unknown_application"@,
            LaunchError::TerminalRequired => "terminal_required"@,
            LaunchError::MalformedEntry(_) => "malformed_desktop_entry"@,
            LaunchError::UnsupportedFieldCode => "unsupported_exec_field"@,
            LaunchError::ShellWrapperRejected => "shell_wrapper_rejected"@,
            LaunchError::ExecutableUnavailable(_) => "executable_unavailable"@,
            LaunchError::RateLimited => "launch_rate_limited"@,
            LaunchError::ProcessLimitReached => "launch_process_limit"@,
            LaunchError::Spawn(_) => "launch_failed"@,
        }
    }

    /// The stable machine-readable code sent to the frontend.
    pub fn code(&self) -> (c: &'static str)
        ensures
            c@ == self.code_of(),
    {
        match self {
            LaunchError::UnknownApplication => "unknown_application",
            LaunchError::TerminalRequired => "terminal_required",
            LaunchError::MalformedEntry(_) => "malformed_desktop_entry",
            LaunchError::UnsupportedFieldCode => "unsupported_exec_field",
            LaunchError::ShellWrapperRejected => "shell_wrapper_rejected",
            LaunchError::ExecutableUnavailable(_) => "executable_unavailable",
            LaunchError::RateLimited => "launch_rate_limited",
            LaunchError::ProcessLimitReached => "launch_process_limit",
            LaunchError::Spawn(_) => "launch_failed",
        }
    }

    pub open spec fn message_of(&self) -> Seq<char> {
        match self {
            LaunchError::UnknownApplication => "application is not present in the registry"@,
            LaunchError::TerminalRequired => "terminal applications require an explicit terminal policy"@,
            LaunchError::MalformedEntry(m) => "desktop entry is malformed: "@ + m@,
            LaunchError::UnsupportedFieldCode => "desktop entry uses unsupported Exec field codes"@,
            LaunchError::ShellWrapperRejected => "shell wrappers are not allowed"@,
            LaunchError::ExecutableUnavailable(p) => "executable is not available: "@ + p@,
            LaunchError::RateLimited => "launch rate limit exceeded"@,
            LaunchError::ProcessLimitReached => "maximum active process limit reached"@,
            LaunchError::Spawn(m) => "failed to launch application: "@ + m@,
        }
    }

    /// The human-readable description sent with a rejection.
    pub fn message(&self) -> (m: String)
        ensures
            m@ == self.message_of(),
    {
        match self {
            LaunchError::UnknownApplication => "application is not present in the registry".to_owned(),
            LaunchError::TerminalRequired => "terminal applications require an explicit terminal policy".to_owned(),
            LaunchError::MalformedEntry(m) => concat("desktop entry is malformed: ", m.as_str()),
            LaunchError::UnsupportedFieldCode => "desktop entry uses unsupported Exec field codes".to_owned(),
            LaunchError::ShellWrapperRejected => "shell wrappers are not allowed".to_owned(),
            LaunchError::ExecutableUnavailable(p) => concat("executable is not available: ", p.as_str()),
            LaunchError::RateLimited => "launch rate limit exceeded".to_owned(),
            LaunchError::ProcessLimitReached => "maximum active process limit reached".to_owned(),
            LaunchError::Spawn(m) => concat("failed to launch application: ", m.as_str()),
        }
    }

    /// Whether the same launch may succeed later: only the rate and process
    /// limits are transient.
    pub fn retryable(&self) -> (b: bool)
        ensures
            b == (self is RateLimited || self is ProcessLimitReached),
    {
        match self {
            LaunchError::RateLimited | LaunchError::ProcessLimitReached => true,
            _ => false,
        }
    }
}

/// The keys of a desktop entry that the launch policy reads.
#[derive(Debug, Clone, PartialEq, Eq)]
pub struct EntryFields {
    pub type_: Option<String>,
    pub hidden: bool,
    pub no_display: bool,
    pub exec_value: Option<String>,
    pub try_exec: Option<String>,
}

/// The argument vector that `DesktopEntry::parse_exec` makes of an `Exec`
/// value, or its error message.
pub uninterp spec fn exec_arguments(exec: Seq<char>) -> Result<Seq<Seq<char>>, Seq<char>>;

pub open spec fn string_seq_view(v: Seq<String>) -> Seq<Seq<char>> {
    v.map_values(|s: String| s@)
}

/// `DesktopEntry::parse_exec` of freedesktop-desktop-entry on an entry whose
/// only key besides its name is `Exec`. The contract names the result
/// (`exec_arguments`) and states what the crate's source shows of a
/// successful split: at least one argument.
#[verifier::external_body]
fn parse_exec_args(exec: &str) -> (r: Result<Vec<String>, String>)
    ensures
        match r {
            Ok(args) => exec_arguments(exec@) == Ok::<Seq<Seq<char>>, Seq<char>>(
                string_seq_view(args@),
            ) && args@.len() > 0,
            Err(message) => exec_arguments(exec@) == Err::<Seq<Seq<char>>, Seq<char>>(message@),
        },
{
    let mut entry = DesktopEntry::from_appid(String::new());
    entry.add_desktop_entry("Exec".to_owned(), exec.to_owned());
    entry.parse_exec().map_err(|error| error.to_string())
}

/// Where the last piece of `q` begins: just after its last `/`, or at 0.
pub open spec fn last_piece_start(q: Seq<char>) -> int
    decreases q.len(),
{
    if q.len() == 0 || q.last() == '/' {
        q.len() as int
    } else {
        last_piece_start(q.drop_last())
    }
}

pub proof fn lemma_last_piece_start_bounds(q: Seq<char>)
    ensures
        0 <= last_piece_start(q) <= q.len(),
        last_piece_start(q) > 0 ==> q[last_piece_start(q) - 1] == '/',
        forall|k: int| last_piece_start(q) <= k < q.len() ==> q[k] != '/',
    decreases q.len(),
{
    if q.len() > 0 && q.last() != '/' {
        lemma_last_piece_start_bounds(q.drop_last());
        assert forall|k: int| last_piece_start(q) <= k < q.len() implies q[k] != '/' by {
            if k < q.len() - 1 {
                assert(q.drop_last()[k] == q[k]);
            }
        }
    }
}

/// The last piece of `q` between `/` separators that is neither empty nor
/// `.`; empty when there is none. `Path::file_name` is this piece, unless it
/// is `..`.
pub open spec fn final_piece(q: Seq<char>) -> Seq<char>
    decreases q.len(),
{
    let s = last_piece_start(q);
    let piece = q.skip(s);
    if piece.len() > 0 && piece != "."@ {
        piece
    } else if s <= 0 {
        Seq::empty()
    } else {
        proof {
            lemma_last_piece_start_bounds(q);
        }
        final_piece(q.take(s - 1))
    }
}

/// `Path::file_name` of a path, as text.
pub open spec fn file_name(p: Seq<char>) -> Option<Seq<char>> {
    let f = final_piece(p);
    if f.len() == 0 || f == ".."@ {
        None
    } else {
        Some(f)
    }
}

proof fn lemma_last_piece_start_extend(q: Seq<char>, start: int, end: int)
    requires
        0 <= start <= end <= q.len(),
        forall|k: int| start <= k < end ==> q[k] != '/',
    ensures
        last_piece_start(q.take(end)) == last_piece_start(q.take(start)),
    decreases end - start,
{
    if end > start {
        assert(q.take(end).drop_last() =~= q.take(end - 1));
        assert(q.take(end).last() == q[end - 1]);
        lemma_last_piece_start_extend(q, start, end - 1);
    }
}

fn file_name_chars(p: &[char]) -> (r: Option<Vec<char>>)
    ensures
        match r {
            Some(f) => file_name(p@) == Some(f@),
            None => file_name(p@) is None,
        },
{
    let mut end: usize = p.len();
    assert(p@.take(end as int) =~= p@);
    loop
        invariant
            end <= p@.len(),
            final_piece(p@) == final_piece(p@.take(end as int)),
        decreases end,
    {
        let mut start: usize = end;
        while start > 0 && p[start - 1] != '/'
            invariant
                start <= end <= p@.len(),
                forall|k: int| start <= k < end ==> p@[k] != '/',
            decreases start,
        {
            start = start - 1;
        }
        let ghost q = p@.take(end as int);
        proof {
            lemma_last_piece_start_extend(p@, start as int, end as int);
            assert(p@.take(start as int).take(start as int) =~= p@.take(start as int));
            if start > 0 {
                assert(p@.take(start as int).last() == '/');
            }
            assert(last_piece_start(p@.take(start as int)) == start);
            assert(q.skip(start as int) =~= p@.subrange(start as int, end as int));
        }
        let mut piece: Vec<char> = Vec::new();
        let mut k: usize = start;
        while k < end
            invariant
                start <= k <= end <= p@.len(),
                piece@ == p@.subrange(start as int, k as int),
            decreases end - k,
        {
            piece.push(p[k]);
            k = k + 1;
            assert(piece@ =~= p@.subrange(start as int, k as int));
        }
        if piece.len() > 0 && !eq_str(piece.as_slice(), ".") {
            if eq_str(piece.as_slice(), "..") {
                return None;
            }
            return Some(piece);
        }
        if start == 0 {
            return None;
        }
        assert(q.take(start - 1) =~= p@.take(start - 1));
        end = start - 1;
    }
}

/// The program is a shell (`sh`, `bash`, `zsh` or `fish`) asked to run a
/// command string (`-c` or `-lc` among its arguments).
pub open spec fn shell_wrapper(args: Seq<Seq<char>>) -> bool {
    &&& args.len() > 0
    &&& file_name(args[0]) matches Some(f) && (f == "sh"@ || f == "bash"@ || f == "zsh"@ || f
        == "fish"@)
    &&& exists|i: int| 1 <= i < args.len() && (args[i] == "-c"@ || args[i] == "-lc"@)
}

/// Whether the argument vector runs a command string through a shell.
pub fn is_shell_wrapper(args: &[String]) -> (b: bool)
    ensures
        b == shell_wrapper(string_seq_view(args@)),
{
    let ghost v = string_seq_view(args@);
    if args.len() == 0 {
        return false;
    }
    assert(v[0] == args@[0]@);
    let program = chars_of(args[0].as_str());
    let name = match file_name_chars(program.as_slice()) {
        Some(n) => n,
        None => return false,
    };
    let n = name.as_slice();
    if !(eq_str(n, "sh") || eq_str(n, "bash") || eq_str(n, "zsh") || eq_str(n, "fish")) {
        return false;
    }
    let mut i: usize = 1;
    while i < args.len()
        invariant
            1 <= i <= args@.len(),
            v == string_seq_view(args@),
            file_name(v[0]) matches Some(f) && (f == "sh"@ || f == "bash"@ || f == "zsh"@ || f
                == "fish"@),
            forall|j: int| 1 <= j < i ==> !(v[j] == "-c"@ || v[j] == "-lc"@),
        decreases args@.len() - i,
    {
        assert(v[i as int] == args@[i as int]@);
        let a = chars_of(args[i].as_str());
        if eq_str(a.as_slice(), "-c") || eq_str(a.as_slice(), "-lc") {
            assert(v[i as int] == "-c"@ || v[i as int] == "-lc"@);
            return true;
        }
        i = i + 1;
    }
    false
}

/// A refusal as its code and its detail text.
pub open spec fn refusal(e: LaunchError) -> (Seq<char>, Seq<char>) {
    (
        e.code_of(),
        match e {
            LaunchError::MalformedEntry(m) => m@,
            LaunchError::ExecutableUnavailable(p) => p@,
            LaunchError::Spawn(m) => m@,
            _ => Seq::empty(),
        },
    )
}

/// What `launch_arguments` yields: the arguments of an application entry
/// that may be launched, or the refusal as code and detail.
pub open spec fn arguments_result(entry: EntryFields) -> Result<Seq<Seq<char>>, (Seq<char>, Seq<char>)> {
    if !(entry.type_ matches Some(t) && t@ == "Application"@) || entry.hidden || entry.no_display {
        Err(("unknown_application"@, Seq::empty()))
    } else {
        match entry.exec_value {
            None => Err(("malformed_desktop_entry"@, "missing Exec"@)),
            Some(e) => if e@.contains('%') {
                Err(("unsupported_exec_field"@, Seq::empty()))
            } else {
                match exec_arguments(e@) {
                    Err(m) => Err(("malformed_desktop_entry"@, m)),
                    Ok(args) => if args.len() == 0 {
                        Err(("malformed_desktop_entry"@, "empty Exec"@))
                    } else if shell_wrapper(args) {
                        Err(("shell_wrapper_rejected"@, Seq::empty()))
                    } else {
                        Ok(args)
                    },
                }
            },
        }
    }
}

fn contains_char(s: &[char], c: char) -> (b: bool)
    ensures
        b == s@.contains(c),
{
    let mut i: usize = 0;
    while i < s.len()
        invariant
            i <= s@.len(),
            forall|j: int| 0 <= j < i ==> s@[j] != c,
        decreases s@.len() - i,
    {
        if s[i] == c {
            assert(s@[i as int] == c);
            return true;
        }
        i = i + 1;
    }
    false
}

/// The argument vector of a desktop entry that may be launched: it must be a
/// visible application whose `Exec` has no field codes, parses, and does not
/// hand a command string to a shell.
pub fn launch_arguments(entry: &EntryFields) -> (r: Result<Vec<String>, LaunchError>)
    ensures
        match r {
            Ok(args) => arguments_result(*entry) == Ok::<Seq<Seq<char>>, (Seq<char>, Seq<char>)>(
                string_seq_view(args@),
            ),
            Err(e) => arguments_result(*entry) == Err::<Seq<Seq<char>>, (Seq<char>, Seq<char>)>(
                refusal(e),
            ),
        },
{
    proof {
        reveal_strlit("unknown_application");
        reveal_strlit("malformed_desktop_entry");
        reveal_strlit("unsupported_exec_field");
        reveal_strlit("shell_wrapper_rejected");
    }
    let is_application = match &entry.type_ {
        Some(t) => {
            let c = chars_of(t.as_str());
            eq_str(c.as_slice(), "Application")
        },
        None => false,
    };
    if !is_application || entry.hidden || entry.no_display {
        return Err(LaunchError::UnknownApplication);
    }
    let raw_exec = match &entry.exec_value {
        Some(e) => e,
        None => return Err(LaunchError::MalformedEntry("missing Exec".to_owned())),
    };
    let exec_chars = chars_of(raw_exec.as_str());
    if contains_char(exec_chars.as_slice(), '%') {
        return Err(LaunchError::UnsupportedFieldCode);
    }
    let args = match parse_exec_args(raw_exec.as_str()) {
        Ok(args) => args,
        Err(message) => return Err(LaunchError::MalformedEntry(message)),
    };
    if args.len() == 0 {
        return Err(LaunchError::MalformedEntry("empty Exec".to_owned()));
    }
    if is_shell_wrapper(args.as_slice()) {
        return Err(LaunchError::ShellWrapperRejected);
    }
    Ok(args)
}

/// The keys the launch policy reads, decoded from the registered desktop
/// file's text again just before a launch; the decoder's error text when
/// it does not decode.
pub fn launch_fields_from_text(path: &str, text: &str, locales: &[String]) -> (r: Result<EntryFields, String>)
    ensures
        match desktop_entry_fields(path@, text@, string_views(locales@)) {
            Ok(f) => r matches Ok(e) && opt_view(e.type_) == f.0.0 && e.hidden == f.0.1 && e.no_display == f.0.2
                && opt_view(e.exec_value) == f.0.4 && opt_view(e.try_exec) == f.1,
            Err(m) => r matches Err(x) && x@ == m,
        },
{
    match decode_desktop_entry(path, text, locales) {
        Ok((entry, try_exec)) => Ok(
            EntryFields {
                type_: entry.type_,
                hidden: entry.hidden,
                no_display: entry.no_display,
                exec_value: entry.exec_value,
                try_exec,
            },
        ),
        Err(message) => Err(message),
    }
}

/// An application that may be launched: its desktop ID, whether it needs a
/// terminal, and the desktop file it is launched from.
#[derive(Debug, Clone)]
pub struct LaunchTarget {
    pub desktop_id: String,
    pub terminal: bool,
    pub desktop_file: String,
}

pub open spec fn target_view(t: LaunchTarget) -> (Seq<char>, bool, Seq<char>) {
    (t.desktop_id@, t.terminal, t.desktop_file@)
}

pub open spec fn target_views(ts: Seq<LaunchTarget>) -> Seq<(Seq<char>, bool, Seq<char>)> {
    ts.map_values(|t: LaunchTarget| target_view(t))
}

/// The desktop file recorded for an ID: the first pair that names it.
pub open spec fn path_for(paths: Seq<(String, String)>, id: Seq<char>) -> Option<Seq<char>>
    decreases paths.len(),
{
    if paths.len() == 0 {
        None
    } else if paths[0].0@ == id {
        Some(paths[0].1@)
    } else {
        path_for(paths.drop_first(), id)
    }
}

/// The launchable registry: every application that has a desktop file, in
/// registry order.
pub open spec fn launch_targets(
    applications: Seq<Application>,
    paths: Seq<(String, String)>,
) -> Seq<(Seq<char>, bool, Seq<char>)>
    decreases applications.len(),
{
    if applications.len() == 0 {
        Seq::empty()
    } else {
        let rest = launch_targets(applications.drop_last(), paths);
        let a = applications.last();
        match path_for(paths, a.id@) {
            Some(p) => rest.push((a.id@, a.terminal, p)),
            None => rest,
        }
    }
}

/// The target an ID resolves to: the last one registered under it.
pub open spec fn target_for(targets: Seq<(Seq<char>, bool, Seq<char>)>, id: Seq<char>) -> Option<
    (bool, Seq<char>),
>
    decreases targets.len(),
{
    if targets.len() == 0 {
        None
    } else if targets.last().0 == id {
        Some((targets.last().1, targets.last().2))
    } else {
        target_for(targets.drop_last(), id)
    }
}

fn find_path(paths: &[(String, String)], id: &String) -> (r: Option<String>)
    ensures
        match r {
            Some(p) => path_for(paths@, id@) == Some(p@),
            None => path_for(paths@, id@) is None,
        },
{
    let mut i: usize = 0;
    assert(paths@.skip(0) =~= paths@);
    while i < paths.len()
        invariant
            i <= paths@.len(),
            path_for(paths@, id@) == path_for(paths@.skip(i as int), id@),
        decreases paths@.len() - i,
    {
        assert(paths@.skip(i as int)[0] == paths@[i as int]);
        assert(paths@.skip(i as int).drop_first() =~= paths@.skip(i + 1));
        if paths[i].0 == *id {
            return Some(paths[i].1.clone());
        }
        i = i + 1;
    }
    None
}

/// Launches in flight and the time each ID was last launched (a monotonic
/// clock reading in nanoseconds).
pub struct LaunchState {
    pub active_processes: usize,
    pub last_launch: NamedCounters<u128>,
}

pub struct LaunchService {
    targets: Vec<LaunchTarget>,
    state: LaunchState,
}

impl LaunchService {
    /// The launchable registry.
    pub closed spec fn targets(&self) -> Seq<(Seq<char>, bool, Seq<char>)> {
        target_views(self.targets@)
    }

    pub closed spec fn active_processes(&self) -> nat {
        self.state.active_processes as nat
    }

    /// When each ID was last launched.
    pub closed spec fn last_launches(&self) -> Seq<(Seq<char>, u128)> {
        self.state.last_launch.entries()
    }

    /// A service for the applications that have a desktop file in
    /// `launch_paths` (desktop ID and desktop file path pairs).
    pub fn new(applications: &[Application], launch_paths: &[(String, String)]) -> (s: Self)
        ensures
            s.targets() == launch_targets(applications@, launch_paths@),
            s.active_processes() == 0,
            s.last_launches() == Seq::<(Seq<char>, u128)>::empty(),
    {
        let mut targets: Vec<LaunchTarget> = Vec::new();
        let mut i: usize = 0;
        while i < applications.len()
            invariant
                i <= applications@.len(),
                target_views(targets@) == launch_targets(applications@.take(i as int), launch_paths@),
            decreases applications@.len() - i,
        {
            let ghost before = target_views(targets@);
            assert(applications@.take(i + 1).drop_last() =~= applications@.take(i as int));
            assert(applications@.take(i + 1).last() == applications@[i as int]);
            let application = &applications[i];
            if let Some(desktop_file) = find_path(launch_paths, &application.id) {
                let desktop_id = application.id.clone();
                targets.push(LaunchTarget { desktop_id, terminal: application.terminal, desktop_file });
                assert(target_views(targets@) =~= before.push(
                    (application.id@, application.terminal, desktop_file@),
                ));
            }
            i = i + 1;
        }
        assert(applications@.take(i as int) =~= applications@);
        LaunchService {
            targets,
            state: LaunchState { active_processes: 0, last_launch: NamedCounters::new() },
        }
    }

    /// A service with nothing to launch.
    pub fn empty() -> (s: Self)
        ensures
            s.targets() == Seq::<(Seq<char>, bool, Seq<char>)>::empty(),
            s.active_processes() == 0,
            s.last_launches() == Seq::<(Seq<char>, u128)>::empty(),
    {
        let s = LaunchService {
            targets: Vec::new(),
            state: LaunchState { active_processes: 0, last_launch: NamedCounters::new() },
        };
        assert(s.targets() =~= Seq::<(Seq<char>, bool, Seq<char>)>::empty());
        s
    }

    /// The desktop file to launch `desktop_id` from: an ID that is not
    /// registered is unknown, and terminal applications are refused.
    pub fn target(&self, desktop_id: &str) -> (r: Result<String, LaunchError>)
        ensures
            match target_for(self.targets(), desktop_id@) {
                None => r == Err::<String, LaunchError>(LaunchError::UnknownApplication),
                Some((terminal, path)) => if terminal {
                    r == Err::<String, LaunchError>(LaunchError::TerminalRequired)
                } else {
                    r matches Ok(p) && p@ == path
                },
            },
    {
        let ghost ts = self.targets();
        let key = desktop_id.to_owned();
        let mut i: usize = self.targets.len();
        assert(ts.take(i as int) =~= ts);
        while i > 0
            invariant
                i <= self.targets@.len(),
                ts == self.targets(),
                key@ == desktop_id@,
                target_for(ts, desktop_id@) == target_for(ts.take(i as int), desktop_id@),
            decreases i,
        {
            assert(ts.take(i as int).drop_last() =~= ts.take(i - 1));
            assert(ts.take(i as int).last() == target_view(self.targets@[i - 1]));
            let t = &self.targets[i - 1];
            if t.desktop_id == key {
                if t.terminal {
                    return Err(LaunchError::TerminalRequired);
                }
                return Ok(t.desktop_file.clone());
            }
            i = i - 1;
        }
        Err(LaunchError::UnknownApplication)
    }

    /// Starts a launch of `desktop_id` at monotonic time `now_nanos`: at most
    /// `MAX_ACTIVE_PROCESSES` may run, and an ID launched less than the
    /// cooldown ago is rate limited. A launch that starts is counted and its
    /// time recorded.
    pub fn begin_launch(&mut self, desktop_id: &str, now_nanos: u128) -> (r: Result<(), LaunchError>)
        ensures
            final(self).targets() == old(self).targets(),
            old(self).active_processes() >= MAX_ACTIVE_PROCESSES ==> r == Err::<(), LaunchError>(
                LaunchError::ProcessLimitReached,
            ),
            old(self).active_processes() < MAX_ACTIVE_PROCESSES ==> match lookup(
                old(self).last_launches(),
                desktop_id@,
            ) {
                Some(then) if now_nanos < then + LAUNCH_COOLDOWN_NANOS => r == Err::<(), LaunchError>(
                    LaunchError::RateLimited,
                ),
                _ => r is Ok,
            },
            r is Err ==> final(self).active_processes() == old(self).active_processes()
                && final(self).last_launches() == old(self).last_launches(),
            r is Ok ==> final(self).active_processes() == old(self).active_processes() + 1
                && forall|n: Seq<char>|
                lookup(final(self).last_launches(), n) == if n == desktop_id@ {
                    Some(now_nanos)
                } else {
                    lookup(old(self).last_launches(), n)
                },
    {
        if self.state.active_processes >= MAX_ACTIVE_PROCESSES {
            return Err(LaunchError::ProcessLimitReached);
        }
        if let Some(then) = self.state.last_launch.get(desktop_id) {
            if now_nanos < then || now_nanos - then < LAUNCH_COOLDOWN_NANOS {
                return Err(LaunchError::RateLimited);
            }
        }
        self.state.active_processes = self.state.active_processes + 1;
        self.state.last_launch.insert(desktop_id.to_owned(), now_nanos);
        Ok(())
    }

    /// A launched process exited, or could not be spawned.
    pub fn end_launch(&mut self)
        ensures
            final(self).targets() == old(self).targets(),
            final(self).last_launches() == old(self).last_launches(),
            final(self).active_processes() == if old(self).active_processes() > 0 {
                old(self).active_processes() - 1
            } else {
                0
            },
    {
        if self.state.active_processes > 0 {
            self.state.active_processes = self.state.active_processes - 1;
        }
    }
}


/// Where a program is looked for: itself when its path is absolute;
/// otherwise under each directory of `PATH` (none when `PATH` is unset).
pub open spec fn executable_candidates_spec(program: Seq<char>, path_value: Option<Seq<char>>) -> Seq<Seq<char>> {
    if program.len() > 0 && program[0] == '/' {
        seq![program]
    } else {
        match path_value {
            Some(p) => crate::text::pieces(p, ':').map_values(
                |d: Seq<char>| crate::hyprland::path_join(d, program),
            ),
            None => Seq::empty(),
        }
    }
}

pub open spec fn opt_text(s: Option<&str>) -> Option<Seq<char>> {
    match s {
        Some(v) => Some(v@),
        None => None,
    }
}

/// The paths at which `program` counts as available when one of them is an
/// executable file.
pub fn executable_candidates(program: &str, path_value: Option<&str>) -> (r: Vec<String>)
    ensures
        crate::protocol::string_views(r@) == executable_candidates_spec(program@, opt_text(path_value)),
{
    let pc = chars_of(program);
    let mut out: Vec<String> = Vec::new();
    if pc.len() > 0 && pc[0] == '/' {
        out.push(program.to_owned());
        assert(crate::protocol::string_views(out@) =~= seq![program@]);
        return out;
    }
    match path_value {
        None => {
            assert(crate::protocol::string_views(out@) =~= Seq::<Seq<char>>::empty());
            out
        },
        Some(p) => {
            let parts = crate::text::split_on(chars_of(p).as_slice(), ':');
            let ghost want = crate::text::pieces(p@, ':').map_values(
                |d: Seq<char>| crate::hyprland::path_join(d, program@),
            );
            let mut i: usize = 0;
            while i < parts.len()
                invariant
                    i <= parts@.len(),
                    crate::text::views(parts@) == crate::text::pieces(p@, ':'),
                    want == crate::text::pieces(p@, ':').map_values(
                        |d: Seq<char>| crate::hyprland::path_join(d, program@),
                    ),
                    crate::protocol::string_views(out@) == want.take(i as int),
                decreases parts@.len() - i,
            {
                let joined = crate::hyprland::path_join_exec(parts[i].as_slice(), program);
                let ghost prev = crate::protocol::string_views(out@);
                let t = crate::text::string_of(joined.as_slice());
                out.push(t);
                assert(crate::text::views(parts@)[i as int] == parts@[i as int]@);
                assert(crate::protocol::string_views(out@) =~= prev.push(t@));
                assert(want.take(i + 1) =~= want.take(i as int).push(want[i as int]));
                i = i + 1;
            }
            assert(want.take(i as int) =~= want);
            out
        },
    }
}

/// An executable file: a regular file with some execute permission bit.
pub fn is_executable_mode(is_file: bool, mode: u32) -> (b: bool)
    ensures
        b == (is_file && mode & 0o111u32 != 0),
{
    is_file && mode & 0o111u32 != 0
}


proof fn lemma_bare_name_is_its_file_name(name: Seq<char>)
    requires
        name.len() > 0,
        name != "."@,
        name != ".."@,
        forall|k: int| 0 <= k < name.len() ==> name[k] != '/',
    ensures
        file_name(name) == Some(name),
{
    lemma_last_piece_start_bounds(name);
    if last_piece_start(name) > 0 {
        assert(name[last_piece_start(name) - 1] == '/');
    }
    assert(name.skip(0) =~= name);
}

proof fn lemma_file_name_under_directory(dir: Seq<char>, name: Seq<char>)
    requires
        name.len() > 0,
        name != "."@,
        name != ".."@,
        forall|k: int| 0 <= k < name.len() ==> name[k] != '/',
    ensures
        file_name(dir + "/"@ + name) == Some(name),
{
    reveal_strlit("/");
    let q = dir + "/"@ + name;
    let start: int = dir.len() as int + 1;
    assert(q.take(start).last() == '/');
    assert(last_piece_start(q.take(start)) == start);
    assert forall|k: int| start <= k < q.len() implies q[k] != '/' by {
        assert(q[k] == name[k - start]);
    }
    lemma_last_piece_start_extend(q, start, q.len() as int);
    assert(q.take(q.len() as int) =~= q);
    assert(q.skip(start) =~= name);
}

/// A program named `sh`, `bash`, `zsh` or `fish`, bare or under any
/// directory, with `-c` or `-lc` among its arguments hands a command string
/// to a shell: it is a shell wrapper, and a visible application whose
/// `Exec` splits into such arguments is refused with
/// `shell_wrapper_rejected` before anything is launched.
pub proof fn lemma_shell_command_strings_are_refused(
    entry: EntryFields,
    args: Seq<Seq<char>>,
    directory: Option<Seq<char>>,
    shell: Seq<char>,
    flag_at: int,
)
    requires
        shell == "sh"@ || shell == "bash"@ || shell == "zsh"@ || shell == "fish"@,
        args.len() > 0,
        args[0] == match directory {
            Some(d) => d + "/"@ + shell,
            None => shell,
        },
        1 <= flag_at < args.len(),
        args[flag_at] == "-c"@ || args[flag_at] == "-lc"@,
    ensures
        shell_wrapper(args),
        match (entry.type_, entry.exec_value) {
            (Some(t), Some(x)) => (t@ == "Application"@ && !entry.hidden && !entry.no_display
                && !x@.contains('%') && exec_arguments(x@) == Ok::<Seq<Seq<char>>, Seq<char>>(args))
                ==> arguments_result(entry) == Err::<Seq<Seq<char>>, (Seq<char>, Seq<char>)>(
                ("shell_wrapper_rejected"@, Seq::empty()),
            ),
            _ => true,
        },
{
    reveal_strlit("sh");
    reveal_strlit("bash");
    reveal_strlit("zsh");
    reveal_strlit("fish");
    reveal_strlit(".");
    reveal_strlit("..");
    assert forall|k: int| 0 <= k < shell.len() implies shell[k] != '/' by {}
    assert(shell[0] != '.' && ".."@[0] == '.' && "."@[0] == '.');
    assert(shell != ".."@ && shell != "."@);
    match directory {
        Some(d) => lemma_file_name_under_directory(d, shell),
        None => lemma_bare_name_is_its_file_name(shell),
    }
}

} // verus!
