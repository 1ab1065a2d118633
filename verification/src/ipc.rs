//! The decisions of one frontend connection: framing, the handshake, request
//! dispatch, and the typed answer to every request. Reading and writing the
//! socket, serializing, and the work a request asks for (launching,
//! refreshing the session, commanding the compositor) are the caller's; it
//! hands each outcome back here to be answered.
use vstd::prelude::*;
use vstd::utf8::{decode_utf8, valid_utf8};

use crate::launch::LaunchError;
use crate::protocol::{
    app_view, app_views, clone_application, error_response, HyprlandAvailability,
    HyprlandCapabilities, MediaControlError, MediaSnapshotError, NotificationsError, Request,
    Response, TelemetrySnapshot, TelemetrySnapshotError, WindowFocusError, WorkspaceSnapshot,
    WorkspaceSnapshotError, WorkspaceSwitchError, Application, MAX_APPLICATION_PAGE_SIZE,
    MAX_MESSAGE_BYTES, PROTOCOL_VERSION, SERVER_NAME, clone_string, opt_view,
};
use crate::text::{append_chars, append_str, chars_of, concat, decimal_chars, decimal_of, string_of};

verus! {

/// The code a workspace snapshot is refused with, by availability.
pub open spec fn snapshot_rejection_code(a: HyprlandAvailability) -> WorkspaceSnapshotError {
    match a {
        HyprlandAvailability::Unavailable => WorkspaceSnapshotError::HyprlandUnavailable,
        HyprlandAvailability::Incompatible => WorkspaceSnapshotError::HyprlandIncompatible,
        HyprlandAvailability::Available => WorkspaceSnapshotError::SnapshotNotReady,
    }
}

/// The refusal of a workspace snapshot: retryable unless Hyprland is
/// incompatible.
pub open spec fn snapshot_rejection(request_id: u64, a: HyprlandAvailability) -> Response {
    Response::WorkspaceSnapshotRejected {
        protocol_version: PROTOCOL_VERSION,
        request_id,
        code: snapshot_rejection_code(a),
        retryable: snapshot_rejection_code(a) != WorkspaceSnapshotError::HyprlandIncompatible,
    }
}

pub fn workspace_snapshot_rejection(request_id: u64, capabilities: &HyprlandCapabilities) -> (r:
    Response)
    ensures
        r == snapshot_rejection(request_id, capabilities.availability),
{
    let code = match capabilities.availability {
        HyprlandAvailability::Unavailable => WorkspaceSnapshotError::HyprlandUnavailable,
        HyprlandAvailability::Incompatible => WorkspaceSnapshotError::HyprlandIncompatible,
        HyprlandAvailability::Available => WorkspaceSnapshotError::SnapshotNotReady,
    };
    let retryable = match code {
        WorkspaceSnapshotError::HyprlandIncompatible => false,
        _ => true,
    };
    Response::WorkspaceSnapshotRejected {
        protocol_version: PROTOCOL_VERSION,
        request_id,
        code,
        retryable,
    }
}

/// Whether answering a snapshot request needs the session store: only when
/// Hyprland is available.
pub fn session_needed(capabilities: &HyprlandCapabilities) -> (b: bool)
    ensures
        b == (capabilities.availability == HyprlandAvailability::Available),
{
    capabilities.availability == HyprlandAvailability::Available
}

/// The answer to a snapshot request, given the session's snapshot after at
/// most one on-demand refresh (`None` without a session or a snapshot).
pub fn workspace_snapshot_response(
    request_id: u64,
    capabilities: &HyprlandCapabilities,
    snapshot: Option<WorkspaceSnapshot>,
) -> (r: Response)
    ensures
        r == if capabilities.availability == HyprlandAvailability::Available && snapshot is Some {
            Response::WorkspaceSnapshot {
                protocol_version: PROTOCOL_VERSION,
                request_id,
                snapshot: snapshot.unwrap(),
            }
        } else {
            snapshot_rejection(request_id, capabilities.availability)
        },
{
    if capabilities.availability != HyprlandAvailability::Available {
        return workspace_snapshot_rejection(request_id, capabilities);
    }
    match snapshot {
        Some(snapshot) => Response::WorkspaceSnapshot {
            protocol_version: PROTOCOL_VERSION,
            request_id,
            snapshot,
        },
        None => workspace_snapshot_rejection(request_id, capabilities),
    }
}

/// `r` refuses the switch to `handle` with `code`.
pub open spec fn switch_rejected(r: Response, request_id: u64, handle: Seq<char>, code: WorkspaceSwitchError) -> bool {
    r matches Response::SwitchRejected {
        protocol_version: v,
        request_id: id,
        workspace_handle: h,
        code: c,
    } && v == PROTOCOL_VERSION && id == request_id && h@ == handle && c == code
}

pub fn switch_rejection(request_id: u64, workspace_handle: &str, code: WorkspaceSwitchError) -> (r:
    Response)
    ensures
        switch_rejected(r, request_id, workspace_handle@, code),
{
    Response::SwitchRejected {
        protocol_version: PROTOCOL_VERSION,
        request_id,
        workspace_handle: workspace_handle.to_owned(),
        code,
    }
}

/// The refusal a switch meets before the session is consulted: Hyprland must
/// be available and a session store must exist.
pub open spec fn switch_precondition(a: HyprlandAvailability, has_session: bool) -> Option<
    WorkspaceSwitchError,
> {
    match a {
        HyprlandAvailability::Unavailable => Some(WorkspaceSwitchError::HyprlandUnavailable),
        HyprlandAvailability::Incompatible => Some(WorkspaceSwitchError::HyprlandIncompatible),
        HyprlandAvailability::Available => if has_session {
            None
        } else {
            Some(WorkspaceSwitchError::HyprlandUnavailable)
        },
    }
}

pub fn switch_precheck(
    request_id: u64,
    workspace_handle: &str,
    capabilities: &HyprlandCapabilities,
    has_session: bool,
) -> (r: Option<Response>)
    ensures
        match switch_precondition(capabilities.availability, has_session) {
            None => r is None,
            Some(code) => r matches Some(resp) && switch_rejected(resp, request_id, workspace_handle@, code),
        },
{
    match capabilities.availability {
        HyprlandAvailability::Unavailable => Some(
            switch_rejection(request_id, workspace_handle, WorkspaceSwitchError::HyprlandUnavailable),
        ),
        HyprlandAvailability::Incompatible => Some(
            switch_rejection(request_id, workspace_handle, WorkspaceSwitchError::HyprlandIncompatible),
        ),
        HyprlandAvailability::Available => if has_session {
            None
        } else {
            Some(
                switch_rejection(
                    request_id,
                    workspace_handle,
                    WorkspaceSwitchError::HyprlandUnavailable,
                ),
            )
        },
    }
}

/// The first workspace of the snapshot with the given handle.
pub open spec fn workspace_with_handle(s: WorkspaceSnapshot, handle: Seq<char>) -> Option<int> {
    if exists|i: int| 0 <= i < s.workspaces@.len() && s.workspaces@[i].handle@ == handle {
        Some(
            choose|i: int|
                0 <= i < s.workspaces@.len() && s.workspaces@[i].handle@ == handle && forall|j: int|
                    0 <= j < i ==> s.workspaces@[j].handle@ != handle,
        )
    } else {
        None
    }
}

/// What a switch to `handle` resolves to in the current snapshot: the
/// workspace number to switch to, or the refusal. Only plain numbered
/// workspaces are switchable.
pub open spec fn switch_resolution(snapshot: Option<WorkspaceSnapshot>, handle: Seq<char>) -> Result<
    i32,
    WorkspaceSwitchError,
> {
    match snapshot {
        None => Err(WorkspaceSwitchError::UnknownWorkspaceHandle),
        Some(s) => match workspace_with_handle(s, handle) {
            None => Err(WorkspaceSwitchError::UnknownWorkspaceHandle),
            Some(i) => if s.workspaces@[i].is_special || s.workspaces@[i].index < 1 {
                Err(WorkspaceSwitchError::UnsupportedWorkspace)
            } else {
                Ok(s.workspaces@[i].index)
            },
        },
    }
}

pub open spec fn opt_snapshot(s: Option<&WorkspaceSnapshot>) -> Option<WorkspaceSnapshot> {
    match s {
        Some(v) => Some(*v),
        None => None,
    }
}

pub fn switch_target(
    request_id: u64,
    workspace_handle: &str,
    snapshot: Option<&WorkspaceSnapshot>,
) -> (r: Result<i32, Response>)
    ensures
        match switch_resolution(opt_snapshot(snapshot), workspace_handle@) {
            Ok(index) => r == Ok::<i32, Response>(index),
            Err(code) => r matches Err(resp) && switch_rejected(resp, request_id, workspace_handle@, code),
        },
{
    let snap = match snapshot {
        Some(s) => s,
        None => {
            return Err(
                switch_rejection(
                    request_id,
                    workspace_handle,
                    WorkspaceSwitchError::UnknownWorkspaceHandle,
                ),
            )
        },
    };
    assert(opt_snapshot(snapshot) == Some(*snap));
    let key = workspace_handle.to_owned();
    let mut i: usize = 0;
    while i < snap.workspaces.len()
        invariant
            i <= snap.workspaces@.len(),
            key@ == workspace_handle@,
            opt_snapshot(snapshot) == Some(*snap),
            forall|j: int| 0 <= j < i ==> snap.workspaces@[j].handle@ != workspace_handle@,
        decreases snap.workspaces@.len() - i,
    {
        if snap.workspaces[i].handle == key {
            proof {
                assert(snap.workspaces@[i as int].handle@ == workspace_handle@);
                assert(forall|j: int| 0 <= j < i ==> snap.workspaces@[j].handle@ != workspace_handle@);
                let k = choose|k: int|
                    0 <= k < snap.workspaces@.len() && snap.workspaces@[k].handle@
                        == workspace_handle@ && forall|j: int|
                        0 <= j < k ==> snap.workspaces@[j].handle@ != workspace_handle@;
                assert(k == i as int) by {
                    if k > i {
                        assert(snap.workspaces@[i as int].handle@ == workspace_handle@);
                    }
                }
                assert(workspace_with_handle(*snap, workspace_handle@) == Some(i as int));
            }
            let workspace = &snap.workspaces[i];
            if workspace.is_special || workspace.index < 1 {
                return Err(
                    switch_rejection(
                        request_id,
                        workspace_handle,
                        WorkspaceSwitchError::UnsupportedWorkspace,
                    ),
                );
            }
            return Ok(workspace.index);
        }
        i = i + 1;
    }
    Err(switch_rejection(request_id, workspace_handle, WorkspaceSwitchError::UnknownWorkspaceHandle))
}

/// The answer once the compositor accepted or refused the switch.
pub fn switch_outcome(request_id: u64, workspace_handle: &str, accepted: bool) -> (r: Response)
    ensures
        accepted ==> (r matches Response::SwitchAccepted {
            protocol_version: v,
            request_id: id,
            workspace_handle: h,
        } && v == PROTOCOL_VERSION && id == request_id && h@ == workspace_handle@),
        !accepted ==> switch_rejected(
            r,
            request_id,
            workspace_handle@,
            WorkspaceSwitchError::SwitchFailed,
        ),
{
    if accepted {
        Response::SwitchAccepted {
            protocol_version: PROTOCOL_VERSION,
            request_id,
            workspace_handle: workspace_handle.to_owned(),
        }
    } else {
        switch_rejection(request_id, workspace_handle, WorkspaceSwitchError::SwitchFailed)
    }
}

/// `r` refuses focusing `handle` with `code`.
pub open spec fn focus_rejected(r: Response, request_id: u64, handle: Seq<char>, code: WindowFocusError) -> bool {
    r matches Response::FocusRejected {
        protocol_version: v,
        request_id: id,
        window_handle: h,
        code: c,
    } && v == PROTOCOL_VERSION && id == request_id && h@ == handle && c == code
}

pub fn focus_rejection(request_id: u64, window_handle: &str, code: WindowFocusError) -> (r: Response)
    ensures
        focus_rejected(r, request_id, window_handle@, code),
{
    Response::FocusRejected {
        protocol_version: PROTOCOL_VERSION,
        request_id,
        window_handle: window_handle.to_owned(),
        code,
    }
}

/// The refusal focusing meets before the session is consulted.
pub open spec fn focus_precondition(a: HyprlandAvailability, has_session: bool) -> Option<
    WindowFocusError,
> {
    match a {
        HyprlandAvailability::Unavailable => Some(WindowFocusError::HyprlandUnavailable),
        HyprlandAvailability::Incompatible => Some(WindowFocusError::HyprlandIncompatible),
        HyprlandAvailability::Available => if has_session {
            None
        } else {
            Some(WindowFocusError::HyprlandUnavailable)
        },
    }
}

pub fn focus_precheck(
    request_id: u64,
    window_handle: &str,
    capabilities: &HyprlandCapabilities,
    has_session: bool,
) -> (r: Option<Response>)
    ensures
        match focus_precondition(capabilities.availability, has_session) {
            None => r is None,
            Some(code) => r matches Some(resp) && focus_rejected(resp, request_id, window_handle@, code),
        },
{
    match capabilities.availability {
        HyprlandAvailability::Unavailable => Some(
            focus_rejection(request_id, window_handle, WindowFocusError::HyprlandUnavailable),
        ),
        HyprlandAvailability::Incompatible => Some(
            focus_rejection(request_id, window_handle, WindowFocusError::HyprlandIncompatible),
        ),
        HyprlandAvailability::Available => if has_session {
            None
        } else {
            Some(focus_rejection(request_id, window_handle, WindowFocusError::HyprlandUnavailable))
        },
    }
}

/// The compositor address a focus request resolves to: only a handle the
/// session issued resolves; anything else is refused.
pub fn focus_target(request_id: u64, window_handle: &str, address: Option<String>) -> (r: Result<
    String,
    Response,
>)
    ensures
        match address {
            Some(a) => r matches Ok(x) && x@ == a@,
            None => r matches Err(resp) && focus_rejected(
                resp,
                request_id,
                window_handle@,
                WindowFocusError::UnknownWindowHandle,
            ),
        },
{
    match address {
        Some(a) => Ok(a),
        None => Err(focus_rejection(request_id, window_handle, WindowFocusError::UnknownWindowHandle)),
    }
}

/// The answer once the compositor accepted or refused the focus command,
/// and whether the session must first be refreshed once: an accepted focus
/// changed the compositor's state, so the next snapshot is read from it
/// rather than trusted to the event stream.
pub fn focus_outcome(request_id: u64, window_handle: &str, accepted: bool) -> (r: (Response, bool))
    ensures
        r.1 == accepted,
        accepted ==> (r.0 matches Response::FocusAccepted {
            protocol_version: v,
            request_id: id,
            window_handle: h,
        } && v == PROTOCOL_VERSION && id == request_id && h@ == window_handle@),
        !accepted ==> focus_rejected(r.0, request_id, window_handle@, WindowFocusError::FocusFailed),
{
    if accepted {
        (
            Response::FocusAccepted {
                protocol_version: PROTOCOL_VERSION,
                request_id,
                window_handle: window_handle.to_owned(),
            },
            true,
        )
    } else {
        (focus_rejection(request_id, window_handle, WindowFocusError::FocusFailed), false)
    }
}

/// The answer to a telemetry request from Core's latest sample.
pub fn telemetry_response(request_id: u64, latest: Option<TelemetrySnapshot>) -> (r: Response)
    ensures
        r == match latest {
            Some(snapshot) => Response::TelemetrySnapshot {
                protocol_version: PROTOCOL_VERSION,
                request_id,
                snapshot,
            },
            None => Response::TelemetrySnapshotRejected {
                protocol_version: PROTOCOL_VERSION,
                request_id,
                code: TelemetrySnapshotError::SnapshotNotReady,
                retryable: true,
            },
        },
{
    match latest {
        Some(snapshot) => Response::TelemetrySnapshot {
            protocol_version: PROTOCOL_VERSION,
            request_id,
            snapshot,
        },
        None => Response::TelemetrySnapshotRejected {
            protocol_version: PROTOCOL_VERSION,
            request_id,
            code: TelemetrySnapshotError::SnapshotNotReady,
            retryable: true,
        },
    }
}

/// The answer to a launch request, correlated with its request and desktop ID.
pub fn launch_response(request_id: u64, desktop_id: String, outcome: Result<u32, LaunchError>) -> (r:
    Response)
    ensures
        match outcome {
            Ok(pid) => r == Response::LaunchAccepted {
                protocol_version: PROTOCOL_VERSION,
                request_id,
                desktop_id,
                process_id: pid,
            },
            Err(e) => r matches Response::LaunchRejected {
                protocol_version: v,
                request_id: id,
                desktop_id: d,
                code: c,
                message: m,
                retryable: t,
            } && v == PROTOCOL_VERSION && id == request_id && d == desktop_id && c@ == e.code_of()
                && m@ == e.message_of() && t == (e is RateLimited || e is ProcessLimitReached),
        },
{
    match outcome {
        Ok(process_id) => Response::LaunchAccepted {
            protocol_version: PROTOCOL_VERSION,
            request_id,
            desktop_id,
            process_id,
        },
        Err(error) => Response::LaunchRejected {
            protocol_version: PROTOCOL_VERSION,
            request_id,
            desktop_id,
            code: error.code().to_owned(),
            message: error.message(),
            retryable: error.retryable(),
        },
    }
}

/// What an application page carries: its request, its entries, where the
/// next page starts, and the registry's size.
pub type PageView = (
    u64,
    Seq<(Seq<char>, Seq<char>, Seq<char>, Option<Seq<char>>, Seq<Seq<char>>, bool)>,
    Option<u32>,
    u32,
);

/// The page a response carries, if it is an application page of the current
/// protocol version.
pub open spec fn page_view(r: Response) -> Option<PageView> {
    match r {
        Response::Applications { protocol_version, request_id, applications, next_offset, total } =>
            if protocol_version == PROTOCOL_VERSION {
            Some((request_id, app_views(applications@), next_offset, total))
        } else {
            None
        },
        _ => None,
    }
}

/// The page of entries `start..end`: a next offset exists exactly when
/// entries remain after it.
pub open spec fn page_of(
    applications: Seq<Application>,
    request_id: u64,
    start: int,
    end: int,
    total: u32,
) -> PageView {
    (
        request_id,
        app_views(applications).subrange(start, end),
        if end < applications.len() {
            Some(
                if end > u32::MAX {
                    u32::MAX
                } else {
                    end as u32
                },
            )
        } else {
            None
        },
        total,
    )
}

pub fn application_page_response(
    applications: &[Application],
    request_id: u64,
    start: usize,
    end: usize,
    total: u32,
) -> (r: Response)
    requires
        start <= end <= applications@.len(),
    ensures
        page_view(r) == Some(page_of(applications@, request_id, start as int, end as int, total)),
{
    let next_offset: Option<u32> = if end < applications.len() {
        Some(
            if end > 0xffff_ffff {
                0xffff_ffff
            } else {
                end as u32
            },
        )
    } else {
        None
    };
    let mut page: Vec<Application> = Vec::new();
    let mut i: usize = start;
    while i < end
        invariant
            start <= i <= end <= applications@.len(),
            app_views(page@) == app_views(applications@).subrange(start as int, i as int),
        decreases end - i,
    {
        let ghost before = app_views(page@);
        page.push(clone_application(&applications[i]));
        assert(app_views(page@) =~= before.push(app_view(applications@[i as int])));
        assert(app_views(applications@).subrange(start as int, i + 1) =~= app_views(
            applications@,
        ).subrange(start as int, i as int).push(app_view(applications@[i as int])));
        i = i + 1;
    }
    Response::Applications {
        protocol_version: PROTOCOL_VERSION,
        request_id,
        applications: page,
        next_offset,
        total,
    }
}

/// Why no application page could be built.
#[derive(Debug, Clone, PartialEq, Eq)]
pub enum PageError {
    /// A candidate page could not be encoded to measure it.
    SizingFailed,
    /// The first requested application alone exceeds the transport limit.
    DoesNotFit(String),
}

/// Where a page request starts and where it may end at most.
pub open spec fn page_bounds(len: nat, offset: u32, limit: u16) -> (int, int) {
    let start = if offset > len {
        len as int
    } else {
        offset as int
    };
    let lim = if limit < 1 {
        1
    } else if limit > MAX_APPLICATION_PAGE_SIZE {
        MAX_APPLICATION_PAGE_SIZE as int
    } else {
        limit as int
    };
    let end = if start + lim > len {
        len as int
    } else {
        start + lim
    };
    (start, end)
}

pub open spec fn registry_total(len: nat) -> u32 {
    if len > u32::MAX {
        u32::MAX
    } else {
        len as u32
    }
}

/// The page for `start..end` was measured and fits the transport limit.
pub open spec fn page_fits<F: Fn(&Response) -> Option<usize>>(
    size: F,
    applications: Seq<Application>,
    request_id: u64,
    start: int,
    end: int,
) -> bool {
    exists|c: Response, n: usize|
        #![trigger size.ensures((&c,), Some(n))]
        page_view(c) == Some(
            page_of(applications, request_id, start, end, registry_total(applications.len())),
        ) && size.ensures((&c,), Some(n)) && n <= MAX_MESSAGE_BYTES
}

/// The page for `start..end` was measured and exceeds the transport limit.
pub open spec fn page_overflows<F: Fn(&Response) -> Option<usize>>(
    size: F,
    applications: Seq<Application>,
    request_id: u64,
    start: int,
    end: int,
) -> bool {
    exists|c: Response, n: usize|
        #![trigger size.ensures((&c,), Some(n))]
        page_view(c) == Some(
            page_of(applications, request_id, start, end, registry_total(applications.len())),
        ) && size.ensures((&c,), Some(n)) && n > MAX_MESSAGE_BYTES
}

/// `page` is the page of entries `start..end`, with `end` no further than
/// the request allows and empty only when no entry remains; it was measured
/// to fit unless empty, and one more
/// entry was measured not to fit unless the request's end was reached.
pub open spec fn page_answer<F: Fn(&Response) -> Option<usize>>(
    size: F,
    applications: Seq<Application>,
    request_id: u64,
    offset: u32,
    limit: u16,
    page: Response,
    end: int,
) -> bool {
    let (start, requested_end) = page_bounds(applications.len(), offset, limit);
    &&& start <= end <= requested_end
    &&& page_view(page) == Some(
        page_of(applications, request_id, start, end, registry_total(applications.len())),
    )
    &&& (end > start || start == requested_end)
    &&& end > start ==> page_fits(size, applications, request_id, start, end)
    &&& end < requested_end ==> page_overflows(size, applications, request_id, start, end + 1)
}

/// The largest page of the registry, from `offset` and of at most `limit`
/// entries (clamped to `1..=MAX_APPLICATION_PAGE_SIZE`), whose encoding fits
/// `MAX_MESSAGE_BYTES`. `size` measures a candidate's encoding; the search
/// assumes that a longer page never encodes shorter.
pub fn application_page<F: Fn(&Response) -> Option<usize>>(
    applications: &[Application],
    request_id: u64,
    offset: u32,
    limit: u16,
    size: F,
) -> (r: Result<Response, PageError>)
    requires
        forall|c: &Response| size.requires((c,)),
    ensures
        match r {
            Ok(page) => exists|end: int|
                #[trigger] page_answer(size, applications@, request_id, offset, limit, page, end),
            Err(PageError::DoesNotFit(id)) => {
                let (start, requested_end) = page_bounds(applications@.len(), offset, limit);
                &&& start < requested_end
                &&& id@ == applications@[start].id@
                &&& page_overflows(size, applications@, request_id, start, start + 1)
            },
            Err(PageError::SizingFailed) => exists|c: Response|
                #[trigger] size.ensures((&c,), None::<usize>) && page_view(c) is Some,
        },
{
    let len = applications.len();
    let total: u32 = if len > 0xffff_ffff {
        0xffff_ffff
    } else {
        len as u32
    };
    let start: usize = if offset as usize > len {
        len
    } else {
        offset as usize
    };
    let lim: usize = if limit < 1 {
        1
    } else if limit > MAX_APPLICATION_PAGE_SIZE {
        MAX_APPLICATION_PAGE_SIZE as usize
    } else {
        limit as usize
    };
    let requested_end: usize = if lim > len - start {
        len
    } else {
        start + lim
    };
    let mut end: usize = start;
    let mut upper_bound: usize = requested_end;
    while end < upper_bound
        invariant
            start <= end <= upper_bound <= requested_end <= applications@.len(),
            (start as int, requested_end as int) == page_bounds(applications@.len(), offset, limit),
            total == registry_total(applications@.len()),
            forall|c: &Response| size.requires((c,)),
            end > start ==> page_fits(size, applications@, request_id, start as int, end as int),
            upper_bound < requested_end ==> page_overflows(
                size,
                applications@,
                request_id,
                start as int,
                upper_bound + 1,
            ),
        decreases upper_bound - end,
    {
        let candidate_end = end + (upper_bound - end + 1) / 2;
        let candidate = application_page_response(applications, request_id, start, candidate_end, total);
        let measured = size(&candidate);
        match measured {
            None => {
                assert(size.ensures((&candidate,), None::<usize>) && page_view(candidate) is Some);
                return Err(PageError::SizingFailed);
            },
            Some(n) => {
                if n <= MAX_MESSAGE_BYTES {
                    end = candidate_end;
                } else {
                    upper_bound = candidate_end - 1;
                }
            },
        }
    }
    if end == start && start < requested_end {
        return Err(PageError::DoesNotFit(clone_string(&applications[start].id)));
    }
    let page = application_page_response(applications, request_id, start, end, total);
    assert(page_answer(size, applications@, request_id, offset, limit, page, end as int));
    Ok(page)
}

/// `String::from_utf8` (std): the text, exactly when the bytes are valid
/// UTF-8; its characters are the ones the bytes encode.
#[verifier::external_body]
pub(crate) fn utf8_string(bytes: Vec<u8>) -> (r: Option<String>)
    ensures
        r is Some <==> valid_utf8(bytes@),
        r matches Some(text) ==> text@ == decode_utf8(bytes@),
{
    String::from_utf8(bytes).ok()
}

/// One newline-terminated message read from the socket.
#[derive(Debug)]
pub enum Frame {
    EndOfStream,
    Line(String),
    TooLarge,
    InvalidUtf8,
}

/// The position of the first line feed, if any.
pub open spec fn first_newline(s: Seq<u8>) -> Option<int> {
    if exists|i: int| 0 <= i < s.len() && s[i] == 10u8 {
        Some(choose|i: int| 0 <= i < s.len() && s[i] == 10u8 && forall|j: int| 0 <= j < i ==> s[j] != 10u8)
    } else {
        None
    }
}

/// The frame that a complete message's bytes make: its text when it is
/// valid UTF-8.
pub open spec fn line_frame(f: Frame, bytes: Seq<u8>) -> bool {
    if valid_utf8(bytes) {
        f matches Frame::Line(text) && text@ == decode_utf8(bytes)
    } else {
        f is InvalidUtf8
    }
}

/// Assembles one frame from successive reads of the socket's buffer; at most
/// `MAX_MESSAGE_BYTES` bytes are held.
pub struct FrameReader {
    bytes: Vec<u8>,
}

impl FrameReader {
    /// The bytes of the current message read so far.
    pub closed spec fn pending(&self) -> Seq<u8> {
        self.bytes@
    }

    pub fn new() -> (r: Self)
        ensures
            r.pending() == Seq::<u8>::empty(),
    {
        FrameReader { bytes: Vec::new() }
    }

    /// Takes in the bytes currently buffered by the socket and says how many
    /// it consumed and, once the message is complete, the frame. An empty
    /// buffer means the peer closed the stream. A message over the limit is
    /// discarded up to its line feed, or up to the end of the buffer.
    pub fn feed(&mut self, available: &[u8]) -> (r: (usize, Option<Frame>))
        requires
            old(self).pending().len() <= MAX_MESSAGE_BYTES,
        ensures
            final(self).pending().len() <= MAX_MESSAGE_BYTES,
            available@.len() == 0 ==> r.0 == 0 && (if old(self).pending().len() == 0 {
                r.1 matches Some(Frame::EndOfStream)
            } else {
                r.1 matches Some(Frame::InvalidUtf8)
            }),
            available@.len() > 0 ==> match first_newline(available@) {
                Some(k) => r.0 == k + 1 && (if old(self).pending().len() + k > MAX_MESSAGE_BYTES {
                    r.1 matches Some(Frame::TooLarge)
                } else {
                    r.1 matches Some(f) && line_frame(f, old(self).pending() + available@.take(k))
                }),
                None => r.0 == available@.len() && (if old(self).pending().len() + available@.len()
                    > MAX_MESSAGE_BYTES {
                    r.1 matches Some(Frame::TooLarge)
                } else {
                    r.1 is None && final(self).pending() == old(self).pending() + available@
                }),
            },
    {
        if available.len() == 0 {
            return if self.bytes.len() == 0 {
                (0, Some(Frame::EndOfStream))
            } else {
                (0, Some(Frame::InvalidUtf8))
            };
        }
        let mut k: usize = 0;
        while k < available.len() && available[k] != 10u8
            invariant
                k <= available@.len(),
                forall|j: int| 0 <= j < k ==> available@[j] != 10u8,
            decreases available@.len() - k,
        {
            k = k + 1;
        }
        if k < available.len() {
            proof {
                let c = choose|c: int|
                    0 <= c < available@.len() && available@[c] == 10u8 && forall|j: int|
                        0 <= j < c ==> available@[j] != 10u8;
                assert(c == k as int) by {
                    if c > k {
                        assert(available@[k as int] == 10u8);
                    }
                }
            }
            if k > MAX_MESSAGE_BYTES - self.bytes.len() {
                return (k + 1, Some(Frame::TooLarge));
            }
            let mut message: Vec<u8> = Vec::new();
            std::mem::swap(&mut message, &mut self.bytes);
            let ghost before = message@;
            let mut i: usize = 0;
            while i < k
                invariant
                    i <= k < available@.len(),
                    message@ == before + available@.take(i as int),
                decreases k - i,
            {
                message.push(available[i]);
                i = i + 1;
                assert(message@ =~= before + available@.take(i as int));
            }
            let frame = match utf8_string(message) {
                Some(text) => Frame::Line(text),
                None => Frame::InvalidUtf8,
            };
            return (k + 1, Some(frame));
        }
        if available.len() > MAX_MESSAGE_BYTES - self.bytes.len() {
            return (available.len(), Some(Frame::TooLarge));
        }
        let ghost before = self.bytes@;
        let mut i: usize = 0;
        while i < available.len()
            invariant
                i <= available@.len(),
                before.len() + available@.len() <= MAX_MESSAGE_BYTES,
                self.bytes@ == before + available@.take(i as int),
            decreases available@.len() - i,
        {
            self.bytes.push(available[i]);
            i = i + 1;
            assert(self.bytes@ =~= before + available@.take(i as int));
        }
        assert(available@.take(i as int) =~= available@);
        (available.len(), None)
    }
}

/// Where a connection stands: waiting for the client's hello, serving
/// requests, or done.
#[derive(Debug, Clone, Copy, PartialEq, Eq, Structural)]
pub enum Phase {
    AwaitingHello,
    Serving,
    Closed,
}

/// What the caller does next for a connection.
#[derive(Debug)]
pub enum Step {
    /// Write the response and keep serving.
    Reply(Response),
    /// Write the response, then close the connection.
    ReplyAndClose(Response),
    /// Close the connection without a response.
    Close,
    /// Build the application page (`application_page`) and write it.
    ListApplications { request_id: u64, offset: u32, limit: u16 },
    /// Launch the application and write `launch_response`.
    Launch { request_id: u64, desktop_id: String },
    /// Consult the session store and write `workspace_snapshot_response`.
    WorkspaceSnapshot { request_id: u64 },
    /// Resolve and perform the switch (`switch_precheck`, `switch_target`,
    /// `switch_outcome`).
    SwitchWorkspace { request_id: u64, workspace_handle: String },
    /// Resolve and perform the focus (`focus_precheck`, `focus_target`,
    /// `focus_outcome`).
    FocusWindow { request_id: u64, window_handle: String },
    /// Read the latest telemetry sample and write `telemetry_response`.
    TelemetrySnapshot { request_id: u64 },
}

/// The capabilities, by the views of their fields.
pub open spec fn capabilities_view(c: HyprlandCapabilities) -> (
    HyprlandAvailability,
    Option<Seq<char>>,
    bool,
    bool,
    bool,
    bool,
    bool,
) {
    (
        c.availability,
        opt_view(c.version),
        c.can_query_workspaces,
        c.can_query_windows,
        c.can_query_active_workspace,
        c.can_query_active_window,
        c.can_receive_events,
    )
}

pub fn clone_capabilities(c: &HyprlandCapabilities) -> (r: HyprlandCapabilities)
    ensures
        capabilities_view(r) == capabilities_view(*c),
{
    HyprlandCapabilities {
        availability: c.availability,
        version: crate::protocol::clone_opt_string(&c.version),
        can_query_workspaces: c.can_query_workspaces,
        can_query_windows: c.can_query_windows,
        can_query_active_workspace: c.can_query_active_workspace,
        can_query_active_window: c.can_query_active_window,
        can_receive_events: c.can_receive_events,
    }
}

/// The state of one frontend connection.
pub struct Connection {
    pub phase: Phase,
    /// Changed workspace snapshots are pushed only after the client asked
    /// for its first one.
    pub session_updates_enabled: bool,
    pub capabilities: HyprlandCapabilities,
    pub server_version: String,
}

/// `step` answers with the error `code`, `message` and retry hint, closing
/// the connection when `close`.
pub open spec fn replies_error(step: Step, code: Seq<char>, message: Seq<char>, retryable: bool, close: bool) -> bool {
    if close {
        step matches Step::ReplyAndClose(r) && error_response(r, code, message, retryable)
    } else {
        step matches Step::Reply(r) && error_response(r, code, message, retryable)
    }
}

/// The decimal digits of a protocol version.
pub open spec fn version_text(v: u8) -> Seq<char> {
    decimal_chars(v as nat)
}

impl Connection {
    /// A connection that has not yet received its hello.
    pub fn new(capabilities: HyprlandCapabilities, server_version: String) -> (c: Self)
        ensures
            c.phase == Phase::AwaitingHello,
            !c.session_updates_enabled,
            c.capabilities == capabilities,
            c.server_version == server_version,
    {
        Connection { phase: Phase::AwaitingHello, session_updates_enabled: false, capabilities, server_version }
    }

    /// No hello arrived in time: the client is told, retryably, and the
    /// connection closes.
    pub fn on_handshake_timeout(&mut self) -> (step: Step)
        ensures
            final(self).phase == Phase::Closed,
            replies_error(step, "handshake_timeout"@, "hello was not received in time"@, true, true),
    {
        self.phase = Phase::Closed;
        Step::ReplyAndClose(Response::error("handshake_timeout", "hello was not received in time", true))
    }

    /// The text of a frame, or how the connection ends: at the end of the
    /// stream silently, and for an oversized or undecodable message after
    /// telling the client.
    pub fn frame_line(&mut self, frame: Frame) -> (r: Result<String, Step>)
        ensures
            match frame {
                Frame::Line(text) => r == Ok::<String, Step>(text) && final(self).phase == old(self).phase,
                Frame::EndOfStream => r matches Err(Step::Close) && final(self).phase == Phase::Closed,
                Frame::TooLarge => r matches Err(step) && replies_error(
                    step,
                    "message_too_large"@,
                    "message exceeds 64 KiB"@,
                    false,
                    true,
                ) && final(self).phase == Phase::Closed,
                Frame::InvalidUtf8 => r matches Err(step) && replies_error(
                    step,
                    "invalid_encoding"@,
                    "message must be UTF-8 and newline terminated"@,
                    false,
                    true,
                ) && final(self).phase == Phase::Closed,
            },
            final(self).session_updates_enabled == old(self).session_updates_enabled,
    {
        match frame {
            Frame::Line(text) => Ok(text),
            Frame::EndOfStream => {
                self.phase = Phase::Closed;
                Err(Step::Close)
            },
            Frame::TooLarge => {
                self.phase = Phase::Closed;
                Err(
                    Step::ReplyAndClose(
                        Response::error("message_too_large", "message exceeds 64 KiB", false),
                    ),
                )
            },
            Frame::InvalidUtf8 => {
                self.phase = Phase::Closed;
                Err(
                    Step::ReplyAndClose(
                        Response::error(
                            "invalid_encoding",
                            "message must be UTF-8 and newline terminated",
                            false,
                        ),
                    ),
                )
            },
        }
    }

    fn invalid_request(parse_error: &str) -> (r: Response)
        ensures
            error_response(r, "invalid_request"@, "invalid request: "@ + parse_error@, false),
    {
        let message = concat("invalid request: ", parse_error);
        Response::error("invalid_request", message.as_str(), false)
    }

    /// The step for one parsed message (`Err` holds the parse error's text).
    /// Before the hello only a hello of the current protocol version is
    /// accepted; every refusal then closes the connection. While serving,
    /// each request is answered or handed to the caller as work, and a
    /// request of another protocol version closes the connection.
    pub fn on_request(&mut self, parsed: Result<Request, String>) -> (step: Step)
        ensures
            final(self).session_updates_enabled == old(self).session_updates_enabled,
            final(self).capabilities == old(self).capabilities,
            final(self).server_version == old(self).server_version,
            old(self).phase == Phase::Closed ==> step is Close && final(self).phase == Phase::Closed,
            old(self).phase == Phase::AwaitingHello ==> match parsed {
                Err(e) => replies_error(step, "invalid_request"@, "invalid request: "@ + e@, false, true)
                    && final(self).phase == Phase::Closed,
                Ok(Request::Hello { protocol_version, .. }) => if protocol_version == PROTOCOL_VERSION {
                    final(self).phase == Phase::Serving && (step matches Step::Reply(
                        Response::Welcome { protocol_version: v, server_name: n, server_version: sv },
                    ) && v == PROTOCOL_VERSION && n@ == "velora-core"@ && sv@ == old(self).server_version@)
                } else {
                    final(self).phase == Phase::Closed && replies_error(
                        step,
                        "protocol_mismatch"@,
                        "unsupported protocol version "@ + version_text(protocol_version)
                            + "; expected "@ + version_text(PROTOCOL_VERSION),
                        false,
                        true,
                    )
                },
                Ok(_) => final(self).phase == Phase::Closed && replies_error(
                    step,
                    "handshake_required"@,
                    "send hello before other requests"@,
                    false,
                    true,
                ),
            },
            old(self).phase == Phase::Serving ==> match parsed {
                Err(e) => final(self).phase == Phase::Serving && replies_error(
                    step,
                    "invalid_request"@,
                    "invalid request: "@ + e@,
                    false,
                    false,
                ),
                Ok(request) => if request.version_field() != PROTOCOL_VERSION {
                    final(self).phase == Phase::Closed && replies_error(
                        step,
                        "protocol_mismatch"@,
                        "protocol version changed"@,
                        false,
                        true,
                    )
                } else {
                    final(self).phase == Phase::Serving && serving_step(
                        request,
                        step,
                        old(self).capabilities,
                    )
                },
            },
    {
        proof {
            reveal_strlit("velora-core");
        }
        match self.phase {
            Phase::Closed => Step::Close,
            Phase::AwaitingHello => match parsed {
                Err(e) => {
                    self.phase = Phase::Closed;
                    Step::ReplyAndClose(Self::invalid_request(e.as_str()))
                },
                Ok(Request::Hello { protocol_version, .. }) => {
                    if protocol_version == PROTOCOL_VERSION {
                        self.phase = Phase::Serving;
                        Step::Reply(
                            Response::Welcome {
                                protocol_version: PROTOCOL_VERSION,
                                server_name: SERVER_NAME.to_owned(),
                                server_version: clone_string(&self.server_version),
                            },
                        )
                    } else {
                        self.phase = Phase::Closed;
                        let mut message = chars_of("unsupported protocol version ");
                        let given = decimal_of(protocol_version as u64);
                        append_chars(&mut message, given.as_slice());
                        append_str(&mut message, "; expected ");
                        let expected = decimal_of(PROTOCOL_VERSION as u64);
                        append_chars(&mut message, expected.as_slice());
                        let text = string_of(message.as_slice());
                        Step::ReplyAndClose(Response::error("protocol_mismatch", text.as_str(), false))
                    }
                },
                Ok(_) => {
                    self.phase = Phase::Closed;
                    Step::ReplyAndClose(
                        Response::error("handshake_required", "send hello before other requests", false),
                    )
                },
            },
            Phase::Serving => match parsed {
                Err(e) => Step::Reply(Self::invalid_request(e.as_str())),
                Ok(request) => {
                    if request.protocol_version() != PROTOCOL_VERSION {
                        self.phase = Phase::Closed;
                        return Step::ReplyAndClose(
                            Response::error("protocol_mismatch", "protocol version changed", false),
                        );
                    }
                    self.serve(request)
                },
            },
        }
    }

    fn serve(&self, request: Request) -> (step: Step)
        requires
            request.version_field() == PROTOCOL_VERSION,
        ensures
            serving_step(request, step, self.capabilities),
    {
        match request {
            Request::Ping { request_id, .. } => Step::Reply(
                Response::Pong { protocol_version: PROTOCOL_VERSION, request_id },
            ),
            Request::ListApplications { request_id, offset, limit, .. } => Step::ListApplications {
                request_id,
                offset,
                limit,
            },
            Request::LaunchApplication { request_id, desktop_id, .. } => Step::Launch {
                request_id,
                desktop_id,
            },
            Request::GetHyprlandCapabilities { request_id, .. } => Step::Reply(
                Response::HyprlandCapabilities {
                    protocol_version: PROTOCOL_VERSION,
                    request_id,
                    capabilities: clone_capabilities(&self.capabilities),
                },
            ),
            Request::GetWorkspaceSnapshot { request_id, .. } => Step::WorkspaceSnapshot { request_id },
            Request::SwitchWorkspace { request_id, workspace_handle, .. } => Step::SwitchWorkspace {
                request_id,
                workspace_handle,
            },
            Request::FocusWindow { request_id, window_handle, .. } => Step::FocusWindow {
                request_id,
                window_handle,
            },
            Request::GetTelemetrySnapshot { request_id, .. } => Step::TelemetrySnapshot { request_id },
            Request::GetMediaSnapshot { request_id, .. } => Step::Reply(
                Response::MediaSnapshotRejected {
                    protocol_version: PROTOCOL_VERSION,
                    request_id,
                    code: MediaSnapshotError::MediaUnavailable,
                    retryable: false,
                },
            ),
            Request::GetNotifications { request_id, .. } => Step::Reply(
                Response::NotificationsRejected {
                    protocol_version: PROTOCOL_VERSION,
                    request_id,
                    code: NotificationsError::NotificationsUnavailable,
                    retryable: false,
                },
            ),
            Request::SendMediaControl { request_id, player_handle, .. } => Step::Reply(
                Response::MediaControlRejected {
                    protocol_version: PROTOCOL_VERSION,
                    request_id,
                    player_handle,
                    code: MediaControlError::MediaUnavailable,
                },
            ),
            Request::Hello { .. } => Step::Reply(
                Response::error("already_handshaken", "hello has already completed", false),
            ),
        }
    }

    /// A response is about to be written: once the client has received a
    /// workspace snapshot it gets every later change pushed.
    pub fn note_response(&mut self, response: &Response)
        ensures
            final(self).phase == old(self).phase,
            final(self).capabilities == old(self).capabilities,
            final(self).server_version == old(self).server_version,
            final(self).session_updates_enabled == (old(self).session_updates_enabled
                || response is WorkspaceSnapshot),
    {
        if let Response::WorkspaceSnapshot { .. } = response {
            self.session_updates_enabled = true;
        }
    }

    /// A changed snapshot published by the session store: pushed with
    /// request ID zero once updates are enabled.
    pub fn on_snapshot_update(&self, snapshot: Option<WorkspaceSnapshot>) -> (r: Option<Response>)
        ensures
            r == if self.session_updates_enabled && snapshot is Some {
                Some(
                    Response::WorkspaceSnapshot {
                        protocol_version: PROTOCOL_VERSION,
                        request_id: 0,
                        snapshot: snapshot.unwrap(),
                    },
                )
            } else {
                None
            },
    {
        if !self.session_updates_enabled {
            return None;
        }
        match snapshot {
            Some(snapshot) => Some(
                Response::WorkspaceSnapshot { protocol_version: PROTOCOL_VERSION, request_id: 0, snapshot },
            ),
            None => None,
        }
    }
}

/// The answer when no application page could be built.
pub fn page_failure() -> (r: Response)
    ensures
        error_response(
            r,
            "application_page_failed"@,
            "application registry page exceeds the transport limit"@,
            false,
        ),
{
    Response::error(
        "application_page_failed",
        "application registry page exceeds the transport limit",
        false,
    )
}

/// How a request of the current protocol version is served once the
/// handshake is done.
pub open spec fn serving_step(request: Request, step: Step, capabilities: HyprlandCapabilities) -> bool {
    match request {
        Request::Ping { request_id, .. } => step == Step::Reply(
            Response::Pong { protocol_version: PROTOCOL_VERSION, request_id },
        ),
        Request::ListApplications { request_id, offset, limit, .. } => step
            == Step::ListApplications { request_id, offset, limit },
        Request::LaunchApplication { request_id, desktop_id, .. } => step == Step::Launch {
            request_id,
            desktop_id,
        },
        Request::GetHyprlandCapabilities { request_id, .. } => step matches Step::Reply(
            Response::HyprlandCapabilities { protocol_version: v, request_id: id, capabilities: c },
        ) && v == PROTOCOL_VERSION && id == request_id && capabilities_view(c) == capabilities_view(
            capabilities,
        ),
        Request::GetWorkspaceSnapshot { request_id, .. } => step == Step::WorkspaceSnapshot {
            request_id,
        },
        Request::SwitchWorkspace { request_id, workspace_handle, .. } => step
            == Step::SwitchWorkspace { request_id, workspace_handle },
        Request::FocusWindow { request_id, window_handle, .. } => step == Step::FocusWindow {
            request_id,
            window_handle,
        },
        Request::GetTelemetrySnapshot { request_id, .. } => step == Step::TelemetrySnapshot {
            request_id,
        },
        Request::GetMediaSnapshot { request_id, .. } => step == Step::Reply(
            Response::MediaSnapshotRejected {
                protocol_version: PROTOCOL_VERSION,
                request_id,
                code: MediaSnapshotError::MediaUnavailable,
                retryable: false,
            },
        ),
        Request::GetNotifications { request_id, .. } => step == Step::Reply(
            Response::NotificationsRejected {
                protocol_version: PROTOCOL_VERSION,
                request_id,
                code: NotificationsError::NotificationsUnavailable,
                retryable: false,
            },
        ),
        Request::SendMediaControl { request_id, player_handle, .. } => step == Step::Reply(
            Response::MediaControlRejected {
                protocol_version: PROTOCOL_VERSION,
                request_id,
                player_handle,
                code: MediaControlError::MediaUnavailable,
            },
        ),
        Request::Hello { .. } => replies_error(
            step,
            "already_handshaken"@,
            "hello has already completed"@,
            false,
            false,
        ),
    }
}


/// What is found at the socket path before the server binds it.
#[derive(Debug, Clone, Copy, PartialEq, Eq, Structural)]
pub enum ExistingPath {
    Absent,
    Socket,
    NotSocket,
}

/// How connecting to an existing socket went.
#[derive(Debug, Clone, Copy, PartialEq, Eq, Structural)]
pub enum ProbeOutcome {
    Connected,
    RefusedOrMissing,
    OtherError,
}

/// What to do about the socket path.
#[derive(Debug, Clone, Copy, PartialEq, Eq, Structural)]
pub enum SocketPathAction {
    /// Nothing is there: bind.
    Bind,
    /// Something that is not a socket is there: never remove it.
    RefuseNonSocket,
    /// Probe the socket by connecting to it.
    Probe,
    /// A server answers there: another Core is running.
    AlreadyRunning,
    /// Nobody answers: remove the stale socket, then bind.
    RemoveStale,
    /// The socket could not be verified.
    CannotVerify,
}

/// The decision about an existing path, before any probe.
pub fn socket_path_action(existing: ExistingPath) -> (a: SocketPathAction)
    ensures
        a == match existing {
            ExistingPath::Absent => SocketPathAction::Bind,
            ExistingPath::NotSocket => SocketPathAction::RefuseNonSocket,
            ExistingPath::Socket => SocketPathAction::Probe,
        },
{
    match existing {
        ExistingPath::Absent => SocketPathAction::Bind,
        ExistingPath::NotSocket => SocketPathAction::RefuseNonSocket,
        ExistingPath::Socket => SocketPathAction::Probe,
    }
}

/// The decision about an existing socket after probing it: only a socket
/// nobody answers on is removed.
pub fn probed_socket_action(outcome: ProbeOutcome) -> (a: SocketPathAction)
    ensures
        a == match outcome {
            ProbeOutcome::Connected => SocketPathAction::AlreadyRunning,
            ProbeOutcome::RefusedOrMissing => SocketPathAction::RemoveStale,
            ProbeOutcome::OtherError => SocketPathAction::CannotVerify,
        },
{
    match outcome {
        ProbeOutcome::Connected => SocketPathAction::AlreadyRunning,
        ProbeOutcome::RefusedOrMissing => SocketPathAction::RemoveStale,
        ProbeOutcome::OtherError => SocketPathAction::CannotVerify,
    }
}

} // verus!
