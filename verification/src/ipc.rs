//! Answers of the desktop protocol: what a query returns, and how a refused
//! command is reported.
use vstd::prelude::*;

use base64::Engine;

use crate::dispatch::{dispatch_message, DispatchError};
use crate::protocol::{
    DesktopError, DesktopErrorCode, DesktopQuery, DesktopResponse, DesktopSnapshot,
    ProtocolVersion, WindowLabel, WindowSummary, WorkspacePreview, WorkspaceSummary,
};
use crate::state::{has_window, loc_of, Villain, WORKSPACE_COUNT};
use crate::workspaces::{layout_spec, ManagedWindow, Placement, WindowId, WorkspaceId, WorkspaceView};

verus! {

/// The listening socket of the desktop protocol; the socket file is removed
/// when the server goes away.
#[derive(Debug)]
pub struct IpcServer {
    pub path: String,
}

impl IpcServer {
    pub fn new(path: String) -> (s: Self)
        ensures
            s.path == path,
    {
        IpcServer { path }
    }

    /// Where the socket is.
    pub fn path(&self) -> (p: &String)
        ensures
            p == &self.path,
    {
        &self.path
    }
}

/// The Base64 text (standard alphabet, padded) of some bytes, named: what
/// the `base64` crate's standard engine produces for them.
pub uninterp spec fn base64_standard(bytes: Seq<u8>) -> Seq<char>;

/// Encode `bytes` in standard padded Base64 (`base64`'s
/// `general_purpose::STANDARD.encode`). The text is named `base64_standard`;
/// of it only its length is claimed: four characters per started group of
/// three bytes.
#[verifier::external_body]
fn encode_base64(bytes: &Vec<u8>) -> (s: String)
    requires
        4 * ((bytes@.len() + 2) / 3) <= usize::MAX,
    ensures
        s@ == base64_standard(bytes@),
        s@.len() == 4 * ((bytes@.len() + 2) / 3),
{
    base64::engine::general_purpose::STANDARD.encode(bytes)
}

/// How many clients the desktop socket serves at once.
pub const MAX_CONNECTIONS: usize = 16;

/// The connection slots of the desktop socket: a client is served only
/// while a slot is free; the others wait in the listener's backlog until a
/// disconnect returns its slot.
#[derive(Debug)]
pub struct ConnectionSlots {
    pub active: usize,
}

impl ConnectionSlots {
    /// No client connected.
    pub fn new() -> (s: Self)
        ensures
            s.active == 0,
    {
        ConnectionSlots { active: 0 }
    }

    /// Take a slot for a new client, if one is free.
    pub fn try_admit(&mut self) -> (admitted: bool)
        ensures
            admitted == (old(self).active < MAX_CONNECTIONS),
            final(self).active == if admitted {
                old(self).active + 1
            } else {
                old(self).active as int
            },
            old(self).active <= MAX_CONNECTIONS ==> final(self).active <= MAX_CONNECTIONS,
    {
        if self.active < MAX_CONNECTIONS {
            self.active = self.active + 1;
            true
        } else {
            false
        }
    }

    /// A client disconnected: its slot is free again.
    pub fn release(&mut self)
        ensures
            final(self).active == if old(self).active > 0 {
                old(self).active - 1
            } else {
                0
            },
    {
        if self.active > 0 {
            self.active = self.active - 1;
        }
    }
}

/// A request that could not be read.
pub fn invalid_request(message: String) -> (r: DesktopResponse)
    ensures
        r matches DesktopResponse::Error(e) && e.code == DesktopErrorCode::InvalidRequest
            && e.message == message && !e.retryable,
{
    DesktopResponse::Error(
        DesktopError { code: DesktopErrorCode::InvalidRequest, message, retryable: false },
    )
}

/// The protocol class of a refused command: an unknown window or workspace
/// is not found; a missing focused or minimized window, or a minimized
/// target, is unavailable; the rest is internal.
pub open spec fn error_code(e: DispatchError) -> DesktopErrorCode {
    match e {
        DispatchError::UnknownWindow(_) | DispatchError::InvalidWorkspace(_) => DesktopErrorCode::NotFound,
        DispatchError::NoFocusedWindow | DispatchError::NoMinimizedWindow
        | DispatchError::MinimizedWindow(_) => DesktopErrorCode::Unavailable,
        _ => DesktopErrorCode::Internal,
    }
}

/// The response to a refused command.
pub fn dispatch_error(error: DispatchError) -> (r: DesktopResponse)
    ensures
        r matches DesktopResponse::Error(e) && e.code == error_code(error) && e.message@
            == dispatch_message(error) && !e.retryable,
{
    let code = match &error {
        DispatchError::UnknownWindow(_) | DispatchError::InvalidWorkspace(_) => DesktopErrorCode::NotFound,
        DispatchError::NoFocusedWindow | DispatchError::NoMinimizedWindow
        | DispatchError::MinimizedWindow(_) => DesktopErrorCode::Unavailable,
        DispatchError::Config(_) | DispatchError::EmptyCommand | DispatchError::Spawn(_) => {
            DesktopErrorCode::Internal
        },
    };
    DesktopResponse::Error(DesktopError { code, message: error.message(), retryable: false })
}

/// The answer to a command: accepted when it was carried out, else the
/// refusal of its error.
pub fn command_response(result: Result<(), DispatchError>) -> (r: DesktopResponse)
    ensures
        match result {
            Ok(()) => r is Accepted,
            Err(error) => r matches DesktopResponse::Error(e) && e.code == error_code(error)
                && e.message@ == dispatch_message(error) && !e.retryable,
        },
{
    match result {
        Ok(()) => DesktopResponse::Accepted,
        Err(error) => dispatch_error(error),
    }
}

/// The response to a workspace-preview query, from the capture's PNG bytes
/// or the capture's error (which may go away on a retry).
pub fn preview_response(workspace: WorkspaceId, width: u32, height: u32, capture: Result<Vec<u8>, String>) -> (r: DesktopResponse)
    requires
        capture matches Ok(png) ==> 4 * ((png@.len() + 2) / 3) <= usize::MAX,
    ensures
        match capture {
            Ok(png) => r matches DesktopResponse::WorkspacePreview(p) && p.workspace == workspace
                && p.width == width && p.height == height && p.png_base64@ == base64_standard(png@),
            Err(message) => r matches DesktopResponse::Error(e) && e.code == DesktopErrorCode::Unavailable
                && e.message == message && e.retryable,
        },
{
    match capture {
        Ok(png) => DesktopResponse::WorkspacePreview(
            WorkspacePreview { workspace, width, height, png_base64: encode_base64(&png) },
        ),
        Err(message) => DesktopResponse::Error(
            DesktopError { code: DesktopErrorCode::Unavailable, message, retryable: true },
        ),
    }
}

/// Every managed window with its workspace index, workspace by workspace.
pub open spec fn rows(d: Seq<WorkspaceView>) -> Seq<(int, ManagedWindow)>
    decreases d.len(),
{
    if d.len() == 0 {
        Seq::empty()
    } else {
        rows(d.drop_last()) + d.last().windows.map_values(|e: ManagedWindow| ((d.len() - 1) as int, e))
    }
}

/// The label of the first entry for `id`.
pub open spec fn label_of(labels: Seq<WindowLabel>, id: WindowId) -> Option<(Seq<char>, Seq<char>)>
    decreases labels.len(),
{
    if labels.len() == 0 {
        None
    } else if labels[0].id == id {
        Some((labels[0].title@, labels[0].app_id@))
    } else {
        label_of(labels.drop_first(), id)
    }
}

/// `s` reports window `e` of workspace `w`: its one-based workspace, its
/// state, whether it holds keyboard focus, and its label (empty when it has
/// none).
pub open spec fn summary_ok(
    s: WindowSummary,
    d: Seq<WorkspaceView>,
    w: int,
    e: ManagedWindow,
    focused: Option<WindowId>,
    labels: Seq<WindowLabel>,
) -> bool {
    &&& s.id == e.id
    &&& s.workspace == WorkspaceId((w + 1) as u32)
    &&& s.minimized == e.minimized
    &&& s.floating == e.floating is Some
    &&& s.fullscreen == (d[w].fullscreen == Some(e.id))
    &&& s.focused == (focused == Some(e.id))
    &&& match label_of(labels, e.id) {
        Some((t, a)) => s.title@ == t && s.app_id@ == a,
        None => s.title@ == Seq::<char>::empty() && s.app_id@ == Seq::<char>::empty(),
    }
}

/// `v` reports every managed window, workspace by workspace.
pub open spec fn windows_ok(
    v: Seq<WindowSummary>,
    d: Seq<WorkspaceView>,
    focused: Option<WindowId>,
    labels: Seq<WindowLabel>,
) -> bool {
    &&& v.len() == rows(d).len()
    &&& forall|k: int| 0 <= k < v.len() ==> #[trigger] summary_ok(v[k], d, rows(d)[k].0, rows(d)[k].1, focused, labels)
}

/// The summary of workspace `w`: its number, whether it is active, how many
/// windows it manages and how many of them its layout shows.
pub open spec fn workspace_summary(
    d: Seq<WorkspaceView>,
    active: int,
    output: crate::layout::Size,
    area: crate::layout::Rect,
    w: int,
) -> WorkspaceSummary {
    WorkspaceSummary {
        workspace: WorkspaceId((w + 1) as u32),
        active: w == active,
        window_count: d[w].windows.len() as u32,
        visible_window_count: layout_spec(d[w], output, area).filter(|p: Placement| p.visible).len() as u32,
    }
}

fn copy_string(s: &String) -> (r: String)
    ensures
        r@ == s@,
{
    s.clone()
}

fn find_label(labels: &Vec<WindowLabel>, id: WindowId) -> (r: (String, String))
    ensures
        match label_of(labels@, id) {
            Some((t, a)) => r.0@ == t && r.1@ == a,
            None => r.0@ == Seq::<char>::empty() && r.1@ == Seq::<char>::empty(),
        },
{
    let mut j: usize = 0;
    assert(labels@.skip(0) =~= labels@);
    while j < labels.len()
        invariant
            j <= labels@.len(),
            label_of(labels@, id) == label_of(labels@.skip(j as int), id),
        decreases labels@.len() - j,
    {
        assert(labels@.skip(j as int)[0] == labels@[j as int]);
        if labels[j].id == id {
            return (copy_string(&labels[j].title), copy_string(&labels[j].app_id));
        }
        assert(labels@.skip(j as int).drop_first() =~= labels@.skip(j + 1));
        j = j + 1;
    }
    (String::new(), String::new())
}

impl Villain {
    fn summary_of(&self, w: usize, e: &ManagedWindow, focused: Option<WindowId>, labels: &Vec<WindowLabel>) -> (s: WindowSummary)
        requires
            self.wf(),
            w < WORKSPACE_COUNT,
        ensures
            summary_ok(s, self.desk(), w as int, *e, focused, labels@),
    {
        let (title, app_id) = find_label(labels, e.id);
        assert(self.desk()[w as int] == self.workspaces@[w as int]@);
        let fullscreen = match self.workspaces[w].fullscreen {
            Some(f) => f == e.id,
            None => false,
        };
        let is_focused = match focused {
            Some(f) => f == e.id,
            None => false,
        };
        WindowSummary {
            id: e.id,
            title,
            app_id,
            workspace: WorkspaceId((w + 1) as u32),
            minimized: e.minimized,
            floating: e.floating.is_some(),
            fullscreen,
            focused: is_focused,
        }
    }

    /// Every managed window, workspace by workspace. `focused` is the
    /// managed window that holds keyboard focus; `labels` gives titles and
    /// application ids.
    pub fn window_info(&self, focused: Option<WindowId>, labels: &Vec<WindowLabel>) -> (r: Vec<WindowSummary>)
        requires
            self.wf(),
        ensures
            windows_ok(r@, self.desk(), focused, labels@),
    {
        let ghost d = self.desk();
        let mut r: Vec<WindowSummary> = Vec::new();
        let mut w: usize = 0;
        assert(d.take(0) =~= Seq::<WorkspaceView>::empty());
        while w < WORKSPACE_COUNT
            invariant
                w <= WORKSPACE_COUNT,
                self.wf(),
                d == self.desk(),
                r@.len() == rows(d.take(w as int)).len(),
                forall|k: int| 0 <= k < r@.len() ==> #[trigger] summary_ok(r@[k], d, rows(d.take(w as int))[k].0, rows(d.take(w as int))[k].1, focused, labels@),
            decreases WORKSPACE_COUNT - w,
        {
            let ws = &self.workspaces[w];
            assert(d[w as int] == ws@);
            let ghost before = rows(d.take(w as int));
            let ghost added = d[w as int].windows.map_values(|e: ManagedWindow| (w as int, e));
            assert(d.take(w + 1).drop_last() =~= d.take(w as int));
            assert(d.take(w + 1).last() == d[w as int]);
            assert(rows(d.take(w + 1)) == before + d.take(w + 1).last().windows.map_values(|e: ManagedWindow| ((d.take(w + 1).len() - 1) as int, e)));
            assert(rows(d.take(w + 1)) =~= before + added);
            let mut i: usize = 0;
            while i < ws.windows.len()
                invariant
                    i <= ws.windows@.len(),
                    w < WORKSPACE_COUNT,
                    self.wf(),
                    d == self.desk(),
                    d[w as int] == ws@,
                    added == d[w as int].windows.map_values(|e: ManagedWindow| (w as int, e)),
                    r@.len() == before.len() + i,
                    forall|k: int| 0 <= k < r@.len() ==> #[trigger] summary_ok(r@[k], d, (before + added)[k].0, (before + added)[k].1, focused, labels@),
                decreases ws.windows@.len() - i,
            {
                let e = ws.windows[i];
                let s = self.summary_of(w, &e, focused, labels);
                r.push(s);
                assert((before + added)[before.len() + i] == (w as int, e));
                i = i + 1;
            }
            w = w + 1;
        }
        assert(d.take(WORKSPACE_COUNT as int) =~= d);
        r
    }

    /// Every workspace, in order.
    pub fn workspace_info(&self) -> (r: Vec<WorkspaceSummary>)
        requires
            self.wf(),
        ensures
            r@ == Seq::new(
                WORKSPACE_COUNT as nat,
                |w: int| workspace_summary(self.desk(), self.active_workspace as int, self.output_size, self.usable_area, w),
            ),
    {
        let mut r: Vec<WorkspaceSummary> = Vec::new();
        let mut w: usize = 0;
        while w < WORKSPACE_COUNT
            invariant
                w <= WORKSPACE_COUNT,
                self.wf(),
                r@.len() == w,
                forall|k: int| 0 <= k < w ==> r@[k] == workspace_summary(self.desk(), self.active_workspace as int, self.output_size, self.usable_area, k),
            decreases WORKSPACE_COUNT - w,
        {
            let layout = self.workspace_layout(w);
            let ghost pred = |p: Placement| p.visible;
            let mut visible: usize = 0;
            let mut j: usize = 0;
            while j < layout.len()
                invariant
                    j <= layout@.len(),
                    pred == (|p: Placement| p.visible),
                    visible == layout@.take(j as int).filter(pred).len(),
                    visible <= j,
                decreases layout@.len() - j,
            {
                proof {
                    reveal_with_fuel(Seq::<_>::filter, 1);
                    assert(layout@.take(j + 1).drop_last() =~= layout@.take(j as int));
                }
                if layout[j].visible {
                    visible = visible + 1;
                }
                j = j + 1;
            }
            assert(layout@.take(j as int) =~= layout@);
            assert(self.desk()[w as int] == self.workspaces@[w as int]@);
            let count = self.workspaces[w].windows.len();
            r.push(
                WorkspaceSummary {
                    workspace: WorkspaceId((w + 1) as u32),
                    active: w == self.active_workspace,
                    window_count: count as u32,
                    visible_window_count: visible as u32,
                },
            );
            w = w + 1;
        }
        assert(r@ =~= Seq::new(
            WORKSPACE_COUNT as nat,
            |w: int| workspace_summary(self.desk(), self.active_workspace as int, self.output_size, self.usable_area, w),
        ));
        r
    }

    /// The managed window that holds keyboard focus, if any.
    pub fn active_window_info(&self, focused: Option<WindowId>, labels: &Vec<WindowLabel>) -> (r: Option<WindowSummary>)
        requires
            self.wf(),
        ensures
            match focused {
                Some(f) => if has_window(self.desk(), f) {
                    r matches Some(s) && summary_ok(
                        s,
                        self.desk(),
                        loc_of(self.desk(), f).0,
                        self.desk()[loc_of(self.desk(), f).0].windows[loc_of(self.desk(), f).1],
                        focused,
                        labels@,
                    )
                } else {
                    r is None
                },
                None => r is None,
            },
    {
        match focused {
            None => None,
            Some(f) => match self.locate(f) {
                None => None,
                Some((w, i)) => {
                    assert(self.desk()[w as int] == self.workspaces@[w as int]@);
                    let e = self.workspaces[w].windows[i];
                    Some(self.summary_of(w, &e, focused, labels))
                },
            },
        }
    }

    /// The answer to `query`, except a workspace preview, which needs a
    /// capture of the workspace (see `preview_response`). The snapshot's
    /// generation is the next window id, so it grows whenever a window is
    /// added.
    pub fn answer_query(
        &self,
        query: DesktopQuery,
        focused: Option<WindowId>,
        labels: &Vec<WindowLabel>,
        protocol: ProtocolVersion,
        component: String,
    ) -> (r: Option<DesktopResponse>)
        requires
            self.wf(),
        ensures
            match query {
                DesktopQuery::Snapshot => r matches Some(DesktopResponse::Snapshot(s))
                    && s.generation == self.next_window_id && windows_ok(s.windows@, self.desk(), focused, labels@)
                    && s.workspaces@ == Seq::new(
                    WORKSPACE_COUNT as nat,
                    |w: int| workspace_summary(self.desk(), self.active_workspace as int, self.output_size, self.usable_area, w),
                ),
                DesktopQuery::Windows => r matches Some(DesktopResponse::Windows(v)) && windows_ok(v@, self.desk(), focused, labels@),
                DesktopQuery::Workspaces => r matches Some(DesktopResponse::Workspaces(v)) && v@ == Seq::new(
                    WORKSPACE_COUNT as nat,
                    |w: int| workspace_summary(self.desk(), self.active_workspace as int, self.output_size, self.usable_area, w),
                ),
                DesktopQuery::ActiveWindow => r matches Some(DesktopResponse::ActiveWindow(a)) && match focused {
                    Some(f) => if has_window(self.desk(), f) {
                        a matches Some(s) && summary_ok(
                            s,
                            self.desk(),
                            loc_of(self.desk(), f).0,
                            self.desk()[loc_of(self.desk(), f).0].windows[loc_of(self.desk(), f).1],
                            focused,
                            labels@,
                        )
                    } else {
                        a is None
                    },
                    None => a is None,
                },
                DesktopQuery::ActiveWorkspace => r matches Some(DesktopResponse::ActiveWorkspace(w))
                    && w == WorkspaceId((self.active_workspace + 1) as u32),
                DesktopQuery::WorkspacePreview { .. } => r is None,
                DesktopQuery::Version => r matches Some(DesktopResponse::Version { protocol: p, component: c })
                    && p == protocol && c == component,
            },
    {
        match query {
            DesktopQuery::Snapshot => Some(
                DesktopResponse::Snapshot(
                    DesktopSnapshot {
                        generation: self.next_window_id,
                        workspaces: self.workspace_info(),
                        windows: self.window_info(focused, labels),
                    },
                ),
            ),
            DesktopQuery::Windows => Some(DesktopResponse::Windows(self.window_info(focused, labels))),
            DesktopQuery::Workspaces => Some(DesktopResponse::Workspaces(self.workspace_info())),
            DesktopQuery::ActiveWindow => Some(
                DesktopResponse::ActiveWindow(self.active_window_info(focused, labels)),
            ),
            DesktopQuery::ActiveWorkspace => Some(
                DesktopResponse::ActiveWorkspace(WorkspaceId((self.active_workspace + 1) as u32)),
            ),
            DesktopQuery::WorkspacePreview { .. } => None,
            DesktopQuery::Version => Some(DesktopResponse::Version { protocol, component }),
        }
    }
}

} // verus!
