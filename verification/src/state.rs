//! The compositor state that window-management decisions read and change.
use vstd::prelude::*;

use crate::config::RuntimeConfig;
use crate::layout::{point, Point, Rect, Size};
use crate::workspaces::{geometry_ok, WindowId, Workspace, WorkspaceView};

verus! {

/// The number of workspaces.
pub const WORKSPACE_COUNT: usize = 10;

/// The state of the compositor that its policy works on. The compositor
/// keeps the client surfaces beside it and applies what the policy decides.
#[derive(Debug)]
pub struct Villain {
    pub config: RuntimeConfig,
    /// The Wayland socket clients connect to.
    pub socket_name: String,
    /// The X11 display number of XWayland, once it runs.
    pub xwayland_display: Option<u32>,
    /// Whether Villain owns the session (direct TTY mode).
    pub owns_session: bool,
    pub workspaces: Vec<Workspace>,
    pub active_workspace: usize,
    pub next_window_id: u64,
    pub output_size: Size,
    /// The part of the output that panels leave to windows.
    pub usable_area: Rect,
    /// Launched applications still running: (launch workspace, process id).
    pub children: Vec<(usize, u32)>,
    /// A focus change waits until held shortcut keys are released.
    pub pending_focus_restore: bool,
    /// Whether the host (or the seat) gives Villain input focus.
    pub host_focused: bool,
    pub repaint_needed: bool,
    /// The generation of the cursor-animation timer; only the timer of the
    /// latest generation asks for a frame.
    pub cursor_timer_generation: u64,
}

/// The generation after `g`, wrapping around.
pub open spec fn next_generation(g: u64) -> u64 {
    if g == u64::MAX {
        0
    } else {
        (g + 1) as u64
    }
}

/// The views of a list of workspaces.
pub open spec fn views(s: Seq<Workspace>) -> Seq<WorkspaceView> {
    s.map_values(|w: Workspace| w@)
}

/// `(w, i)` names window `i` of workspace `w`.
pub open spec fn window_at(d: Seq<WorkspaceView>, w: int, i: int) -> bool {
    0 <= w < d.len() && 0 <= i < d[w].windows.len()
}

/// The id of window `i` of workspace `w`.
pub open spec fn wid(d: Seq<WorkspaceView>, w: int, i: int) -> WindowId {
    d[w].windows[i].id
}

/// No window id occurs twice, on one workspace or across them.
pub open spec fn ids_unique(d: Seq<WorkspaceView>) -> bool {
    forall|w1: int, i1: int, w2: int, i2: int|
        window_at(d, w1, i1) && window_at(d, w2, i2) && #[trigger] wid(d, w1, i1) == #[trigger] wid(
            d,
            w2,
            i2,
        ) ==> w1 == w2 && i1 == i2
}

/// Every id is below the next one to be handed out.
pub open spec fn ids_below(d: Seq<WorkspaceView>, next: u64) -> bool {
    forall|w: int, i: int| window_at(d, w, i) ==> (#[trigger] wid(d, w, i)).0 < next
}

/// Some workspace manages the window `id`.
pub open spec fn has_window(d: Seq<WorkspaceView>, id: WindowId) -> bool {
    exists|w: int, i: int| window_at(d, w, i) && #[trigger] wid(d, w, i) == id
}

/// Where the window `id` is: its workspace and its index there.
pub open spec fn loc_of(d: Seq<WorkspaceView>, id: WindowId) -> (int, int) {
    choose|w: int, i: int| window_at(d, w, i) && #[trigger] wid(d, w, i) == id
}

pub proof fn lemma_loc_of(d: Seq<WorkspaceView>, id: WindowId, w: int, i: int)
    requires
        ids_unique(d),
        window_at(d, w, i),
        wid(d, w, i) == id,
    ensures
        has_window(d, id),
        loc_of(d, id) == (w, i),
{
    assert(has_window(d, id));
    let (w2, i2) = loc_of(d, id);
    assert(window_at(d, w2, i2) && wid(d, w2, i2) == id);
}

/// Each workspace has room to lay out its windows.
pub open spec fn counts_ok(d: Seq<WorkspaceView>) -> bool {
    forall|w: int| 0 <= w < d.len() ==> (#[trigger] d[w]).windows.len() < i32::MAX
}

/// Whether each workspace's fullscreen window is one of its windows.
pub open spec fn fullscreen_ok(d: Seq<WorkspaceView>) -> bool {
    forall|w: int|
        0 <= w < d.len() ==> ((#[trigger] d[w]).fullscreen matches Some(f) ==> exists|i: int|
            0 <= i < d[w].windows.len() && #[trigger] d[w].windows[i].id == f)
}

impl Villain {
    /// Everything but the workspaces, the active workspace and the focus
    /// bookkeeping is as in `other`, the need for a frame included.
    pub open spec fn same_context(&self, other: &Villain) -> bool {
        &&& self.same_setup(other)
        &&& self.repaint_needed == other.repaint_needed
    }

    /// Everything but the workspaces, the active workspace, the focus
    /// bookkeeping and the need for a frame is as in `other`.
    pub open spec fn same_setup(&self, other: &Villain) -> bool {
        &&& self.config == other.config
        &&& self.socket_name == other.socket_name
        &&& self.xwayland_display == other.xwayland_display
        &&& self.owns_session == other.owns_session
        &&& self.output_size == other.output_size
        &&& self.usable_area == other.usable_area
        &&& self.next_window_id == other.next_window_id
        &&& self.children == other.children
        &&& self.host_focused == other.host_focused
        &&& self.cursor_timer_generation == other.cursor_timer_generation
    }

    /// The workspaces as mathematical values.
    pub open spec fn desk(&self) -> Seq<WorkspaceView> {
        views(self.workspaces@)
    }

    /// The state's invariant: ten workspaces, one active; every window id
    /// unique and below the next id; an output of nonnegative size; launched
    /// children recorded on existing workspaces.
    pub open spec fn wf(&self) -> bool {
        &&& self.workspaces@.len() == WORKSPACE_COUNT
        &&& self.active_workspace < WORKSPACE_COUNT
        &&& ids_unique(self.desk())
        &&& ids_below(self.desk(), self.next_window_id)
        &&& counts_ok(self.desk())
        &&& fullscreen_ok(self.desk())
        &&& geometry_ok(self.output_size, self.usable_area)
        &&& forall|c: int| 0 <= c < self.children@.len() ==> (#[trigger] self.children@[c]).0 < WORKSPACE_COUNT
    }

    /// A fresh compositor state: ten empty workspaces, the first active,
    /// window ids starting at one, an 800x600 output until one is known.
    pub fn new(config: RuntimeConfig, socket_name: String) -> (s: Self)
        ensures
            s.wf(),
            s.config == config,
            s.socket_name == socket_name,
            s.active_workspace == 0,
            s.next_window_id == 1,
            s.output_size == (Size { w: 800, h: 600 }),
            s.usable_area == (Rect { loc: point(0, 0), size: Size { w: 800, h: 600 } }),
            s.xwayland_display is None,
            !s.owns_session,
            s.host_focused,
            s.repaint_needed,
            s.cursor_timer_generation == 0,
            !s.pending_focus_restore,
            s.children@.len() == 0,
            forall|w: int|
                0 <= w < WORKSPACE_COUNT ==> (#[trigger] s.desk()[w]).windows.len() == 0
                    && s.desk()[w].focus_history.len() == 0 && s.desk()[w].minimized_history.len()
                    == 0 && s.desk()[w].fullscreen is None,
    {
        let mut workspaces: Vec<Workspace> = Vec::new();
        let mut k: usize = 0;
        while k < WORKSPACE_COUNT
            invariant
                k <= WORKSPACE_COUNT,
                workspaces@.len() == k,
                forall|w: int|
                    0 <= w < k ==> (#[trigger] workspaces@[w])@.windows.len() == 0
                        && workspaces@[w]@.focus_history.len() == 0
                        && workspaces@[w]@.minimized_history.len() == 0
                        && workspaces@[w]@.fullscreen is None,
            decreases WORKSPACE_COUNT - k,
        {
            workspaces.push(Workspace::new());
            k = k + 1;
        }
        let output = Size { w: 800, h: 600 };
        let s = Villain {
            config,
            socket_name,
            xwayland_display: None,
            owns_session: false,
            workspaces,
            active_workspace: 0,
            next_window_id: 1,
            output_size: output,
            usable_area: Rect { loc: Point { x: 0, y: 0 }, size: output },
            children: Vec::new(),
            pending_focus_restore: false,
            host_focused: true,
            repaint_needed: true,
            cursor_timer_generation: 0,
        };
        assert(forall|w: int| 0 <= w < WORKSPACE_COUNT ==> #[trigger] s.desk()[w] == s.workspaces@[w]@);
        s
    }

    /// Ask for the next frame to be drawn.
    pub fn request_repaint(&mut self)
        ensures
            *final(self) == (Villain { repaint_needed: true, ..*old(self) }),
    {
        self.repaint_needed = true;
    }

    /// Start a new generation of the cursor-animation timer and return it:
    /// the timer the caller sets now (if the cursor is animated) carries it,
    /// and every older timer becomes harmless.
    pub fn schedule_cursor_frame(&mut self) -> (generation: u64)
        ensures
            generation == next_generation(old(self).cursor_timer_generation),
            *final(self) == (Villain { cursor_timer_generation: generation, ..*old(self) }),
    {
        self.cursor_timer_generation = self.cursor_timer_generation.wrapping_add(1);
        self.cursor_timer_generation
    }

    /// A cursor-animation timer of `generation` fired: it asks for a frame
    /// only if no newer timer was scheduled since.
    pub fn cursor_timer_fired(&mut self, generation: u64)
        ensures
            *final(self) == (Villain {
                repaint_needed: old(self).repaint_needed || generation == old(self).cursor_timer_generation,
                ..*old(self)
            }),
    {
        if self.cursor_timer_generation == generation {
            self.request_repaint();
        }
    }

    /// Where the window `id` is, if a workspace manages it.
    pub fn locate(&self, id: WindowId) -> (r: Option<(usize, usize)>)
        requires
            self.wf(),
        ensures
            r is Some <==> has_window(self.desk(), id),
            r matches Some((w, i)) ==> loc_of(self.desk(), id) == (w as int, i as int) && window_at(
                self.desk(),
                w as int,
                i as int,
            ) && wid(self.desk(), w as int, i as int) == id,
    {
        let ghost d = self.desk();
        let mut w: usize = 0;
        while w < self.workspaces.len()
            invariant
                d == self.desk(),
                w <= self.workspaces@.len(),
                self.workspaces@.len() == d.len(),
                ids_unique(d),
                forall|v: int, i: int| 0 <= v < w && window_at(d, v, i) ==> #[trigger] wid(d, v, i) != id,
            decreases self.workspaces@.len() - w,
        {
            let ws = &self.workspaces[w];
            assert(d[w as int] == ws@);
            let mut i: usize = 0;
            while i < ws.windows.len()
                invariant
                    d == self.desk(),
                    ids_unique(d),
                    w < d.len(),
                    d[w as int] == ws@,
                    i <= ws.windows@.len(),
                    forall|j: int| 0 <= j < i ==> #[trigger] wid(d, w as int, j) != id,
                decreases ws.windows@.len() - i,
            {
                if ws.windows[i].id == id {
                    assert(wid(d, w as int, i as int) == id);
                    proof {
                        lemma_loc_of(d, id, w as int, i as int);
                    }
                    return Some((w, i));
                }
                i = i + 1;
            }
            w = w + 1;
        }
        assert(!has_window(d, id)) by {
            if has_window(d, id) {
                let (v, i) = choose|v: int, i: int| window_at(d, v, i) && #[trigger] wid(d, v, i) == id;
                assert(wid(d, v, i) != id);
            }
        }
        None
    }
}

} // verus!
