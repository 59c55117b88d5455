//! Ordered workspaces with a master-and-stack layout.
//!
//! A managed window is known here by its `WindowId`; the compositor keeps
//! the link between an id and its client surface.
use vstd::prelude::*;

use crate::state::{
    counts_ok, fullscreen_ok, has_window, ids_below, ids_unique, lemma_loc_of, loc_of, views, wid, window_at,
    Villain, WORKSPACE_COUNT,
};
use crate::layout::{
    constrain_geometry, constrain_spec, fixed_size, fixed_size_spec, master_stack_layout,
    master_stack_spec, point, size_of, tdiv, lemma_tile_bounds, lemma_constrain_bounds, rect_ok,
    max_int, Point, Rect, Size,
};

verus! {

/// A window's identity, monotonic for the compositor's lifetime.
#[derive(Clone, Copy, Debug, PartialEq, Eq, Structural, Hash)]
pub struct WindowId(pub u64);

/// A one-based workspace number, as the desktop protocol counts them.
#[derive(Clone, Copy, Debug, PartialEq, Eq, Structural, Hash)]
pub struct WorkspaceId(pub u32);

/// What a client has said about its window: its size hints (a zero extent
/// means "no hint"), its natural size, and whether it is a dialog.
#[derive(Clone, Copy, Debug, PartialEq, Eq, Structural)]
pub struct WindowHints {
    pub min: Size,
    pub max: Size,
    pub natural: Size,
    pub dialog: bool,
}

/// A window managed on a workspace.
#[derive(Clone, Copy, Debug, PartialEq, Eq, Structural)]
pub struct ManagedWindow {
    pub id: WindowId,
    pub minimized: bool,
    /// The managed window this one is transient for.
    pub parent: Option<WindowId>,
    /// The geometry of a floating window; `None` for a tiled one.
    pub floating: Option<Rect>,
    /// The client's minimum and maximum size when its hints were last applied.
    pub min: Size,
    pub max: Size,
}

/// One workspace: its windows in stacking order, its focus and minimize
/// histories (oldest first), and the window that is fullscreen on it.
#[derive(Debug)]
pub struct Workspace {
    pub windows: Vec<ManagedWindow>,
    pub focus_history: Vec<WindowId>,
    pub minimized_history: Vec<WindowId>,
    pub fullscreen: Option<WindowId>,
}

/// The mathematical content of a workspace.
pub struct WorkspaceView {
    pub windows: Seq<ManagedWindow>,
    pub focus_history: Seq<WindowId>,
    pub minimized_history: Seq<WindowId>,
    pub fullscreen: Option<WindowId>,
}

impl View for Workspace {
    type V = WorkspaceView;

    open spec fn view(&self) -> WorkspaceView {
        WorkspaceView {
            windows: self.windows@,
            focus_history: self.focus_history@,
            minimized_history: self.minimized_history@,
            fullscreen: self.fullscreen,
        }
    }
}

/// Where a window goes and how it is shown.
#[derive(Clone, Copy, Debug, PartialEq, Eq, Structural)]
pub struct Placement {
    pub id: WindowId,
    pub rect: Rect,
    pub fullscreen: bool,
    pub tiled: bool,
    pub visible: bool,
}

/// What a workspace preview draws.
pub struct PreviewScene {
    pub output_size: Size,
    /// The shown windows and their rectangles, in stacking order.
    pub windows: Vec<(WindowId, Rect)>,
}

/// The shown placements of `l`, each as its window and rectangle, in order.
pub open spec fn preview_windows(l: Seq<Placement>) -> Seq<(WindowId, Rect)>
    decreases l.len(),
{
    if l.len() == 0 {
        Seq::empty()
    } else {
        let rest = preview_windows(l.drop_last());
        if l.last().visible {
            rest.push((l.last().id, l.last().rect))
        } else {
            rest
        }
    }
}

/// The index of the first window with `id`, or the number of windows.
pub open spec fn first_with_id(ws: Seq<ManagedWindow>, id: WindowId) -> int
    decreases ws.len(),
{
    if ws.len() == 0 {
        0
    } else if ws[0].id == id {
        0
    } else {
        1 + first_with_id(ws.drop_first(), id)
    }
}

pub proof fn lemma_first_with_id(ws: Seq<ManagedWindow>, id: WindowId)
    ensures
        0 <= first_with_id(ws, id) <= ws.len(),
        first_with_id(ws, id) < ws.len() ==> ws[first_with_id(ws, id)].id == id,
        forall|j: int| 0 <= j < first_with_id(ws, id) ==> #[trigger] ws[j].id != id,
    decreases ws.len(),
{
    if ws.len() > 0 && ws[0].id != id {
        lemma_first_with_id(ws.drop_first(), id);
        assert forall|j: int| 0 <= j < first_with_id(ws, id) implies #[trigger] ws[j].id != id by {
            if j > 0 {
                assert(ws[j] == ws.drop_first()[j - 1]);
            }
        }
    }
}

/// The parent of the first window with `id`, if there is such a window.
pub open spec fn parent_of_id(ws: Seq<ManagedWindow>, id: WindowId) -> Option<WindowId> {
    let i = first_with_id(ws, id);
    if 0 <= i < ws.len() {
        ws[i].parent
    } else {
        None
    }
}

/// Following parents from `cur`, at most `fuel` steps, reaches `ancestor`.
pub open spec fn reaches(
    ws: Seq<ManagedWindow>,
    cur: Option<WindowId>,
    ancestor: WindowId,
    fuel: nat,
) -> bool
    decreases fuel,
{
    if fuel == 0 {
        false
    } else {
        match cur {
            None => false,
            Some(id) => id == ancestor || reaches(ws, parent_of_id(ws, id), ancestor, (fuel - 1) as nat),
        }
    }
}

/// `entry` descends from `ancestor` through at most as many parent links as
/// the workspace has windows (so a cycle of parents ends).
pub open spec fn descendant_spec(ws: Seq<ManagedWindow>, entry: ManagedWindow, ancestor: WindowId) -> bool {
    reaches(ws, entry.parent, ancestor, ws.len())
}

/// Some minimized window on the workspace is an ancestor of `entry`.
pub open spec fn hidden_spec(ws: Seq<ManagedWindow>, entry: ManagedWindow) -> bool {
    exists|j: int| 0 <= j < ws.len() && #[trigger] ws[j].minimized && descendant_spec(ws, entry, ws[j].id)
}

/// The window shown fullscreen: the workspace's fullscreen window, when it
/// is present, not minimized and not hidden by a minimized ancestor.
pub open spec fn effective_fullscreen(w: WorkspaceView) -> Option<WindowId> {
    match w.fullscreen {
        Some(id) => if exists|j: int|
            0 <= j < w.windows.len() && #[trigger] w.windows[j].id == id && !w.windows[j].minimized
                && !hidden_spec(w.windows, w.windows[j]) {
            Some(id)
        } else {
            None
        },
        None => None,
    }
}


/// A window that takes a tile: neither minimized nor floating.
pub open spec fn tiled_slot(e: ManagedWindow) -> bool {
    !e.minimized && e.floating is None
}

/// How many of the first `k` windows take a tile.
pub open spec fn tiled_before(ws: Seq<ManagedWindow>, k: int) -> nat
    decreases k,
{
    if k <= 0 {
        0
    } else {
        tiled_before(ws, k - 1) + if tiled_slot(ws[k - 1]) {
            1nat
        } else {
            0nat
        }
    }
}

pub proof fn lemma_tiled_before_mono(ws: Seq<ManagedWindow>, a: int, b: int)
    requires
        0 <= a <= b,
    ensures
        tiled_before(ws, a) <= tiled_before(ws, b),
        tiled_before(ws, b) <= tiled_before(ws, a) + (b - a),
    decreases b - a,
{
    if a < b {
        lemma_tiled_before_mono(ws, a, b - 1);
    }
}

/// The whole output.
pub open spec fn output_rect(output: Size) -> Rect {
    Rect { loc: point(0, 0), size: output }
}

/// The placement of window `k` of workspace `w`, before stacking order.
pub open spec fn place_spec(w: WorkspaceView, output: Size, area: Rect, k: int) -> Placement {
    let e = w.windows[k];
    let tiles = master_stack_spec(area.size, tiled_before(w.windows, w.windows.len() as int));
    let base = match e.floating {
        Some(r) => constrain_spec(r, output, e.min, e.max),
        None => if !e.minimized {
            let t = tiles[tiled_before(w.windows, k) as int];
            Rect { loc: point(t.0.x + area.loc.x, t.0.y + area.loc.y), size: t.1 }
        } else {
            output_rect(output)
        },
    };
    let is_fullscreen = w.fullscreen == Some(e.id);
    Placement {
        id: e.id,
        rect: if is_fullscreen {
            output_rect(output)
        } else {
            base
        },
        fullscreen: is_fullscreen,
        tiled: e.floating is None,
        visible: !e.minimized && !hidden_spec(w.windows, e) && match effective_fullscreen(w) {
            None => true,
            Some(owner) => owner == e.id || (e.floating is Some && descendant_spec(
                w.windows,
                e,
                owner,
            )),
        },
    }
}

/// Tiles first, then the fullscreen window, then floating windows above it.
pub open spec fn stacking_rank(p: Placement) -> int {
    if p.fullscreen {
        1
    } else if p.tiled {
        0
    } else {
        2
    }
}

pub open spec fn placements_unsorted(w: WorkspaceView, output: Size, area: Rect) -> Seq<Placement> {
    Seq::new(w.windows.len(), |k: int| place_spec(w, output, area, k))
}

/// The layout of a workspace: each window's placement, in stacking order
/// (a stable ordering by `stacking_rank`).
pub open spec fn layout_spec(w: WorkspaceView, output: Size, area: Rect) -> Seq<Placement> {
    let u = placements_unsorted(w, output, area);
    u.filter(|p: Placement| stacking_rank(p) == 0) + u.filter(|p: Placement| stacking_rank(p) == 1)
        + u.filter(|p: Placement| stacking_rank(p) == 2)
}

/// An output of nonnegative size, and a usable area inside the `i32` range.
pub open spec fn geometry_ok(output: Size, area: Rect) -> bool {
    &&& output.w >= 0 && output.h >= 0
    &&& area.loc.x >= 0 && area.loc.y >= 0 && area.size.w >= 0 && area.size.h >= 0
    &&& area.loc.x + area.size.w <= i32::MAX
    &&& area.loc.y + area.size.h <= i32::MAX
}

fn select_rank(u: &Vec<Placement>, rank: u8, out: &mut Vec<Placement>)
    requires
        rank <= 2,
    ensures
        final(out)@ == old(out)@ + u@.filter(|p: Placement| stacking_rank(p) == rank as int),
{
    let ghost pred = |p: Placement| stacking_rank(p) == rank as int;
    let ghost start = out@;
    let mut i: usize = 0;
    while i < u.len()
        invariant
            i <= u@.len(),
            rank <= 2,
            pred == (|p: Placement| stacking_rank(p) == rank as int),
            out@ == start + u@.take(i as int).filter(pred),
        decreases u@.len() - i,
    {
        proof {
            reveal_with_fuel(Seq::<_>::filter, 1);
            assert(u@.take(i + 1).drop_last() =~= u@.take(i as int));
        }
        let p = u[i];
        let r: u8 = if p.fullscreen {
            1
        } else if p.tiled {
            0
        } else {
            2
        };
        if r == rank {
            out.push(p);
        }
        assert(out@ =~= start + u@.take(i + 1).filter(pred));
        i = i + 1;
    }
    assert(u@.take(i as int) =~= u@);
}

impl Workspace {

    fn tiled_count(&self) -> (n: usize)
        ensures
            n == tiled_before(self.windows@, self.windows@.len() as int),
    {
        let mut n: usize = 0;
        let mut k: usize = 0;
        while k < self.windows.len()
            invariant
                k <= self.windows@.len(),
                n == tiled_before(self.windows@, k as int),
                n <= k,
            decreases self.windows@.len() - k,
        {
            if !self.windows[k].minimized && self.windows[k].floating.is_none() {
                n = n + 1;
            }
            k = k + 1;
        }
        n
    }

    /// Where each window goes on an output of size `output` whose usable
    /// area (outside panels) is `area`, in stacking order.
    pub fn layout(&self, output: Size, area: Rect) -> (r: Vec<Placement>)
        requires
            geometry_ok(output, area),
            self.windows@.len() <= i32::MAX,
        ensures
            r@ == layout_spec(self@, output, area),
    {
        let owner = self.effective_fullscreen();
        let count = self.tiled_count();
        proof {
            lemma_tiled_before_mono(self.windows@, 0, self.windows@.len() as int);
        }
        let tiles = master_stack_layout(area.size, count);
        let ghost total = tiled_before(self.windows@, self.windows@.len() as int);
        let mut unsorted: Vec<Placement> = Vec::new();
        let mut t: usize = 0;
        let mut k: usize = 0;
        while k < self.windows.len()
            invariant
                k <= self.windows@.len(),
                self.windows@.len() <= i32::MAX,
                geometry_ok(output, area),
                owner == effective_fullscreen(self@),
                count == total,
                count <= i32::MAX,
                total == tiled_before(self.windows@, self.windows@.len() as int),
                tiles@ == master_stack_spec(area.size, count as nat),
                t == tiled_before(self.windows@, k as int),
                unsorted@.len() == k,
                forall|j: int| 0 <= j < k ==> unsorted@[j] == place_spec(self@, output, area, j),
            decreases self.windows@.len() - k,
        {
            let e = self.windows[k];
            proof {
                lemma_tiled_before_mono(self.windows@, k + 1, self.windows@.len() as int);
            }
            let base = match e.floating {
                Some(r) => constrain_geometry(r, output, e.min, e.max),
                None => {
                    if !e.minimized {
                        proof {
                            lemma_tile_bounds(area.size, count as nat, t as int);
                        }
                        let tile = tiles[t];
                        t = t + 1;
                        Rect {
                            loc: Point { x: tile.0.x + area.loc.x, y: tile.0.y + area.loc.y },
                            size: tile.1,
                        }
                    } else {
                        Rect { loc: Point { x: 0, y: 0 }, size: output }
                    }
                },
            };
            let is_fullscreen = match self.fullscreen {
                Some(id) => id == e.id,
                None => false,
            };
            let visible = !e.minimized && !self.hidden_by_parent(&e) && match owner {
                None => true,
                Some(o) => o == e.id || (e.floating.is_some() && self.descendant_of(&e, o)),
            };
            let rect = if is_fullscreen {
                Rect { loc: Point { x: 0, y: 0 }, size: output }
            } else {
                base
            };
            unsorted.push(
                Placement {
                    id: e.id,
                    rect,
                    fullscreen: is_fullscreen,
                    tiled: e.floating.is_none(),
                    visible,
                },
            );
            assert(unsorted@[k as int] == place_spec(self@, output, area, k as int));
            k = k + 1;
        }
        assert(unsorted@ =~= placements_unsorted(self@, output, area));
        let mut r: Vec<Placement> = Vec::new();
        select_rank(&unsorted, 0, &mut r);
        select_rank(&unsorted, 1, &mut r);
        select_rank(&unsorted, 2, &mut r);
        assert(r@ =~= layout_spec(self@, output, area));
        r
    }
    /// An empty workspace.
    pub fn new() -> (w: Self)
        ensures
            w@.windows.len() == 0,
            w@.focus_history.len() == 0,
            w@.minimized_history.len() == 0,
            w@.fullscreen is None,
    {
        Workspace {
            windows: Vec::new(),
            focus_history: Vec::new(),
            minimized_history: Vec::new(),
            fullscreen: None,
        }
    }

    fn position_of(&self, id: WindowId) -> (i: usize)
        ensures
            i == first_with_id(self.windows@, id),
    {
        proof {
            lemma_first_with_id(self.windows@, id);
        }
        let mut i: usize = 0;
        while i < self.windows.len()
            invariant
                i <= self.windows@.len(),
                forall|j: int| 0 <= j < i ==> #[trigger] self.windows@[j].id != id,
                0 <= first_with_id(self.windows@, id) <= self.windows@.len(),
                first_with_id(self.windows@, id) < self.windows@.len() ==> self.windows@[first_with_id(self.windows@, id)].id == id,
                forall|j: int| 0 <= j < first_with_id(self.windows@, id) ==> #[trigger] self.windows@[j].id != id,
            decreases self.windows@.len() - i,
        {
            if self.windows[i].id == id {
                return i;
            }
            i = i + 1;
        }
        i
    }

    fn parent_of(&self, id: WindowId) -> (p: Option<WindowId>)
        ensures
            p == parent_of_id(self.windows@, id),
    {
        let i = self.position_of(id);
        if i < self.windows.len() {
            self.windows[i].parent
        } else {
            None
        }
    }

    /// Whether `entry` is transient for `ancestor`, directly or through
    /// other windows of this workspace.
    pub fn descendant_of(&self, entry: &ManagedWindow, ancestor: WindowId) -> (b: bool)
        ensures
            b == descendant_spec(self.windows@, *entry, ancestor),
    {
        let n = self.windows.len();
        let mut parent = entry.parent;
        let mut steps: usize = 0;
        while steps < n
            invariant
                n == self.windows@.len(),
                steps <= n,
                reaches(self.windows@, entry.parent, ancestor, n as nat) == reaches(
                    self.windows@,
                    parent,
                    ancestor,
                    (n - steps) as nat,
                ),
            decreases n - steps,
        {
            match parent {
                None => {
                    return false;
                },
                Some(id) => {
                    if id == ancestor {
                        return true;
                    }
                    parent = self.parent_of(id);
                },
            }
            steps = steps + 1;
        }
        false
    }

    /// Whether a minimized ancestor hides `entry`.
    pub fn hidden_by_parent(&self, entry: &ManagedWindow) -> (b: bool)
        ensures
            b == hidden_spec(self.windows@, *entry),
    {
        let mut j: usize = 0;
        while j < self.windows.len()
            invariant
                j <= self.windows@.len(),
                forall|k: int|
                    0 <= k < j ==> !(#[trigger] self.windows@[k].minimized && descendant_spec(
                        self.windows@,
                        *entry,
                        self.windows@[k].id,
                    )),
            decreases self.windows@.len() - j,
        {
            let parent = &self.windows[j];
            if parent.minimized && self.descendant_of(entry, parent.id) {
                return true;
            }
            j = j + 1;
        }
        false
    }

    /// The window shown fullscreen on this workspace, if any.
    pub fn effective_fullscreen(&self) -> (r: Option<WindowId>)
        ensures
            r == effective_fullscreen(self@),
    {
        match self.fullscreen {
            None => None,
            Some(id) => {
                let mut j: usize = 0;
                while j < self.windows.len()
                    invariant
                        j <= self.windows@.len(),
                        self.fullscreen == Some(id),
                        forall|k: int|
                            0 <= k < j ==> !(#[trigger] self.windows@[k].id == id
                                && !self.windows@[k].minimized && !hidden_spec(
                                self.windows@,
                                self.windows@[k],
                            )),
                    decreases self.windows@.len() - j,
                {
                    let entry = &self.windows[j];
                    if entry.id == id && !entry.minimized && !self.hidden_by_parent(entry) {
                        assert(self.windows@[j as int].id == id && !self.windows@[j as int].minimized
                            && !hidden_spec(self.windows@, self.windows@[j as int]));
                        assert(exists|k: int|
                            0 <= k < self@.windows.len() && #[trigger] self@.windows[k].id == id
                                && !self@.windows[k].minimized && !hidden_spec(self@.windows, self@.windows[k]));
                        return Some(id);
                    }
                    j = j + 1;
                }
                None
            },
        }
    }
}

} // verus!

verus! {

/// The window `id` is on workspace `w`.
pub open spec fn in_workspace(w: WorkspaceView, id: WindowId) -> bool {
    exists|i: int| 0 <= i < w.windows.len() && #[trigger] w.windows[i].id == id
}

/// Some placement of `layout` shows the window `id`.
pub open spec fn visible_in(layout: Seq<Placement>, id: WindowId) -> bool {
    exists|j: int| 0 <= j < layout.len() && #[trigger] layout[j].id == id && layout[j].visible
}

/// The window `id` is on workspace `w` and its layout shows it.
pub open spec fn window_visible_spec(w: WorkspaceView, output: Size, area: Rect, id: WindowId) -> bool {
    in_workspace(w, id) && visible_in(layout_spec(w, output, area), id)
}

/// The latest id of `h` that `layout` shows.
pub open spec fn last_shown(h: Seq<WindowId>, w: WorkspaceView, output: Size, area: Rect) -> Option<WindowId>
    decreases h.len(),
{
    if h.len() == 0 {
        None
    } else if window_visible_spec(w, output, area, h.last()) {
        Some(h.last())
    } else {
        last_shown(h.drop_last(), w, output, area)
    }
}

pub open spec fn window_ids(ws: Seq<ManagedWindow>) -> Seq<WindowId> {
    ws.map_values(|e: ManagedWindow| e.id)
}

/// The window to focus on workspace `w`: the most recently focused window
/// that is shown, else the topmost shown window.
pub open spec fn last_visible_spec(w: WorkspaceView, output: Size, area: Rect) -> Option<WindowId> {
    match last_shown(w.focus_history, w, output, area) {
        Some(id) => Some(id),
        None => last_shown(window_ids(w.windows), w, output, area),
    }
}

/// Every id but `id`.
pub open spec fn other_than(id: WindowId) -> spec_fn(WindowId) -> bool {
    |x: WindowId| x != id
}

/// `h` with `id` moved to its end (the most recent place).
pub open spec fn bump(h: Seq<WindowId>, id: WindowId) -> Seq<WindowId> {
    h.filter(other_than(id)).push(id)
}

/// The focus histories after `id` was focused: it becomes the most recent
/// entry of the workspace that manages it.
pub open spec fn remember_spec(d: Seq<WorkspaceView>, id: WindowId) -> Seq<WorkspaceView> {
    if has_window(d, id) {
        let w = loc_of(d, id).0;
        d.update(w, WorkspaceView { focus_history: bump(d[w].focus_history, id), ..d[w] })
    } else {
        d
    }
}

/// What holds keyboard focus, as far as the policy needs to know.
#[derive(Clone, Copy, Debug, PartialEq, Eq, Structural)]
pub enum FocusTarget {
    Nothing,
    /// A layer surface that takes keyboard focus exclusively.
    ExclusiveLayer,
    /// The surface of a managed window.
    Window(WindowId),
    /// Some other surface.
    Other,
}

/// `h` without `id`.
pub fn without(h: &Vec<WindowId>, id: WindowId) -> (r: Vec<WindowId>)
    ensures
        r@ == h@.filter(other_than(id)),
{
    let ghost pred = other_than(id);
    let mut r: Vec<WindowId> = Vec::new();
    let mut i: usize = 0;
    while i < h.len()
        invariant
            i <= h@.len(),
            pred == other_than(id),
            r@ == h@.take(i as int).filter(pred),
        decreases h@.len() - i,
    {
        proof {
            reveal_with_fuel(Seq::<_>::filter, 1);
            assert(h@.take(i + 1).drop_last() =~= h@.take(i as int));
        }
        if h[i] != id {
            r.push(h[i]);
        }
        assert(r@ =~= h@.take(i + 1).filter(pred));
        i = i + 1;
    }
    assert(h@.take(i as int) =~= h@);
    r
}

/// Two desks hold the same window ids in the same places.
pub open spec fn same_ids(d1: Seq<WorkspaceView>, d2: Seq<WorkspaceView>) -> bool {
    &&& d1.len() == d2.len()
    &&& forall|w: int| 0 <= w < d1.len() ==> (#[trigger] d1[w]).windows.len() == d2[w].windows.len()
    &&& forall|w: int, i: int| window_at(d1, w, i) ==> #[trigger] wid(d1, w, i) == wid(d2, w, i)
}

/// Two desks with the same ids and the same fullscreen windows.
pub open spec fn same_ids_and_fullscreen(d1: Seq<WorkspaceView>, d2: Seq<WorkspaceView>) -> bool {
    &&& same_ids(d1, d2)
    &&& forall|w: int| 0 <= w < d1.len() ==> (#[trigger] d1[w]).fullscreen == d2[w].fullscreen
}

pub proof fn lemma_same_ids(d1: Seq<WorkspaceView>, d2: Seq<WorkspaceView>, next: u64)
    requires
        same_ids(d1, d2),
    ensures
        forall|w: int, i: int| window_at(d1, w, i) == window_at(d2, w, i),
        ids_unique(d1) ==> ids_unique(d2),
        ids_below(d1, next) ==> ids_below(d2, next),
        counts_ok(d1) ==> counts_ok(d2),
        forall|id: WindowId| has_window(d1, id) == has_window(d2, id),
        ids_unique(d1) ==> forall|id: WindowId| has_window(d1, id) ==> loc_of(d1, id) == loc_of(d2, id),
        forall|w: int, id: WindowId| 0 <= w < d1.len() ==> in_workspace(d1[w], id) == in_workspace(d2[w], id),
        same_ids_and_fullscreen(d1, d2) && fullscreen_ok(d1) ==> fullscreen_ok(d2),
{
    assert forall|w: int, i: int| window_at(d1, w, i) == window_at(d2, w, i) by {
        if 0 <= w < d1.len() {
            assert(d1[w].windows.len() == d2[w].windows.len());
        }
    }
    assert forall|id: WindowId| has_window(d1, id) == has_window(d2, id) by {
        if has_window(d1, id) {
            let (w, i) = choose|w: int, i: int| window_at(d1, w, i) && #[trigger] wid(d1, w, i) == id;
            assert(wid(d2, w, i) == id);
        }
        if has_window(d2, id) {
            let (w, i) = choose|w: int, i: int| window_at(d2, w, i) && #[trigger] wid(d2, w, i) == id;
            assert(window_at(d1, w, i));
            assert(wid(d1, w, i) == id);
        }
    }
    assert forall|w: int, id: WindowId| 0 <= w < d1.len() implies in_workspace(d1[w], id) == in_workspace(d2[w], id) by {
        if in_workspace(d1[w], id) {
            let i = choose|i: int| 0 <= i < d1[w].windows.len() && #[trigger] d1[w].windows[i].id == id;
            assert(wid(d1, w, i) == wid(d2, w, i));
            assert(d2[w].windows[i].id == id);
        }
        if in_workspace(d2[w], id) {
            let i = choose|i: int| 0 <= i < d2[w].windows.len() && #[trigger] d2[w].windows[i].id == id;
            assert(window_at(d1, w, i));
            assert(wid(d1, w, i) == wid(d2, w, i));
            assert(d1[w].windows[i].id == id);
        }
    }
    if ids_unique(d1) {
        assert forall|w1: int, i1: int, w2: int, i2: int|
            window_at(d2, w1, i1) && window_at(d2, w2, i2) && #[trigger] wid(d2, w1, i1) == #[trigger] wid(d2, w2, i2)
            implies w1 == w2 && i1 == i2 by {
            assert(window_at(d1, w1, i1) && window_at(d1, w2, i2));
            assert(wid(d1, w1, i1) == wid(d1, w2, i2));
        }
        assert forall|id: WindowId| has_window(d1, id) implies loc_of(d1, id) == loc_of(d2, id) by {
            let (w, i) = choose|w: int, i: int| window_at(d1, w, i) && #[trigger] wid(d1, w, i) == id;
            lemma_loc_of(d1, id, w, i);
            assert(wid(d2, w, i) == id);
            lemma_loc_of(d2, id, w, i);
        }
    }
    if ids_below(d1, next) {
        assert forall|w: int, i: int| window_at(d2, w, i) implies (#[trigger] wid(d2, w, i)).0 < next by {
            assert(window_at(d1, w, i));
            assert(wid(d1, w, i) == wid(d2, w, i));
        }
    }
    if counts_ok(d1) {
        assert forall|w: int| 0 <= w < d2.len() implies (#[trigger] d2[w]).windows.len() < i32::MAX by {
            assert(d1[w].windows.len() == d2[w].windows.len());
        }
    }
    if same_ids_and_fullscreen(d1, d2) && fullscreen_ok(d1) {
        assert forall|w: int| 0 <= w < d2.len() implies ((#[trigger] d2[w]).fullscreen matches Some(f)
            ==> exists|i: int| 0 <= i < d2[w].windows.len() && #[trigger] d2[w].windows[i].id == f) by {
            assert(d1[w].fullscreen == d2[w].fullscreen);
            if let Some(f) = d2[w].fullscreen {
                assert(in_workspace(d1[w], f));
                assert(in_workspace(d2[w], f));
            }
        }
    }
}

impl Villain {
    /// The layout of workspace `index`.
    pub fn workspace_layout(&self, index: usize) -> (r: Vec<Placement>)
        requires
            self.wf(),
            index < WORKSPACE_COUNT,
        ensures
            r@ == layout_spec(self.desk()[index as int], self.output_size, self.usable_area),
    {
        assert(self.desk()[index as int] == self.workspaces@[index as int]@);
        self.workspaces[index].layout(self.output_size, self.usable_area)
    }

    /// What a preview of workspace `index` draws: the output size and the
    /// shown windows with their rectangles, bottom first; `None` for a
    /// workspace that does not exist.
    pub fn workspace_preview_scene(&self, index: usize) -> (r: Option<PreviewScene>)
        requires
            self.wf(),
        ensures
            match r {
                Some(scene) => index < WORKSPACE_COUNT && scene.output_size == self.output_size
                    && scene.windows@ == preview_windows(
                    layout_spec(self.desk()[index as int], self.output_size, self.usable_area),
                ),
                None => index >= WORKSPACE_COUNT,
            },
    {
        if index >= self.workspaces.len() {
            return None;
        }
        let layout = self.workspace_layout(index);
        let ghost l = layout@;
        let mut windows: Vec<(WindowId, Rect)> = Vec::new();
        let mut i: usize = 0;
        while i < layout.len()
            invariant
                i <= l.len(),
                layout@ == l,
                windows@ == preview_windows(l.take(i as int)),
            decreases l.len() - i,
        {
            proof {
                assert(l.take(i + 1).drop_last() =~= l.take(i as int));
            }
            let p = layout[i];
            if p.visible {
                windows.push((p.id, p.rect));
            }
            i = i + 1;
        }
        assert(l.take(i as int) =~= l);
        Some(PreviewScene { output_size: self.output_size, windows })
    }

    /// Whether a window is shown fullscreen on workspace `index`.
    pub fn workspace_has_fullscreen(&self, index: usize) -> (b: bool)
        requires
            self.wf(),
            index < WORKSPACE_COUNT,
        ensures
            b == effective_fullscreen(self.desk()[index as int]) is Some,
    {
        assert(self.desk()[index as int] == self.workspaces@[index as int]@);
        self.workspaces[index].effective_fullscreen().is_some()
    }

    /// The workspace that manages the window `id`.
    pub fn workspace_for_window(&self, id: WindowId) -> (r: Option<usize>)
        requires
            self.wf(),
        ensures
            match r {
                Some(w) => has_window(self.desk(), id) && w == loc_of(self.desk(), id).0,
                None => !has_window(self.desk(), id),
            },
    {
        match self.locate(id) {
            Some((w, _)) => Some(w),
            None => None,
        }
    }

    fn on_workspace(&self, index: usize, id: WindowId) -> (b: bool)
        requires
            self.wf(),
            index < WORKSPACE_COUNT,
        ensures
            b == in_workspace(self.desk()[index as int], id),
    {
        let ws = &self.workspaces[index];
        assert(self.desk()[index as int] == ws@);
        let mut i: usize = 0;
        while i < ws.windows.len()
            invariant
                i <= ws.windows@.len(),
                index < self.workspaces@.len(),
                self.desk()[index as int] == ws@,
                forall|j: int| 0 <= j < i ==> #[trigger] ws.windows@[j].id != id,
            decreases ws.windows@.len() - i,
        {
            if ws.windows[i].id == id {
                assert(self.desk()[index as int].windows[i as int].id == id);
                return true;
            }
            i = i + 1;
        }
        false
    }

    /// Whether the window `id` is on workspace `index` and shown there.
    pub fn window_is_visible(&self, index: usize, id: WindowId) -> (b: bool)
        requires
            self.wf(),
            index < WORKSPACE_COUNT,
        ensures
            b == window_visible_spec(self.desk()[index as int], self.output_size, self.usable_area, id),
    {
        if !self.on_workspace(index, id) {
            return false;
        }
        let layout = self.workspace_layout(index);
        let mut j: usize = 0;
        while j < layout.len()
            invariant
                j <= layout@.len(),
                index < WORKSPACE_COUNT,
                self.workspaces@.len() == WORKSPACE_COUNT,
                in_workspace(self.desk()[index as int], id),
                layout@ == layout_spec(self.desk()[index as int], self.output_size, self.usable_area),
                forall|k: int| 0 <= k < j ==> !(#[trigger] layout@[k].id == id && layout@[k].visible),
            decreases layout@.len() - j,
        {
            if layout[j].id == id && layout[j].visible {
                assert(layout@[j as int].id == id && layout@[j as int].visible);
                assert(visible_in(layout@, id));
                return true;
            }
            j = j + 1;
        }
        false
    }

    fn last_shown_of(&self, index: usize, h: &Vec<WindowId>) -> (r: Option<WindowId>)
        requires
            self.wf(),
            index < WORKSPACE_COUNT,
        ensures
            r == last_shown(h@, self.desk()[index as int], self.output_size, self.usable_area),
    {
        let ghost w = self.desk()[index as int];
        let mut k: usize = h.len();
        assert(h@.take(k as int) =~= h@);
        while k > 0
            invariant
                k <= h@.len(),
                self.wf(),
                index < WORKSPACE_COUNT,
                w == self.desk()[index as int],
                last_shown(h@, w, self.output_size, self.usable_area) == last_shown(
                    h@.take(k as int),
                    w,
                    self.output_size,
                    self.usable_area,
                ),
            decreases k,
        {
            let id = h[k - 1];
            assert(h@.take(k as int).last() == id);
            assert(h@.take(k as int).drop_last() =~= h@.take(k - 1));
            if self.window_is_visible(index, id) {
                return Some(id);
            }
            k = k - 1;
        }
        None
    }

    /// The window to give focus to on workspace `index`: the most recently
    /// focused window that is shown, else the topmost shown one.
    pub fn last_visible_window(&self, index: usize) -> (r: Option<WindowId>)
        requires
            self.wf(),
            index < WORKSPACE_COUNT,
        ensures
            r == last_visible_spec(self.desk()[index as int], self.output_size, self.usable_area),
    {
        let ws = &self.workspaces[index];
        assert(self.desk()[index as int] == ws@);
        match self.last_shown_of(index, &ws.focus_history) {
            Some(id) => Some(id),
            None => {
                let mut ids: Vec<WindowId> = Vec::new();
                let mut i: usize = 0;
                while i < ws.windows.len()
                    invariant
                        i <= ws.windows@.len(),
                        ids@ == window_ids(ws.windows@).take(i as int),
                    decreases ws.windows@.len() - i,
                {
                    ids.push(ws.windows[i].id);
                    assert(ids@ =~= window_ids(ws.windows@).take(i + 1));
                    i = i + 1;
                }
                assert(ids@ =~= window_ids(ws.windows@));
                self.last_shown_of(index, &ids)
            },
        }
    }

    /// The managed window on the active workspace that holds keyboard focus.
    pub fn focused_window(&self, focused: Option<WindowId>) -> (r: Option<WindowId>)
        requires
            self.wf(),
        ensures
            r == (match focused {
                Some(id) => if in_workspace(self.desk()[self.active_workspace as int], id) {
                    Some(id)
                } else {
                    None
                },
                None => None,
            }),
    {
        match focused {
            Some(id) => if self.on_workspace(self.active_workspace, id) {
                Some(id)
            } else {
                None
            },
            None => None,
        }
    }

    /// Whether keyboard focus is somewhere it may stay: an exclusive layer,
    /// or a shown window of the active workspace.
    pub fn active_focus_is_valid(&self, focus: FocusTarget) -> (b: bool)
        requires
            self.wf(),
        ensures
            b == (match focus {
                FocusTarget::ExclusiveLayer => true,
                FocusTarget::Window(id) => window_visible_spec(
                    self.desk()[self.active_workspace as int],
                    self.output_size,
                    self.usable_area,
                    id,
                ),
                _ => false,
            }),
    {
        match focus {
            FocusTarget::Nothing => false,
            FocusTarget::ExclusiveLayer => true,
            FocusTarget::Window(id) => self.window_is_visible(self.active_workspace, id),
            FocusTarget::Other => false,
        }
    }

    /// Record that the window `id` was focused: it becomes the most recent
    /// entry of its workspace's focus history.
    pub fn remember_focused_window(&mut self, id: WindowId)
        requires
            old(self).wf(),
        ensures
            final(self).wf(),
            final(self).desk() == remember_spec(old(self).desk(), id),
            final(self).active_workspace == old(self).active_workspace,
            final(self).pending_focus_restore == old(self).pending_focus_restore,
            final(self).same_context(&*old(self)),
    {
        let ghost d = old(self).desk();
        if let Some((w, _)) = self.locate(id) {
            assert(d[w as int] == self.workspaces@[w as int]@);
            let mut history = without(&self.workspaces[w].focus_history, id);
            history.push(id);
            assert(history@ == bump(d[w as int].focus_history, id));
            self.workspaces[w].focus_history = history;
            assert(self.workspaces@[w as int]@.focus_history == bump(d[w as int].focus_history, id));
            let ghost nd = self.desk();
            assert(nd =~= remember_spec(d, id)) by {
                assert forall|v: int| 0 <= v < d.len() implies #[trigger] nd[v] == remember_spec(d, id)[v] by {
                    assert(nd[v] == self.workspaces@[v]@);
                    assert(d[v] == old(self).workspaces@[v]@);
                    if v == w {
                        assert(nd[v].focus_history =~= bump(d[v].focus_history, id));
                        assert(nd[v].windows == d[v].windows);
                    } else {
                        assert(nd[v] == d[v]);
                    }
                }
            }
            proof {
                assert(same_ids_and_fullscreen(d, nd)) by {
                    assert forall|v: int| 0 <= v < d.len() implies (#[trigger] d[v]).windows == nd[v].windows
                        && d[v].fullscreen == nd[v].fullscreen by {
                        assert(nd[v] == remember_spec(d, id)[v]);
                    }
                }
                lemma_same_ids(d, nd, self.next_window_id);
            }
        }
    }

    /// Remember the window that holds keyboard focus, if it is managed.
    pub fn remember_current_window_focus(&mut self, focused: Option<WindowId>)
        requires
            old(self).wf(),
        ensures
            final(self).wf(),
            final(self).desk() == match focused {
                Some(id) => remember_spec(old(self).desk(), id),
                None => old(self).desk(),
            },
            final(self).active_workspace == old(self).active_workspace,
            final(self).pending_focus_restore == old(self).pending_focus_restore,
            final(self).same_context(&*old(self)),
    {
        if let Some(id) = focused {
            self.remember_focused_window(id);
        }
    }

    /// Make workspace `index` the active one, remembering the window that
    /// had focus. An index past the last workspace changes nothing.
    pub fn switch_workspace(&mut self, index: usize, focused: Option<WindowId>) -> (switched: bool)
        requires
            old(self).wf(),
        ensures
            final(self).wf(),
            switched == (index < WORKSPACE_COUNT),
            switched ==> final(self).active_workspace == index,
            switched ==> final(self).desk() == match focused {
                Some(id) => remember_spec(old(self).desk(), id),
                None => old(self).desk(),
            },
            !switched ==> final(self).desk() == old(self).desk() && final(self).active_workspace
                == old(self).active_workspace,
            final(self).pending_focus_restore == old(self).pending_focus_restore,
            final(self).same_context(&*old(self)),
    {
        if index >= WORKSPACE_COUNT {
            return false;
        }
        self.remember_current_window_focus(focused);
        self.active_workspace = index;
        true
    }
}

} // verus!

verus! {

/// Workspace `w` with window `i` marked minimized or not.
pub open spec fn set_minimized(w: WorkspaceView, i: int, m: bool) -> WorkspaceView {
    WorkspaceView { windows: w.windows.update(i, ManagedWindow { minimized: m, ..w.windows[i] }), ..w }
}

/// Minimizing the window `id`: the desk afterwards, and the workspace where
/// a shown window became minimized (none when it was unknown or minimized).
pub open spec fn minimize_spec(d: Seq<WorkspaceView>, id: WindowId) -> (Seq<WorkspaceView>, Option<int>) {
    if has_window(d, id) {
        let (w, i) = loc_of(d, id);
        if !d[w].windows[i].minimized {
            (
                d.update(
                    w,
                    WorkspaceView {
                        minimized_history: bump(d[w].minimized_history, id),
                        ..set_minimized(d[w], i, true)
                    },
                ),
                Some(w),
            )
        } else {
            (d, None)
        }
    } else {
        (d, None)
    }
}

/// Restoring the most recently minimized window of a workspace: entries
/// are taken from the end of the minimize history until one names a window
/// that is still minimized, which is restored.
pub open spec fn restore_last_spec(w: WorkspaceView) -> (WorkspaceView, bool)
    decreases w.minimized_history.len(),
{
    if w.minimized_history.len() == 0 {
        (w, false)
    } else {
        let x = w.minimized_history.last();
        let w1 = WorkspaceView { minimized_history: w.minimized_history.drop_last(), ..w };
        let i = first_with_id(w1.windows, x);
        if 0 <= i < w1.windows.len() && w1.windows[i].minimized {
            (set_minimized(w1, i, false), true)
        } else {
            restore_last_spec(w1)
        }
    }
}

/// Restoring the window `id`: the desk afterwards, whether the window is
/// known, and whether it was minimized.
pub open spec fn restore_spec(d: Seq<WorkspaceView>, id: WindowId) -> (Seq<WorkspaceView>, bool, bool) {
    if has_window(d, id) {
        let (w, i) = loc_of(d, id);
        if d[w].windows[i].minimized {
            (
                d.update(
                    w,
                    WorkspaceView {
                        minimized_history: d[w].minimized_history.filter(other_than(id)),
                        ..set_minimized(d[w], i, false)
                    },
                ),
                true,
                true,
            )
        } else {
            (d, true, false)
        }
    } else {
        (d, false, false)
    }
}

/// Forgetting the window `id`: it leaves its workspace, its histories, and
/// the fullscreen slot if it held it.
pub open spec fn remove_spec(d: Seq<WorkspaceView>, id: WindowId) -> Seq<WorkspaceView> {
    if has_window(d, id) {
        let (w, i) = loc_of(d, id);
        d.update(
            w,
            WorkspaceView {
                windows: d[w].windows.remove(i),
                focus_history: d[w].focus_history.filter(other_than(id)),
                minimized_history: d[w].minimized_history.filter(other_than(id)),
                fullscreen: if d[w].fullscreen == Some(id) {
                    None
                } else {
                    d[w].fullscreen
                },
            },
        )
    } else {
        d
    }
}

/// What the compositor does after a fullscreen request.
#[derive(Clone, Copy, Debug, PartialEq, Eq, Structural)]
pub enum FullscreenOutcome {
    /// The window is not managed here.
    Ignored,
    /// Nothing changed; the client still needs a configure in reply.
    RepeatConfigure,
    /// The active workspace changed: end pointer grabs and lay it out again.
    RelayoutActive,
    /// An inactive workspace changed: configure its windows.
    ConfigureWorkspace(usize),
}

/// A fullscreen request: the desk afterwards and what is to be done.
pub open spec fn fullscreen_spec(d: Seq<WorkspaceView>, active: int, id: WindowId, fullscreen: bool) -> (
    Seq<WorkspaceView>,
    FullscreenOutcome,
) {
    if !has_window(d, id) {
        (d, FullscreenOutcome::Ignored)
    } else {
        let w = loc_of(d, id).0;
        let is_fullscreen = d[w].fullscreen == Some(id);
        if fullscreen == is_fullscreen {
            (d, FullscreenOutcome::RepeatConfigure)
        } else {
            (
                d.update(
                    w,
                    WorkspaceView {
                        fullscreen: if fullscreen {
                            Some(id)
                        } else {
                            None
                        },
                        ..d[w]
                    },
                ),
                if w == active {
                    FullscreenOutcome::RelayoutActive
                } else {
                    FullscreenOutcome::ConfigureWorkspace(w as usize)
                },
            )
        }
    }
}

/// The floating geometry of the window `id`, when it is floating, shown and
/// not fullscreen.
pub open spec fn floating_spec(d: Seq<WorkspaceView>, id: WindowId) -> Option<Rect> {
    if has_window(d, id) {
        let (w, i) = loc_of(d, id);
        let e = d[w].windows[i];
        if !e.minimized && d[w].fullscreen != Some(id) {
            e.floating
        } else {
            None
        }
    } else {
        None
    }
}

/// The change that one window went through.
#[derive(Clone, Copy, Debug, PartialEq, Eq, Structural)]
pub struct WindowChange {
    pub window: WindowId,
    /// Whether its state changed (so the client must be told).
    pub changed: bool,
    /// Whether the active workspace must be laid out again.
    pub relayout: bool,
}

proof fn lemma_remove_keeps_wf(d: Seq<WorkspaceView>, id: WindowId, next: u64)
    requires
        ids_unique(d),
        ids_below(d, next),
        counts_ok(d),
        fullscreen_ok(d),
        has_window(d, id),
    ensures
        ids_unique(remove_spec(d, id)),
        ids_below(remove_spec(d, id), next),
        counts_ok(remove_spec(d, id)),
        fullscreen_ok(remove_spec(d, id)),
        !has_window(remove_spec(d, id), id),
        remove_spec(d, id).len() == d.len(),
{
    let (w, i) = loc_of(d, id);
    let nd = remove_spec(d, id);
    assert(window_at(d, w, i) && wid(d, w, i) == id);
    let old_index = |v: int, j: int| if v == w && j >= i { j + 1 } else { j };
    assert forall|v: int, j: int| window_at(nd, v, j) implies window_at(d, v, old_index(v, j)) && #[trigger] wid(nd, v, j) == wid(d, v, old_index(v, j)) by {
        if v == w {
            assert(nd[v].windows == d[v].windows.remove(i));
        } else {
            assert(nd[v] == d[v]);
        }
    }
    assert forall|w1: int, i1: int, w2: int, i2: int|
        window_at(nd, w1, i1) && window_at(nd, w2, i2) && #[trigger] wid(nd, w1, i1) == #[trigger] wid(nd, w2, i2)
        implies w1 == w2 && i1 == i2 by {
        assert(wid(d, w1, old_index(w1, i1)) == wid(d, w2, old_index(w2, i2)));
    }
    assert forall|v: int, j: int| window_at(nd, v, j) implies (#[trigger] wid(nd, v, j)).0 < next by {
        assert(wid(nd, v, j) == wid(d, v, old_index(v, j)));
    }
    assert forall|v: int| 0 <= v < nd.len() implies (#[trigger] nd[v]).windows.len() < i32::MAX by {
        assert(d[v].windows.len() < i32::MAX);
    }
    assert(!has_window(nd, id)) by {
        if has_window(nd, id) {
            let (v, j) = choose|v: int, j: int| window_at(nd, v, j) && #[trigger] wid(nd, v, j) == id;
            assert(wid(d, v, old_index(v, j)) == id);
            assert(old_index(v, j) != i || v != w);
        }
    }
    assert forall|v: int| 0 <= v < nd.len() implies ((#[trigger] nd[v]).fullscreen matches Some(f)
        ==> exists|j: int| 0 <= j < nd[v].windows.len() && #[trigger] nd[v].windows[j].id == f) by {
        if let Some(f) = nd[v].fullscreen {
            assert(d[v].fullscreen == Some(f));
            assert(in_workspace(d[v], f));
            let k = choose|k: int| 0 <= k < d[v].windows.len() && #[trigger] d[v].windows[k].id == f;
            if v == w {
                assert(f != id);
                assert(k != i);
                let j = if k < i { k } else { k - 1 };
                assert(nd[v].windows[j].id == f);
            } else {
                assert(nd[v] == d[v]);
                assert(nd[v].windows[k].id == f);
            }
        }
    }
}

impl Villain {
    /// Minimize the window `id`: the workspace where it became minimized.
    pub fn minimize_window(&mut self, id: WindowId) -> (r: Option<usize>)
        requires
            old(self).wf(),
        ensures
            final(self).wf(),
            final(self).desk() == minimize_spec(old(self).desk(), id).0,
            match minimize_spec(old(self).desk(), id).1 {
                Some(w) => r == Some(w as usize),
                None => r is None,
            },
            final(self).active_workspace == old(self).active_workspace,
            final(self).pending_focus_restore == old(self).pending_focus_restore,
            final(self).same_context(&*old(self)),
    {
        let ghost d = old(self).desk();
        match self.locate(id) {
            None => None,
            Some((w, i)) => {
                assert(d[w as int] == self.workspaces@[w as int]@);
                let e = self.workspaces[w].windows[i];
                if e.minimized {
                    return None;
                }
                let mut history = without(&self.workspaces[w].minimized_history, id);
                history.push(id);
                self.workspaces[w].windows.set(i, ManagedWindow { minimized: true, ..e });
                self.workspaces[w].minimized_history = history;
                let ghost nd = self.desk();
                assert(nd =~= minimize_spec(d, id).0) by {
                    assert forall|v: int| 0 <= v < d.len() implies #[trigger] nd[v] == minimize_spec(d, id).0[v] by {
                        assert(nd[v] == self.workspaces@[v]@);
                        assert(d[v] == old(self).workspaces@[v]@);
                        if v == w {
                            assert(nd[v].windows =~= set_minimized(d[v], i as int, true).windows);
                        }
                    }
                }
                proof {
                    assert(same_ids_and_fullscreen(d, nd)) by {
                        assert forall|v: int, j: int| window_at(d, v, j) implies #[trigger] wid(d, v, j) == wid(nd, v, j) by {
                            if v == w {
                                assert(nd[v].windows == d[v].windows.update(i as int, ManagedWindow { minimized: true, ..e }));
                            }
                        }
                    }
                    lemma_same_ids(d, nd, self.next_window_id);
                }
                Some(w)
            },
        }
    }

    /// The window to close: the focused window of the active workspace.
    pub fn close_focused_window(&self, focused: Option<WindowId>) -> (r: Option<WindowId>)
        requires
            self.wf(),
        ensures
            r == (match focused {
                Some(id) => if in_workspace(self.desk()[self.active_workspace as int], id) {
                    Some(id)
                } else {
                    None
                },
                None => None,
            }),
    {
        self.focused_window(focused)
    }

    /// Minimize the focused window of the active workspace.
    pub fn minimize_focused_window(&mut self, focused: Option<WindowId>) -> (r: Option<WindowChange>)
        requires
            old(self).wf(),
        ensures
            final(self).wf(),
            final(self).active_workspace == old(self).active_workspace,
            final(self).pending_focus_restore == old(self).pending_focus_restore,
            final(self).same_context(&*old(self)),
            match focused {
                Some(id) => if in_workspace(old(self).desk()[old(self).active_workspace as int], id) {
                    &&& final(self).desk() == minimize_spec(old(self).desk(), id).0
                    &&& r == Some(WindowChange {
                        window: id,
                        changed: minimize_spec(old(self).desk(), id).1 is Some,
                        relayout: minimize_spec(old(self).desk(), id).1 == Some(old(self).active_workspace as int),
                    })
                } else {
                    r is None && final(self).desk() == old(self).desk()
                },
                None => r is None && final(self).desk() == old(self).desk(),
            },
    {
        match self.focused_window(focused) {
            None => None,
            Some(id) => {
                let w = self.minimize_window(id);
                let relayout = match w {
                    Some(w) => w == self.active_workspace,
                    None => false,
                };
                Some(WindowChange { window: id, changed: w.is_some(), relayout })
            },
        }
    }

    /// Restore the most recently minimized window of the active workspace.
    pub fn restore_last_minimized_window(&mut self) -> (restored: bool)
        requires
            old(self).wf(),
        ensures
            final(self).wf(),
            final(self).desk() == old(self).desk().update(
                old(self).active_workspace as int,
                restore_last_spec(old(self).desk()[old(self).active_workspace as int]).0,
            ),
            restored == restore_last_spec(old(self).desk()[old(self).active_workspace as int]).1,
            final(self).active_workspace == old(self).active_workspace,
            final(self).pending_focus_restore == old(self).pending_focus_restore,
            final(self).same_context(&*old(self)),
    {
        let ghost d = old(self).desk();
        let a = self.active_workspace;
        let ghost target = restore_last_spec(d[a as int]);
        assert(d[a as int] == self.workspaces@[a as int]@);
        loop
            invariant
                a == self.active_workspace,
                a == old(self).active_workspace,
                a < WORKSPACE_COUNT,
                self.workspaces@.len() == WORKSPACE_COUNT,
                old(self).workspaces@.len() == WORKSPACE_COUNT,
                old(self).wf(),
                target == restore_last_spec(d[a as int]),
                forall|v: int| 0 <= v < WORKSPACE_COUNT && v != a ==> #[trigger] self.workspaces@[v] == old(self).workspaces@[v],
                self.workspaces@[a as int]@.windows == d[a as int].windows,
                self.workspaces@[a as int]@.focus_history == d[a as int].focus_history,
                self.workspaces@[a as int]@.fullscreen == d[a as int].fullscreen,
                restore_last_spec(self.workspaces@[a as int]@) == target,
                d == old(self).desk(),
                self.same_context(&*old(self)),
                self.pending_focus_restore == old(self).pending_focus_restore,
            decreases self.workspaces@[a as int].minimized_history@.len(),
        {
            let ghost cur = self.workspaces@[a as int]@;
            match self.workspaces[a].minimized_history.pop() {
                None => {
                    assert(cur.minimized_history.len() == 0);
                    proof {
                        let nd = self.desk();
                        assert forall|v: int| 0 <= v < WORKSPACE_COUNT implies #[trigger] nd[v] == d.update(a as int, target.0)[v] by {
                            assert(nd[v] == self.workspaces@[v]@);
                            assert(d[v] == old(self).workspaces@[v]@);
                        }
                        assert(nd =~= d.update(a as int, target.0));
                        assert(same_ids_and_fullscreen(d, nd));
                        lemma_same_ids(d, nd, self.next_window_id);
                    }
                    return false;
                },
                Some(x) => {
                    let ghost w1 = self.workspaces@[a as int]@;
                    assert(w1 == WorkspaceView { minimized_history: cur.minimized_history.drop_last(), ..cur });
                    let i = self.workspaces[a].position_of(x);
                    if i < self.workspaces[a].windows.len() && self.workspaces[a].windows[i].minimized {
                        let e = self.workspaces[a].windows[i];
                        self.workspaces[a].windows.set(i, ManagedWindow { minimized: false, ..e });
                        assert(self.workspaces@[a as int]@ == set_minimized(w1, i as int, false));
                        assert(restore_last_spec(cur) == (set_minimized(w1, i as int, false), true));
                        proof {
                            let nd = self.desk();
                            assert forall|v: int| 0 <= v < WORKSPACE_COUNT implies #[trigger] nd[v] == d.update(a as int, target.0)[v] by {
                                assert(nd[v] == self.workspaces@[v]@);
                                assert(d[v] == old(self).workspaces@[v]@);
                            }
                            assert(nd =~= d.update(a as int, target.0));
                            assert(same_ids_and_fullscreen(d, nd)) by {
                                assert forall|v: int, j: int| window_at(d, v, j) implies #[trigger] wid(d, v, j) == wid(nd, v, j) by {
                                    if v == a {
                                        assert(nd[v].windows == d[v].windows.update(i as int, ManagedWindow { minimized: false, ..e }));
                                    }
                                }
                            }
                            lemma_same_ids(d, nd, self.next_window_id);
                        }
                        return true;
                    }
                },
            }
        }
    }
    /// Restore the window `id` if it is minimized. Gives whether the window
    /// is known and whether the active workspace must be laid out again.
    pub fn restore_window(&mut self, id: WindowId) -> (r: (bool, bool))
        requires
            old(self).wf(),
        ensures
            final(self).wf(),
            final(self).desk() == restore_spec(old(self).desk(), id).0,
            r.0 == restore_spec(old(self).desk(), id).1,
            r.1 == (restore_spec(old(self).desk(), id).2 && loc_of(old(self).desk(), id).0
                == old(self).active_workspace),
            final(self).active_workspace == old(self).active_workspace,
            final(self).pending_focus_restore == old(self).pending_focus_restore,
            final(self).same_context(&*old(self)),
    {
        let ghost d = old(self).desk();
        match self.locate(id) {
            None => (false, false),
            Some((w, i)) => {
                assert(d[w as int] == self.workspaces@[w as int]@);
                let e = self.workspaces[w].windows[i];
                if !e.minimized {
                    return (true, false);
                }
                let history = without(&self.workspaces[w].minimized_history, id);
                self.workspaces[w].windows.set(i, ManagedWindow { minimized: false, ..e });
                self.workspaces[w].minimized_history = history;
                let ghost nd = self.desk();
                assert(nd =~= restore_spec(d, id).0) by {
                    assert forall|v: int| 0 <= v < d.len() implies #[trigger] nd[v] == restore_spec(d, id).0[v] by {
                        assert(nd[v] == self.workspaces@[v]@);
                        assert(d[v] == old(self).workspaces@[v]@);
                        if v == w {
                            assert(nd[v].windows =~= set_minimized(d[v], i as int, false).windows);
                        }
                    }
                }
                proof {
                    assert(same_ids_and_fullscreen(d, nd)) by {
                        assert forall|v: int, j: int| window_at(d, v, j) implies #[trigger] wid(d, v, j) == wid(nd, v, j) by {
                            if v == w {
                                assert(nd[v].windows == d[v].windows.update(i as int, ManagedWindow { minimized: false, ..e }));
                            }
                        }
                    }
                    lemma_same_ids(d, nd, self.next_window_id);
                }
                (true, w == self.active_workspace)
            },
        }
    }

    /// Forget the window `id` (its client unmapped or closed it).
    pub fn remove_window(&mut self, id: WindowId) -> (removed: bool)
        requires
            old(self).wf(),
        ensures
            final(self).wf(),
            final(self).desk() == remove_spec(old(self).desk(), id),
            removed == has_window(old(self).desk(), id),
            !has_window(final(self).desk(), id),
            final(self).active_workspace == old(self).active_workspace,
            final(self).pending_focus_restore == old(self).pending_focus_restore,
            final(self).same_context(&*old(self)),
    {
        let ghost d = old(self).desk();
        match self.locate(id) {
            None => false,
            Some((w, i)) => {
                assert(d[w as int] == self.workspaces@[w as int]@);
                self.workspaces[w].windows.remove(i);
                let focus = without(&self.workspaces[w].focus_history, id);
                self.workspaces[w].focus_history = focus;
                let minimized = without(&self.workspaces[w].minimized_history, id);
                self.workspaces[w].minimized_history = minimized;
                if self.workspaces[w].fullscreen == Some(id) {
                    self.workspaces[w].fullscreen = None;
                }
                let ghost nd = self.desk();
                assert(nd =~= remove_spec(d, id)) by {
                    assert forall|v: int| 0 <= v < d.len() implies #[trigger] nd[v] == remove_spec(d, id)[v] by {
                        assert(nd[v] == self.workspaces@[v]@);
                        assert(d[v] == old(self).workspaces@[v]@);
                    }
                }
                proof {
                    lemma_remove_keeps_wf(d, id, self.next_window_id);
                }
                true
            },
        }
    }

    /// Set or clear fullscreen for the window `id`, as its client asked.
    pub fn set_window_fullscreen(&mut self, id: WindowId, fullscreen: bool) -> (r: FullscreenOutcome)
        requires
            old(self).wf(),
        ensures
            final(self).wf(),
            (final(self).desk(), r) == fullscreen_spec(
                old(self).desk(),
                old(self).active_workspace as int,
                id,
                fullscreen,
            ),
            final(self).active_workspace == old(self).active_workspace,
            final(self).pending_focus_restore == old(self).pending_focus_restore,
            final(self).same_context(&*old(self)),
    {
        let ghost d = old(self).desk();
        match self.locate(id) {
            None => FullscreenOutcome::Ignored,
            Some((w, i)) => {
                assert(d[w as int] == self.workspaces@[w as int]@);
                let is_fullscreen = self.workspaces[w].fullscreen == Some(id);
                if fullscreen == is_fullscreen {
                    return FullscreenOutcome::RepeatConfigure;
                }
                if fullscreen {
                    self.workspaces[w].fullscreen = Some(id);
                } else {
                    self.workspaces[w].fullscreen = None;
                }
                let ghost nd = self.desk();
                let ghost expected = fullscreen_spec(d, self.active_workspace as int, id, fullscreen).0;
                assert(nd =~= expected) by {
                    assert forall|v: int| 0 <= v < d.len() implies #[trigger] nd[v] == expected[v] by {
                        assert(nd[v] == self.workspaces@[v]@);
                        assert(d[v] == old(self).workspaces@[v]@);
                    }
                }
                proof {
                    assert(same_ids(d, nd));
                    lemma_same_ids(d, nd, self.next_window_id);
                    assert forall|v: int| 0 <= v < nd.len() implies ((#[trigger] nd[v]).fullscreen matches Some(f)
                        ==> exists|j: int| 0 <= j < nd[v].windows.len() && #[trigger] nd[v].windows[j].id == f) by {
                        if v == w {
                            if fullscreen {
                                assert(nd[v].windows[i as int].id == id);
                            }
                        } else {
                            assert(nd[v] == d[v]);
                        }
                    }
                }
                if w == self.active_workspace {
                    FullscreenOutcome::RelayoutActive
                } else {
                    FullscreenOutcome::ConfigureWorkspace(w)
                }
            },
        }
    }

    /// The geometry of the window `id` when it floats, is shown and is not
    /// fullscreen.
    pub fn floating_geometry(&self, id: WindowId) -> (r: Option<Rect>)
        requires
            self.wf(),
        ensures
            r == floating_spec(self.desk(), id),
    {
        match self.locate(id) {
            None => None,
            Some((w, i)) => {
                assert(self.desk()[w as int] == self.workspaces@[w as int]@);
                let e = self.workspaces[w].windows[i];
                if !e.minimized && self.workspaces[w].fullscreen != Some(id) {
                    e.floating
                } else {
                    None
                }
            },
        }
    }

    /// Move or resize a floating window; the geometry is fitted to the
    /// output and the window's size hints. Gives the geometry applied, or
    /// nothing when the window does not float (or is hidden or fullscreen).
    pub fn set_floating_geometry(&mut self, id: WindowId, geometry: Rect) -> (r: Option<Rect>)
        requires
            old(self).wf(),
        ensures
            final(self).wf(),
            floating_spec(old(self).desk(), id) is None ==> r is None && final(self).desk() == old(self).desk(),
            floating_spec(old(self).desk(), id) is Some ==> ({
                let (w, i) = loc_of(old(self).desk(), id);
                let e = old(self).desk()[w].windows[i];
                let g = constrain_spec(geometry, old(self).output_size, e.min, e.max);
                &&& r == Some(g)
                &&& final(self).desk() == old(self).desk().update(
                    w,
                    WorkspaceView {
                        windows: old(self).desk()[w].windows.update(i, ManagedWindow { floating: Some(g), ..e }),
                        ..old(self).desk()[w]
                    },
                )
            }),
            final(self).active_workspace == old(self).active_workspace,
            final(self).pending_focus_restore == old(self).pending_focus_restore,
            final(self).same_context(&*old(self)),
    {
        let ghost d = old(self).desk();
        if self.floating_geometry(id).is_none() {
            return None;
        }
        let (w, i) = match self.locate(id) {
            Some(p) => p,
            None => {
                return None;
            },
        };
        assert(d[w as int] == self.workspaces@[w as int]@);
        let e = self.workspaces[w].windows[i];
        let g = constrain_geometry(geometry, self.output_size, e.min, e.max);
        self.workspaces[w].windows.set(i, ManagedWindow { floating: Some(g), ..e });
        let ghost nd = self.desk();
        let ghost expected = d.update(
            w as int,
            WorkspaceView { windows: d[w as int].windows.update(i as int, ManagedWindow { floating: Some(g), ..e }), ..d[w as int] },
        );
        assert(nd =~= expected) by {
            assert forall|v: int| 0 <= v < d.len() implies #[trigger] nd[v] == expected[v] by {
                assert(nd[v] == self.workspaces@[v]@);
                assert(d[v] == old(self).workspaces@[v]@);
            }
        }
        proof {
            assert(same_ids_and_fullscreen(d, nd)) by {
                assert forall|v: int, j: int| window_at(d, v, j) implies #[trigger] wid(d, v, j) == wid(nd, v, j) by {
                    if v == w {
                        assert(nd[v].windows == d[v].windows.update(i as int, ManagedWindow { floating: Some(g), ..e }));
                    }
                }
            }
            lemma_same_ids(d, nd, self.next_window_id);
        }
        Some(g)
    }
}

} // verus!

verus! {

pub proof fn lemma_filter_keeps(
    s: Seq<Placement>,
    pred: spec_fn(Placement) -> bool,
    prop: spec_fn(Placement) -> bool,
)
    requires
        forall|i: int| 0 <= i < s.len() ==> #[trigger] prop(s[i]),
    ensures
        forall|i: int| 0 <= i < s.filter(pred).len() ==> #[trigger] prop(s.filter(pred)[i]),
    decreases s.len(),
{
    reveal_with_fuel(Seq::<_>::filter, 1);
    if s.len() > 0 {
        lemma_filter_keeps(s.drop_last(), pred, prop);
        let sub = s.drop_last().filter(pred);
        assert forall|i: int| 0 <= i < s.filter(pred).len() implies #[trigger] prop(s.filter(pred)[i]) by {
            if i < sub.len() {
                assert(s.filter(pred)[i] == sub[i]);
            } else {
                assert(s.filter(pred)[i] == s.last());
                assert(prop(s[s.len() - 1]));
            }
        }
    }
}

/// Every placement of a layout lies in the nonnegative `i32` quadrant.
pub proof fn lemma_layout_rects(w: WorkspaceView, output: Size, area: Rect)
    requires
        geometry_ok(output, area),
        w.windows.len() <= i32::MAX,
    ensures
        forall|j: int|
            0 <= j < layout_spec(w, output, area).len() ==> rect_ok(
                #[trigger] layout_spec(w, output, area)[j].rect,
            ),
{
    let u = placements_unsorted(w, output, area);
    let prop = |p: Placement| rect_ok(p.rect);
    let count = tiled_before(w.windows, w.windows.len() as int);
    lemma_tiled_before_mono(w.windows, 0, w.windows.len() as int);
    assert forall|k: int| 0 <= k < u.len() implies #[trigger] prop(u[k]) by {
        let e = w.windows[k];
        if let Some(r) = e.floating {
            lemma_constrain_bounds(r, output, e.min, e.max);
        } else if !e.minimized {
            lemma_tiled_before_mono(w.windows, k + 1, w.windows.len() as int);
            lemma_tile_bounds(area.size, count, tiled_before(w.windows, k) as int);
        }
    }
    let p0 = |p: Placement| stacking_rank(p) == 0;
    let p1 = |p: Placement| stacking_rank(p) == 1;
    let p2 = |p: Placement| stacking_rank(p) == 2;
    lemma_filter_keeps(u, p0, prop);
    lemma_filter_keeps(u, p1, prop);
    lemma_filter_keeps(u, p2, prop);
    let l = layout_spec(w, output, area);
    assert(l == u.filter(p0) + u.filter(p1) + u.filter(p2));
    assert forall|j: int| 0 <= j < l.len() implies rect_ok(#[trigger] l[j].rect) by {
        let a = u.filter(p0);
        let b = u.filter(p1);
        let c = u.filter(p2);
        if j < a.len() {
            assert(prop(a[j]));
        } else if j < a.len() + b.len() {
            assert(prop(b[j - a.len()]));
        } else {
            assert(prop(c[j - a.len() - b.len()]));
        }
    }
}

} // verus!

verus! {

/// The parent that a window's hints name, when it is another managed window.
pub open spec fn managed_parent(d: Seq<WorkspaceView>, id: WindowId, parent: Option<WindowId>) -> Option<WindowId> {
    match parent {
        Some(p) => if p != id && has_window(d, p) {
            Some(p)
        } else {
            None
        },
        None => None,
    }
}

/// Window `i0` of workspace `w0` (the window `id`) moved to the end of
/// workspace `t`, taking its minimized state and its fullscreen slot along.
pub open spec fn move_spec(d: Seq<WorkspaceView>, id: WindowId, w0: int, i0: int, t: int) -> Seq<WorkspaceView> {
    let e = d[w0].windows[i0];
    let src = d[w0];
    let dst = d[t];
    let src2 = WorkspaceView {
        windows: src.windows.remove(i0),
        minimized_history: src.minimized_history.filter(other_than(id)),
        fullscreen: if src.fullscreen == Some(id) {
            None
        } else {
            src.fullscreen
        },
        ..src
    };
    let dst2 = WorkspaceView {
        windows: dst.windows.push(e),
        minimized_history: if e.minimized {
            dst.minimized_history.push(id)
        } else {
            dst.minimized_history
        },
        fullscreen: if src.fullscreen == Some(id) {
            Some(id)
        } else {
            dst.fullscreen
        },
        ..dst
    };
    d.update(w0, src2).update(t, dst2)
}

/// The rectangle of the first placement of `id`, else `default`.
pub open spec fn rect_of(layout: Seq<Placement>, id: WindowId, default: Rect) -> Rect
    decreases layout.len(),
{
    if layout.len() == 0 {
        default
    } else if layout[0].id == id {
        layout[0].rect
    } else {
        rect_of(layout.drop_first(), id, default)
    }
}

/// Where a floating window first appears: its fixed size, else its natural
/// size, else 600x400, fitted to the output, centred on `parent_rect`.
pub open spec fn initial_geometry(hints: WindowHints, output: Size, parent_rect: Rect) -> Rect {
    let size0 = if fixed_size_spec(hints.min, hints.max) {
        hints.min
    } else if hints.natural.w > 0 && hints.natural.h > 0 {
        hints.natural
    } else {
        Size { w: 600, h: 400 }
    };
    let size = constrain_spec(Rect { loc: point(0, 0), size: size0 }, output, hints.min, hints.max).size;
    Rect {
        loc: point(
            parent_rect.loc.x + tdiv(parent_rect.size.w - size.w, 2),
            parent_rect.loc.y + tdiv(parent_rect.size.h - size.h, 2),
        ),
        size,
    }
}

/// What the compositor does after a window's hints were applied.
#[derive(Clone, Copy, Debug, PartialEq, Eq, Structural)]
pub struct RefreshOutcome {
    /// Lay out the active workspace again.
    pub relayout_active: bool,
    /// Configure the windows of this inactive workspace.
    pub configure_workspace: Option<usize>,
}

/// Applying a window's hints: a window transient for a managed window on
/// another workspace joins that workspace; a window floats when it has a
/// managed parent, a fixed size, or is a dialog, keeping its floating
/// geometry or getting one centred on its parent (or the output); a window
/// without those tiles. Layout work is asked for only when something
/// changed.
pub open spec fn refresh_spec(
    d: Seq<WorkspaceView>,
    active: int,
    output: Size,
    area: Rect,
    id: WindowId,
    parent: Option<WindowId>,
    hints: WindowHints,
) -> (Seq<WorkspaceView>, RefreshOutcome) {
    if !has_window(d, id) {
        (d, RefreshOutcome { relayout_active: false, configure_workspace: None })
    } else {
        let (w0, i0) = loc_of(d, id);
        let p = managed_parent(d, id, parent);
        let t = match p {
            Some(pp) => loc_of(d, pp).0,
            None => w0,
        };
        let moved = t != w0;
        let d1 = if moved {
            move_spec(d, id, w0, i0, t)
        } else {
            d
        };
        let i1 = if moved {
            d[t].windows.len() as int
        } else {
            i0
        };
        let e = d1[t].windows[i1];
        let floating = p is Some || fixed_size_spec(hints.min, hints.max) || hints.dialog;
        let parent_rect = match p {
            Some(pp) => rect_of(layout_spec(d1[t], output, area), pp, output_rect(output)),
            None => output_rect(output),
        };
        let geometry = if floating {
            Some(
                constrain_spec(
                    match e.floating {
                        Some(r) => r,
                        None => initial_geometry(hints, output, parent_rect),
                    },
                    output,
                    hints.min,
                    hints.max,
                ),
            )
        } else {
            None
        };
        let e2 = ManagedWindow { parent: p, floating: geometry, min: hints.min, max: hints.max, ..e };
        let d2 = d1.update(t, WorkspaceView { windows: d1[t].windows.update(i1, e2), ..d1[t] });
        let changed = moved || e.parent != p || e.floating != geometry;
        (
            d2,
            if changed {
                RefreshOutcome {
                    relayout_active: t == active || (moved && w0 == active),
                    configure_workspace: if t != active {
                        Some(t as usize)
                    } else {
                        None
                    },
                }
            } else {
                RefreshOutcome { relayout_active: false, configure_workspace: None }
            },
        )
    }
}

/// Each workspace can take one more window.
pub open spec fn has_room(d: Seq<WorkspaceView>) -> bool {
    forall|w: int| 0 <= w < d.len() ==> (#[trigger] d[w]).windows.len() + 1 < i32::MAX
}

/// Moving a window to another workspace keeps the desk well formed and puts
/// the window last there.
pub proof fn lemma_move_keeps_wf(d: Seq<WorkspaceView>, id: WindowId, w0: int, i0: int, t: int, next: u64)
    requires
        ids_unique(d),
        ids_below(d, next),
        counts_ok(d),
        fullscreen_ok(d),
        has_room(d),
        window_at(d, w0, i0),
        wid(d, w0, i0) == id,
        0 <= t < d.len(),
        t != w0,
    ensures
        ({
            let nd = move_spec(d, id, w0, i0, t);
            &&& ids_unique(nd)
            &&& ids_below(nd, next)
            &&& counts_ok(nd)
            &&& fullscreen_ok(nd)
            &&& nd.len() == d.len()
            &&& window_at(nd, t, d[t].windows.len() as int)
            &&& wid(nd, t, d[t].windows.len() as int) == id
            &&& nd[t].windows[d[t].windows.len() as int] == d[w0].windows[i0]
            &&& forall|v: int| 0 <= v < d.len() && v != t && v != w0 ==> #[trigger] nd[v] == d[v]
        }),
{
    let nd = move_spec(d, id, w0, i0, t);
    let n = d[t].windows.len() as int;
    let old_at = |v: int, j: int| -> (int, int)
        {
            if v == w0 {
                (w0, if j >= i0 { j + 1 } else { j })
            } else if v == t && j == n {
                (w0, i0)
            } else {
                (v, j)
            }
        };
    assert forall|v: int, j: int| window_at(nd, v, j) implies window_at(d, old_at(v, j).0, old_at(v, j).1) && #[trigger] wid(nd, v, j) == wid(d, old_at(v, j).0, old_at(v, j).1) by {
        if v == w0 {
            assert(nd[v].windows == d[w0].windows.remove(i0));
        } else if v == t {
            assert(nd[v].windows == d[t].windows.push(d[w0].windows[i0]));
        } else {
            assert(nd[v] == d[v]);
        }
    }
    assert forall|w1: int, i1: int, w2: int, i2: int|
        window_at(nd, w1, i1) && window_at(nd, w2, i2) && #[trigger] wid(nd, w1, i1) == #[trigger] wid(nd, w2, i2)
        implies w1 == w2 && i1 == i2 by {
        let a = old_at(w1, i1);
        let b = old_at(w2, i2);
        assert(wid(d, a.0, a.1) == wid(d, b.0, b.1));
    }
    assert forall|v: int, j: int| window_at(nd, v, j) implies (#[trigger] wid(nd, v, j)).0 < next by {
        assert(wid(nd, v, j) == wid(d, old_at(v, j).0, old_at(v, j).1));
    }
    assert forall|v: int| 0 <= v < nd.len() implies (#[trigger] nd[v]).windows.len() < i32::MAX by {
        assert(d[v].windows.len() + 1 < i32::MAX);
    }
    assert forall|v: int| 0 <= v < nd.len() implies ((#[trigger] nd[v]).fullscreen matches Some(f)
        ==> exists|j: int| 0 <= j < nd[v].windows.len() && #[trigger] nd[v].windows[j].id == f) by {
        if let Some(f) = nd[v].fullscreen {
            if v == t && d[w0].fullscreen == Some(id) {
                assert(nd[v].windows[n].id == f);
            } else {
                assert(d[v].fullscreen == Some(f));
                assert(in_workspace(d[v], f));
                let k = choose|k: int| 0 <= k < d[v].windows.len() && #[trigger] d[v].windows[k].id == f;
                if v == w0 {
                    assert(wid(d, v, k) == f);
                    assert(f != id);
                    assert(k != i0);
                    let j = if k < i0 { k } else { k - 1 };
                    assert(nd[v].windows[j].id == f);
                } else if v == t {
                    assert(nd[v].windows[k].id == f);
                } else {
                    assert(nd[v] == d[v]);
                    assert(nd[v].windows[k].id == f);
                }
            }
        }
    }
}

fn same_parent(a: Option<WindowId>, b: Option<WindowId>) -> (r: bool)
    ensures
        r == (a == b),
{
    match (a, b) {
        (Some(x), Some(y)) => x == y,
        (None, None) => true,
        _ => false,
    }
}

fn same_geometry(a: Option<Rect>, b: Option<Rect>) -> (r: bool)
    ensures
        r == (a == b),
{
    match (a, b) {
        (Some(x), Some(y)) => x.loc.x == y.loc.x && x.loc.y == y.loc.y && x.size.w == y.size.w
            && x.size.h == y.size.h,
        (None, None) => true,
        _ => false,
    }
}

fn placement_rect(layout: &Vec<Placement>, id: WindowId, default: Rect) -> (r: Rect)
    ensures
        r == rect_of(layout@, id, default),
{
    let mut j: usize = 0;
    assert(layout@.skip(0) =~= layout@);
    while j < layout.len()
        invariant
            j <= layout@.len(),
            rect_of(layout@, id, default) == rect_of(layout@.skip(j as int), id, default),
        decreases layout@.len() - j,
    {
        assert(layout@.skip(j as int)[0] == layout@[j as int]);
        if layout[j].id == id {
            return layout[j].rect;
        }
        assert(layout@.skip(j as int).drop_first() =~= layout@.skip(j + 1));
        j = j + 1;
    }
    assert(layout@.skip(j as int) =~= Seq::<Placement>::empty());
    default
}

proof fn lemma_rect_of_ok(layout: Seq<Placement>, id: WindowId, default: Rect)
    requires
        rect_ok(default),
        forall|j: int| 0 <= j < layout.len() ==> rect_ok(#[trigger] layout[j].rect),
    ensures
        rect_ok(rect_of(layout, id, default)),
    decreases layout.len(),
{
    if layout.len() > 0 && layout[0].id != id {
        assert forall|j: int| 0 <= j < layout.drop_first().len() implies rect_ok(#[trigger] layout.drop_first()[j].rect) by {
            assert(layout.drop_first()[j] == layout[j + 1]);
        }
        lemma_rect_of_ok(layout.drop_first(), id, default);
    }
}

fn initial_geometry_of(hints: WindowHints, output: Size, parent_rect: Rect) -> (r: Rect)
    requires
        output.w >= 0,
        output.h >= 0,
        rect_ok(parent_rect),
    ensures
        r == initial_geometry(hints, output, parent_rect),
{
    let size0 = if fixed_size(hints.min, hints.max) {
        hints.min
    } else if hints.natural.w > 0 && hints.natural.h > 0 {
        hints.natural
    } else {
        Size { w: 600, h: 400 }
    };
    let fitted = constrain_geometry(Rect { loc: Point { x: 0, y: 0 }, size: size0 }, output, hints.min, hints.max);
    proof {
        lemma_constrain_bounds(Rect { loc: point(0, 0), size: size0 }, output, hints.min, hints.max);
    }
    let size = fitted.size;
    let x: i32 = parent_rect.loc.x + (parent_rect.size.w - size.w) / 2;
    let y: i32 = parent_rect.loc.y + (parent_rect.size.h - size.h) / 2;
    Rect { loc: Point { x, y }, size }
}

impl Villain {
    /// Whether every workspace can take another window.
    pub fn room_for_window(&self) -> (b: bool)
        requires
            self.wf(),
        ensures
            b == (has_room(self.desk()) && forall|w: int| 0 <= w < WORKSPACE_COUNT ==> (#[trigger] self.desk()[w]).windows.len() + 2 < i32::MAX),
    {
        let mut w: usize = 0;
        while w < WORKSPACE_COUNT
            invariant
                w <= WORKSPACE_COUNT,
                self.wf(),
                forall|v: int| 0 <= v < w ==> (#[trigger] self.desk()[v]).windows.len() + 2 < i32::MAX,
            decreases WORKSPACE_COUNT - w,
        {
            assert(self.desk()[w as int] == self.workspaces@[w as int]@);
            if self.workspaces[w].windows.len() >= 0x7fff_fffd {
                return false;
            }
            w = w + 1;
        }
        true
    }

    fn move_window(&mut self, id: WindowId, w0: usize, i0: usize, t: usize) -> (i1: usize)
        requires
            old(self).wf(),
            has_room(old(self).desk()),
            window_at(old(self).desk(), w0 as int, i0 as int),
            wid(old(self).desk(), w0 as int, i0 as int) == id,
            t < WORKSPACE_COUNT,
            t != w0,
        ensures
            final(self).wf(),
            final(self).desk() == move_spec(old(self).desk(), id, w0 as int, i0 as int, t as int),
            i1 == old(self).desk()[t as int].windows.len(),
            final(self).active_workspace == old(self).active_workspace,
            final(self).pending_focus_restore == old(self).pending_focus_restore,
            final(self).same_context(&*old(self)),
    {
        let ghost d = old(self).desk();
        assert(d[w0 as int] == self.workspaces@[w0 as int]@);
        assert(d[t as int] == self.workspaces@[t as int]@);
        let e = self.workspaces[w0].windows.remove(i0);
        let history = without(&self.workspaces[w0].minimized_history, id);
        self.workspaces[w0].minimized_history = history;
        let was_fullscreen = self.workspaces[w0].fullscreen == Some(id);
        if was_fullscreen {
            self.workspaces[w0].fullscreen = None;
            self.workspaces[t].fullscreen = Some(id);
        }
        if e.minimized {
            self.workspaces[t].minimized_history.push(id);
        }
        self.workspaces[t].windows.push(e);
        let i1 = self.workspaces[t].windows.len() - 1;
        proof {
            let nd = self.desk();
            assert forall|v: int| 0 <= v < d.len() implies #[trigger] nd[v] == move_spec(d, id, w0 as int, i0 as int, t as int)[v] by {
                assert(nd[v] == self.workspaces@[v]@);
                assert(d[v] == old(self).workspaces@[v]@);
            }
            assert(nd =~= move_spec(d, id, w0 as int, i0 as int, t as int));
            lemma_move_keeps_wf(d, id, w0 as int, i0 as int, t as int, self.next_window_id);
        }
        i1
    }

    /// Apply a window's hints: its parent (when the client names one), its
    /// size hints and natural size, and whether it is a dialog.
    #[verifier::rlimit(40)]
    pub fn refresh_window_hints(&mut self, id: WindowId, parent: Option<WindowId>, hints: WindowHints) -> (r: RefreshOutcome)
        requires
            old(self).wf(),
            has_room(old(self).desk()),
        ensures
            final(self).wf(),
            (final(self).desk(), r) == refresh_spec(
                old(self).desk(),
                old(self).active_workspace as int,
                old(self).output_size,
                old(self).usable_area,
                id,
                parent,
                hints,
            ),
            final(self).active_workspace == old(self).active_workspace,
            final(self).pending_focus_restore == old(self).pending_focus_restore,
            final(self).same_context(&*old(self)),
    {
        let ghost d = old(self).desk();
        let (w0, i0) = match self.locate(id) {
            None => {
                return RefreshOutcome { relayout_active: false, configure_workspace: None };
            },
            Some(p) => p,
        };
        let p = match parent {
            Some(pp) => if pp != id && self.locate(pp).is_some() {
                Some(pp)
            } else {
                None
            },
            None => None,
        };
        assert(p == managed_parent(d, id, parent));
        let t = match p {
            Some(pp) => match self.locate(pp) {
                Some((v, _)) => v,
                None => w0,
            },
            None => w0,
        };
        let moved = t != w0;
        let mut i1 = i0;
        if moved {
            i1 = self.move_window(id, w0, i0, t);
        }
        let ghost d1 = self.desk();
        assert(self.wf());
        let floating = p.is_some() || fixed_size(hints.min, hints.max) || hints.dialog;
        let output = self.output_size;
        let parent_rect = match p {
            Some(pp) => {
                let layout = self.workspace_layout(t);
                proof {
                    lemma_layout_rects(d1[t as int], self.output_size, self.usable_area);
                    lemma_rect_of_ok(layout@, pp, output_rect(output));
                }
                placement_rect(&layout, pp, Rect { loc: Point { x: 0, y: 0 }, size: output })
            },
            None => Rect { loc: Point { x: 0, y: 0 }, size: output },
        };
        assert(d1[t as int] == self.workspaces@[t as int]@);
        let e = self.workspaces[t].windows[i1];
        let geometry = if floating {
            let g = match e.floating {
                Some(r) => r,
                None => initial_geometry_of(hints, output, parent_rect),
            };
            Some(constrain_geometry(g, output, hints.min, hints.max))
        } else {
            None
        };
        let changed = moved || !same_parent(e.parent, p) || !same_geometry(e.floating, geometry);
        let e2 = ManagedWindow { parent: p, floating: geometry, min: hints.min, max: hints.max, ..e };
        self.workspaces[t].windows.set(i1, e2);
        proof {
            let nd = self.desk();
            let expected = d1.update(t as int, WorkspaceView { windows: d1[t as int].windows.update(i1 as int, e2), ..d1[t as int] });
            assert forall|v: int| 0 <= v < d1.len() implies #[trigger] nd[v] == expected[v] by {
                assert(nd[v] == self.workspaces@[v]@);
            }
            assert(nd =~= expected);
            assert(same_ids_and_fullscreen(d1, nd)) by {
                assert forall|v: int, j: int| window_at(d1, v, j) implies #[trigger] wid(d1, v, j) == wid(nd, v, j) by {
                    if v == t {
                        assert(nd[v].windows == d1[v].windows.update(i1 as int, e2));
                    }
                }
            }
            lemma_same_ids(d1, nd, self.next_window_id);
        }
        if changed {
            RefreshOutcome {
                relayout_active: t == self.active_workspace || (moved && w0 == self.active_workspace),
                configure_workspace: if t != self.active_workspace {
                    Some(t)
                } else {
                    None
                },
            }
        } else {
            RefreshOutcome { relayout_active: false, configure_workspace: None }
        }
    }
}

} // verus!

verus! {

/// The workspace a launched process was started on; the active workspace
/// for windows of other processes.
pub open spec fn pid_workspace(children: Seq<(usize, u32)>, pid: Option<u32>, active: usize) -> usize
    decreases children.len(),
{
    if children.len() == 0 {
        active
    } else if pid == Some(children[0].1) {
        children[0].0
    } else {
        pid_workspace(children.drop_first(), pid, active)
    }
}

/// A new window, before its hints are applied.
pub open spec fn fresh_window(id: WindowId) -> ManagedWindow {
    ManagedWindow {
        id,
        minimized: false,
        parent: None,
        floating: None,
        min: Size { w: 0, h: 0 },
        max: Size { w: 0, h: 0 },
    }
}

/// The desk with a fresh window appended to workspace `w`.
pub open spec fn with_new_window(d: Seq<WorkspaceView>, w: int, id: WindowId) -> Seq<WorkspaceView> {
    d.update(w, WorkspaceView { windows: d[w].windows.push(fresh_window(id)), ..d[w] })
}

/// What the compositor does after a window was added.
#[derive(Clone, Copy, Debug, PartialEq, Eq, Structural)]
pub struct AddOutcome {
    pub id: WindowId,
    /// The workspace the window ended up on.
    pub workspace: usize,
    /// The layout work its hints asked for.
    pub refresh: RefreshOutcome,
    /// It is on the active workspace: lay that out and focus the window.
    pub activate: bool,
}

proof fn lemma_add_keeps_wf(d: Seq<WorkspaceView>, w: int, next: u64)
    requires
        ids_unique(d),
        ids_below(d, next),
        counts_ok(d),
        fullscreen_ok(d),
        0 <= w < d.len(),
        forall|v: int| 0 <= v < d.len() ==> (#[trigger] d[v]).windows.len() + 2 < i32::MAX,
        next < u64::MAX,
    ensures
        ({
            let nd = with_new_window(d, w, WindowId(next));
            &&& ids_unique(nd)
            &&& ids_below(nd, (next + 1) as u64)
            &&& counts_ok(nd)
            &&& fullscreen_ok(nd)
            &&& has_room(nd)
            &&& nd.len() == d.len()
            &&& window_at(nd, w, d[w].windows.len() as int)
            &&& wid(nd, w, d[w].windows.len() as int) == WindowId(next)
        }),
{
    let nd = with_new_window(d, w, WindowId(next));
    let n = d[w].windows.len() as int;
    assert forall|v: int, j: int| window_at(nd, v, j) && !(v == w && j == n) implies window_at(d, v, j) && #[trigger] wid(nd, v, j) == wid(d, v, j) by {
        if v == w {
            assert(nd[v].windows == d[w].windows.push(fresh_window(WindowId(next))));
        }
    }
    assert(wid(nd, w, n) == WindowId(next));
    assert forall|w1: int, i1: int, w2: int, i2: int|
        window_at(nd, w1, i1) && window_at(nd, w2, i2) && #[trigger] wid(nd, w1, i1) == #[trigger] wid(nd, w2, i2)
        implies w1 == w2 && i1 == i2 by {
        if w1 == w && i1 == n {
            if !(w2 == w && i2 == n) {
                assert(wid(d, w2, i2).0 < next);
            }
        } else if w2 == w && i2 == n {
            assert(wid(d, w1, i1).0 < next);
        } else {
            assert(wid(d, w1, i1) == wid(d, w2, i2));
        }
    }
    assert forall|v: int, j: int| window_at(nd, v, j) implies (#[trigger] wid(nd, v, j)).0 < next + 1 by {
        if !(v == w && j == n) {
            assert(wid(d, v, j).0 < next);
        }
    }
    assert forall|v: int| 0 <= v < nd.len() implies (#[trigger] nd[v]).windows.len() < i32::MAX by {
        assert(d[v].windows.len() + 2 < i32::MAX);
    }
    assert forall|v: int| 0 <= v < nd.len() implies (#[trigger] nd[v]).windows.len() + 1 < i32::MAX by {
        assert(d[v].windows.len() + 2 < i32::MAX);
    }
    assert forall|v: int| 0 <= v < nd.len() implies ((#[trigger] nd[v]).fullscreen matches Some(f)
        ==> exists|j: int| 0 <= j < nd[v].windows.len() && #[trigger] nd[v].windows[j].id == f) by {
        if let Some(f) = nd[v].fullscreen {
            assert(d[v].fullscreen == Some(f));
            assert(in_workspace(d[v], f));
            let k = choose|k: int| 0 <= k < d[v].windows.len() && #[trigger] d[v].windows[k].id == f;
            assert(nd[v].windows[k].id == f);
        }
    }
}

impl Villain {
    /// The workspace for a new window of process `pid`.
    pub fn workspace_for_pid(&self, pid: Option<u32>) -> (w: usize)
        ensures
            w == pid_workspace(self.children@, pid, self.active_workspace),
    {
        let mut c: usize = 0;
        assert(self.children@.skip(0) =~= self.children@);
        while c < self.children.len()
            invariant
                c <= self.children@.len(),
                pid_workspace(self.children@, pid, self.active_workspace) == pid_workspace(
                    self.children@.skip(c as int),
                    pid,
                    self.active_workspace,
                ),
            decreases self.children@.len() - c,
        {
            assert(self.children@.skip(c as int)[0] == self.children@[c as int]);
            let (w, p) = self.children[c];
            if pid == Some(p) {
                return w;
            }
            assert(self.children@.skip(c as int).drop_first() =~= self.children@.skip(c + 1));
            c = c + 1;
        }
        self.active_workspace
    }

    /// Record a launched process on the active workspace.
    pub fn record_child(&mut self, pid: u32)
        requires
            old(self).wf(),
        ensures
            final(self).wf(),
            final(self).children@ == old(self).children@.push((old(self).active_workspace, pid)),
            *final(self) == (Villain { children: final(self).children, ..*old(self) }),
    {
        let w = self.active_workspace;
        self.children.push((w, pid));
    }

    /// Forget a launched process that has exited.
    pub fn forget_child(&mut self, pid: u32)
        requires
            old(self).wf(),
        ensures
            final(self).wf(),
            final(self).children@ == old(self).children@.filter(|c: (usize, u32)| c.1 != pid),
            *final(self) == (Villain { children: final(self).children, ..*old(self) }),
    {
        let ghost pred = |c: (usize, u32)| c.1 != pid;
        let mut kept: Vec<(usize, u32)> = Vec::new();
        let mut i: usize = 0;
        while i < self.children.len()
            invariant
                i <= self.children@.len(),
                pred == (|c: (usize, u32)| c.1 != pid),
                kept@ == self.children@.take(i as int).filter(pred),
                forall|c: int| 0 <= c < kept@.len() ==> (#[trigger] kept@[c]).0 < WORKSPACE_COUNT,
                forall|c: int| 0 <= c < self.children@.len() ==> (#[trigger] self.children@[c]).0 < WORKSPACE_COUNT,
            decreases self.children@.len() - i,
        {
            proof {
                reveal_with_fuel(Seq::<_>::filter, 1);
                assert(self.children@.take(i + 1).drop_last() =~= self.children@.take(i as int));
            }
            let c = self.children[i];
            if c.1 != pid {
                kept.push(c);
            }
            assert(kept@ =~= self.children@.take(i + 1).filter(pred));
            i = i + 1;
        }
        assert(self.children@.take(i as int) =~= self.children@);
        self.children = kept;
    }

    /// Manage a new window of process `pid` (if known) whose client names
    /// `parent` and gives `hints`. It gets the next id and goes to the
    /// workspace its process was launched on (else the active one), then
    /// its hints are applied and it becomes the most recently focused
    /// window of its workspace.
    pub fn add_window(&mut self, pid: Option<u32>, parent: Option<WindowId>, hints: WindowHints) -> (r: AddOutcome)
        requires
            old(self).wf(),
            old(self).next_window_id < u64::MAX,
            forall|w: int| 0 <= w < WORKSPACE_COUNT ==> (#[trigger] old(self).desk()[w]).windows.len() + 2 < i32::MAX,
        ensures
            final(self).wf(),
            r.id == WindowId(old(self).next_window_id),
            final(self).next_window_id == old(self).next_window_id + 1,
            ({
                let d0 = with_new_window(
                    old(self).desk(),
                    pid_workspace(old(self).children@, pid, old(self).active_workspace) as int,
                    r.id,
                );
                let (d1, refresh) = refresh_spec(
                    d0,
                    old(self).active_workspace as int,
                    old(self).output_size,
                    old(self).usable_area,
                    r.id,
                    parent,
                    hints,
                );
                &&& r.refresh == refresh
                &&& has_window(d1, r.id)
                &&& r.workspace == loc_of(d1, r.id).0
                &&& r.activate == (r.workspace == old(self).active_workspace)
                &&& final(self).desk() == remember_spec(d1, r.id)
            }),
            final(self).active_workspace == old(self).active_workspace,
            final(self).pending_focus_restore == old(self).pending_focus_restore,
            final(self).config == old(self).config,
            final(self).output_size == old(self).output_size,
            final(self).usable_area == old(self).usable_area,
            final(self).children == old(self).children,
            final(self).host_focused == old(self).host_focused,
            final(self).socket_name == old(self).socket_name,
            final(self).xwayland_display == old(self).xwayland_display,
            final(self).owns_session == old(self).owns_session,
            final(self).repaint_needed == old(self).repaint_needed,
            final(self).cursor_timer_generation == old(self).cursor_timer_generation,
    {
        let ghost d = old(self).desk();
        let index = self.workspace_for_pid(pid);
        let id = WindowId(self.next_window_id);
        proof {
            assert(index < WORKSPACE_COUNT) by {
                lemma_pid_workspace_bound(self.children@, pid, self.active_workspace);
            }
            lemma_add_keeps_wf(d, index as int, self.next_window_id);
        }
        assert(d[index as int] == self.workspaces@[index as int]@);
        self.workspaces[index].windows.push(
            ManagedWindow {
                id,
                minimized: false,
                parent: None,
                floating: None,
                min: Size { w: 0, h: 0 },
                max: Size { w: 0, h: 0 },
            },
        );
        self.next_window_id = self.next_window_id + 1;
        let ghost d0 = self.desk();
        assert(d0 =~= with_new_window(d, index as int, id)) by {
            assert forall|v: int| 0 <= v < d.len() implies #[trigger] d0[v] == with_new_window(d, index as int, id)[v] by {
                assert(d0[v] == self.workspaces@[v]@);
                assert(d[v] == old(self).workspaces@[v]@);
            }
        }
        assert(self.wf());
        let refresh = self.refresh_window_hints(id, parent, hints);
        let ghost d1 = self.desk();
        proof {
            lemma_loc_of(d0, id, index as int, d[index as int].windows.len() as int);
            lemma_refresh_keeps(d0, self.active_workspace as int, self.output_size, self.usable_area, id, parent, hints);
        }
        let w = match self.workspace_for_window(id) {
            Some(w) => w,
            None => index,
        };
        self.remember_focused_window(id);
        AddOutcome { id, workspace: w, refresh, activate: w == self.active_workspace }
    }
}

pub proof fn lemma_pid_workspace_bound(children: Seq<(usize, u32)>, pid: Option<u32>, active: usize)
    requires
        active < WORKSPACE_COUNT,
        forall|c: int| 0 <= c < children.len() ==> (#[trigger] children[c]).0 < WORKSPACE_COUNT,
    ensures
        pid_workspace(children, pid, active) < WORKSPACE_COUNT,
    decreases children.len(),
{
    if children.len() > 0 && pid != Some(children[0].1) {
        assert forall|c: int| 0 <= c < children.drop_first().len() implies (#[trigger] children.drop_first()[c]).0 < WORKSPACE_COUNT by {
            assert(children.drop_first()[c] == children[c + 1]);
        }
        lemma_pid_workspace_bound(children.drop_first(), pid, active);
    }
}

/// Applying hints keeps a managed window managed.
pub proof fn lemma_refresh_keeps(
    d: Seq<WorkspaceView>,
    active: int,
    output: Size,
    area: Rect,
    id: WindowId,
    parent: Option<WindowId>,
    hints: WindowHints,
)
    requires
        ids_unique(d),
        has_window(d, id),
        has_room(d),
        counts_ok(d),
        ids_below(d, u64::MAX),
        fullscreen_ok(d),
    ensures
        has_window(refresh_spec(d, active, output, area, id, parent, hints).0, id),
{
    let (w0, i0) = loc_of(d, id);
    assert(window_at(d, w0, i0) && wid(d, w0, i0) == id);
    let p = managed_parent(d, id, parent);
    let t = match p {
        Some(pp) => loc_of(d, pp).0,
        None => w0,
    };
    let d1 = if t != w0 { move_spec(d, id, w0, i0, t) } else { d };
    let i1 = if t != w0 { d[t].windows.len() as int } else { i0 };
    if let Some(pp) = p {
        let (tw, ti) = loc_of(d, pp);
        assert(window_at(d, tw, ti));
    }
    if t != w0 {
        lemma_move_keeps_wf(d, id, w0, i0, t, u64::MAX);
    }
    assert(window_at(d1, t, i1) && wid(d1, t, i1) == id);
    let nd = refresh_spec(d, active, output, area, id, parent, hints).0;
    assert(nd[t].windows[i1].id == id);
    assert(window_at(nd, t, i1) && wid(nd, t, i1) == id);
}

} // verus!
