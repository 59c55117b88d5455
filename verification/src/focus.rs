//! Keyboard-focus policy: which window gets focus, and when a change has to
//! wait for held shortcut keys to be released.
use vstd::prelude::*;

use crate::state::{has_window, lemma_loc_of, loc_of, wid, window_at, Villain, WORKSPACE_COUNT};
use crate::workspaces::{
    hidden_spec, in_workspace, last_visible_spec, layout_spec, lemma_same_ids, remember_spec,
    same_ids, same_ids_and_fullscreen, visible_in, Placement, window_visible_spec, FocusTarget, WindowId,
    WorkspaceView,
};

verus! {

/// What the keyboard looks like when a focus decision is made.
#[derive(Clone, Copy, Debug, PartialEq, Eq, Structural)]
pub struct FocusContext {
    /// What holds keyboard focus.
    pub focus: FocusTarget,
    /// Whether a keyboard grab is active.
    pub keyboard_grabbed: bool,
    /// Whether compositor shortcut keys are still held.
    pub keys_held: bool,
}

/// The outcome of focusing a managed window.
#[derive(Clone, Copy, Debug, PartialEq, Eq, Structural)]
pub enum FocusDecision {
    /// The window cannot take focus now (unknown, on another workspace,
    /// hidden, or without a keyboard surface).
    Refused,
    /// The window is activated; keyboard focus is already where it belongs.
    AlreadyFocused,
    /// The window is activated; keyboard focus moves once the held keys are
    /// released.
    Deferred,
    /// The window is activated; move keyboard focus now.
    SetFocus,
}

/// What restoring the active workspace's focus asks for.
#[derive(Clone, Copy, Debug, PartialEq, Eq, Structural)]
pub enum FocusRestore {
    /// Focus stays as it is.
    Unchanged,
    /// Wait until the held keys are released.
    Deferred,
    /// Focus this window (through `focus_managed_window`).
    Focus(WindowId),
    /// No window can take focus: clear keyboard focus.
    Clear,
}

/// What focusing a window by id did and asks for.
#[derive(Clone, Copy, Debug, PartialEq, Eq, Structural)]
pub struct FocusWindowOutcome {
    /// `None` for an unknown window, `Some(false)` for a minimized (or
    /// hidden, or surfaceless) one, `Some(true)` when it is focused.
    pub result: Option<bool>,
    /// The active workspace changed to the window's workspace.
    pub switched: bool,
    /// A fullscreen window hid it and was taken out of fullscreen: lay the
    /// workspace out again.
    pub relayout: bool,
    /// Focus the window (through `focus_managed_window`).
    pub focus: bool,
}

/// The window `id` may take focus: it is shown on the active workspace.
pub open spec fn focus_eligible(s: Villain, id: WindowId) -> bool {
    &&& has_window(s.desk(), id)
    &&& loc_of(s.desk(), id).0 == s.active_workspace
    &&& window_visible_spec(s.desk()[s.active_workspace as int], s.output_size, s.usable_area, id)
}

/// Whether the current focus may stay: an exclusive layer, or a shown
/// window of the active workspace.
pub open spec fn focus_valid(s: Villain, focus: FocusTarget) -> bool {
    match focus {
        FocusTarget::ExclusiveLayer => true,
        FocusTarget::Window(id) => window_visible_spec(
            s.desk()[s.active_workspace as int],
            s.output_size,
            s.usable_area,
            id,
        ),
        _ => false,
    }
}

/// The focus policy of the active workspace: nothing while another client
/// holds input or a keyboard grab, or (unless forced) while the current
/// focus is valid; wait while shortcut keys are held; else the window to
/// focus, or clear focus when there is none.
pub open spec fn restore_spec(s: Villain, force: bool, ctx: FocusContext) -> FocusRestore {
    if !s.host_focused || ctx.keyboard_grabbed || (!force && focus_valid(s, ctx.focus)) {
        FocusRestore::Unchanged
    } else if ctx.keys_held {
        FocusRestore::Deferred
    } else {
        match last_visible_spec(s.desk()[s.active_workspace as int], s.output_size, s.usable_area) {
            Some(id) => FocusRestore::Focus(id),
            None => if ctx.focus != FocusTarget::Nothing {
                FocusRestore::Clear
            } else {
                FocusRestore::Unchanged
            },
        }
    }
}

/// The pending-focus flag after a restore decision.
pub open spec fn pending_after(old_pending: bool, r: FocusRestore) -> bool {
    match r {
        FocusRestore::Deferred => true,
        FocusRestore::Clear => false,
        _ => old_pending,
    }
}

impl Villain {
    /// Focus the managed window `id`. `focusable` tells whether it has a
    /// keyboard surface; `on_target` whether keyboard focus already is on
    /// the surface it should go to; `keys_held` whether shortcut keys are
    /// held. A window that may take focus becomes the most recent one of
    /// its workspace's focus history.
    pub fn focus_managed_window(
        &mut self,
        id: WindowId,
        focusable: bool,
        on_target: bool,
        keys_held: bool,
    ) -> (r: FocusDecision)
        requires
            old(self).wf(),
        ensures
            final(self).wf(),
            final(self).active_workspace == old(self).active_workspace,
            final(self).same_context(&*old(self)),
            !(focus_eligible(*old(self), id) && focusable) ==> r == FocusDecision::Refused
                && final(self).desk() == old(self).desk() && final(self).pending_focus_restore
                == old(self).pending_focus_restore,
            focus_eligible(*old(self), id) && focusable ==> {
                &&& final(self).desk() == remember_spec(old(self).desk(), id)
                &&& r == if on_target {
                    FocusDecision::AlreadyFocused
                } else if keys_held {
                    FocusDecision::Deferred
                } else {
                    FocusDecision::SetFocus
                }
                &&& final(self).pending_focus_restore == if on_target {
                    old(self).pending_focus_restore
                } else {
                    keys_held
                }
            },
    {
        let index = match self.workspace_for_window(id) {
            Some(w) => w,
            None => {
                return FocusDecision::Refused;
            },
        };
        if index != self.active_workspace || !self.window_is_visible(index, id) {
            return FocusDecision::Refused;
        }
        if !focusable {
            return FocusDecision::Refused;
        }
        self.remember_focused_window(id);
        if on_target {
            FocusDecision::AlreadyFocused
        } else if keys_held {
            self.pending_focus_restore = true;
            FocusDecision::Deferred
        } else {
            self.pending_focus_restore = false;
            FocusDecision::SetFocus
        }
    }

    fn restore_focus_inner(&mut self, force: bool, ctx: FocusContext) -> (r: FocusRestore)
        requires
            old(self).wf(),
        ensures
            final(self).wf(),
            r == restore_spec(*old(self), force, ctx),
            final(self).pending_focus_restore == pending_after(old(self).pending_focus_restore, r),
            final(self).desk() == old(self).desk(),
            final(self).active_workspace == old(self).active_workspace,
            final(self).same_context(&*old(self)),
    {
        if !self.host_focused || ctx.keyboard_grabbed || (!force && self.active_focus_is_valid(
            ctx.focus,
        )) {
            return FocusRestore::Unchanged;
        }
        if ctx.keys_held {
            self.pending_focus_restore = true;
            return FocusRestore::Deferred;
        }
        match self.last_visible_window(self.active_workspace) {
            Some(id) => FocusRestore::Focus(id),
            None => {
                if ctx.focus != FocusTarget::Nothing {
                    self.pending_focus_restore = false;
                    FocusRestore::Clear
                } else {
                    FocusRestore::Unchanged
                }
            },
        }
    }

    /// Give the active workspace's focus to the window it should have,
    /// unless the current focus may stay.
    pub fn restore_active_workspace_focus(&mut self, ctx: FocusContext) -> (r: FocusRestore)
        requires
            old(self).wf(),
        ensures
            final(self).wf(),
            r == restore_spec(*old(self), false, ctx),
            final(self).pending_focus_restore == pending_after(old(self).pending_focus_restore, r),
            final(self).desk() == old(self).desk(),
            final(self).active_workspace == old(self).active_workspace,
            final(self).same_context(&*old(self)),
    {
        self.restore_focus_inner(false, ctx)
    }

    /// Apply a focus change that waited for shortcut keys, once they are
    /// released (and Villain has input and no keyboard grab is active).
    pub fn flush_pending_focus(&mut self, ctx: FocusContext) -> (r: FocusRestore)
        requires
            old(self).wf(),
        ensures
            final(self).wf(),
            final(self).desk() == old(self).desk(),
            final(self).active_workspace == old(self).active_workspace,
            final(self).same_context(&*old(self)),
            ({
                let due = old(self).pending_focus_restore && !ctx.keys_held && old(self).host_focused
                    && !ctx.keyboard_grabbed;
                &&& !due ==> r == FocusRestore::Unchanged && final(self).pending_focus_restore
                    == old(self).pending_focus_restore
                &&& due ==> r == restore_spec(*old(self), true, ctx) && final(self).pending_focus_restore
                    == pending_after(false, r)
            }),
    {
        if self.pending_focus_restore && !ctx.keys_held && self.host_focused && !ctx.keyboard_grabbed {
            self.pending_focus_restore = false;
            self.restore_focus_inner(true, ctx)
        } else {
            FocusRestore::Unchanged
        }
    }

    /// Focus the window `id` (a request of the desktop): switch to its
    /// workspace, take a fullscreen window that hides it out of fullscreen,
    /// and, when it has a keyboard surface, record it as the most recently
    /// focused window of its workspace and ask for keyboard focus to move to
    /// it. `focused` is the managed window that holds keyboard focus;
    /// `focusable` whether `id` has a keyboard surface.
    pub fn focus_window(&mut self, id: WindowId, focused: Option<WindowId>, focusable: bool) -> (r: FocusWindowOutcome)
        requires
            old(self).wf(),
        ensures
            final(self).wf(),
            final(self).same_context(&*old(self)),
            final(self).pending_focus_restore == old(self).pending_focus_restore,
            !has_window(old(self).desk(), id) ==> r == (FocusWindowOutcome {
                result: None,
                switched: false,
                relayout: false,
                focus: false,
            }) && final(self).desk() == old(self).desk() && final(self).active_workspace
                == old(self).active_workspace,
            has_window(old(self).desk(), id) ==> ({
                let d = old(self).desk();
                let (w, i) = loc_of(d, id);
                let e = d[w].windows[i];
                let hidden = e.minimized || hidden_spec(d[w].windows, e);
                let switched = w != old(self).active_workspace;
                let d1 = if switched {
                    match focused {
                        Some(f) => remember_spec(d, f),
                        None => d,
                    }
                } else {
                    d
                };
                let shown = visible_in(layout_spec(d1[w], old(self).output_size, old(self).usable_area), id);
                let d2 = if shown {
                    d1
                } else {
                    d1.update(w, WorkspaceView { fullscreen: None, ..d1[w] })
                };
                if hidden {
                    &&& r == (FocusWindowOutcome { result: Some(false), switched: false, relayout: false, focus: false })
                    &&& final(self).desk() == d
                    &&& final(self).active_workspace == old(self).active_workspace
                } else {
                    &&& r == (FocusWindowOutcome { result: Some(focusable), switched, relayout: !shown, focus: focusable })
                    &&& final(self).desk() == if focusable {
                        remember_spec(d2, id)
                    } else {
                        d2
                    }
                    &&& final(self).active_workspace == w
                }
            }),
    {
        let ghost d = old(self).desk();
        let (w, i) = match self.locate(id) {
            None => {
                return FocusWindowOutcome { result: None, switched: false, relayout: false, focus: false };
            },
            Some(p) => p,
        };
        assert(d[w as int] == self.workspaces@[w as int]@);
        let e = self.workspaces[w].windows[i];
        if e.minimized || self.workspaces[w].hidden_by_parent(&e) {
            return FocusWindowOutcome { result: Some(false), switched: false, relayout: false, focus: false };
        }
        let switched = w != self.active_workspace;
        if switched {
            self.switch_workspace(w, focused);
        }
        let ghost d1 = self.desk();
        let layout = self.workspace_layout(w);
        let mut shown = false;
        let mut j: usize = 0;
        while j < layout.len()
            invariant
                j <= layout@.len(),
                shown == exists|k: int| 0 <= k < j && #[trigger] layout@[k].id == id && layout@[k].visible,
            decreases layout@.len() - j,
        {
            if layout[j].id == id && layout[j].visible {
                assert(layout@[j as int].id == id && layout@[j as int].visible);
                shown = true;
            }
            j = j + 1;
        }
        assert(shown == visible_in(layout@, id));
        let mut relayout = false;
        if !shown {
            self.workspaces[w].fullscreen = None;
            relayout = true;
            proof {
                let nd = self.desk();
                let expected = d1.update(w as int, WorkspaceView { fullscreen: None, ..d1[w as int] });
                assert forall|v: int| 0 <= v < d1.len() implies #[trigger] nd[v] == expected[v] by {
                    assert(nd[v] == self.workspaces@[v]@);
                }
                assert(nd =~= expected);
                assert(same_ids(d1, nd));
                lemma_same_ids(d1, nd, self.next_window_id);
                assert forall|v: int| 0 <= v < nd.len() implies ((#[trigger] nd[v]).fullscreen matches Some(f)
                    ==> exists|k: int| 0 <= k < nd[v].windows.len() && #[trigger] nd[v].windows[k].id == f) by {
                    if v != w {
                        assert(nd[v] == d1[v]);
                    }
                }
            }
        }
        if focusable {
            self.remember_focused_window(id);
        }
        FocusWindowOutcome { result: Some(focusable), switched, relayout, focus: focusable }
    }
}

/// What lies under the pointer, as far as the focus policy needs to know.
#[derive(Clone, Copy, Debug, PartialEq, Eq, Structural)]
pub struct PointerProbe {
    /// A layer surface holds keyboard focus exclusively.
    pub exclusive_layer: bool,
    /// A layer surface above the windows that takes keyboard focus is under
    /// the pointer.
    pub layer_above: bool,
    /// A window is under the pointer.
    pub window_under: bool,
    /// A layer surface below the windows that takes keyboard focus is under
    /// the pointer.
    pub layer_below: bool,
    /// Where keyboard focus goes when the window under the pointer is
    /// focused (`None` when no window is under it or it takes no focus; see
    /// `pointer_window_target`).
    pub window_target: Option<FocusTarget>,
}

/// The window under the pointer, as far as keyboard focus is concerned.
#[derive(Clone, Copy, Debug, PartialEq, Eq, Structural)]
pub enum PointerHit {
    /// An ordinary window, with where its keyboard focus goes (`None` when
    /// it takes none).
    Window(Option<FocusTarget>),
    /// An X11 override-redirect window (a menu or tooltip), with where the
    /// keyboard focus of the window it belongs to goes, if it belongs to one.
    OverrideRedirect { parent: Option<FocusTarget> },
}

/// Where keyboard focus goes when the window under the pointer is focused:
/// nothing without input; for an override-redirect window, the window it
/// belongs to, else the current focus when that is a shown window (so that
/// opening a menu does not take focus from its application).
pub open spec fn pointer_target_spec(
    host_focused: bool,
    hit: Option<PointerHit>,
    current: Option<FocusTarget>,
    current_is_window: bool,
) -> Option<FocusTarget> {
    if !host_focused {
        None
    } else {
        match hit {
            None => None,
            Some(PointerHit::Window(t)) => t,
            Some(PointerHit::OverrideRedirect { parent }) => match parent {
                Some(t) => Some(t),
                None => if current_is_window {
                    current
                } else {
                    None
                },
            },
        }
    }
}

/// The keyboard target of the window under the pointer (see
/// `pointer_target_spec`). `current` is what holds keyboard focus and
/// `current_is_window` whether that is the surface of a shown window.
pub fn pointer_window_target(
    host_focused: bool,
    hit: Option<PointerHit>,
    current: Option<FocusTarget>,
    current_is_window: bool,
) -> (r: Option<FocusTarget>)
    ensures
        r == pointer_target_spec(host_focused, hit, current, current_is_window),
{
    if !host_focused {
        return None;
    }
    match hit {
        None => None,
        Some(PointerHit::Window(t)) => t,
        Some(PointerHit::OverrideRedirect { parent }) => match parent {
            Some(t) => Some(t),
            None => if current_is_window {
                current
            } else {
                None
            },
        },
    }
}

/// The layer surface that pointer focus gives keyboard focus to.
#[derive(Clone, Copy, Debug, PartialEq, Eq, Structural)]
pub enum LayerFocus {
    /// The layer that holds keyboard focus exclusively.
    Exclusive,
    /// The layer above the windows under the pointer.
    Above,
    /// The layer below the windows under the pointer, where no window is.
    Below,
}

/// What focus follows the pointer to.
#[derive(Clone, Copy, Debug, PartialEq, Eq, Structural)]
pub enum PointerFocus {
    /// A layer surface takes keyboard focus.
    Layer(LayerFocus),
    /// Keyboard focus goes to this target (`None` clears it).
    Keyboard(Option<FocusTarget>),
}

/// The layer to focus at the pointer: an exclusive layer always; while
/// Villain has input, a focusable layer above the windows, else one below
/// them where no window is under the pointer.
pub open spec fn layer_focus_spec(host_focused: bool, p: PointerProbe) -> Option<LayerFocus> {
    if p.exclusive_layer {
        Some(LayerFocus::Exclusive)
    } else if host_focused && p.layer_above {
        Some(LayerFocus::Above)
    } else if host_focused && !p.window_under && p.layer_below {
        Some(LayerFocus::Below)
    } else {
        None
    }
}

/// Focus follows the pointer: a layer when `layer_focus_spec` names one,
/// else the window under the pointer while Villain has input, else nothing.
pub open spec fn pointer_focus_spec(host_focused: bool, p: PointerProbe) -> PointerFocus {
    match layer_focus_spec(host_focused, p) {
        Some(l) => PointerFocus::Layer(l),
        None => PointerFocus::Keyboard(
            if host_focused {
                p.window_target
            } else {
                None
            },
        ),
    }
}

impl Villain {
    /// The layer surface to focus at the pointer, if any.
    pub fn focus_layer_at_pointer(&self, probe: PointerProbe) -> (r: Option<LayerFocus>)
        ensures
            r == layer_focus_spec(self.host_focused, probe),
    {
        if probe.exclusive_layer {
            Some(LayerFocus::Exclusive)
        } else if self.host_focused && probe.layer_above {
            Some(LayerFocus::Above)
        } else if self.host_focused && !probe.window_under && probe.layer_below {
            Some(LayerFocus::Below)
        } else {
            None
        }
    }

    /// Move focus to what is under the pointer. A managed window that gets
    /// keyboard focus this way becomes the most recent one of its
    /// workspace's focus history.
    pub fn focus_window_at_pointer(&mut self, probe: PointerProbe) -> (r: PointerFocus)
        requires
            old(self).wf(),
        ensures
            final(self).wf(),
            r == pointer_focus_spec(old(self).host_focused, probe),
            final(self).desk() == match r {
                PointerFocus::Keyboard(Some(FocusTarget::Window(id))) => remember_spec(old(self).desk(), id),
                _ => old(self).desk(),
            },
            final(self).active_workspace == old(self).active_workspace,
            final(self).pending_focus_restore == old(self).pending_focus_restore,
            final(self).same_context(&*old(self)),
    {
        if let Some(layer) = self.focus_layer_at_pointer(probe) {
            return PointerFocus::Layer(layer);
        }
        let target = if self.host_focused {
            probe.window_target
        } else {
            None
        };
        if let Some(FocusTarget::Window(id)) = target {
            self.remember_focused_window(id);
        }
        PointerFocus::Keyboard(target)
    }
}

/// What moving the pointer asks of the keyboard.
#[derive(Clone, Copy, Debug, PartialEq, Eq, Structural)]
pub enum PointerRefresh {
    /// Villain lost input: take keyboard focus away.
    ClearKeyboard,
    /// Give keyboard focus to this layer surface.
    FocusLayer(LayerFocus),
    /// Keyboard focus stays.
    Nothing,
}

impl Villain {
    /// The pointer moved (or what is under it changed): draw a frame, and
    /// while Villain has input and no button grab holds the pointer, let a
    /// layer surface under it take keyboard focus; without input, keyboard
    /// focus goes away. `keyboard_focused` tells whether anything holds
    /// keyboard focus.
    pub fn refresh_pointer(&mut self, probe: PointerProbe, keyboard_focused: bool, pointer_grabbed: bool) -> (r: PointerRefresh)
        requires
            old(self).wf(),
        ensures
            final(self).wf(),
            final(self).repaint_needed,
            r == if !old(self).host_focused {
                if keyboard_focused {
                    PointerRefresh::ClearKeyboard
                } else {
                    PointerRefresh::Nothing
                }
            } else if pointer_grabbed {
                PointerRefresh::Nothing
            } else {
                match layer_focus_spec(true, probe) {
                    Some(l) => PointerRefresh::FocusLayer(l),
                    None => PointerRefresh::Nothing,
                }
            },
            final(self).desk() == old(self).desk(),
            final(self).active_workspace == old(self).active_workspace,
            final(self).pending_focus_restore == old(self).pending_focus_restore,
            final(self).same_setup(&*old(self)),
    {
        self.repaint_needed = true;
        if !self.host_focused {
            if keyboard_focused {
                PointerRefresh::ClearKeyboard
            } else {
                PointerRefresh::Nothing
            }
        } else if pointer_grabbed {
            PointerRefresh::Nothing
        } else {
            match self.focus_layer_at_pointer(probe) {
                Some(l) => PointerRefresh::FocusLayer(l),
                None => PointerRefresh::Nothing,
            }
        }
    }

    /// The pointer moved and focus follows it: draw a frame and, unless a
    /// button grab holds the pointer, move focus to what is under it (see
    /// `focus_window_at_pointer`).
    pub fn refresh_pointer_and_focus(&mut self, probe: PointerProbe, pointer_grabbed: bool) -> (r: Option<PointerFocus>)
        requires
            old(self).wf(),
        ensures
            final(self).wf(),
            final(self).repaint_needed,
            pointer_grabbed ==> r is None && final(self).desk() == old(self).desk(),
            !pointer_grabbed ==> r == Some(pointer_focus_spec(old(self).host_focused, probe))
                && final(self).desk() == match pointer_focus_spec(old(self).host_focused, probe) {
                PointerFocus::Keyboard(Some(FocusTarget::Window(id))) => remember_spec(old(self).desk(), id),
                _ => old(self).desk(),
            },
            final(self).active_workspace == old(self).active_workspace,
            final(self).pending_focus_restore == old(self).pending_focus_restore,
            final(self).same_setup(&*old(self)),
    {
        let r = if pointer_grabbed {
            None
        } else {
            Some(self.focus_window_at_pointer(probe))
        };
        self.repaint_needed = true;
        r
    }
}

/// The surface that the pointer is on (or that its button grab started on),
/// as far as a relayout needs to know.
#[derive(Clone, Copy, Debug, PartialEq, Eq, Structural)]
pub enum PointerTarget {
    /// A layer surface, shown or not.
    Layer { visible: bool },
    /// A surface of the managed window `0`.
    Window(WindowId),
    /// A surface of an unmanaged X11 window, mapped or not.
    Unmanaged { mapped: bool },
}

/// A held button grab must end when its surface is no longer shown: a
/// hidden layer, a managed window that the active layout does not show, or
/// an unmapped X11 window.
pub open spec fn release_spec(pointer: Option<PointerTarget>, layout: Seq<Placement>) -> bool {
    match pointer {
        None => false,
        Some(PointerTarget::Layer { visible }) => !visible,
        Some(PointerTarget::Window(id)) => !visible_in(layout, id),
        Some(PointerTarget::Unmanaged { mapped }) => !mapped,
    }
}

/// What laying out the active workspace asks for.
pub struct Relayout {
    /// The placements of the active workspace; the shown ones are mapped.
    pub placements: Vec<Placement>,
    /// End the pointer's button grab.
    pub release_buttons: bool,
    /// The focus decision that follows.
    pub focus: FocusRestore,
}

impl Villain {
    /// Lay out the active workspace: its placements, whether the pointer's
    /// button grab has to end because its surface is no longer shown, and
    /// then the focus decision for the active workspace.
    pub fn relayout_active_workspace(&mut self, pointer: Option<PointerTarget>, ctx: FocusContext) -> (r: Relayout)
        requires
            old(self).wf(),
        ensures
            final(self).wf(),
            ({
                let layout = layout_spec(
                    old(self).desk()[old(self).active_workspace as int],
                    old(self).output_size,
                    old(self).usable_area,
                );
                &&& r.placements@ == layout
                &&& r.release_buttons == release_spec(pointer, layout)
            }),
            r.focus == restore_spec(*old(self), false, ctx),
            final(self).pending_focus_restore == pending_after(old(self).pending_focus_restore, r.focus),
            final(self).desk() == old(self).desk(),
            final(self).active_workspace == old(self).active_workspace,
            final(self).same_context(&*old(self)),
    {
        let placements = self.workspace_layout(self.active_workspace);
        let release_buttons = match pointer {
            None => false,
            Some(PointerTarget::Layer { visible }) => !visible,
            Some(PointerTarget::Window(id)) => !shown_in(&placements, id),
            Some(PointerTarget::Unmanaged { mapped }) => !mapped,
        };
        let focus = self.restore_active_workspace_focus(ctx);
        Relayout { placements, release_buttons, focus }
    }
}

/// Whether some placement of `layout` shows the window `id`.
fn shown_in(layout: &Vec<Placement>, id: WindowId) -> (b: bool)
    ensures
        b == visible_in(layout@, id),
{
    let mut i: usize = 0;
    while i < layout.len()
        invariant
            i <= layout@.len(),
            forall|j: int| 0 <= j < i ==> !(#[trigger] layout@[j].id == id && layout@[j].visible),
        decreases layout@.len() - i,
    {
        if layout[i].id == id && layout[i].visible {
            return true;
        }
        i = i + 1;
    }
    false
}

} // verus!
