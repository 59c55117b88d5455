use villain::config::{InputConfig, Keybinds, RuntimeConfig};
use villain::environment::EnvironmentMap;
use villain::focus::{
    pointer_window_target, FocusContext, FocusRestore, LayerFocus, PointerFocus, PointerHit, PointerProbe,
    PointerRefresh, PointerTarget,
};
use villain::layout::{constrain_geometry, fixed_size, Point, Rect, Size};
use villain::state::Villain;
use villain::workspaces::{FocusTarget, FullscreenOutcome, WindowHints, WindowId};

fn config() -> RuntimeConfig {
    RuntimeConfig {
        input: InputConfig::default(),
        keybinds: Keybinds::Defaults { modkey: "Super".to_string() },
        environment: EnvironmentMap::new(),
        path: "/home/user/.config/villain/config.toml".to_string(),
    }
}

fn state() -> Villain {
    Villain::new(config(), "wayland-1".to_string())
}

fn size(w: i32, h: i32) -> Size {
    Size { w, h }
}

fn rect(x: i32, y: i32, w: i32, h: i32) -> Rect {
    Rect { loc: Point { x, y }, size: Size { w, h } }
}

fn plain() -> WindowHints {
    WindowHints { min: size(0, 0), max: size(0, 0), natural: size(0, 0), dialog: false }
}

fn dialog(w: i32, h: i32) -> WindowHints {
    WindowHints { min: size(0, 0), max: size(0, 0), natural: size(w, h), dialog: true }
}

fn add(s: &mut Villain) -> WindowId {
    s.add_window(None, None, plain()).id
}

fn ctx(focus: FocusTarget) -> FocusContext {
    FocusContext { focus, keyboard_grabbed: false, keys_held: false }
}

#[test]
fn window_ids_are_monotonic_and_never_reused() {
    let mut s = state();
    let a = add(&mut s);
    let b = add(&mut s);
    assert_eq!(a, WindowId(1));
    assert_eq!(b, WindowId(2));
    assert!(s.remove_window(a));
    assert!(!s.remove_window(a));
    let c = add(&mut s);
    assert_eq!(c, WindowId(3));
    assert_eq!(s.next_window_id, 4);
    assert_eq!(s.workspace_for_window(a), None);
    assert_eq!(s.workspace_for_window(c), Some(0));
}

#[test]
fn new_windows_tile_on_the_active_workspace() {
    let mut s = state();
    let a = add(&mut s);
    let outcome = s.add_window(None, None, plain());
    assert!(outcome.activate);
    assert_eq!(outcome.workspace, 0);
    let layout = s.workspace_layout(0);
    assert_eq!(layout.len(), 2);
    assert_eq!(layout[0].id, a);
    assert_eq!(layout[0].rect, rect(0, 0, 400, 600));
    assert_eq!(layout[1].id, outcome.id);
    assert_eq!(layout[1].rect, rect(400, 0, 400, 600));
    assert!(layout.iter().all(|p| p.visible && p.tiled && !p.fullscreen));
}

#[test]
fn a_dialog_floats_centred_above_the_tiles() {
    let mut s = state();
    let a = add(&mut s);
    let d = s.add_window(None, None, dialog(200, 100)).id;
    let layout = s.workspace_layout(0);
    assert_eq!(layout.len(), 2);
    assert_eq!(layout[0].id, a);
    assert_eq!(layout[0].rect, rect(0, 0, 800, 600));
    assert_eq!(layout[1].id, d);
    assert!(!layout[1].tiled);
    assert_eq!(layout[1].rect, rect(300, 250, 200, 100));
    assert_eq!(s.floating_geometry(d), Some(rect(300, 250, 200, 100)));
    assert_eq!(s.floating_geometry(a), None);
}

#[test]
fn launched_applications_open_where_they_were_launched() {
    let mut s = state();
    assert!(s.switch_workspace(3, None));
    s.record_child(42);
    assert!(s.switch_workspace(0, None));
    let outcome = s.add_window(Some(42), None, plain());
    assert_eq!(outcome.workspace, 3);
    assert!(!outcome.activate);
    assert_eq!(s.workspace_for_pid(Some(42)), 3);
    assert_eq!(s.workspace_for_pid(Some(7)), 0);
    s.forget_child(42);
    assert_eq!(s.workspace_for_pid(Some(42)), 0);
}

#[test]
fn restoring_a_minimized_window_gives_back_the_layout() {
    let mut s = state();
    let a = add(&mut s);
    let b = add(&mut s);
    let before = s.workspace_layout(0);
    let change = s.minimize_focused_window(Some(b)).unwrap();
    assert_eq!(change.window, b);
    assert!(change.changed && change.relayout);
    let during = s.workspace_layout(0);
    assert_eq!(during[0].rect, rect(0, 0, 800, 600));
    assert!(!during.iter().find(|p| p.id == b).unwrap().visible);
    assert!(!s.window_is_visible(0, b));
    assert_eq!(s.restore_window(b), (true, true));
    assert_eq!(s.workspace_layout(0), before);
    assert!(s.window_is_visible(0, a) && s.window_is_visible(0, b));
    assert_eq!(s.restore_window(WindowId(99)), (false, false));
}

#[test]
fn restore_last_minimized_takes_the_latest_first() {
    let mut s = state();
    let a = add(&mut s);
    let b = add(&mut s);
    assert_eq!(s.minimize_window(a), Some(0));
    assert_eq!(s.minimize_window(b), Some(0));
    assert_eq!(s.minimize_window(b), None);
    assert!(s.restore_last_minimized_window());
    assert!(s.window_is_visible(0, b));
    assert!(!s.window_is_visible(0, a));
    assert!(s.restore_last_minimized_window());
    assert!(s.window_is_visible(0, a));
    assert!(!s.restore_last_minimized_window());
}

#[test]
fn only_a_focused_window_of_the_active_workspace_is_closed() {
    let mut s = state();
    let a = add(&mut s);
    assert_eq!(s.close_focused_window(Some(a)), Some(a));
    assert_eq!(s.close_focused_window(None), None);
    assert!(s.switch_workspace(1, Some(a)));
    assert_eq!(s.close_focused_window(Some(a)), None);
    assert_eq!(s.focused_window(Some(a)), None);
}

#[test]
fn returning_to_a_workspace_focuses_its_last_focused_window() {
    let mut s = state();
    let a = add(&mut s);
    let b = add(&mut s);
    s.remember_focused_window(a);
    assert_eq!(s.last_visible_window(0), Some(a));
    assert!(s.switch_workspace(1, Some(a)));
    assert_eq!(s.active_workspace, 1);
    assert_eq!(s.last_visible_window(1), None);
    assert!(s.switch_workspace(0, None));
    assert_eq!(s.last_visible_window(0), Some(a));
    s.remember_focused_window(b);
    assert_eq!(s.last_visible_window(0), Some(b));
    assert!(!s.switch_workspace(10, None));
    assert_eq!(s.active_workspace, 0);
}

#[test]
fn fullscreen_covers_the_output_and_hides_other_tiles() {
    let mut s = state();
    let a = add(&mut s);
    let b = add(&mut s);
    assert_eq!(s.set_window_fullscreen(b, true), FullscreenOutcome::RelayoutActive);
    assert!(s.workspace_has_fullscreen(0));
    let layout = s.workspace_layout(0);
    let full = layout.iter().find(|p| p.id == b).unwrap();
    assert!(full.fullscreen && full.visible);
    assert_eq!(full.rect, rect(0, 0, 800, 600));
    assert_eq!(layout.last().unwrap().id, b);
    assert!(!layout.iter().find(|p| p.id == a).unwrap().visible);
    assert_eq!(s.set_window_fullscreen(b, true), FullscreenOutcome::RepeatConfigure);
    assert_eq!(s.set_window_fullscreen(b, false), FullscreenOutcome::RelayoutActive);
    assert!(!s.workspace_has_fullscreen(0));
    assert_eq!(s.set_window_fullscreen(WindowId(77), true), FullscreenOutcome::Ignored);
}

#[test]
fn each_window_is_placed_exactly_once() {
    let mut s = state();
    let a = add(&mut s);
    let d = s.add_window(None, None, dialog(100, 100)).id;
    let b = add(&mut s);
    s.set_window_fullscreen(b, true);
    let layout = s.workspace_layout(0);
    assert_eq!(layout.len(), 3);
    for id in [a, b, d] {
        assert_eq!(layout.iter().filter(|p| p.id == id).count(), 1);
    }
    assert_eq!(layout[0].id, a);
    assert_eq!(layout[1].id, b);
    assert_eq!(layout[2].id, d);
}

#[test]
fn floating_geometry_is_fitted_to_the_output() {
    let mut s = state();
    let d = s.add_window(None, None, dialog(200, 100)).id;
    assert_eq!(s.set_floating_geometry(d, rect(700, 550, 200, 100)), Some(rect(600, 500, 200, 100)));
    assert_eq!(s.floating_geometry(d), Some(rect(600, 500, 200, 100)));
    let a = add(&mut s);
    assert_eq!(s.set_floating_geometry(a, rect(0, 0, 10, 10)), None);
}

#[test]
fn fitting_a_fitted_rectangle_changes_nothing() {
    let output = size(800, 600);
    let min = size(50, 40);
    let max = size(300, 0);
    let once = constrain_geometry(rect(-20, 590, 1000, 10), output, min, max);
    assert_eq!(once, rect(0, 560, 300, 40));
    assert_eq!(constrain_geometry(once, output, min, max), once);
    assert!(fixed_size(size(10, 20), size(10, 20)));
    assert!(!fixed_size(size(0, 20), size(0, 20)));
    assert!(!fixed_size(size(10, 20), size(10, 30)));
}

#[test]
fn focusing_a_window_switches_to_its_workspace() {
    let mut s = state();
    let a = add(&mut s);
    assert!(s.switch_workspace(4, Some(a)));
    let outcome = s.focus_window(a, None, true);
    assert_eq!(outcome.result, Some(true));
    assert!(outcome.switched && outcome.focus);
    assert_eq!(s.active_workspace, 0);
    assert_eq!(s.focus_window(WindowId(50), None, true).result, None);
    s.minimize_window(a);
    assert_eq!(s.focus_window(a, None, true).result, Some(false));
}

#[test]
fn focus_restore_waits_for_shortcut_keys() {
    let mut s = state();
    let a = add(&mut s);
    let held = FocusContext { focus: FocusTarget::Nothing, keyboard_grabbed: false, keys_held: true };
    assert_eq!(s.restore_active_workspace_focus(held), FocusRestore::Deferred);
    assert!(s.pending_focus_restore);
    assert_eq!(s.flush_pending_focus(held), FocusRestore::Unchanged);
    assert_eq!(s.flush_pending_focus(ctx(FocusTarget::Nothing)), FocusRestore::Focus(a));
    assert_eq!(s.restore_active_workspace_focus(ctx(FocusTarget::Window(a))), FocusRestore::Unchanged);
    assert!(s.remove_window(a));
    assert_eq!(s.restore_active_workspace_focus(ctx(FocusTarget::Other)), FocusRestore::Clear);
}

#[test]
fn focus_follows_the_pointer() {
    let mut s = state();
    let a = add(&mut s);
    let b = add(&mut s);
    s.remember_focused_window(b);
    let over_a = PointerProbe {
        exclusive_layer: false,
        layer_above: false,
        window_under: true,
        layer_below: true,
        window_target: Some(FocusTarget::Window(a)),
    };
    assert_eq!(
        s.focus_window_at_pointer(over_a),
        PointerFocus::Keyboard(Some(FocusTarget::Window(a)))
    );
    assert_eq!(s.last_visible_window(0), Some(a));
    let exclusive = PointerProbe { exclusive_layer: true, ..over_a };
    assert_eq!(s.focus_window_at_pointer(exclusive), PointerFocus::Layer(LayerFocus::Exclusive));
    let over_panel = PointerProbe { layer_above: true, ..over_a };
    assert_eq!(s.focus_layer_at_pointer(over_panel), Some(LayerFocus::Above));
    let background = PointerProbe { window_under: false, window_target: None, ..over_a };
    assert_eq!(s.focus_layer_at_pointer(background), Some(LayerFocus::Below));
    s.host_focused = false;
    assert_eq!(s.focus_window_at_pointer(over_a), PointerFocus::Keyboard(None));
}

#[test]
fn relayout_ends_grabs_on_hidden_surfaces() {
    let mut s = state();
    let a = add(&mut s);
    let b = add(&mut s);
    s.minimize_window(b);
    let r = s.relayout_active_workspace(Some(PointerTarget::Window(b)), ctx(FocusTarget::Window(a)));
    assert!(r.release_buttons);
    assert_eq!(r.placements.len(), 2);
    assert_eq!(r.focus, FocusRestore::Unchanged);
    let r = s.relayout_active_workspace(Some(PointerTarget::Window(a)), ctx(FocusTarget::Nothing));
    assert!(!r.release_buttons);
    assert_eq!(r.focus, FocusRestore::Focus(a));
    let r = s.relayout_active_workspace(Some(PointerTarget::Layer { visible: false }), ctx(FocusTarget::Window(a)));
    assert!(r.release_buttons);
    let r = s.relayout_active_workspace(None, ctx(FocusTarget::Window(a)));
    assert!(!r.release_buttons);
}

#[test]
fn a_preview_draws_the_shown_windows() {
    let mut s = state();
    let a = add(&mut s);
    let b = add(&mut s);
    s.minimize_window(b);
    let scene = s.workspace_preview_scene(0).unwrap();
    assert_eq!(scene.output_size, size(800, 600));
    assert_eq!(scene.windows, vec![(a, rect(0, 0, 800, 600))]);
    assert!(s.workspace_preview_scene(1).unwrap().windows.is_empty());
    assert!(s.workspace_preview_scene(10).is_none());
}

#[test]
fn applying_the_same_hints_again_changes_nothing() {
    let mut s = state();
    let parent = add(&mut s);
    assert!(s.switch_workspace(2, None));
    let child = s.add_window(None, Some(parent), plain());
    assert_eq!(child.workspace, 0);
    assert!(child.refresh.relayout_active);
    assert_eq!(child.refresh.configure_workspace, Some(0));
    assert_eq!(s.workspace_for_window(child.id), Some(0));
    assert_eq!(s.floating_geometry(child.id), Some(rect(0, 100, 600, 400)));
    let again = s.refresh_window_hints(child.id, Some(parent), plain());
    assert!(!again.relayout_active);
    assert_eq!(again.configure_workspace, None);
    let d = s.add_window(None, None, dialog(200, 100)).id;
    let again = s.refresh_window_hints(d, None, dialog(200, 100));
    assert!(!again.relayout_active);
    assert_eq!(again.configure_workspace, None);
    assert_eq!(s.floating_geometry(d), Some(rect(300, 250, 200, 100)));
}

fn mapped(s: &Villain, id: WindowId) -> bool {
    s.workspace_for_window(id) == Some(s.active_workspace) && s.window_is_visible(s.active_workspace, id)
}

fn rect_of(s: &Villain, id: WindowId) -> Rect {
    let w = s.workspace_for_window(id).unwrap();
    s.workspace_layout(w).into_iter().find(|p| p.id == id).unwrap().rect
}

#[test]
fn floating_and_fullscreen_policy() {
    let mut s = state();
    let primary = add(&mut s);
    let other = add(&mut s);
    assert_eq!(s.last_visible_window(0), Some(other));
    s.switch_workspace(1, Some(other));
    s.switch_workspace(0, None);
    assert_eq!(s.last_visible_window(0), Some(other));
    assert_eq!(rect_of(&s, primary), rect(0, 0, 400, 600));

    let dialog = s.add_window(None, Some(primary), plain()).id;
    let fixed_hints = WindowHints { min: size(240, 180), max: size(240, 180), natural: size(0, 0), dialog: false };
    let fixed = s.add_window(None, None, fixed_hints).id;
    assert!(s.floating_geometry(dialog).is_some());
    assert_eq!(rect_of(&s, fixed).size, size(240, 180));
    assert!(mapped(&s, primary) && mapped(&s, other) && mapped(&s, dialog) && mapped(&s, fixed));
    let dialog_rect = rect_of(&s, dialog);

    assert_eq!(s.set_window_fullscreen(primary, true), FullscreenOutcome::RelayoutActive);
    assert_eq!(s.set_window_fullscreen(primary, true), FullscreenOutcome::RepeatConfigure);
    assert_eq!(rect_of(&s, primary), rect(0, 0, 800, 600));
    assert!(mapped(&s, primary) && mapped(&s, dialog));
    assert!(!mapped(&s, other) && !mapped(&s, fixed));
    assert_eq!(s.workspace_info()[0].visible_window_count, 2);

    // A floating window takes fullscreen over, and is hidden with its parent.
    assert_eq!(s.set_window_fullscreen(dialog, true), FullscreenOutcome::RelayoutActive);
    assert_eq!(s.minimize_window(primary), Some(0));
    assert!(mapped(&s, other));
    assert!(!mapped(&s, dialog));
    assert_eq!(s.focus_window(dialog, None, true).result, Some(false));
    assert!(s.restore_last_minimized_window());
    assert!(mapped(&s, dialog));

    // Leaving fullscreen gives the floating window its old rectangle back.
    assert_eq!(s.set_window_fullscreen(dialog, false), FullscreenOutcome::RelayoutActive);
    assert_eq!(rect_of(&s, dialog), dialog_rect);
    assert_eq!(rect_of(&s, primary), rect(0, 0, 400, 600));
    assert!(mapped(&s, other) && mapped(&s, fixed));

    // Relaxed size hints return a standalone window to tiling.
    s.refresh_window_hints(fixed, None, plain());
    assert!(s.floating_geometry(fixed).is_none());
    assert_eq!(s.workspace_layout(0).iter().filter(|p| p.tiled).count(), 3);

    // Fullscreen on an inactive workspace configures it without switching.
    s.switch_workspace(4, None);
    assert_eq!(s.set_window_fullscreen(other, true), FullscreenOutcome::ConfigureWorkspace(0));
    assert_eq!(s.active_workspace, 4);
    assert!(s.workspace_has_fullscreen(0));
    assert!(!mapped(&s, other));
    s.switch_workspace(0, None);
    assert!(mapped(&s, other) && !mapped(&s, primary));
    assert_eq!(s.focus_window(other, None, true).result, Some(true));
    assert!(s.minimize_focused_window(Some(other)).is_some());
    assert!(mapped(&s, primary));
    assert!(s.restore_last_minimized_window());
    assert!(mapped(&s, other) && !mapped(&s, primary));
    // Focusing a window that fullscreen hides takes the fullscreen away.
    let outcome = s.focus_window(primary, Some(other), true);
    assert!(outcome.relayout && outcome.focus);
    assert!(mapped(&s, primary));
    assert!(!s.workspace_has_fullscreen(0));
    s.switch_workspace(4, Some(primary));
    s.switch_workspace(0, None);
    assert_eq!(s.last_visible_window(0), Some(primary));

    // A parent named while another workspace is shown pulls the dialog over.
    s.switch_workspace(4, Some(primary));
    let late = s.add_window(None, Some(primary), plain());
    assert_eq!(late.workspace, 0);
    assert!(!late.activate);
    assert!(s.floating_geometry(late.id).is_some());
    assert!(!mapped(&s, late.id));

    assert_eq!(s.set_window_fullscreen(primary, true), FullscreenOutcome::ConfigureWorkspace(0));
    assert!(s.remove_window(primary));
    s.switch_workspace(0, None);
    assert!(mapped(&s, other));
    assert!(!s.workspace_has_fullscreen(0));
}

#[test]
fn only_the_latest_cursor_timer_asks_for_a_frame() {
    let mut s = state();
    s.repaint_needed = false;
    let first = s.schedule_cursor_frame();
    let second = s.schedule_cursor_frame();
    assert_eq!((first, second), (1, 2));
    s.cursor_timer_fired(first);
    assert!(!s.repaint_needed);
    s.cursor_timer_fired(second);
    assert!(s.repaint_needed);
    s.cursor_timer_generation = u64::MAX;
    assert_eq!(s.schedule_cursor_frame(), 0);
}

#[test]
fn pointer_motion_moves_keyboard_focus_only_when_allowed() {
    let mut s = state();
    let a = add(&mut s);
    let b = add(&mut s);
    let panel = PointerProbe {
        exclusive_layer: false,
        layer_above: true,
        window_under: true,
        layer_below: false,
        window_target: Some(FocusTarget::Window(a)),
    };
    s.repaint_needed = false;
    assert_eq!(s.refresh_pointer(panel, true, false), PointerRefresh::FocusLayer(LayerFocus::Above));
    assert!(s.repaint_needed);
    assert_eq!(s.refresh_pointer(panel, true, true), PointerRefresh::Nothing);
    let window = PointerProbe { layer_above: false, ..panel };
    assert_eq!(s.refresh_pointer(window, true, false), PointerRefresh::Nothing);
    assert_eq!(s.refresh_pointer_and_focus(window, true), None);
    assert_eq!(s.last_visible_window(0), Some(b));
    assert_eq!(
        s.refresh_pointer_and_focus(window, false),
        Some(PointerFocus::Keyboard(Some(FocusTarget::Window(a))))
    );
    assert_eq!(s.last_visible_window(0), Some(a));
    s.host_focused = false;
    assert_eq!(s.refresh_pointer(window, true, false), PointerRefresh::ClearKeyboard);
    assert_eq!(s.refresh_pointer(window, false, false), PointerRefresh::Nothing);
}

#[test]
fn focusing_a_window_records_it_as_most_recent() {
    let mut s = state();
    let a = add(&mut s);
    let b = add(&mut s);
    assert_eq!(s.last_visible_window(0), Some(b));
    let outcome = s.focus_window(a, Some(b), true);
    assert_eq!(outcome.result, Some(true));
    assert_eq!(s.last_visible_window(0), Some(a));
    let outcome = s.focus_window(b, Some(a), false);
    assert_eq!(outcome.result, Some(false));
    assert_eq!(s.last_visible_window(0), Some(a));
}

#[test]
fn menus_keep_the_focus_of_their_application() {
    let w = |n| Some(FocusTarget::Window(WindowId(n)));
    assert_eq!(pointer_window_target(true, Some(PointerHit::Window(w(1))), w(2), true), w(1));
    assert_eq!(pointer_window_target(true, Some(PointerHit::Window(None)), w(2), true), None);
    assert_eq!(pointer_window_target(true, Some(PointerHit::OverrideRedirect { parent: w(3) }), w(2), true), w(3));
    assert_eq!(pointer_window_target(true, Some(PointerHit::OverrideRedirect { parent: None }), w(2), true), w(2));
    assert_eq!(pointer_window_target(true, Some(PointerHit::OverrideRedirect { parent: None }), w(2), false), None);
    assert_eq!(pointer_window_target(true, None, w(2), true), None);
    assert_eq!(pointer_window_target(false, Some(PointerHit::Window(w(1))), None, false), None);
}
