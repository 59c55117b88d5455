//! Properties of the window-management policy that span several operations.
use vstd::prelude::*;
use vstd::seq_lib::lemma_multiset_commutative;

use crate::dispatch::{next_workspace, previous_workspace};
use crate::environment::{
    env_after, export_prefix, first_error, is_ascii_alpha, line_error_message,
    parse_environment_spec, parse_line_spec, strip_export, strip_quotes_spec, valid_key_spec,
    LineOutcome,
};
use crate::layout::{
    constrain_spec, lemma_tdiv_bounds, lemma_tile_bounds, master_stack_spec, max_int, min_int, tdiv, Rect,
    Size,
};
use crate::session::{
    colon_fields, default_data_dirs, display_name, key_data_dirs, key_display, key_wayland_display,
    key_wayland_socket, prepared_env,
};
use crate::state::{
    counts_ok, fullscreen_ok, ids_below, next_generation, has_window, ids_unique, lemma_loc_of, loc_of, wid, window_at, Villain, WORKSPACE_COUNT,
};
use crate::text::{
    index_of, is_whitespace_spec, lemma_index_of, lines_spec, trim_end_spec, trim_spec,
    trim_start_spec,
};
use crate::workspaces::{
    descendant_spec, hidden_spec, parent_of_id, reaches, effective_fullscreen,
    geometry_ok, lemma_filter_keeps, lemma_tiled_before_mono, tiled_before, ManagedWindow,
    has_room, initial_geometry, lemma_move_keeps_wf, managed_parent, move_spec, output_rect, rect_of, refresh_spec, RefreshOutcome, WindowHints,
    bump, first_with_id, last_visible_spec, layout_spec, lemma_first_with_id, lemma_same_ids,
    minimize_spec, place_spec, placements_unsorted, remember_spec, restore_last_spec, restore_spec,
    same_ids, set_minimized, stacking_rank, window_visible_spec, Placement, WindowId, WorkspaceView,
};

verus! {

/// Window ids are not reused: the id that the next window gets is held by
/// no managed window.
pub proof fn law_next_window_id_is_fresh(s: Villain)
    requires
        s.wf(),
    ensures
        !has_window(s.desk(), WindowId(s.next_window_id)),
{
    if has_window(s.desk(), WindowId(s.next_window_id)) {
        let (w, i) = choose|w: int, i: int|
            window_at(s.desk(), w, i) && #[trigger] wid(s.desk(), w, i) == WindowId(s.next_window_id);
        assert(wid(s.desk(), w, i).0 < s.next_window_id);
    }
}

/// Minimizing a shown window and then restoring it gives back the same
/// windows on every workspace.
pub proof fn law_restore_undoes_minimize(d: Seq<WorkspaceView>, id: WindowId)
    requires
        ids_unique(d),
        has_window(d, id),
        !d[loc_of(d, id).0].windows[loc_of(d, id).1].minimized,
    ensures
        ({
            let (d2, found, changed) = restore_spec(minimize_spec(d, id).0, id);
            &&& found && changed
            &&& d2.len() == d.len()
            &&& forall|w: int| 0 <= w < d.len() ==> (#[trigger] d2[w]).windows == d[w].windows
        }),
{
    let (w, i) = loc_of(d, id);
    assert(window_at(d, w, i) && wid(d, w, i) == id);
    let d1 = minimize_spec(d, id).0;
    assert(same_ids(d, d1)) by {
        assert forall|v: int, j: int| window_at(d, v, j) implies #[trigger] wid(d, v, j) == wid(d1, v, j) by {
            if v == w {
                assert(d1[v].windows == set_minimized(d[v], i, true).windows);
            }
        }
    }
    lemma_same_ids(d, d1, 0);
    lemma_loc_of(d1, id, w, i);
    let d2 = restore_spec(d1, id).0;
    assert forall|v: int| 0 <= v < d.len() implies (#[trigger] d2[v]).windows == d[v].windows by {
        if v == w {
            assert(d2[v].windows =~= d[v].windows);
        }
    }
}

/// Restoring the last minimized window of a workspace right after a window
/// of it was minimized restores that very window.
pub proof fn law_restore_last_restores_latest(d: Seq<WorkspaceView>, id: WindowId)
    requires
        ids_unique(d),
        has_window(d, id),
        !d[loc_of(d, id).0].windows[loc_of(d, id).1].minimized,
    ensures
        ({
            let w = loc_of(d, id).0;
            let (after, restored) = restore_last_spec(minimize_spec(d, id).0[w]);
            &&& restored
            &&& after.windows == d[w].windows
        }),
{
    let (w, i) = loc_of(d, id);
    assert(window_at(d, w, i) && wid(d, w, i) == id);
    let d1 = minimize_spec(d, id).0;
    let ws = d1[w];
    assert(ws.minimized_history == bump(d[w].minimized_history, id));
    assert(ws.minimized_history.last() == id);
    let w1 = WorkspaceView { minimized_history: ws.minimized_history.drop_last(), ..ws };
    lemma_first_with_id(w1.windows, id);
    let k = first_with_id(w1.windows, id);
    assert(w1.windows[i].id == id);
    if k != i {
        if k < i {
            assert(w1.windows[k].id == id);
            assert(wid(d, w, k) == id);
        } else {
            assert(w1.windows[i].id != id);
        }
    }
    assert(k == i);
    assert(w1.windows[i].minimized);
    let (after, restored) = restore_last_spec(ws);
    assert(after == set_minimized(w1, i, false));
    assert(after.windows =~= d[w].windows);
}

/// The stack column is cut into consecutive tiles that cover it exactly:
/// each stack tile starts where the previous one ends, the last one ends at
/// the bottom, and the master and stack widths add up to the output width.
#[verifier::spinoff_prover]
pub proof fn law_stack_tiles_fill_the_column(output: Size, n: nat)
    requires
        n >= 2,
        n <= i32::MAX,
        output.w >= 0,
        output.h >= 0,
    ensures
        ({
            let t = master_stack_spec(output, n);
            &&& t.len() == n
            &&& t[0].0.x == 0 && t[0].0.y == 0 && t[0].1.h == output.h
            &&& t[0].1.w + t[1].1.w == output.w
            &&& t[1].0.y == 0
            &&& forall|i: int| 1 <= i < n ==> (#[trigger] t[i]).0.x == t[0].1.w && t[i].1.w == t[1].1.w
            &&& forall|i: int| 1 <= i < n - 1 ==> #[trigger] t[i].0.y + t[i].1.h == t[i + 1].0.y
            &&& t[n - 1].0.y + t[n - 1].1.h == output.h
        }),
{
    let k = n - 1;
    let t = master_stack_spec(output, n);
    lemma_tdiv_bounds(output.w as int, 2);
    lemma_tdiv_bounds(output.h as int, k);
    let sh = tdiv(output.h as int, k);
    assert(0 <= k * sh <= output.h) by (nonlinear_arith)
        requires
            sh == (output.h as int) / k,
            k >= 1,
            output.h >= 0,
    ;
    assert forall|i: int| 1 <= i < n - 1 implies #[trigger] t[i].0.y + t[i].1.h == t[i + 1].0.y by {
        assert((i - 1) * sh + sh == i * sh) by (nonlinear_arith);
        assert(0 <= i * sh <= k * sh) by (nonlinear_arith)
            requires
                0 <= i <= k,
                sh >= 0,
        ;
        assert(0 <= (i - 1) * sh <= k * sh) by (nonlinear_arith)
            requires
                0 <= i - 1 <= k,
                sh >= 0,
        ;
    }
    assert(0 <= (k - 1) * sh <= k * sh) by (nonlinear_arith)
        requires
            0 <= k - 1 <= k,
            sh >= 0,
    ;
    assert forall|i: int| 1 <= i < n implies (#[trigger] t[i]).0.x == t[0].1.w && t[i].1.w == t[1].1.w by {
        assert(0 <= (i - 1) * sh <= k * sh) by (nonlinear_arith)
            requires
                0 <= i - 1 <= k,
                sh >= 0,
        ;
    }
}

/// Splitting placements by stacking rank and putting the three groups back
/// together keeps every placement, each as often as before.
proof fn lemma_rank_partition(u: Seq<Placement>)
    ensures
        ({
            let l = u.filter(|p: Placement| stacking_rank(p) == 0) + u.filter(|p: Placement| stacking_rank(p) == 1)
                + u.filter(|p: Placement| stacking_rank(p) == 2);
            l.to_multiset() =~= u.to_multiset()
        }),
    decreases u.len(),
{
    broadcast use vstd::multiset::group_multiset_axioms;
    reveal_with_fuel(Seq::<_>::filter, 1);
    let p0 = |p: Placement| stacking_rank(p) == 0;
    let p1 = |p: Placement| stacking_rank(p) == 1;
    let p2 = |p: Placement| stacking_rank(p) == 2;
    if u.len() == 0 {
        assert(u.filter(p0) =~= Seq::<Placement>::empty());
        assert(u.filter(p1) =~= Seq::<Placement>::empty());
        assert(u.filter(p2) =~= Seq::<Placement>::empty());
        assert(u.filter(p0) + u.filter(p1) + u.filter(p2) =~= Seq::<Placement>::empty());
        assert(u =~= Seq::<Placement>::empty());
    } else {
        let s = u.drop_last();
        let x = u.last();
        lemma_rank_partition(s);
        assert(s.push(x) =~= u);
        s.to_multiset_ensures();
        let (a, b, c) = (u.filter(p0), u.filter(p1), u.filter(p2));
        let (a0, b0, c0) = (s.filter(p0), s.filter(p1), s.filter(p2));
        lemma_multiset_commutative(a, b);
        lemma_multiset_commutative(a + b, c);
        lemma_multiset_commutative(a0, b0);
        lemma_multiset_commutative(a0 + b0, c0);
        a0.to_multiset_ensures();
        b0.to_multiset_ensures();
        c0.to_multiset_ensures();
        if stacking_rank(x) == 0 {
            assert(a == a0.push(x));
            assert(b == b0);
            assert(c == c0);
        } else if stacking_rank(x) == 1 {
            assert(a == a0);
            assert(b == b0.push(x));
            assert(c == c0);
        } else {
            assert(a == a0);
            assert(b == b0);
            assert(c == c0.push(x));
        }
    }
}

/// A layout places every window of the workspace exactly once: it has one
/// placement per window, holds the placement of each window, and names no
/// window twice.
pub proof fn law_layout_places_each_window_once(w: WorkspaceView, output: Size, area: Rect)
    requires
        forall|i: int, j: int|
            0 <= i < j < w.windows.len() ==> (#[trigger] w.windows[i]).id != (#[trigger] w.windows[j]).id,
    ensures
        ({
            let l = layout_spec(w, output, area);
            &&& l.len() == w.windows.len()
            &&& forall|k: int| 0 <= k < w.windows.len() ==> l.contains(#[trigger] place_spec(w, output, area, k))
            &&& forall|j1: int, j2: int|
                0 <= j1 < l.len() && 0 <= j2 < l.len() && (#[trigger] l[j1]).id == (#[trigger] l[j2]).id
                    ==> j1 == j2
        }),
{
    broadcast use vstd::multiset::group_multiset_axioms;
    let u = placements_unsorted(w, output, area);
    let l = layout_spec(w, output, area);
    lemma_rank_partition(u);
    assert(l.to_multiset() =~= u.to_multiset());
    u.to_multiset_ensures();
    l.to_multiset_ensures();
    assert forall|k: int| 0 <= k < w.windows.len() implies l.contains(#[trigger] place_spec(w, output, area, k)) by {
        assert(u[k] == place_spec(w, output, area, k));
        assert(u.contains(u[k]));
        assert(u.to_multiset().count(u[k]) > 0);
        assert(l.to_multiset().count(u[k]) > 0);
    }
    assert(u.no_duplicates()) by {
        assert forall|i: int, j: int| 0 <= i < u.len() && 0 <= j < u.len() && i != j implies u[i] != u[j] by {
            if i < j {
                assert(w.windows[i].id != w.windows[j].id);
            } else {
                assert(w.windows[j].id != w.windows[i].id);
            }
        }
    }
    u.lemma_multiset_has_no_duplicates();
    l.lemma_multiset_has_no_duplicates_conv();
    assert forall|j1: int, j2: int|
        0 <= j1 < l.len() && 0 <= j2 < l.len() && (#[trigger] l[j1]).id == (#[trigger] l[j2]).id implies j1 == j2 by {
        assert(l.contains(l[j1]));
        assert(l.contains(l[j2]));
        assert(l.to_multiset().count(l[j1]) > 0);
        assert(l.to_multiset().count(l[j2]) > 0);
        assert(u.to_multiset().count(l[j1]) > 0);
        assert(u.to_multiset().count(l[j2]) > 0);
        assert(u.contains(l[j1]));
        assert(u.contains(l[j2]));
        let k1 = choose|k: int| 0 <= k < u.len() && u[k] == l[j1];
        let k2 = choose|k: int| 0 <= k < u.len() && u[k] == l[j2];
        if k1 < k2 {
            assert(w.windows[k1].id != w.windows[k2].id);
        } else if k2 < k1 {
            assert(w.windows[k2].id != w.windows[k1].id);
        }
        assert(l[j1] == l[j2]);
    }
}

/// The window focused last on a workspace is the one focused again when the
/// workspace becomes active, as long as it is still shown there.
pub proof fn law_focused_window_is_restored(d: Seq<WorkspaceView>, id: WindowId, output: Size, area: Rect)
    requires
        ids_unique(d),
        has_window(d, id),
        window_visible_spec(d[loc_of(d, id).0], output, area, id),
    ensures
        last_visible_spec(remember_spec(d, id)[loc_of(d, id).0], output, area) == Some(id),
{
    let w = loc_of(d, id).0;
    let before = d[w];
    let after = remember_spec(d, id)[w];
    assert(after.windows == before.windows && after.fullscreen == before.fullscreen);
    assert(placements_unsorted(after, output, area) =~= placements_unsorted(before, output, area));
    assert(layout_spec(after, output, area) == layout_spec(before, output, area));
    assert(after.focus_history.last() == id);
    assert(window_visible_spec(after, output, area, id));
}

/// A text whose two ends are not whitespace is its own trim.
proof fn lemma_trim_of_trimmed(v: Seq<char>)
    requires
        v.len() > 0 ==> !is_whitespace_spec(v[0]) && !is_whitespace_spec(v.last()),
    ensures
        trim_spec(v) == v,
{
    assert(trim_start_spec(v) == v);
    assert(trim_end_spec(v) == v);
}

/// The characters of a variable name: none is `=`, a space, a newline or
/// `#`, and neither end is whitespace.
proof fn lemma_key_chars(key: Seq<char>)
    requires
        valid_key_spec(key),
    ensures
        forall|i: int| 0 <= i < key.len() ==> key[i] != '=' && key[i] != ' ' && key[i] != '\n' && key[i] != '#',
        !is_whitespace_spec(key[0]),
        !is_whitespace_spec(key.last()),
        trim_spec(key) == key,
{
    assert forall|i: int| 0 <= i < key.len() implies key[i] != '=' && key[i] != ' ' && key[i] != '\n'
        && key[i] != '#' by {
        if i > 0 {
            assert(key[i] == '_' || is_ascii_alpha(key[i]) || ('0' <= key[i] && key[i] <= '9'));
        }
    }
    let c = key[key.len() - 1];
    if key.len() > 1 {
        assert(c == '_' || is_ascii_alpha(c) || ('0' <= c && c <= '9'));
    }
    lemma_trim_of_trimmed(key);
}

/// `KEY=VALUE` splits at its first `=` into the name and the value, and
/// does not begin with `export `.
proof fn lemma_assignment_body(key: Seq<char>, value: Seq<char>)
    requires
        valid_key_spec(key),
    ensures
        ({
            let body = key + seq!['='] + value;
            let eq = index_of(body, '=');
            &&& strip_export(body) == body
            &&& eq == key.len()
            &&& body.take(eq) == key
            &&& body.skip(eq + 1) == value
        }),
{
    let body = key + seq!['='] + value;
    let n = key.len() as int;
    lemma_key_chars(key);
    assert(body[n] == '=');
    if body.len() >= 7 && body.take(7) == export_prefix() {
        if n >= 7 {
            assert(body.take(7)[6] == key[6]);
        } else {
            assert(body.take(7)[n] == body[n]);
            assert(export_prefix()[n] != '=');
        }
    }
    lemma_index_of(body, '=');
    let eq = index_of(body, '=');
    if eq < n {
        assert(body[eq] == key[eq]);
    }
    assert(body.take(eq) =~= key);
    assert(body.skip(eq + 1) =~= value);
}

/// How an assignment line reads: its only line, the variable and its value
/// (or unmatched quotes).
proof fn lemma_assignment_line(exported: bool, key: Seq<char>, value: Seq<char>)
    requires
        valid_key_spec(key),
        forall|i: int| 0 <= i < value.len() ==> value[i] != '\n',
        value.len() > 0 ==> !is_whitespace_spec(value[0]) && !is_whitespace_spec(value.last()),
    ensures
        ({
            let prefix = if exported { export_prefix() } else { Seq::empty() };
            let line = prefix + key + seq!['='] + value;
            &&& lines_spec(line) == seq![line]
            &&& parse_line_spec(line) == match strip_quotes_spec(value) {
                Some(v) => LineOutcome::Entry(key, v),
                None => LineOutcome::UnmatchedQuotes,
            }
        }),
{
    let prefix: Seq<char> = if exported { export_prefix() } else { Seq::empty() };
    let body = key + seq!['='] + value;
    let line = prefix + key + seq!['='] + value;
    assert(line =~= prefix + body);
    let n = key.len() as int;
    lemma_key_chars(key);
    lemma_assignment_body(key, value);
    // No newline: the line is the file's only line.
    assert forall|i: int| 0 <= i < line.len() implies line[i] != '\n' by {
        if i >= prefix.len() {
            let j = i - prefix.len();
            assert(line[i] == body[j]);
            if j > n {
                assert(body[j] == value[j - n - 1]);
            } else if j < n {
                assert(body[j] == key[j]);
            }
        } else {
            assert(line[i] == export_prefix()[i]);
        }
    }
    lemma_index_of(line, '\n');
    assert(lines_spec(line) == seq![line]);
    // Nothing is trimmed off the line.
    assert(body[0] == key[0]);
    if value.len() > 0 {
        assert(body.last() == value.last());
    } else {
        assert(body.last() == '=');
    }
    assert(line.last() == body.last());
    if exported {
        assert(line[0] == 'e');
    } else {
        assert(line[0] == body[0]);
    }
    lemma_trim_of_trimmed(line);
    lemma_trim_of_trimmed(value);
    // The `export ` prefix, if any, goes.
    if exported {
        assert(line.take(7) =~= export_prefix());
        assert(line.skip(7) =~= body);
    } else {
        assert(line =~= body);
    }
    assert(strip_export(line) == body);
}

/// An assignment line `KEY=VALUE` (or `export KEY=VALUE`) of an environment
/// file is data: reading a file made of it alone sets `KEY` to `VALUE` as
/// written, without one pair of enclosing quotes, and with nothing expanded,
/// split or run; a value with a quote at one end only is refused with the
/// file's first line named.
pub proof fn law_assignment_is_literal(
    exported: bool,
    key: Seq<char>,
    value: Seq<char>,
    path: Seq<char>,
    m: Map<Seq<char>, Seq<char>>,
)
    requires
        valid_key_spec(key),
        forall|i: int| 0 <= i < value.len() ==> value[i] != '\n',
        value.len() > 0 ==> !is_whitespace_spec(value[0]) && !is_whitespace_spec(value.last()),
    ensures
        ({
            let prefix = if exported { export_prefix() } else { Seq::empty() };
            parse_environment_spec(prefix + key + seq!['='] + value, path, m) == match strip_quotes_spec(value) {
                Some(v) => (m.insert(key, v), None::<Seq<char>>),
                None => (m, Some(line_error_message(path, 0, LineOutcome::UnmatchedQuotes))),
            }
        }),
{
    let prefix: Seq<char> = if exported { export_prefix() } else { Seq::empty() };
    let line = prefix + key + seq!['='] + value;
    lemma_assignment_line(exported, key, value);
    let ls = seq![line];
    assert(ls[0] == line);
    assert(ls.drop_first() =~= Seq::<Seq<char>>::empty());
    match strip_quotes_spec(value) {
        Some(v) => {
            assert(first_error(ls.drop_first()) == 0);
            assert(first_error(ls) == 1);
            assert(env_after(ls, m, 0) == m);
            assert(env_after(ls, m, 1) == m.insert(key, v));
        },
        None => {
            assert(first_error(ls) == 0);
        },
    }
}

/// A directory without a colon is the first field of a search path that it
/// leads.
proof fn lemma_leading_field(dir: Seq<char>, rest: Seq<char>)
    requires
        forall|i: int| 0 <= i < dir.len() ==> dir[i] != ':',
    ensures
        colon_fields(dir + seq![':'] + rest).contains(dir),
{
    let s = dir + seq![':'] + rest;
    let n = dir.len() as int;
    assert(s[n] == ':');
    lemma_index_of(s, ':');
    let i = index_of(s, ':');
    if i < n {
        assert(s[i] == dir[i]);
    }
    assert(i == n);
    assert(s.take(i) =~= dir);
    assert(colon_fields(s)[0] == dir);
}

/// Completing the session environment is idempotent: completing an already
/// completed environment again (as a reload does) changes nothing, and in
/// particular lists Villain's data directory only once.
pub proof fn law_prepared_environment_is_stable(
    m: Map<Seq<char>, Seq<char>>,
    socket: Seq<char>,
    xwayland: Option<u32>,
    data_dir: Option<Seq<char>>,
    host_data_dirs: Option<Seq<char>>,
)
    requires
        data_dir matches Some(dir) ==> forall|i: int| 0 <= i < dir.len() ==> dir[i] != ':',
    ensures
        prepared_env(prepared_env(m, socket, xwayland, data_dir, host_data_dirs), socket, xwayland, data_dir, host_data_dirs)
            == prepared_env(m, socket, xwayland, data_dir, host_data_dirs),
{
    reveal_strlit("WAYLAND_DISPLAY");
    reveal_strlit("WAYLAND_SOCKET");
    reveal_strlit("DISPLAY");
    reveal_strlit("XDG_DATA_DIRS");
    assert(key_wayland_display().len() == 15 && key_wayland_socket().len() == 14);
    assert(key_display().len() == 7 && key_data_dirs().len() == 13);
    assert(key_data_dirs() != key_wayland_display() && key_data_dirs() != key_wayland_socket()
        && key_data_dirs() != key_display());
    assert(key_display() != key_wayland_display() && key_display() != key_wayland_socket());
    assert(key_wayland_display() != key_wayland_socket());
    let e1 = prepared_env(m, socket, xwayland, data_dir, host_data_dirs);
    let base = |x: Map<Seq<char>, Seq<char>>| {
        let x1 = x.insert(key_wayland_display(), socket).remove(key_wayland_socket());
        match xwayland {
            Some(d) => x1.insert(key_display(), display_name(d)),
            None => x1.remove(key_display()),
        }
    };
    let m2 = base(m);
    assert(base(e1) =~= e1);
    assert(prepared_env(e1, socket, xwayland, None, host_data_dirs) == base(e1));
    assert(prepared_env(m, socket, xwayland, None, host_data_dirs) == m2);
    if let Some(dir) = data_dir {
        let current = if m2.contains_key(key_data_dirs()) {
            m2[key_data_dirs()]
        } else {
            match host_data_dirs {
                Some(h) => h,
                None => default_data_dirs(),
            }
        };
        if colon_fields(current).contains(dir) {
            assert(e1 == m2);
        } else {
            assert(e1 == m2.insert(key_data_dirs(), dir + seq![':'] + current));
            lemma_leading_field(dir, current);
            assert(e1[key_data_dirs()] == dir + seq![':'] + current);
        }
    }
}

/// Going to the next workspace and then to the previous one (or the other
/// way round) comes back to the workspace one started from, and both steps
/// stay among the workspaces.
pub proof fn law_next_and_previous_workspace_undo(a: int)
    requires
        0 <= a < WORKSPACE_COUNT,
    ensures
        0 <= next_workspace(a) < WORKSPACE_COUNT,
        0 <= previous_workspace(a) < WORKSPACE_COUNT,
        previous_workspace(next_workspace(a)) == a,
        next_workspace(previous_workspace(a)) == a,
{
}

/// Fitting a floating window is idempotent: a rectangle already fitted to an
/// output and size hints is kept as it is when it is fitted again.
pub proof fn law_fitting_is_idempotent(rect: Rect, output: Size, min: Size, max: Size)
    ensures
        constrain_spec(constrain_spec(rect, output, min, max), output, min, max)
            == constrain_spec(rect, output, min, max),
{
    let r = constrain_spec(rect, output, min, max);
    let r2 = constrain_spec(r, output, min, max);
    assert(r2.size == r.size);
    assert(r2.loc == r.loc);
}

/// Applying a window's hints is idempotent: applying the same hints again
/// right after changes nothing and asks for no layout work. (Clients commit
/// their hints often; only a real change lays workspaces out again.)
pub proof fn law_refresh_is_idempotent(s: Villain, id: WindowId, parent: Option<WindowId>, hints: WindowHints)
    requires
        s.wf(),
        has_room(s.desk()),
    ensures
        ({
            let (d1, _) = refresh_spec(s.desk(), s.active_workspace as int, s.output_size, s.usable_area, id, parent, hints);
            refresh_spec(d1, s.active_workspace as int, s.output_size, s.usable_area, id, parent, hints)
                == (d1, RefreshOutcome { relayout_active: false, configure_workspace: None })
        }),
{
    let d = s.desk();
    let active = s.active_workspace as int;
    let (output, area) = (s.output_size, s.usable_area);
    if !has_window(d, id) {
        return;
    }
    let (w0, i0) = loc_of(d, id);
    assert(window_at(d, w0, i0) && wid(d, w0, i0) == id);
    let p = managed_parent(d, id, parent);
    let t = match p {
        Some(pp) => loc_of(d, pp).0,
        None => w0,
    };
    let moved = t != w0;
    let d1 = if moved { move_spec(d, id, w0, i0, t) } else { d };
    let i1 = if moved { d[t].windows.len() as int } else { i0 };
    if let Some(pp) = p {
        let (tw, ti) = loc_of(d, pp);
        assert(window_at(d, tw, ti) && wid(d, tw, ti) == pp);
    }
    if moved {
        lemma_move_keeps_wf(d, id, w0, i0, t, s.next_window_id);
    }
    assert(ids_unique(d1));
    assert(window_at(d1, t, i1) && wid(d1, t, i1) == id);
    // The parent is where it was.
    if let Some(pp) = p {
        let (tw, ti) = loc_of(d, pp);
        if moved {
            assert(d1[t].windows[ti] == d[t].windows[ti]);
        }
        assert(window_at(d1, t, ti) && wid(d1, t, ti) == pp);
        lemma_loc_of(d1, pp, t, ti);
    }
    let (nd, _) = refresh_spec(d, active, output, area, id, parent, hints);
    let e = d1[t].windows[i1];
    let e2 = nd[t].windows[i1];
    assert(nd == d1.update(t, WorkspaceView { windows: d1[t].windows.update(i1, e2), ..d1[t] }));
    assert(e2.id == e.id);
    assert(same_ids(d1, nd)) by {
        assert forall|v: int, j: int| window_at(d1, v, j) implies #[trigger] wid(d1, v, j) == wid(nd, v, j) by {
            if v == t && j == i1 {
                assert(wid(nd, v, j) == e2.id);
            }
        }
    }
    lemma_same_ids(d1, nd, 0);
    lemma_loc_of(nd, id, t, i1);
    if let Some(pp) = p {
        assert(has_window(nd, pp));
        assert(loc_of(nd, pp) == loc_of(d1, pp));
    } else if let Some(pp) = parent {
        if pp != id {
            assert(!has_window(d, pp));
            assert(d1 == d);
            assert(!has_window(nd, pp));
        }
    }
    assert(managed_parent(nd, id, parent) == p);
    // The stored geometry is already fitted, so fitting it again keeps it.
    if e2.floating is Some {
        let parent_rect = match p {
            Some(pp) => rect_of(layout_spec(d1[t], output, area), pp, output_rect(output)),
            None => output_rect(output),
        };
        let base = match e.floating {
            Some(r) => r,
            None => initial_geometry(hints, output, parent_rect),
        };
        law_fitting_is_idempotent(base, output, hints.min, hints.max);
    }
    let (nd2, r2) = refresh_spec(nd, active, output, area, id, parent, hints);
    assert(nd[t].windows.update(i1, e2) =~= nd[t].windows);
    assert(nd2 =~= nd);
}

/// A cursor timer becomes harmless once a newer one is scheduled: the new
/// generation differs from the one before it, so the older timer no longer
/// asks for a frame when it fires.
pub proof fn law_older_cursor_timers_are_harmless(g: u64)
    ensures
        next_generation(g) != g,
        next_generation(next_generation(g)) != g,
{
}

/// Along a run of states in which the next window id never goes down, it is
/// at least as large later as earlier.
proof fn lemma_next_id_grows(run: Seq<Villain>, a: int, b: int)
    requires
        0 <= a <= b < run.len(),
        forall|k: int| 0 <= k < run.len() - 1 ==> #[trigger] run[k].next_window_id <= run[k + 1].next_window_id,
    ensures
        run[a].next_window_id <= run[b].next_window_id,
    decreases b - a,
{
    if a < b {
        lemma_next_id_grows(run, a, b - 1);
        assert(run[b - 1].next_window_id <= run[b].next_window_id);
    }
}

/// Window ids are never handed out twice in the compositor's lifetime. Take
/// a run of well-formed states in which the next id never goes down (every
/// operation keeps it, and adding a window raises it by one): an id handed
/// out at a later step is larger than the one handed out at an earlier step,
/// and larger than the id of every window managed in any state up to then.
pub proof fn law_window_ids_never_reused(run: Seq<Villain>, i: int, j: int)
    requires
        forall|k: int| 0 <= k < run.len() ==> (#[trigger] run[k]).wf(),
        forall|k: int| 0 <= k < run.len() - 1 ==> #[trigger] run[k].next_window_id <= run[k + 1].next_window_id,
        0 <= i < j,
        j + 1 < run.len(),
        run[i + 1].next_window_id == run[i].next_window_id + 1,
    ensures
        run[i].next_window_id < run[j].next_window_id,
        forall|k: int, w: int, x: int|
            0 <= k <= j && window_at(run[k].desk(), w, x) ==> (#[trigger] wid(run[k].desk(), w, x)).0
                < run[j].next_window_id,
{
    lemma_next_id_grows(run, i + 1, j);
    assert forall|k: int, w: int, x: int|
        0 <= k <= j && window_at(run[k].desk(), w, x) implies (#[trigger] wid(run[k].desk(), w, x)).0
            < run[j].next_window_id by {
        lemma_next_id_grows(run, k, j);
        assert(run[k].wf());
    }
}

/// `r` lies inside `area`.
pub open spec fn inside(r: Rect, area: Rect) -> bool {
    &&& area.loc.x <= r.loc.x && area.loc.y <= r.loc.y
    &&& r.loc.x + r.size.w <= area.loc.x + area.size.w
    &&& r.loc.y + r.size.h <= area.loc.y + area.size.h
}

/// Tiles stay in the usable area: every shown tiled window that is not
/// fullscreen lies inside the part of the output that panels leave free.
pub proof fn law_tiles_stay_in_the_usable_area(w: WorkspaceView, output: Size, area: Rect)
    requires
        geometry_ok(output, area),
        w.windows.len() <= i32::MAX,
    ensures
        forall|j: int|
            0 <= j < layout_spec(w, output, area).len() && (#[trigger] layout_spec(w, output, area)[j]).tiled
                && !layout_spec(w, output, area)[j].fullscreen && layout_spec(w, output, area)[j].visible
                ==> inside(layout_spec(w, output, area)[j].rect, area),
{
    let u = placements_unsorted(w, output, area);
    let prop = |p: Placement| p.tiled && !p.fullscreen && p.visible ==> inside(p.rect, area);
    let count = tiled_before(w.windows, w.windows.len() as int);
    lemma_tiled_before_mono(w.windows, 0, w.windows.len() as int);
    assert forall|k: int| 0 <= k < u.len() implies #[trigger] prop(u[k]) by {
        let e = w.windows[k];
        if e.floating is None && !e.minimized {
            lemma_tiled_before_mono(w.windows, k + 1, w.windows.len() as int);
            lemma_tile_bounds(area.size, count, tiled_before(w.windows, k) as int);
        }
    }
    let p0 = |p: Placement| stacking_rank(p) == 0;
    let p1 = |p: Placement| stacking_rank(p) == 1;
    let p2 = |p: Placement| stacking_rank(p) == 2;
    lemma_filter_keeps(u, p0, prop);
    lemma_filter_keeps(u, p1, prop);
    lemma_filter_keeps(u, p2, prop);
    let l = layout_spec(w, output, area);
    assert(l == u.filter(p0) + u.filter(p1) + u.filter(p2));
    assert forall|j: int| 0 <= j < l.len() implies #[trigger] prop(l[j]) by {
        let a = u.filter(p0);
        let b = u.filter(p1);
        let c = u.filter(p2);
        if j < a.len() {
            assert(prop(a[j]));
        } else if j < a.len() + b.len() {
            assert(prop(b[j - a.len()]));
        } else {
            assert(prop(c[j - a.len() - b.len()]));
        }
    }
    assert forall|j: int|
        0 <= j < l.len() && (#[trigger] l[j]).tiled && !l[j].fullscreen && l[j].visible implies inside(
            l[j].rect,
            area,
        ) by {
        assert(prop(l[j]));
    }
}

/// Window ids on one workspace are distinct.
pub open spec fn ids_distinct(ws: Seq<ManagedWindow>) -> bool {
    forall|i: int, j: int| 0 <= i < j < ws.len() ==> (#[trigger] ws[i]).id != (#[trigger] ws[j]).id
}

/// `c` is a chain of parent links on `ws`: each window of it names the one
/// before it as its parent.
pub open spec fn parent_chain(ws: Seq<ManagedWindow>, c: Seq<int>) -> bool {
    &&& forall|t: int| 0 <= t < c.len() ==> 0 <= #[trigger] c[t] < ws.len()
    &&& forall|t: int| 0 < t < c.len() ==> (#[trigger] ws[c[t]]).parent == Some(ws[c[t - 1]].id)
}

/// Following parents from a window of a chain reaches the chain's start.
proof fn lemma_chain_reaches(ws: Seq<ManagedWindow>, c: Seq<int>, t: int, fuel: nat)
    requires
        ids_distinct(ws),
        parent_chain(ws, c),
        0 <= t < c.len(),
        fuel > t,
    ensures
        reaches(ws, Some(ws[c[t]].id), ws[c[0]].id, fuel),
    decreases t,
{
    if t > 0 {
        let id = ws[c[t]].id;
        lemma_first_with_id(ws, id);
        let f = first_with_id(ws, id);
        if f != c[t] {
            if f < c[t] {
                assert(ws[f].id != ws[c[t]].id);
            } else {
                assert(ws[c[t]].id != id);
            }
        }
        assert(parent_of_id(ws, id) == Some(ws[c[t - 1]].id));
        lemma_chain_reaches(ws, c, t - 1, (fuel - 1) as nat);
    }
}

/// A window descends from every window before it in a chain of parents
/// that is no longer than its workspace (as every chain of distinct
/// windows is).
proof fn lemma_chain_descends(ws: Seq<ManagedWindow>, c: Seq<int>)
    requires
        ids_distinct(ws),
        parent_chain(ws, c),
        2 <= c.len() <= ws.len(),
    ensures
        descendant_spec(ws, ws[c[c.len() - 1]], ws[c[0]].id),
{
    let n = c.len() - 1;
    lemma_chain_reaches(ws, c, n - 1, ws.len());
}

/// Minimizing a window hides everything transient for it, at any depth: a
/// dialog of a dialog of a minimized window is not shown.
pub proof fn law_minimized_ancestors_hide(w: WorkspaceView, output: Size, area: Rect, c: Seq<int>)
    requires
        ids_distinct(w.windows),
        parent_chain(w.windows, c),
        2 <= c.len() <= w.windows.len(),
        w.windows[c[0]].minimized,
    ensures
        !place_spec(w, output, area, c[c.len() - 1]).visible,
{
    lemma_chain_descends(w.windows, c);
    let e = w.windows[c[c.len() - 1]];
    assert(w.windows[c[0]].minimized && descendant_spec(w.windows, e, w.windows[c[0]].id));
    assert(hidden_spec(w.windows, e));
}

/// The floating windows transient for the fullscreen window, at any depth,
/// are shown above it (when nothing on the workspace is minimized).
pub proof fn law_fullscreen_dialogs_stay_shown(w: WorkspaceView, output: Size, area: Rect, c: Seq<int>)
    requires
        ids_distinct(w.windows),
        parent_chain(w.windows, c),
        2 <= c.len() <= w.windows.len(),
        forall|i: int| 0 <= i < w.windows.len() ==> !(#[trigger] w.windows[i]).minimized,
        w.fullscreen == Some(w.windows[c[0]].id),
        w.windows[c[c.len() - 1]].floating is Some,
    ensures
        place_spec(w, output, area, c[c.len() - 1]).visible,
{
    lemma_chain_descends(w.windows, c);
    let owner = w.windows[c[0]];
    assert(!hidden_spec(w.windows, owner));
    assert(!hidden_spec(w.windows, w.windows[c[c.len() - 1]]));
    assert(effective_fullscreen(w) == Some(owner.id));
}

/// Blank lines, lines of whitespace and comment lines of an environment
/// file are skipped: they set nothing and are no error.
pub proof fn law_blank_and_comment_lines_are_skipped(raw: Seq<char>)
    requires
        trim_spec(raw).len() == 0 || trim_spec(raw)[0] == '#',
    ensures
        parse_line_spec(raw) == LineOutcome::Skip,
{
}

/// Adding a blank line to an environment file changes nothing it sets:
/// reading the lines up to a blank one and past it gives the same map.
pub proof fn law_blank_lines_set_nothing(lines: Seq<Seq<char>>, m: Map<Seq<char>, Seq<char>>, n: nat)
    requires
        0 < n <= lines.len(),
        trim_spec(lines[n - 1]).len() == 0,
    ensures
        env_after(lines, m, n) == env_after(lines, m, (n - 1) as nat),
        !crate::environment::is_error(parse_line_spec(lines[n - 1])),
{
    law_blank_and_comment_lines_are_skipped(lines[n - 1]);
}

proof fn lemma_session_keys_differ()
    ensures
        key_data_dirs() != key_wayland_display(),
        key_data_dirs() != key_wayland_socket(),
        key_data_dirs() != key_display(),
        key_display() != key_wayland_display(),
        key_display() != key_wayland_socket(),
        key_wayland_display() != key_wayland_socket(),
{
    reveal_strlit("WAYLAND_DISPLAY");
    reveal_strlit("WAYLAND_SOCKET");
    reveal_strlit("DISPLAY");
    reveal_strlit("XDG_DATA_DIRS");
    assert(key_wayland_display().len() == 15 && key_wayland_socket().len() == 14);
    assert(key_display().len() == 7 && key_data_dirs().len() == 13);
}

/// A data-directory search path that the session environment already sets
/// (say, in the environment file) is kept: Villain's data directory is put
/// in front of it unless it is listed there, whatever the host's value is.
/// Only when the session sets none does the host's value (else the default)
/// stand in for it.
pub proof fn law_session_data_dirs_are_kept(
    m: Map<Seq<char>, Seq<char>>,
    socket: Seq<char>,
    xwayland: Option<u32>,
    dir: Seq<char>,
    host_data_dirs: Option<Seq<char>>,
)
    ensures
        ({
            let r = prepared_env(m, socket, xwayland, Some(dir), host_data_dirs);
            let v = if m.contains_key(key_data_dirs()) {
                m[key_data_dirs()]
            } else {
                match host_data_dirs {
                    Some(h) => h,
                    None => "/usr/local/share:/usr/share"@,
                }
            };
            &&& colon_fields(v).contains(dir) ==> (r.contains_key(key_data_dirs()) == m.contains_key(key_data_dirs()))
                && (m.contains_key(key_data_dirs()) ==> r[key_data_dirs()] == v)
            &&& !colon_fields(v).contains(dir) ==> r.contains_key(key_data_dirs()) && r[key_data_dirs()] == dir
                + seq![':'] + v
        }),
{
    lemma_session_keys_differ();
}

/// Completing the session environment changes only its display variables
/// and the data-directory search path: every other variable keeps its value.
pub proof fn law_other_session_variables_are_kept(
    m: Map<Seq<char>, Seq<char>>,
    socket: Seq<char>,
    xwayland: Option<u32>,
    data_dir: Option<Seq<char>>,
    host_data_dirs: Option<Seq<char>>,
    k: Seq<char>,
)
    requires
        k != key_wayland_display(),
        k != key_wayland_socket(),
        k != key_display(),
        k != key_data_dirs(),
    ensures
        ({
            let r = prepared_env(m, socket, xwayland, data_dir, host_data_dirs);
            &&& r.contains_key(k) == m.contains_key(k)
            &&& m.contains_key(k) ==> r[k] == m[k]
        }),
{
}

/// How a floating window's extent along one axis is fitted: it is at least
/// one; it is no larger than the output and no larger than a positive
/// maximum hint (whether or not a minimum is set), unless one is all that
/// is left; it falls short of the minimum hint only where the output or the
/// maximum leaves no room; and an extent that already fits is kept.
pub open spec fn extent_fitted(size: int, min: int, max: int, output: int, r: int) -> bool {
    &&& r >= 1
    &&& r == 1 || r <= output
    &&& max > 0 ==> r == 1 || r <= max
    &&& r < min ==> r == 1 || r == output || r == max
    &&& (1 <= size <= output && min <= size && (max <= 0 || size <= max)) ==> r == size
}

/// Fitting a floating window respects its size hints and the output on both
/// axes (see `extent_fitted`), puts it inside the output when it fits, and
/// keeps a position that already lies inside.
pub proof fn law_fitting_respects_hints(rect: Rect, output: Size, min: Size, max: Size)
    requires
        output.w >= 0,
        output.h >= 0,
    ensures
        ({
            let r = constrain_spec(rect, output, min, max);
            &&& extent_fitted(rect.size.w as int, min.w as int, max.w as int, output.w as int, r.size.w as int)
            &&& extent_fitted(rect.size.h as int, min.h as int, max.h as int, output.h as int, r.size.h as int)
            &&& r.size.w <= output.w ==> 0 <= r.loc.x && r.loc.x + r.size.w <= output.w
            &&& r.size.h <= output.h ==> 0 <= r.loc.y && r.loc.y + r.size.h <= output.h
            &&& (0 <= rect.loc.x && rect.loc.x + r.size.w <= output.w) ==> r.loc.x == rect.loc.x
            &&& (0 <= rect.loc.y && rect.loc.y + r.size.h <= output.h) ==> r.loc.y == rect.loc.y
        }),
{
}

} // verus!
