use villain::config::{
    BindSpec, CompositorSettings, FileRead, InputConfig, Keybinds, RuntimeConfig, resolve_path,
};
use villain::dispatch::{Dispatch, DispatchContext, DispatchError, Effect};
use villain::environment::{
    default_environment, parse_environment, strip_matching_quotes, valid_environment_key,
    EnvironmentMap,
};
use villain::ipc::{dispatch_error, invalid_request, preview_response, IpcServer};
use villain::protocol::{
    DesktopErrorCode, DesktopQuery, DesktopResponse, ProtocolVersion, WindowLabel,
};
use villain::session::{
    activation_assignments, activation_environment, activation_keys_present, has_colon_field,
    portal_config_path, prepare_environment, SocketCleanup,
};
use villain::state::Villain;
use villain::workspaces::{WindowHints, WindowId, WorkspaceId};
use villain::layout::Size;

fn chars(s: &str) -> Vec<char> {
    s.chars().collect()
}

fn value_of(map: &EnvironmentMap, key: &str) -> Option<String> {
    map.get(&key.to_string()).cloned()
}

fn settings(modkey: &str, input: InputConfig) -> CompositorSettings {
    CompositorSettings { modkey: modkey.to_string(), bind: Vec::new(), environment_file: None, input }
}

fn config() -> RuntimeConfig {
    RuntimeConfig {
        input: InputConfig::default(),
        keybinds: Keybinds::Defaults { modkey: "Super".to_string() },
        environment: default_environment(),
        path: "/home/user/.config/villain/config.toml".to_string(),
    }
}

fn state() -> Villain {
    Villain::new(config(), "wayland-1".to_string())
}

fn hints() -> WindowHints {
    let none = Size { w: 0, h: 0 };
    WindowHints { min: none, max: none, natural: none, dialog: false }
}

fn no_focus() -> DispatchContext {
    DispatchContext { focused: None, target_focusable: true }
}

#[test]
fn reload_validates_before_returning_replacement() {
    let path = "/tmp/villain-config-test/config.toml".to_string();
    let off = InputConfig { tap_to_click: false, natural_scroll: false };
    let current = RuntimeConfig::load_from(
        path.clone(),
        Ok(settings("Alt", off)),
        None,
        FileRead::NotFound("No such file or directory (os error 2)".to_string()),
    )
    .unwrap();
    assert!(!current.input.tap_to_click);
    assert!(!current.input.natural_scroll);

    let refused = current.reload(
        Ok(settings("Invalid", InputConfig::default())),
        None,
        FileRead::NotFound("No such file or directory (os error 2)".to_string()),
    );
    assert!(refused.is_err());
    assert!(!current.input.natural_scroll);
    assert!(!current.input.tap_to_click);
    assert_eq!(current.path(), &path);
}

#[test]
fn configured_bindings_replace_the_defaults() {
    let read = || FileRead::NotFound("missing".to_string());
    let plain = RuntimeConfig::load_from("/c/config.toml".to_string(), Ok(settings("Alt", InputConfig::default())), None, read()).unwrap();
    assert!(matches!(plain.keybinds, Keybinds::Defaults { ref modkey } if modkey == "Alt"));
    let mut custom = settings("Super", InputConfig::default());
    custom.bind.push(BindSpec { keys: "Super+Return".to_string(), dispatch: "exec".to_string(), args: vec!["kitty".to_string()] });
    let loaded = RuntimeConfig::load_from("/c/config.toml".to_string(), Ok(custom), None, read()).unwrap();
    match loaded.keybinds {
        Keybinds::Custom { modkey, bindings } => {
            assert_eq!(modkey, "Super");
            assert_eq!(bindings.len(), 1);
            assert_eq!(bindings[0].keys, "Super+Return");
        }
        Keybinds::Defaults { .. } => panic!("bindings were not applied"),
    }
}

#[test]
fn the_environment_file_is_read_beside_the_configuration() {
    let source = RuntimeConfig::environment_source(&"/home/u/.config/villain/config.toml".to_string(), &None, &None).unwrap();
    assert_eq!(source.path, "/home/u/.config/villain/environment");
    assert!(!source.required);
    let named = RuntimeConfig::environment_source(
        &"/home/u/.config/villain/config.toml".to_string(),
        &Some("~/env".to_string()),
        &Some("/home/u".to_string()),
    )
    .unwrap();
    assert_eq!(named.path, "/home/u/env");
    assert!(named.required);
    let relative = RuntimeConfig::environment_source(&"config.toml".to_string(), &Some("env".to_string()), &None).unwrap();
    assert_eq!(relative.path, "env");
}

#[test]
fn a_missing_required_environment_file_fails_the_load() {
    let mut s = settings("Super", InputConfig::default());
    s.environment_file = Some("/etc/villain/env".to_string());
    let r = RuntimeConfig::load_from("/c/config.toml".to_string(), Ok(s), None, FileRead::NotFound("gone".to_string()));
    assert_eq!(r.unwrap_err().message(), "could not read /etc/villain/env: gone");
    let r = RuntimeConfig::load_from(
        "/c/config.toml".to_string(),
        Ok(settings("Super", InputConfig::default())),
        None,
        FileRead::Failed("permission denied".to_string()),
    );
    assert_eq!(r.unwrap_err().message(), "could not read /c/environment: permission denied");
}

#[test]
fn an_environment_file_adds_to_the_defaults() {
    let loaded = RuntimeConfig::load_from(
        "/c/config.toml".to_string(),
        Ok(settings("Super", InputConfig::default())),
        None,
        FileRead::Contents("GDK_BACKEND=x11\nEDITOR=vim\n".to_string()),
    )
    .unwrap();
    assert_eq!(value_of(&loaded.environment, "GDK_BACKEND").unwrap(), "x11");
    assert_eq!(value_of(&loaded.environment, "EDITOR").unwrap(), "vim");
    assert_eq!(value_of(&loaded.environment, "QT_QPA_PLATFORM").unwrap(), "wayland");
    assert_eq!(loaded.environment.len(), 8);
}

#[test]
fn configured_paths_resolve_against_home_and_the_configuration() {
    let home = Some("/home/u".to_string());
    let base = Some("/etc/villain".to_string());
    assert_eq!(resolve_path(&"~".to_string(), &base, &home).unwrap(), "/home/u");
    assert_eq!(resolve_path(&"~/env".to_string(), &base, &home).unwrap(), "/home/u/env");
    assert_eq!(resolve_path(&"/abs/env".to_string(), &base, &home).unwrap(), "/abs/env");
    assert_eq!(resolve_path(&"rel/env".to_string(), &base, &home).unwrap(), "/etc/villain/rel/env");
    assert_eq!(resolve_path(&"rel".to_string(), &None, &home).unwrap(), "./rel");
    assert_eq!(
        resolve_path(&"~/env".to_string(), &base, &None).unwrap_err().message(),
        "HOME is not set; cannot expand ~"
    );
    assert_eq!(resolve_path(&"~user".to_string(), &base, &None).unwrap(), "/etc/villain/~user");
}

#[test]
fn assignments_are_taken_literally() {
    let mut values = EnvironmentMap::new();
    parse_environment("CMD=$(rm -rf /);echo `id`\nQUOTED=\"a b\"\n  SPACED  =  x y  \n", "env", &mut values).unwrap();
    assert_eq!(value_of(&values, "CMD").unwrap(), "$(rm -rf /);echo `id`");
    assert_eq!(value_of(&values, "QUOTED").unwrap(), "a b");
    assert_eq!(value_of(&values, "SPACED").unwrap(), "x y");
    parse_environment("CMD=second\r\n", "env", &mut values).unwrap();
    assert_eq!(value_of(&values, "CMD").unwrap(), "second");
    assert_eq!(values.len(), 3);
}

#[test]
fn each_bad_line_is_named_in_the_error() {
    let mut values = EnvironmentMap::new();
    let e = parse_environment("A=1\nno equals here\n", "/e", &mut values).unwrap_err();
    assert_eq!(e.message(), "/e:2: expected KEY=VALUE");
    assert_eq!(value_of(&values, "A").unwrap(), "1");
    let e = parse_environment("# c\nNOT VALID=value", "environment", &mut values).unwrap_err();
    assert_eq!(e.message(), "environment:2: invalid environment variable name \"NOT VALID\"");
    let e = parse_environment("Q=\"open", "environment", &mut values).unwrap_err();
    assert_eq!(e.message(), "environment:1: environment value has unmatched quotes");
    let e = parse_environment("1X=y", "environment", &mut values).unwrap_err();
    assert_eq!(e.message(), "environment:1: invalid environment variable name \"1X\"");
}

#[test]
fn keys_and_quotes_follow_the_shell_rules() {
    assert!(valid_environment_key(&chars("_A1")));
    assert!(valid_environment_key(&chars("path")));
    assert!(!valid_environment_key(&chars("")));
    assert!(!valid_environment_key(&chars("9A")));
    assert!(!valid_environment_key(&chars("A-B")));
    assert_eq!(strip_matching_quotes(&chars("'x'")), Some(chars("x")));
    assert_eq!(strip_matching_quotes(&chars("\"\"")), Some(chars("")));
    assert_eq!(strip_matching_quotes(&chars("plain")), Some(chars("plain")));
    assert_eq!(strip_matching_quotes(&chars("\"")), None);
    assert_eq!(strip_matching_quotes(&chars("'x\"")), None);
    assert_eq!(strip_matching_quotes(&chars("x'")), None);
}

#[test]
fn the_session_environment_names_villains_displays() {
    let mut s = state();
    s.config.environment.insert("WAYLAND_SOCKET".to_string(), "3".to_string());
    s.config.environment.insert("DISPLAY".to_string(), ":0".to_string());
    prepare_environment(&mut s, None, None);
    assert_eq!(value_of(&s.config.environment, "WAYLAND_DISPLAY").unwrap(), "wayland-1");
    assert!(!s.config.environment.contains_key(&"WAYLAND_SOCKET".to_string()));
    assert!(!s.config.environment.contains_key(&"DISPLAY".to_string()));
    s.xwayland_display = Some(12);
    prepare_environment(&mut s, Some("/opt/villain/share".to_string()), Some("/usr/share".to_string()));
    assert_eq!(value_of(&s.config.environment, "DISPLAY").unwrap(), ":12");
    assert_eq!(value_of(&s.config.environment, "XDG_DATA_DIRS").unwrap(), "/opt/villain/share:/usr/share");
    prepare_environment(&mut s, Some("/opt/villain/share".to_string()), Some("/usr/share".to_string()));
    assert_eq!(value_of(&s.config.environment, "XDG_DATA_DIRS").unwrap(), "/opt/villain/share:/usr/share");
}

#[test]
fn the_data_directory_leads_the_default_search_path() {
    let mut s = state();
    prepare_environment(&mut s, Some("/d".to_string()), None);
    assert_eq!(value_of(&s.config.environment, "XDG_DATA_DIRS").unwrap(), "/d:/usr/local/share:/usr/share");
    assert!(has_colon_field(&"/a:/d:/b".to_string(), &"/d".to_string()));
    assert!(has_colon_field(&"a::b".to_string(), &"".to_string()));
    assert!(!has_colon_field(&"/a:/dd".to_string(), &"/d".to_string()));
    assert_eq!(portal_config_path(&"/opt/villain/share".to_string()), "/opt/villain/share/xdg-desktop-portal/villain-portals.conf");
}

#[test]
fn activation_publishes_the_session_variables_in_order() {
    let mut s = state();
    prepare_environment(&mut s, None, None);
    let published = activation_environment(&s);
    assert_eq!(value_of(&published, "DISPLAY").unwrap(), "");
    assert_eq!(
        activation_keys_present(&published),
        vec!["WAYLAND_DISPLAY", "DISPLAY", "XDG_CURRENT_DESKTOP", "XDG_SESSION_DESKTOP", "XDG_SESSION_TYPE"]
    );
    assert_eq!(
        activation_assignments(&published),
        vec![
            "WAYLAND_DISPLAY=wayland-1",
            "DISPLAY=",
            "XDG_CURRENT_DESKTOP=Villain",
            "XDG_SESSION_DESKTOP=villain",
            "XDG_SESSION_TYPE=wayland",
        ]
    );
    s.xwayland_display = Some(3);
    assert_eq!(value_of(&activation_environment(&s), "DISPLAY").unwrap(), ":3");
}

#[test]
fn launched_applications_get_villains_displays() {
    let mut s = state();
    s.config.environment.insert("DISPLAY".to_string(), ":0".to_string());
    let child = s.child_environment();
    assert_eq!(value_of(&child.set, "WAYLAND_DISPLAY").unwrap(), "wayland-1");
    assert!(!child.set.contains_key(&"DISPLAY".to_string()));
    assert_eq!(child.unset, vec!["WAYLAND_SOCKET", "DISPLAY"]);
    s.xwayland_display = Some(1);
    let child = s.child_environment();
    assert_eq!(value_of(&child.set, "DISPLAY").unwrap(), ":1");
    assert_eq!(child.unset, vec!["WAYLAND_SOCKET"]);
}

#[test]
fn the_socket_and_its_lock_are_cleaned_up() {
    let c = SocketCleanup::new(Some("/run/user/1000".to_string()), &"wayland-1".to_string()).unwrap();
    assert_eq!(c.socket, "/run/user/1000/wayland-1");
    assert_eq!(c.lock, "/run/user/1000/wayland-1.lock");
    assert!(SocketCleanup::new(None, &"wayland-1".to_string()).is_none());
    assert_eq!(IpcServer::new("/run/v.sock".to_string()).path(), "/run/v.sock");
}

#[test]
fn a_failed_reload_changes_nothing() {
    let mut s = state();
    let r = s.apply_reload(Err("bad document".to_string()), None, FileRead::NotFound("x".to_string()), None, None);
    match r {
        Err(e) => assert_eq!(e.message(), "configuration reload failed: bad document"),
        Ok(_) => panic!("a bad document was applied"),
    }
    assert!(s.config.input.tap_to_click);
    let off = InputConfig { tap_to_click: false, natural_scroll: true };
    let r = s.apply_reload(Ok(settings("Alt", off)), None, FileRead::NotFound("x".to_string()), None, None).unwrap();
    assert!(r.is_none());
    assert!(!s.config.input.tap_to_click);
    assert_eq!(value_of(&s.config.environment, "WAYLAND_DISPLAY").unwrap(), "wayland-1");
    s.owns_session = true;
    let r = s.apply_reload(Ok(settings("Alt", off)), None, FileRead::NotFound("x".to_string()), None, None).unwrap();
    assert_eq!(value_of(&r.unwrap(), "DISPLAY").unwrap(), "");
}

#[test]
fn every_dispatch_error_has_its_message_and_code() {
    let cases = vec![
        (DispatchError::Config("x".to_string()), "configuration reload failed: x", DesktopErrorCode::Internal),
        (DispatchError::NoFocusedWindow, "no window is focused", DesktopErrorCode::Unavailable),
        (DispatchError::NoMinimizedWindow, "no minimized window to restore", DesktopErrorCode::Unavailable),
        (DispatchError::InvalidWorkspace(11), "workspace 11 does not exist", DesktopErrorCode::NotFound),
        (DispatchError::UnknownWindow(WindowId(7)), "window 7 does not exist", DesktopErrorCode::NotFound),
        (DispatchError::MinimizedWindow(WindowId(3)), "window 3 is minimized; restore it first", DesktopErrorCode::Unavailable),
        (DispatchError::EmptyCommand, "spawn command is empty", DesktopErrorCode::Internal),
        (DispatchError::Spawn("not found".to_string()), "could not spawn command: not found", DesktopErrorCode::Internal),
    ];
    for (error, message, code) in cases {
        assert_eq!(error.message(), message);
        match dispatch_error(error) {
            DesktopResponse::Error(e) => {
                assert_eq!(e.code, code);
                assert_eq!(e.message, message);
                assert!(!e.retryable);
            }
            other => panic!("unexpected {other:?}"),
        }
    }
    match invalid_request("bad json".to_string()) {
        DesktopResponse::Error(e) => {
            assert_eq!(e.code, DesktopErrorCode::InvalidRequest);
            assert_eq!(e.message, "bad json");
        }
        other => panic!("unexpected {other:?}"),
    }
}

#[test]
fn dispatch_moves_between_workspaces_with_wraparound() {
    let mut s = state();
    let (effect, r) = s.dispatch(Dispatch::PreviousWorkspace, no_focus());
    assert!(matches!(effect, Effect::Switched) && r.is_ok());
    assert_eq!(s.active_workspace, 9);
    s.dispatch(Dispatch::NextWorkspace, no_focus());
    assert_eq!(s.active_workspace, 0);
    s.dispatch(Dispatch::NextWorkspace, no_focus());
    s.dispatch(Dispatch::PreviousWorkspace, no_focus());
    assert_eq!(s.active_workspace, 0);
    let (_, r) = s.dispatch(Dispatch::FocusWorkspace(3), no_focus());
    assert!(r.is_ok());
    assert_eq!(s.active_workspace, 2);
    for bad in [0usize, 11] {
        let (effect, r) = s.dispatch(Dispatch::FocusWorkspace(bad), no_focus());
        assert!(matches!(effect, Effect::Done));
        assert!(matches!(r, Err(DispatchError::InvalidWorkspace(n)) if n == bad));
        assert_eq!(s.active_workspace, 2);
    }
}

#[test]
fn dispatch_reports_what_is_left_to_do() {
    let mut s = state();
    assert!(matches!(s.dispatch(Dispatch::CloseFocused, no_focus()), (Effect::Done, Err(DispatchError::NoFocusedWindow))));
    assert!(matches!(s.dispatch(Dispatch::MinimizeFocused, no_focus()), (Effect::Done, Err(DispatchError::NoFocusedWindow))));
    assert!(matches!(s.dispatch(Dispatch::RestoreLastMinimized, no_focus()), (Effect::Done, Err(DispatchError::NoMinimizedWindow))));
    assert!(matches!(s.dispatch(Dispatch::Spawn(Vec::new()), no_focus()), (Effect::Done, Err(DispatchError::EmptyCommand))));
    assert!(matches!(s.dispatch(Dispatch::Spawn(vec!["kitty".to_string()]), no_focus()), (Effect::Spawn(argv), Ok(())) if argv == vec!["kitty".to_string()]));
    assert!(matches!(s.dispatch(Dispatch::ReloadConfig, no_focus()), (Effect::Reload, Ok(()))));
    assert!(matches!(s.dispatch(Dispatch::Quit, no_focus()), (Effect::Quit, Ok(()))));
    assert!(matches!(s.dispatch(Dispatch::FocusWindow(WindowId(5)), no_focus()), (Effect::Focus(_), Err(DispatchError::UnknownWindow(WindowId(5))))));
    assert!(matches!(s.dispatch(Dispatch::RestoreWindow(WindowId(5)), no_focus()), (Effect::Done, Err(DispatchError::UnknownWindow(WindowId(5))))));

    let id = s.add_window(None, None, hints()).id;
    let focused = DispatchContext { focused: Some(id), target_focusable: true };
    assert!(matches!(s.dispatch(Dispatch::CloseFocused, focused), (Effect::Close(w), Ok(())) if w == id));
    let (effect, r) = s.dispatch(Dispatch::MinimizeFocused, focused);
    assert!(r.is_ok());
    assert!(matches!(effect, Effect::Minimized(c) if c.window == id && c.changed && c.relayout));
    assert!(matches!(s.dispatch(Dispatch::FocusWindow(id), focused), (Effect::Focus(_), Err(DispatchError::MinimizedWindow(w))) if w == id));
    assert!(matches!(s.dispatch(Dispatch::RestoreLastMinimized, no_focus()), (Effect::Relayout, Ok(()))));
    assert!(matches!(s.dispatch(Dispatch::FocusWindow(id), no_focus()), (Effect::Focus(o), Ok(())) if o.focus));
}

#[test]
fn queries_count_workspaces_from_one() {
    let mut s = state();
    let a = s.add_window(None, None, hints()).id;
    s.minimize_window(a);
    let b = s.add_window(None, None, hints()).id;
    let labels = vec![WindowLabel { id: b, title: "Terminal".to_string(), app_id: "kitty".to_string() }];
    let version = ProtocolVersion { major: 1, minor: 0 };
    let answer = |s: &Villain, q: DesktopQuery| s.answer_query(q, Some(b), &labels, version, "villain 0.1.0".to_string());
    match answer(&s, DesktopQuery::ActiveWorkspace) {
        Some(DesktopResponse::ActiveWorkspace(w)) => assert_eq!(w, WorkspaceId(1)),
        other => panic!("unexpected {other:?}"),
    }
    match answer(&s, DesktopQuery::Workspaces) {
        Some(DesktopResponse::Workspaces(ws)) => {
            assert_eq!(ws.len(), 10);
            assert_eq!(ws[0].workspace, WorkspaceId(1));
            assert!(ws[0].active);
            assert_eq!(ws[0].window_count, 2);
            assert_eq!(ws[0].visible_window_count, 1);
            assert_eq!(ws[9].workspace, WorkspaceId(10));
            assert!(!ws[9].active);
        }
        other => panic!("unexpected {other:?}"),
    }
    match answer(&s, DesktopQuery::Windows) {
        Some(DesktopResponse::Windows(ws)) => {
            assert_eq!(ws.len(), 2);
            assert_eq!(ws[0].id, a);
            assert!(ws[0].minimized && !ws[0].focused);
            assert_eq!(ws[0].title, "");
            assert_eq!(ws[1].id, b);
            assert!(ws[1].focused && !ws[1].minimized);
            assert_eq!(ws[1].title, "Terminal");
            assert_eq!(ws[1].app_id, "kitty");
            assert_eq!(ws[1].workspace, WorkspaceId(1));
        }
        other => panic!("unexpected {other:?}"),
    }
    match answer(&s, DesktopQuery::ActiveWindow) {
        Some(DesktopResponse::ActiveWindow(Some(w))) => assert_eq!(w.id, b),
        other => panic!("unexpected {other:?}"),
    }
    match answer(&s, DesktopQuery::Snapshot) {
        Some(DesktopResponse::Snapshot(snap)) => {
            assert_eq!(snap.generation, 3);
            assert_eq!(snap.windows.len(), 2);
            assert_eq!(snap.workspaces.len(), 10);
        }
        other => panic!("unexpected {other:?}"),
    }
    match answer(&s, DesktopQuery::Version) {
        Some(DesktopResponse::Version { protocol, component }) => {
            assert_eq!(protocol, version);
            assert_eq!(component, "villain 0.1.0");
        }
        other => panic!("unexpected {other:?}"),
    }
    assert!(answer(&s, DesktopQuery::WorkspacePreview { workspace: WorkspaceId(1), width: 10, height: 10 }).is_none());
}

#[test]
fn previews_are_sent_in_base64() {
    match preview_response(WorkspaceId(2), 320, 200, Ok(b"hello".to_vec())) {
        DesktopResponse::WorkspacePreview(p) => {
            assert_eq!(p.workspace, WorkspaceId(2));
            assert_eq!((p.width, p.height), (320, 200));
            assert_eq!(p.png_base64, "aGVsbG8=");
        }
        other => panic!("unexpected {other:?}"),
    }
    match preview_response(WorkspaceId(2), 320, 200, Ok(Vec::new())) {
        DesktopResponse::WorkspacePreview(p) => assert_eq!(p.png_base64, ""),
        other => panic!("unexpected {other:?}"),
    }
    match preview_response(WorkspaceId(2), 320, 200, Err("no renderer".to_string())) {
        DesktopResponse::Error(e) => {
            assert_eq!(e.code, DesktopErrorCode::Unavailable);
            assert_eq!(e.message, "no renderer");
            assert!(e.retryable);
        }
        other => panic!("unexpected {other:?}"),
    }
}

#[test]
fn commands_are_answered_by_their_outcome() {
    assert!(matches!(villain::ipc::command_response(Ok(())), DesktopResponse::Accepted));
    match villain::ipc::command_response(Err(DispatchError::InvalidWorkspace(0))) {
        DesktopResponse::Error(e) => {
            assert_eq!(e.code, DesktopErrorCode::NotFound);
            assert_eq!(e.message, "workspace 0 does not exist");
            assert!(!e.retryable);
        }
        other => panic!("unexpected {other:?}"),
    }
}

#[test]
fn key_bindings_are_validated_before_the_environment_is_read() {
    let refused = RuntimeConfig::load_from(
        "/c/config.toml".to_string(),
        Ok(settings("Invalid", InputConfig::default())),
        None,
        FileRead::Failed("unreadable".to_string()),
    );
    assert_eq!(refused.unwrap_err().message(), "invalid modifier key \"Invalid\"");
    let mut s = settings("Ctrl", InputConfig::default());
    s.bind.push(BindSpec { keys: "MOD+Q".to_string(), dispatch: "close".to_string(), args: Vec::new() });
    s.bind.push(BindSpec { keys: String::new(), dispatch: "quit".to_string(), args: Vec::new() });
    let refused = RuntimeConfig::load_from("/c/config.toml".to_string(), Ok(s), None, FileRead::NotFound("x".to_string()));
    assert_eq!(refused.unwrap_err().message(), "key binding 2: keys and dispatch must not be empty");
    for modkey in ["Super", "Alt", "Ctrl", "Shift"] {
        assert!(Keybinds::build(modkey.to_string(), Vec::new()).is_ok());
    }
    let empty_command = vec![BindSpec { keys: "MOD+Q".to_string(), dispatch: String::new(), args: Vec::new() }];
    assert_eq!(
        Keybinds::build("Alt".to_string(), empty_command).unwrap_err().message(),
        "key binding 1: keys and dispatch must not be empty"
    );
    assert!(Keybinds::build("super".to_string(), Vec::new()).is_err());
}

#[test]
fn activation_runs_its_commands_in_order() {
    let mut s = state();
    prepare_environment(&mut s, None, None);
    let published = activation_environment(&s);
    let commands = villain::session::activation_commands(&published, false);
    assert_eq!(commands.len(), 2);
    assert_eq!(commands[0].0, "systemctl");
    assert_eq!(
        commands[0].1,
        vec!["--user", "import-environment", "WAYLAND_DISPLAY", "DISPLAY", "XDG_CURRENT_DESKTOP", "XDG_SESSION_DESKTOP", "XDG_SESSION_TYPE"]
    );
    assert_eq!(commands[1].0, "dbus-update-activation-environment");
    assert_eq!(commands[1].1[0], "--systemd");
    assert_eq!(commands[1].1[1], "WAYLAND_DISPLAY=wayland-1");
    assert_eq!(commands[1].1.len(), 6);
    let commands = villain::session::activation_commands(&published, true);
    assert_eq!(commands.len(), 4);
    assert_eq!(commands[2].1, vec!["--user", "try-restart", "--no-block", "xdg-desktop-portal-gtk.service"]);
    assert_eq!(commands[3].1, vec!["--user", "try-restart", "--no-block", "xdg-desktop-portal.service"]);
}

#[test]
fn activation_stops_after_a_cancelled_command() {
    let mut s = state();
    prepare_environment(&mut s, None, None);
    let published = activation_environment(&s);
    let next = |outcomes: &Vec<bool>| villain::session::next_activation_command(&published, true, outcomes);
    let first = next(&vec![]).unwrap();
    assert_eq!(first.0, "systemctl");
    assert_eq!(first.1[1], "import-environment");
    assert_eq!(next(&vec![true]).unwrap().0, "dbus-update-activation-environment");
    assert_eq!(next(&vec![true, true]).unwrap().1[3], "xdg-desktop-portal-gtk.service");
    assert_eq!(next(&vec![true, true, true]).unwrap().1[3], "xdg-desktop-portal.service");
    assert!(next(&vec![true, true, true, true]).is_none());
    assert!(next(&vec![false]).is_none());
    assert!(next(&vec![true, false]).is_none());
    assert!(villain::session::next_activation_command(&published, false, &vec![true, true]).is_none());
}

#[test]
fn at_most_sixteen_clients_are_served_at_once() {
    let mut slots = villain::ipc::ConnectionSlots::new();
    for _ in 0..16 {
        assert!(slots.try_admit());
    }
    assert!(!slots.try_admit());
    assert_eq!(slots.active, 16);
    slots.release();
    assert!(slots.try_admit());
    let mut empty = villain::ipc::ConnectionSlots::new();
    empty.release();
    assert_eq!(empty.active, 0);
}
