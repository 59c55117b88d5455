use villain::config::InputConfig;
use villain::dispatch::Dispatch;
use villain::environment::{default_environment, parse_environment, EnvironmentMap};
use villain::layout::{master_stack_layout, Point, Size};
use villain::protocol::DesktopCommand;
use villain::workspaces::WorkspaceId;

fn value_of(map: &EnvironmentMap, key: &str) -> Option<String> {
    map.get(&key.to_string()).cloned()
}

fn tile(x: i32, y: i32, w: i32, h: i32) -> (Point, Size) {
    (Point { x, y }, Size { w, h })
}

#[test]
fn defaults_are_wayland_native_and_touchpad_friendly() {
    assert!(InputConfig::default().tap_to_click);
    assert!(InputConfig::default().natural_scroll);
    assert_eq!(value_of(&default_environment(), "XDG_SESSION_TYPE").unwrap(), "wayland");
    assert_eq!(
        value_of(&default_environment(), "ELECTRON_OZONE_PLATFORM_HINT").unwrap(),
        "wayland"
    );
}

#[test]
fn environment_parser_is_data_not_shell() {
    let mut values = EnvironmentMap::new();
    parse_environment(
        "# comment\nexport NAME=Villain\nLITERAL='$HOME and spaces'\n",
        "environment",
        &mut values,
    )
    .unwrap();
    assert_eq!(value_of(&values, "NAME").unwrap(), "Villain");
    assert_eq!(value_of(&values, "LITERAL").unwrap(), "$HOME and spaces");
}

#[test]
fn invalid_environment_line_rejects_complete_load() {
    let mut values = EnvironmentMap::new();
    assert!(parse_environment("NOT VALID=value", "environment", &mut values).is_err());
    assert!(values.is_empty());
}

#[test]
fn ipc_dispatch_maps_to_internal_dispatch() {
    assert_eq!(
        Dispatch::from(DesktopCommand::FocusWorkspace { workspace: WorkspaceId(2) }),
        Dispatch::FocusWorkspace(2)
    );
    assert_eq!(
        Dispatch::from(DesktopCommand::MinimizeFocused),
        Dispatch::MinimizeFocused
    );
}

#[test]
fn master_stack_layouts_zero_to_three_windows() {
    let output = Size { w: 800, h: 600 };
    assert!(master_stack_layout(output, 0).is_empty());
    assert_eq!(master_stack_layout(output, 1), vec![tile(0, 0, 800, 600)]);
    assert_eq!(
        master_stack_layout(output, 2),
        vec![tile(0, 0, 400, 600), tile(400, 0, 400, 600)]
    );
    assert_eq!(
        master_stack_layout(output, 3),
        vec![
            tile(0, 0, 400, 600),
            tile(400, 0, 400, 300),
            tile(400, 300, 400, 300),
        ]
    );
}

#[test]
fn stack_absorbs_integer_remainders() {
    let layout = master_stack_layout(Size { w: 801, h: 601 }, 4);
    assert_eq!(layout[0], tile(0, 0, 400, 601));
    assert_eq!(layout[3], tile(400, 400, 401, 201));
}
