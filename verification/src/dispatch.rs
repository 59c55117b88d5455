//! The central command interface for compositor state changes.
use vstd::prelude::*;

use crate::focus::FocusWindowOutcome;
use crate::protocol::DesktopCommand;
use crate::state::{has_window, loc_of, Villain, WORKSPACE_COUNT};
use crate::text::{decimal_spec, push_decimal, push_str, string_from_chars};
use crate::workspaces::{
    hidden_spec, in_workspace, minimize_spec, remember_spec, restore_last_spec, restore_spec, WindowChange,
    WindowId,
};

verus! {

/// A command for the compositor.
#[derive(Clone, Debug, PartialEq)]
pub enum Dispatch {
    ReloadConfig,
    CloseFocused,
    MinimizeFocused,
    RestoreLastMinimized,
    /// A one-based workspace number.
    FocusWorkspace(usize),
    PreviousWorkspace,
    NextWorkspace,
    FocusWindow(WindowId),
    RestoreWindow(WindowId),
    Spawn(Vec<String>),
    Quit,
}

/// The dispatch that a desktop command stands for.
pub open spec fn command_dispatch(request: DesktopCommand) -> Dispatch {
    match request {
        DesktopCommand::ReloadConfiguration => Dispatch::ReloadConfig,
        DesktopCommand::CloseFocused => Dispatch::CloseFocused,
        DesktopCommand::MinimizeFocused => Dispatch::MinimizeFocused,
        DesktopCommand::RestoreLastMinimized => Dispatch::RestoreLastMinimized,
        DesktopCommand::FocusWorkspace { workspace } => Dispatch::FocusWorkspace(workspace.0 as usize),
        DesktopCommand::FocusWindow { window } => Dispatch::FocusWindow(window),
        DesktopCommand::RestoreWindow { window } => Dispatch::RestoreWindow(window),
        DesktopCommand::Spawn { argv } => Dispatch::Spawn(argv),
        DesktopCommand::Quit => Dispatch::Quit,
    }
}

impl From<DesktopCommand> for Dispatch {
    fn from(request: DesktopCommand) -> (r: Self) {
        match request {
            DesktopCommand::ReloadConfiguration => Dispatch::ReloadConfig,
            DesktopCommand::CloseFocused => Dispatch::CloseFocused,
            DesktopCommand::MinimizeFocused => Dispatch::MinimizeFocused,
            DesktopCommand::RestoreLastMinimized => Dispatch::RestoreLastMinimized,
            DesktopCommand::FocusWorkspace { workspace } => Dispatch::FocusWorkspace(
                workspace.0 as usize,
            ),
            DesktopCommand::FocusWindow { window } => Dispatch::FocusWindow(window),
            DesktopCommand::RestoreWindow { window } => Dispatch::RestoreWindow(window),
            DesktopCommand::Spawn { argv } => Dispatch::Spawn(argv),
            DesktopCommand::Quit => Dispatch::Quit,
        }
    }
}

impl vstd::std_specs::convert::FromSpecImpl<DesktopCommand> for Dispatch {
    open spec fn obeys_from_spec() -> bool {
        true
    }

    open spec fn from_spec(v: DesktopCommand) -> Self {
        command_dispatch(v)
    }
}

/// Why a command was not carried out.
#[derive(Debug)]
pub enum DispatchError {
    Config(String),
    NoFocusedWindow,
    NoMinimizedWindow,
    InvalidWorkspace(usize),
    UnknownWindow(WindowId),
    MinimizedWindow(WindowId),
    EmptyCommand,
    Spawn(String),
}

/// The message of a dispatch error.
pub open spec fn dispatch_message(e: DispatchError) -> Seq<char> {
    match e {
        DispatchError::Config(m) => "configuration reload failed: "@ + m@,
        DispatchError::NoFocusedWindow => "no window is focused"@,
        DispatchError::NoMinimizedWindow => "no minimized window to restore"@,
        DispatchError::InvalidWorkspace(n) => "workspace "@ + decimal_spec(n as nat) + " does not exist"@,
        DispatchError::UnknownWindow(w) => "window "@ + decimal_spec(w.0 as nat) + " does not exist"@,
        DispatchError::MinimizedWindow(w) => "window "@ + decimal_spec(w.0 as nat)
            + " is minimized; restore it first"@,
        DispatchError::EmptyCommand => "spawn command is empty"@,
        DispatchError::Spawn(m) => "could not spawn command: "@ + m@,
    }
}

impl DispatchError {
    /// The message for the user (what the error displays).
    pub fn message(&self) -> (m: String)
        ensures
            m@ == dispatch_message(*self),
    {
        let mut text: Vec<char> = Vec::new();
        match self {
            DispatchError::Config(e) => {
                push_str(&mut text, "configuration reload failed: ");
                push_str(&mut text, e.as_str());
            },
            DispatchError::NoFocusedWindow => push_str(&mut text, "no window is focused"),
            DispatchError::NoMinimizedWindow => push_str(&mut text, "no minimized window to restore"),
            DispatchError::InvalidWorkspace(n) => {
                push_str(&mut text, "workspace ");
                push_decimal(&mut text, *n as u64);
                push_str(&mut text, " does not exist");
            },
            DispatchError::UnknownWindow(w) => {
                push_str(&mut text, "window ");
                push_decimal(&mut text, w.0);
                push_str(&mut text, " does not exist");
            },
            DispatchError::MinimizedWindow(w) => {
                push_str(&mut text, "window ");
                push_decimal(&mut text, w.0);
                push_str(&mut text, " is minimized; restore it first");
            },
            DispatchError::EmptyCommand => push_str(&mut text, "spawn command is empty"),
            DispatchError::Spawn(e) => {
                push_str(&mut text, "could not spawn command: ");
                push_str(&mut text, e.as_str());
            },
        }
        string_from_chars(&text)
    }
}

/// What the compositor still has to do after a command was decided.
#[derive(Debug)]
pub enum Effect {
    /// Nothing more.
    Done,
    /// Load the configuration again and apply it (`apply_reload`).
    Reload,
    /// Ask the window's client to close it.
    Close(WindowId),
    /// A window was minimized.
    Minimized(WindowChange),
    /// Lay out the active workspace again.
    Relayout,
    /// The active workspace changed: release pointer grabs that leave with
    /// it, hide the old workspace and lay out the new one.
    Switched,
    /// A window is being focused.
    Focus(FocusWindowOutcome),
    /// Launch this command line.
    Spawn(Vec<String>),
    /// Stop the compositor.
    Quit,
}

/// What the compositor knows of the keyboard when it dispatches a command.
#[derive(Clone, Copy, Debug, PartialEq, Eq, Structural)]
pub struct DispatchContext {
    /// The managed window that holds keyboard focus.
    pub focused: Option<WindowId>,
    /// For `FocusWindow`: whether that window has a keyboard surface.
    pub target_focusable: bool,
}

/// The result of a `FocusWindow` dispatch: success when the window is
/// known, neither minimized nor hidden, and has a keyboard surface; an error
/// naming the window otherwise.
pub open spec fn focus_dispatch_ok(
    before: Villain,
    after: Villain,
    id: WindowId,
    focusable: bool,
    o: FocusWindowOutcome,
    res: Result<(), DispatchError>,
) -> bool {
    &&& match o.result {
        Some(true) => res is Ok,
        Some(false) => res matches Err(DispatchError::MinimizedWindow(w)) && w == id,
        None => res matches Err(DispatchError::UnknownWindow(w)) && w == id,
    }
    &&& (o.result is None <==> !has_window(before.desk(), id))
    &&& o.result is None ==> after.desk() == before.desk() && after.active_workspace == before.active_workspace
    &&& (o.result == Some(true) <==> (has_window(before.desk(), id) && focusable && !({
        let (w, i) = loc_of(before.desk(), id);
        let e = before.desk()[w].windows[i];
        e.minimized || hidden_spec(before.desk()[w].windows, e)
    })))
}

/// The workspace after `a`, wrapping from the last to the first.
pub open spec fn next_workspace(a: int) -> int {
    (a + 1) % (WORKSPACE_COUNT as int)
}

/// The workspace before `a`, wrapping from the first to the last.
pub open spec fn previous_workspace(a: int) -> int {
    (a + WORKSPACE_COUNT - 1) % (WORKSPACE_COUNT as int)
}

impl Villain {
    /// Carry out the state change of `dispatch` and say what is left to do.
    /// Workspace numbers are one-based; the previous and next workspace
    /// wrap around.
    pub fn dispatch(&mut self, dispatch: Dispatch, ctx: DispatchContext) -> (r: (
        Effect,
        Result<(), DispatchError>,
    ))
        requires
            old(self).wf(),
        ensures
            final(self).wf(),
            final(self).same_context(&*old(self)),
            final(self).pending_focus_restore == old(self).pending_focus_restore,
            match dispatch {
                Dispatch::ReloadConfig => r.0 is Reload && r.1 is Ok && final(self).desk() == old(
                    self,
                ).desk() && final(self).active_workspace == old(self).active_workspace,
                Dispatch::CloseFocused => final(self).desk() == old(self).desk()
                    && final(self).active_workspace == old(self).active_workspace && match ctx.focused {
                    Some(id) => if in_workspace(old(self).desk()[old(self).active_workspace as int], id) {
                        r.0 == Effect::Close(id) && r.1 is Ok
                    } else {
                        r.0 is Done && r.1 matches Err(DispatchError::NoFocusedWindow)
                    },
                    None => r.0 is Done && r.1 matches Err(DispatchError::NoFocusedWindow),
                },
                Dispatch::MinimizeFocused => final(self).active_workspace == old(self).active_workspace
                    && match ctx.focused {
                    Some(id) => if in_workspace(old(self).desk()[old(self).active_workspace as int], id) {
                        &&& final(self).desk() == minimize_spec(old(self).desk(), id).0
                        &&& r.1 is Ok
                        &&& r.0 == Effect::Minimized(
                            WindowChange {
                                window: id,
                                changed: minimize_spec(old(self).desk(), id).1 is Some,
                                relayout: minimize_spec(old(self).desk(), id).1 == Some(
                                    old(self).active_workspace as int,
                                ),
                            },
                        )
                    } else {
                        r.0 is Done && (r.1 matches Err(DispatchError::NoFocusedWindow))
                            && final(self).desk() == old(self).desk()
                    },
                    None => r.0 is Done && (r.1 matches Err(DispatchError::NoFocusedWindow))
                        && final(self).desk() == old(self).desk(),
                },
                Dispatch::RestoreLastMinimized => {
                    let (w, restored) = restore_last_spec(
                        old(self).desk()[old(self).active_workspace as int],
                    );
                    &&& final(self).active_workspace == old(self).active_workspace
                    &&& final(self).desk() == old(self).desk().update(
                        old(self).active_workspace as int,
                        w,
                    )
                    &&& restored ==> r.0 is Relayout && r.1 is Ok
                    &&& !restored ==> r.0 is Done && r.1 matches Err(
                        DispatchError::NoMinimizedWindow,
                    )
                },
                Dispatch::FocusWorkspace(n) => if 1 <= n <= WORKSPACE_COUNT {
                    &&& r.0 is Switched && r.1 is Ok
                    &&& final(self).active_workspace == n - 1
                    &&& final(self).desk() == match ctx.focused {
                        Some(f) => remember_spec(old(self).desk(), f),
                        None => old(self).desk(),
                    }
                } else {
                    &&& r.0 is Done
                    &&& r.1 matches Err(DispatchError::InvalidWorkspace(m)) && m == n
                    &&& final(self).desk() == old(self).desk()
                    &&& final(self).active_workspace == old(self).active_workspace
                },
                Dispatch::PreviousWorkspace => {
                    &&& r.0 is Switched && r.1 is Ok
                    &&& final(self).active_workspace == previous_workspace(old(self).active_workspace as int)
                    &&& final(self).desk() == match ctx.focused {
                        Some(f) => remember_spec(old(self).desk(), f),
                        None => old(self).desk(),
                    }
                },
                Dispatch::NextWorkspace => {
                    &&& r.0 is Switched && r.1 is Ok
                    &&& final(self).active_workspace == next_workspace(old(self).active_workspace as int)
                    &&& final(self).desk() == match ctx.focused {
                        Some(f) => remember_spec(old(self).desk(), f),
                        None => old(self).desk(),
                    }
                },
                Dispatch::FocusWindow(id) => r.0 matches Effect::Focus(o) && focus_dispatch_ok(
                    *old(self),
                    *final(self),
                    id,
                    ctx.target_focusable,
                    o,
                    r.1,
                ),
                Dispatch::RestoreWindow(id) => {
                    let (d, found, changed) = restore_spec(old(self).desk(), id);
                    &&& final(self).desk() == d
                    &&& final(self).active_workspace == old(self).active_workspace
                    &&& found ==> r.1 is Ok && (if changed && loc_of(old(self).desk(), id).0
                        == old(self).active_workspace {
                        r.0 is Relayout
                    } else {
                        r.0 is Done
                    })
                    &&& !found ==> r.0 is Done && (r.1 matches Err(DispatchError::UnknownWindow(w))
                        && w == id)
                },
                Dispatch::Spawn(argv) => final(self).desk() == old(self).desk()
                    && final(self).active_workspace == old(self).active_workspace && if argv@.len()
                    == 0 {
                    r.0 is Done && r.1 matches Err(DispatchError::EmptyCommand)
                } else {
                    r.0 == Effect::Spawn(argv) && r.1 is Ok
                },
                Dispatch::Quit => r.0 is Quit && r.1 is Ok && final(self).desk() == old(self).desk()
                    && final(self).active_workspace == old(self).active_workspace,
            },
    {
        match dispatch {
            Dispatch::ReloadConfig => (Effect::Reload, Ok(())),
            Dispatch::CloseFocused => match self.close_focused_window(ctx.focused) {
                Some(id) => (Effect::Close(id), Ok(())),
                None => (Effect::Done, Err(DispatchError::NoFocusedWindow)),
            },
            Dispatch::MinimizeFocused => match self.minimize_focused_window(ctx.focused) {
                Some(change) => (Effect::Minimized(change), Ok(())),
                None => (Effect::Done, Err(DispatchError::NoFocusedWindow)),
            },
            Dispatch::RestoreLastMinimized => {
                if self.restore_last_minimized_window() {
                    (Effect::Relayout, Ok(()))
                } else {
                    (Effect::Done, Err(DispatchError::NoMinimizedWindow))
                }
            },
            Dispatch::FocusWorkspace(workspace) => {
                if !(1 <= workspace && workspace <= WORKSPACE_COUNT) {
                    return (Effect::Done, Err(DispatchError::InvalidWorkspace(workspace)));
                }
                self.switch_workspace(workspace - 1, ctx.focused);
                (Effect::Switched, Ok(()))
            },
            Dispatch::PreviousWorkspace => {
                let target = (self.active_workspace + WORKSPACE_COUNT - 1) % WORKSPACE_COUNT;
                self.switch_workspace(target, ctx.focused);
                (Effect::Switched, Ok(()))
            },
            Dispatch::NextWorkspace => {
                let target = (self.active_workspace + 1) % WORKSPACE_COUNT;
                self.switch_workspace(target, ctx.focused);
                (Effect::Switched, Ok(()))
            },
            Dispatch::FocusWindow(window) => {
                let outcome = self.focus_window(window, ctx.focused, ctx.target_focusable);
                let result = match outcome.result {
                    Some(true) => Ok(()),
                    Some(false) => Err(DispatchError::MinimizedWindow(window)),
                    None => Err(DispatchError::UnknownWindow(window)),
                };
                (Effect::Focus(outcome), result)
            },
            Dispatch::RestoreWindow(window) => {
                let (found, relayout) = self.restore_window(window);
                if !found {
                    (Effect::Done, Err(DispatchError::UnknownWindow(window)))
                } else if relayout {
                    (Effect::Relayout, Ok(()))
                } else {
                    (Effect::Done, Ok(()))
                }
            },
            Dispatch::Spawn(argv) => {
                if argv.len() == 0 {
                    (Effect::Done, Err(DispatchError::EmptyCommand))
                } else {
                    (Effect::Spawn(argv), Ok(()))
                }
            },
            Dispatch::Quit => (Effect::Quit, Ok(())),
        }
    }
}

} // verus!
