//! The values of the desktop protocol that Villain answers over its IPC
//! socket: commands, queries, and their responses.
use vstd::prelude::*;

use crate::workspaces::{WindowId, WorkspaceId};

verus! {

/// A command of the desktop protocol.
#[derive(Debug)]
pub enum DesktopCommand {
    ReloadConfiguration,
    CloseFocused,
    MinimizeFocused,
    RestoreLastMinimized,
    FocusWorkspace { workspace: WorkspaceId },
    FocusWindow { window: WindowId },
    RestoreWindow { window: WindowId },
    Spawn { argv: Vec<String> },
    Quit,
}

/// A query of the desktop protocol.
#[derive(Clone, Copy, Debug, PartialEq, Eq, Structural)]
pub enum DesktopQuery {
    Snapshot,
    Windows,
    Workspaces,
    ActiveWindow,
    ActiveWorkspace,
    WorkspacePreview { workspace: WorkspaceId, width: u32, height: u32 },
    Version,
}

/// A request: a command or a query.
#[derive(Debug)]
pub enum DesktopRequest {
    Dispatch(DesktopCommand),
    Query(DesktopQuery),
}

/// The class of a refused request.
#[derive(Clone, Copy, Debug, PartialEq, Eq, Structural)]
pub enum DesktopErrorCode {
    InvalidRequest,
    NotFound,
    Unavailable,
    Internal,
}

/// Why a request was refused.
#[derive(Debug)]
pub struct DesktopError {
    pub code: DesktopErrorCode,
    pub message: String,
    pub retryable: bool,
}

/// A protocol version.
#[derive(Clone, Copy, Debug, PartialEq, Eq, Structural)]
pub struct ProtocolVersion {
    pub major: u32,
    pub minor: u32,
}

/// One managed window as the protocol reports it.
#[derive(Debug)]
pub struct WindowSummary {
    pub id: WindowId,
    pub title: String,
    pub app_id: String,
    pub workspace: WorkspaceId,
    pub minimized: bool,
    pub floating: bool,
    pub fullscreen: bool,
    pub focused: bool,
}

/// One workspace as the protocol reports it.
#[derive(Clone, Copy, Debug, PartialEq, Eq, Structural)]
pub struct WorkspaceSummary {
    pub workspace: WorkspaceId,
    pub active: bool,
    pub window_count: u32,
    pub visible_window_count: u32,
}

/// The whole desktop at once.
#[derive(Debug)]
pub struct DesktopSnapshot {
    pub generation: u64,
    pub workspaces: Vec<WorkspaceSummary>,
    pub windows: Vec<WindowSummary>,
}

/// A rendered workspace, PNG-encoded, in Base64.
#[derive(Debug)]
pub struct WorkspacePreview {
    pub workspace: WorkspaceId,
    pub width: u32,
    pub height: u32,
    pub png_base64: String,
}

/// A response of the desktop protocol.
#[derive(Debug)]
pub enum DesktopResponse {
    /// The command was carried out.
    Accepted,
    Error(DesktopError),
    Snapshot(DesktopSnapshot),
    Windows(Vec<WindowSummary>),
    Workspaces(Vec<WorkspaceSummary>),
    ActiveWindow(Option<WindowSummary>),
    ActiveWorkspace(WorkspaceId),
    WorkspacePreview(WorkspacePreview),
    Version { protocol: ProtocolVersion, component: String },
}

/// The title and application id of a window, as its client set them.
#[derive(Debug)]
pub struct WindowLabel {
    pub id: WindowId,
    pub title: String,
    pub app_id: String,
}

} // verus!
