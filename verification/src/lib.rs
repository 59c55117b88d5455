//! Window-management policy, configuration and session rules of the Villain
//! compositor, stated and proved with Verus.
pub mod config;
pub mod dispatch;
pub mod environment;
pub mod focus;
pub mod ipc;
pub mod laws;
pub mod layout;
pub mod protocol;
pub mod session;
pub mod state;
pub mod text;
pub mod workspaces;
