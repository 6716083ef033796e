//! `rz`: agent-to-agent messaging over Zellij panes.
//!
//! The library holds what the `rz` tool decides and computes: pane identifiers,
//! the Zellij command lines it runs, the bootstrap text sent to new agents,
//! and the session status summary. Running Zellij is left to the caller.

pub mod text;
pub mod protocol;
pub mod status;
pub mod zellij;
pub mod bootstrap;
pub mod workspace_bootstrap;
pub mod session;
pub mod hub;
pub mod table;

pub use protocol::SENTINEL;
