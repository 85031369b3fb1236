//! The identity of a worktree's multiplexer window or session, the pane a
//! command is spawned into, and the recognition of a Codex quota wait on a
//! captured screen.

pub mod command;
pub mod text;
pub mod workflow;
