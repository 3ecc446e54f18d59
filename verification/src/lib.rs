//! The session daemon behind a tmux-backed terminal workspace, and the browser terminal
//! that draws its sessions: workspaces and managed git worktrees, sessions and their
//! lifecycle, tmux input and capture, terminal snapshots and their stream of diff frames,
//! and the repaint, palette and input state of the browser renderer.
pub mod error;
pub mod text;
pub mod terminal;
pub mod tmux;
pub mod clock;
pub mod ids;
pub mod paths;
pub mod store;
pub mod workspace;
pub mod sorting;
pub mod api;
pub mod sessions;
pub mod stream;
pub mod screen;
pub mod terminal_io;
pub mod shell;
pub mod web;
