//! The daemon's request and response bodies and its configuration.
use vstd::prelude::*;

use crate::clock::UtcTimestamp;
use crate::store::{ManagedWorktree, SessionKind, Workspace};

verus! {

/// Which optional routes the daemon serves.
#[derive(Debug, Clone, Copy)]
pub struct AppConfig {
    pub terminal_renderer_v1_enabled: bool,
}

impl Default for AppConfig {
    fn default() -> (r: Self)
        ensures
            !r.terminal_renderer_v1_enabled,
    {
        AppConfig { terminal_renderer_v1_enabled: false }
    }
}

/// A session as the API shows it: its metadata, workspace and worktree, and its runtime times.
#[derive(Debug, Clone)]
pub struct Session {
    pub id: String,
    pub name: String,
    pub state: String,
    pub created_at: String,
    pub last_activity_at: String,
    pub kind: SessionKind,
    pub workspace: Workspace,
    pub managed_worktree: Option<ManagedWorktree>,
}

/// The answer of `GET /health`.
#[derive(Debug, Clone)]
pub struct HealthResponse {
    pub status: &'static str,
    pub ready: bool,
    pub now: String,
}

impl HealthResponse {
    /// A ready daemon at time `now`.
    pub fn ready_at(now: String) -> (r: Self)
        ensures
            r.status@ == "ok"@,
            r.ready,
            r.now@ == now@,
    {
        HealthResponse { status: "ok", ready: true, now }
    }
}

#[derive(Debug, Clone)]
pub struct CreateSessionRequest {
    pub name: Option<String>,
    pub workspace_id: String,
    pub kind: SessionKind,
    pub managed_worktree_id: Option<String>,
}

#[derive(Debug, Clone)]
pub struct RegisterWorkspaceRequest {
    pub name: Option<String>,
    pub root_path: String,
}

#[derive(Debug, Clone)]
pub struct CreateManagedWorktreeRequest {
    pub source_ref: String,
    pub branch_name: String,
}

/// A session lifecycle notification pushed to `/ws/events` subscribers.
#[derive(Debug, Clone)]
pub struct LifecycleEvent {
    pub event_id: String,
    pub event_type: String,
    pub occurred_at: String,
    pub session_id: String,
}

/// The tmux-backed session runtime.
#[derive(Debug, Clone, Copy)]
pub struct TmuxRuntime;

/// A session as the runtime reports it.
#[derive(Debug, Clone)]
pub struct RuntimeSession {
    pub runtime_name: String,
    pub created_at: UtcTimestamp,
    pub last_activity_at: UtcTimestamp,
}

} // verus!
