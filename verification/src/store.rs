//! The records of the control store: workspaces, managed worktrees and sessions, how they
//! are made, and how their kinds are written in the store.
use vstd::prelude::*;

use crate::clock::{chrono_utc_accepts, now_rfc3339, rfc3339_secs_text};
use crate::error::{AppError, AppErrorView};
use crate::ids::new_uuid_string;
use crate::paths::{file_name, join, path_file_name, path_join};
use crate::text::{str_concat, owned, str_eq, trim_spec};

verus! {

#[derive(Debug, Clone, Copy, PartialEq, Eq, Structural)]
pub enum WorkspaceKind {
    Git,
    Plain,
}

impl WorkspaceKind {
    pub open spec fn text(self) -> Seq<char> {
        match self {
            WorkspaceKind::Git => "git"@,
            WorkspaceKind::Plain => "none"@,
        }
    }

    /// How the kind is written in the store.
    pub fn as_str(self) -> (r: &'static str)
        ensures
            r@ == self.text(),
    {
        match self {
            WorkspaceKind::Git => "git",
            WorkspaceKind::Plain => "none",
        }
    }

    pub open spec fn parse_spec(value: Seq<char>) -> Result<WorkspaceKind, AppErrorView> {
        if value == "git"@ {
            Ok(WorkspaceKind::Git)
        } else if value == "none"@ {
            Ok(WorkspaceKind::Plain)
        } else {
            Err(AppErrorView::Runtime("unexpected workspace kind in store: "@ + value))
        }
    }

    /// Reads a kind written in the store.
    pub fn from_str(value: &str) -> (r: Result<Self, AppError>)
        ensures
            match r {
                Ok(k) => Self::parse_spec(value@) == Ok::<WorkspaceKind, AppErrorView>(k),
                Err(e) => Self::parse_spec(value@) == Err::<WorkspaceKind, AppErrorView>(e@),
            },
    {
        if str_eq(value, "git") {
            Ok(WorkspaceKind::Git)
        } else if str_eq(value, "none") {
            Ok(WorkspaceKind::Plain)
        } else {
            Err(AppError::Runtime(str_concat("unexpected workspace kind in store: ", value)))
        }
    }
}

#[derive(Debug, Clone, Copy, PartialEq, Eq, Structural)]
pub enum SessionKind {
    Local,
    Worktree,
}

impl SessionKind {
    pub open spec fn text(self) -> Seq<char> {
        match self {
            SessionKind::Local => "local"@,
            SessionKind::Worktree => "worktree"@,
        }
    }

    /// How the kind is written in the store.
    pub fn as_str(self) -> (r: &'static str)
        ensures
            r@ == self.text(),
    {
        match self {
            SessionKind::Local => "local",
            SessionKind::Worktree => "worktree",
        }
    }

    pub open spec fn parse_spec(value: Seq<char>) -> Result<SessionKind, AppErrorView> {
        if value == "local"@ {
            Ok(SessionKind::Local)
        } else if value == "worktree"@ {
            Ok(SessionKind::Worktree)
        } else {
            Err(AppErrorView::Runtime("unexpected session kind in store: "@ + value))
        }
    }

    /// Reads a kind written in the store.
    pub fn from_str(value: &str) -> (r: Result<Self, AppError>)
        ensures
            match r {
                Ok(k) => Self::parse_spec(value@) == Ok::<SessionKind, AppErrorView>(k),
                Err(e) => Self::parse_spec(value@) == Err::<SessionKind, AppErrorView>(e@),
            },
    {
        if str_eq(value, "local") {
            Ok(SessionKind::Local)
        } else if str_eq(value, "worktree") {
            Ok(SessionKind::Worktree)
        } else {
            Err(AppError::Runtime(str_concat("unexpected session kind in store: ", value)))
        }
    }
}

/// Writing a workspace kind to the store and reading it back gives the kind.
pub proof fn lemma_workspace_kind_round_trip(k: WorkspaceKind)
    ensures
        WorkspaceKind::parse_spec(k.text()) == Ok::<WorkspaceKind, AppErrorView>(k),
{
    reveal_strlit("git");
    reveal_strlit("none");
    assert("git"@.len() == 3);
    assert("none"@.len() == 4);
    assert("git"@ != "none"@);
}

/// Writing a session kind to the store and reading it back gives the kind.
pub proof fn lemma_session_kind_round_trip(k: SessionKind)
    ensures
        SessionKind::parse_spec(k.text()) == Ok::<SessionKind, AppErrorView>(k),
{
    reveal_strlit("local");
    reveal_strlit("worktree");
    assert("local"@.len() == 5);
    assert("worktree"@.len() == 8);
    assert("local"@ != "worktree"@);
}

#[derive(Debug, Clone, Copy, PartialEq, Eq, Structural)]
pub enum SourceRefKind {
    LocalBranch,
    RemoteTrackingBranch,
}

/// A registered workspace directory.
#[derive(Debug, Clone, PartialEq, Eq)]
pub struct Workspace {
    pub id: String,
    pub name: String,
    pub root_path: String,
    pub kind: WorkspaceKind,
    pub created_at: String,
}

/// A git worktree that the daemon created for a workspace.
#[derive(Debug, Clone, PartialEq, Eq)]
pub struct ManagedWorktree {
    pub id: String,
    pub workspace_id: String,
    pub branch_name: String,
    pub source_ref: String,
    pub path: String,
    pub created_at: String,
}

pub struct WorkspaceView {
    pub id: Seq<char>,
    pub name: Seq<char>,
    pub root_path: Seq<char>,
    pub kind: WorkspaceKind,
    pub created_at: Seq<char>,
}

impl View for Workspace {
    type V = WorkspaceView;

    open spec fn view(&self) -> WorkspaceView {
        WorkspaceView {
            id: self.id@,
            name: self.name@,
            root_path: self.root_path@,
            kind: self.kind,
            created_at: self.created_at@,
        }
    }
}

pub struct ManagedWorktreeView {
    pub id: Seq<char>,
    pub workspace_id: Seq<char>,
    pub branch_name: Seq<char>,
    pub source_ref: Seq<char>,
    pub path: Seq<char>,
    pub created_at: Seq<char>,
}

impl View for ManagedWorktree {
    type V = ManagedWorktreeView;

    open spec fn view(&self) -> ManagedWorktreeView {
        ManagedWorktreeView {
            id: self.id@,
            workspace_id: self.workspace_id@,
            branch_name: self.branch_name@,
            source_ref: self.source_ref@,
            path: self.path@,
            created_at: self.created_at@,
        }
    }
}

pub struct StoredSessionView {
    pub id: Seq<char>,
    pub name: Seq<char>,
    pub runtime_name: Seq<char>,
    pub kind: SessionKind,
    pub workspace_id: Seq<char>,
    pub managed_worktree_id: Option<Seq<char>>,
    pub created_at: Seq<char>,
}

impl View for StoredSession {
    type V = StoredSessionView;

    open spec fn view(&self) -> StoredSessionView {
        StoredSessionView {
            id: self.id@,
            name: self.name@,
            runtime_name: self.runtime_name@,
            kind: self.kind,
            workspace_id: self.workspace_id@,
            managed_worktree_id: opt_view(self.managed_worktree_id),
            created_at: self.created_at@,
        }
    }
}

/// A branch a managed worktree can start from.
#[derive(Debug, Clone, PartialEq, Eq)]
pub struct SourceRef {
    pub name: String,
    pub kind: SourceRefKind,
}

/// The stored metadata of a session.
#[derive(Debug, Clone, PartialEq, Eq)]
pub struct StoredSession {
    pub id: String,
    pub name: String,
    pub runtime_name: String,
    pub kind: SessionKind,
    pub workspace_id: String,
    pub managed_worktree_id: Option<String>,
    pub created_at: String,
}

#[derive(Debug, Clone, PartialEq, Eq)]
pub struct NewWorkspace {
    pub name: String,
    pub root_path: String,
    pub kind: WorkspaceKind,
}

#[derive(Debug, Clone, PartialEq, Eq)]
pub struct NewManagedWorktree {
    pub workspace_id: String,
    pub branch_name: String,
    pub source_ref: String,
    pub path: String,
}

#[derive(Debug, Clone, PartialEq, Eq)]
pub struct NewStoredSession {
    pub id: String,
    pub name: String,
    pub runtime_name: String,
    pub kind: SessionKind,
    pub workspace_id: String,
    pub managed_worktree_id: Option<String>,
}

/// The creation time a new record gets: some time that chrono represents, in RFC 3339.
pub open spec fn is_timestamp_text(s: Seq<char>) -> bool {
    exists|t: (int, int)| chrono_utc_accepts(t.0, t.1) && s == rfc3339_secs_text(t.0, t.1)
}

pub open spec fn opt_view(o: Option<String>) -> Option<Seq<char>> {
    match o {
        Some(s) => Some(s@),
        None => None,
    }
}

/// A copy of an optional string.
pub fn clone_opt(o: &Option<String>) -> (r: Option<String>)
    ensures
        opt_view(r) == opt_view(*o),
{
    match o {
        Some(s) => Some(s.clone()),
        None => None,
    }
}

impl Workspace {
    /// The record a new workspace is stored as: a fresh id and the current time.
    pub fn from_new(input: NewWorkspace) -> (r: Self)
        ensures
            crate::ids::is_uuid_text(r.id@),
            r.name@ == input.name@,
            r.root_path@ == input.root_path@,
            r.kind == input.kind,
            is_timestamp_text(r.created_at@),
    {
        Workspace {
            id: new_uuid_string(),
            name: input.name,
            root_path: input.root_path,
            kind: input.kind,
            created_at: now_rfc3339(),
        }
    }

    /// A copy of this workspace.
    pub fn duplicate(&self) -> (r: Self)
        ensures
            r@ == self@,
    {
        Workspace {
            id: self.id.clone(),
            name: self.name.clone(),
            root_path: self.root_path.clone(),
            kind: self.kind,
            created_at: self.created_at.clone(),
        }
    }
}

impl ManagedWorktree {
    /// The record a new managed worktree is stored as: a fresh id and the current time.
    pub fn from_new(input: NewManagedWorktree) -> (r: Self)
        ensures
            crate::ids::is_uuid_text(r.id@),
            r.workspace_id@ == input.workspace_id@,
            r.branch_name@ == input.branch_name@,
            r.source_ref@ == input.source_ref@,
            r.path@ == input.path@,
            is_timestamp_text(r.created_at@),
    {
        ManagedWorktree {
            id: new_uuid_string(),
            workspace_id: input.workspace_id,
            branch_name: input.branch_name,
            source_ref: input.source_ref,
            path: input.path,
            created_at: now_rfc3339(),
        }
    }

    /// A copy of this worktree.
    pub fn duplicate(&self) -> (r: Self)
        ensures
            r@ == self@,
    {
        ManagedWorktree {
            id: self.id.clone(),
            workspace_id: self.workspace_id.clone(),
            branch_name: self.branch_name.clone(),
            source_ref: self.source_ref.clone(),
            path: self.path.clone(),
            created_at: self.created_at.clone(),
        }
    }
}

impl StoredSession {
    /// A copy of this session record.
    pub fn duplicate(&self) -> (r: Self)
        ensures
            r@ == self@,
    {
        StoredSession {
            id: self.id.clone(),
            name: self.name.clone(),
            runtime_name: self.runtime_name.clone(),
            kind: self.kind,
            workspace_id: self.workspace_id.clone(),
            managed_worktree_id: clone_opt(&self.managed_worktree_id),
            created_at: self.created_at.clone(),
        }
    }

    /// The record a new session is stored as: the given fields and the current time.
    pub fn from_new(input: NewStoredSession) -> (r: Self)
        ensures
            r.id@ == input.id@,
            r.name@ == input.name@,
            r.runtime_name@ == input.runtime_name@,
            r.kind == input.kind,
            r.workspace_id@ == input.workspace_id@,
            opt_view(r.managed_worktree_id) == opt_view(input.managed_worktree_id),
            is_timestamp_text(r.created_at@),
    {
        StoredSession {
            id: input.id,
            name: input.name,
            runtime_name: input.runtime_name,
            kind: input.kind,
            workspace_id: input.workspace_id,
            managed_worktree_id: input.managed_worktree_id,
            created_at: now_rfc3339(),
        }
    }
}

/// How an insert into the store failed: by a unique or primary-key constraint, or otherwise
/// (with the error's text).
#[derive(Debug, Clone, PartialEq, Eq)]
pub struct StoreWriteFailure {
    pub unique_violation: bool,
    pub detail: String,
}

/// What registering a workspace answers once the insert ran: the workspace, a
/// `workspace_exists` conflict when its root path is registered already, or a runtime error.
pub fn workspace_insert_outcome(workspace: Workspace, failure: Option<StoreWriteFailure>) -> (r:
    Result<Workspace, AppError>)
    ensures
        match failure {
            None => r matches Ok(w) && w == workspace,
            Some(f) => if f.unique_violation {
                r matches Err(e) && e@ == (AppErrorView::Conflict {
                    code: "workspace_exists"@,
                    message: "workspace already registered: "@ + workspace.root_path@,
                })
            } else {
                r matches Err(e) && e@ == AppErrorView::Runtime(
                    "failed inserting workspace: "@ + f.detail@,
                )
            },
        },
{
    match failure {
        None => Ok(workspace),
        Some(f) => if f.unique_violation {
            Err(
                AppError::conflict(
                    owned("workspace_exists"),
                    str_concat("workspace already registered: ", workspace.root_path.as_str()),
                ),
            )
        } else {
            Err(AppError::Runtime(str_concat("failed inserting workspace: ", f.detail.as_str())))
        },
    }
}

/// What creating a managed worktree record answers once the insert ran: the worktree, a
/// `managed_branch_exists` conflict when its branch exists in the workspace already, or a
/// runtime error.
pub fn worktree_insert_outcome(worktree: ManagedWorktree, failure: Option<StoreWriteFailure>) -> (r:
    Result<ManagedWorktree, AppError>)
    ensures
        match failure {
            None => r matches Ok(w) && w == worktree,
            Some(f) => if f.unique_violation {
                r matches Err(e) && e@ == (AppErrorView::Conflict {
                    code: "managed_branch_exists"@,
                    message: "managed worktree branch already exists in workspace: "@
                        + worktree.branch_name@,
                })
            } else {
                r matches Err(e) && e@ == AppErrorView::Runtime(
                    "failed inserting managed worktree: "@ + f.detail@,
                )
            },
        },
{
    match failure {
        None => Ok(worktree),
        Some(f) => if f.unique_violation {
            Err(
                AppError::conflict(
                    owned("managed_branch_exists"),
                    str_concat(
                        "managed worktree branch already exists in workspace: ",
                        worktree.branch_name.as_str(),
                    ),
                ),
            )
        } else {
            Err(
                AppError::Runtime(
                    str_concat("failed inserting managed worktree: ", f.detail.as_str()),
                ),
            )
        },
    }
}

/// The name a workspace gets from its root path: the path's last component, unless there is
/// none or it is blank, in which case `workspace`.
pub open spec fn basename_spec(path: Seq<char>) -> Seq<char> {
    match path_file_name(path) {
        Some(n) => if trim_spec(n).len() > 0 {
            n
        } else {
            "workspace"@
        },
        None => "workspace"@,
    }
}

pub fn basename_for_path(path: &str) -> (r: String)
    ensures
        r@ == basename_spec(path@),
{
    match file_name(path) {
        Some(n) => {
            let t = crate::text::trim(n.as_str());
            if !t.as_str().is_empty() {
                n
            } else {
                owned("workspace")
            }
        },
        None => owned("workspace"),
    }
}

/// Where the control store lives inside a data directory: `control.sqlite` in it.
pub fn default_store_path(data_dir: &str) -> (r: String)
    ensures
        r@ == path_join(data_dir@, "control.sqlite"@),
{
    join(data_dir, "control.sqlite")
}

} // verus!
