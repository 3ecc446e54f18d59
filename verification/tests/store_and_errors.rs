use amuxd::clock::{now_rfc3339, to_rfc3339_utc, UtcTimestamp};
use amuxd::error::{
    managed_worktree_not_found_error, session_not_found_error, workspace_not_found_error, AppError,
};
use amuxd::store::{
    basename_for_path, default_store_path, workspace_insert_outcome, worktree_insert_outcome,
    ManagedWorktree, NewManagedWorktree, NewStoredSession, NewWorkspace, SessionKind,
    StoreWriteFailure, StoredSession, Workspace, WorkspaceKind,
};

fn sample_workspace() -> Workspace {
    Workspace {
        id: "ws".to_string(),
        name: "repo".to_string(),
        root_path: "/srv/repo".to_string(),
        kind: WorkspaceKind::Git,
        created_at: "2024-01-01T00:00:00Z".to_string(),
    }
}

#[test]
fn error_constructors_and_status_codes() {
    let bad = AppError::bad_request("root_path is required".to_string());
    assert_eq!(bad.status_code(), 400);
    assert_eq!(bad.message(), "root_path is required");
    let envelope = bad.envelope();
    assert_eq!(envelope.error.code, "invalid_request");
    assert_eq!(envelope.error.message, "root_path is required");

    let missing = AppError::not_found("thing_missing".to_string(), "no thing".to_string());
    assert_eq!(missing.status_code(), 404);
    assert_eq!(missing.envelope().error.code, "thing_missing");

    let clash = AppError::conflict("dup".to_string(), "already there".to_string());
    assert_eq!(clash.status_code(), 409);
    assert_eq!(clash.message(), "already there");

    let failed = AppError::Runtime("disk on fire".to_string());
    assert_eq!(failed.status_code(), 500);
    let body = failed.envelope();
    assert_eq!(body.error.code, "runtime_failure");
    assert_eq!(body.error.message, "disk on fire");
}

#[test]
fn not_found_errors_name_the_missing_id() {
    let session = session_not_found_error("abc").envelope();
    assert_eq!(session.error.code, "session_not_found");
    assert_eq!(session.error.message, "session not found: abc");
    let workspace = workspace_not_found_error("w1").envelope();
    assert_eq!(workspace.error.code, "workspace_not_found");
    assert_eq!(workspace.error.message, "workspace not found: w1");
    let worktree = managed_worktree_not_found_error("t1").envelope();
    assert_eq!(worktree.error.code, "managed_worktree_not_found");
    assert_eq!(worktree.error.message, "managed worktree not found: t1");
}

#[test]
fn kinds_round_trip_through_their_stored_names() {
    assert_eq!(WorkspaceKind::Git.as_str(), "git");
    assert_eq!(WorkspaceKind::Plain.as_str(), "none");
    assert_eq!(WorkspaceKind::from_str("git").unwrap(), WorkspaceKind::Git);
    assert_eq!(WorkspaceKind::from_str("none").unwrap(), WorkspaceKind::Plain);
    assert_eq!(SessionKind::Local.as_str(), "local");
    assert_eq!(SessionKind::Worktree.as_str(), "worktree");
    assert_eq!(SessionKind::from_str(SessionKind::Worktree.as_str()).unwrap(), SessionKind::Worktree);
    match WorkspaceKind::from_str("svn").unwrap_err() {
        AppError::Runtime(message) => assert_eq!(message, "unexpected workspace kind in store: svn"),
        other => panic!("unexpected {other:?}"),
    }
    match SessionKind::from_str("remote").unwrap_err() {
        AppError::Runtime(message) => assert_eq!(message, "unexpected session kind in store: remote"),
        other => panic!("unexpected {other:?}"),
    }
}

#[test]
fn base_names_and_store_paths() {
    assert_eq!(basename_for_path("/srv/my-repo"), "my-repo");
    assert_eq!(basename_for_path("/srv/my-repo/"), "my-repo");
    assert_eq!(basename_for_path("/"), "workspace");
    assert_eq!(basename_for_path("/srv/.."), "workspace");
    assert_eq!(basename_for_path("/srv/ "), "workspace");
    assert_eq!(default_store_path("/var/lib/amux"), "/var/lib/amux/control.sqlite");
    assert_eq!(default_store_path("data/"), "data/control.sqlite");
}

#[test]
fn insert_outcomes_map_constraint_failures() {
    assert_eq!(workspace_insert_outcome(sample_workspace(), None).unwrap(), sample_workspace());
    let dup = workspace_insert_outcome(
        sample_workspace(),
        Some(StoreWriteFailure { unique_violation: true, detail: "UNIQUE".to_string() }),
    );
    match dup.unwrap_err() {
        AppError::Conflict { code, message } => {
            assert_eq!(code, "workspace_exists");
            assert_eq!(message, "workspace already registered: /srv/repo");
        }
        other => panic!("unexpected {other:?}"),
    }
    let broken = workspace_insert_outcome(
        sample_workspace(),
        Some(StoreWriteFailure { unique_violation: false, detail: "disk I/O error".to_string() }),
    );
    assert_eq!(broken.unwrap_err().message(), "failed inserting workspace: disk I/O error");

    let worktree = ManagedWorktree::from_new(NewManagedWorktree {
        workspace_id: "ws".to_string(),
        branch_name: "feature-a".to_string(),
        source_ref: "main".to_string(),
        path: "/srv/.amux-worktrees/repo/feature-a".to_string(),
    });
    assert_eq!(worktree.id.len(), 36);
    assert_eq!(worktree.branch_name, "feature-a");
    let clash = worktree_insert_outcome(
        worktree.clone(),
        Some(StoreWriteFailure { unique_violation: true, detail: String::new() }),
    );
    match clash.unwrap_err() {
        AppError::Conflict { code, message } => {
            assert_eq!(code, "managed_branch_exists");
            assert_eq!(message, "managed worktree branch already exists in workspace: feature-a");
        }
        other => panic!("unexpected {other:?}"),
    }
    assert_eq!(
        worktree_insert_outcome(
            worktree.clone(),
            Some(StoreWriteFailure { unique_violation: false, detail: "locked".to_string() })
        )
        .unwrap_err()
        .message(),
        "failed inserting managed worktree: locked"
    );
}

#[test]
fn new_records_get_ids_and_creation_times() {
    let workspace = Workspace::from_new(NewWorkspace {
        name: "repo".to_string(),
        root_path: "/srv/repo".to_string(),
        kind: WorkspaceKind::Git,
    });
    assert_eq!(workspace.id.len(), 36);
    assert_eq!(workspace.name, "repo");
    assert_eq!(workspace.root_path, "/srv/repo");
    assert_eq!(workspace.created_at.len(), "2024-01-01T00:00:00Z".len());
    let session = StoredSession::from_new(NewStoredSession {
        id: "s1".to_string(),
        name: "alpha".to_string(),
        runtime_name: "alpha-12345678".to_string(),
        kind: SessionKind::Local,
        workspace_id: "ws".to_string(),
        managed_worktree_id: None,
    });
    assert_eq!(session.id, "s1");
    assert!(session.created_at.ends_with('Z'));
}

#[test]
fn timestamps_format_as_whole_utc_seconds() {
    assert_eq!(to_rfc3339_utc(UtcTimestamp::from_parts(0, 0).unwrap()), "1970-01-01T00:00:00Z");
    assert_eq!(
        to_rfc3339_utc(UtcTimestamp::from_parts(1_700_000_000, 999_999_999).unwrap()),
        "2023-11-14T22:13:20Z"
    );
    assert_eq!(to_rfc3339_utc(UtcTimestamp::from_parts(-1, 0).unwrap()), "1969-12-31T23:59:59Z");
    assert!(UtcTimestamp::from_parts(i64::MAX, 0).is_none());
    assert!(UtcTimestamp::from_parts(0, 2_000_000_000).is_none());
    let later = UtcTimestamp::from_parts(10, 1).unwrap();
    let earlier = UtcTimestamp::from_parts(10, 0).unwrap();
    assert!(later.is_later_than(&earlier));
    assert!(!earlier.is_later_than(&later));
    assert_eq!((later.secs(), later.nanos()), (10, 1));
    let now = now_rfc3339();
    assert_eq!(now.len(), 20);
    assert!(UtcTimestamp::now().secs() > 1_600_000_000);
}
