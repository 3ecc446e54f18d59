use amuxd::api::{CreateSessionRequest, RuntimeSession};
use amuxd::clock::UtcTimestamp;
use amuxd::error::AppError;
use amuxd::sessions::{
    assemble_session_list, build_session_response, check_stream_target, check_worktree_belongs,
    created_runtime_session, find_runtime_session, new_stored_session, require_stored_session,
    require_workspace, running_session, runtime_has_session, runtime_session_from_record,
    session_created_event, session_cwd, session_terminated_event, session_worktree_id,
    terminate_step, TerminateStep,
};
use amuxd::store::{ManagedWorktree, SessionKind, StoredSession, Workspace, WorkspaceKind};
use amuxd::tmux::TmuxSessionRecord;

fn at(secs: i64) -> UtcTimestamp {
    UtcTimestamp::from_parts(secs, 0).unwrap()
}

fn runtime(name: &str, created: i64) -> RuntimeSession {
    RuntimeSession { runtime_name: name.to_string(), created_at: at(created), last_activity_at: at(created + 5) }
}

fn workspace(id: &str, kind: WorkspaceKind) -> Workspace {
    Workspace {
        id: id.to_string(),
        name: "demo".to_string(),
        root_path: "/srv/demo".to_string(),
        kind,
        created_at: "2024-01-01T00:00:00Z".to_string(),
    }
}

fn worktree(id: &str, workspace_id: &str) -> ManagedWorktree {
    ManagedWorktree {
        id: id.to_string(),
        workspace_id: workspace_id.to_string(),
        branch_name: "feature-local".to_string(),
        source_ref: "main".to_string(),
        path: "/srv/.amux-worktrees/demo/feature-local".to_string(),
        created_at: "2024-01-01T00:00:00Z".to_string(),
    }
}

fn stored(id: &str, runtime_name: &str, workspace_id: &str, worktree_id: Option<&str>) -> StoredSession {
    StoredSession {
        id: id.to_string(),
        name: format!("name-{id}"),
        runtime_name: runtime_name.to_string(),
        kind: if worktree_id.is_some() { SessionKind::Worktree } else { SessionKind::Local },
        workspace_id: workspace_id.to_string(),
        managed_worktree_id: worktree_id.map(|w| w.to_string()),
        created_at: "2024-01-01T00:00:00Z".to_string(),
    }
}

fn not_found(error: AppError) -> (String, String) {
    match error {
        AppError::NotFound { code, message } => (code, message),
        other => panic!("expected not found, got {other:?}"),
    }
}

fn bad_request_message(error: AppError) -> String {
    match error {
        AppError::BadRequest { message, .. } => message,
        other => panic!("expected a bad request, got {other:?}"),
    }
}

#[test]
fn session_responses_show_runtime_times() {
    let response = build_session_response(
        &stored("s1", "alpha-1", "ws", None),
        &runtime("alpha-1", 1_700_000_000),
        &workspace("ws", WorkspaceKind::Git),
        None,
    );
    assert_eq!(response.id, "s1");
    assert_eq!(response.name, "name-s1");
    assert_eq!(response.state, "running");
    assert_eq!(response.created_at, "2023-11-14T22:13:20Z");
    assert_eq!(response.last_activity_at, "2023-11-14T22:13:25Z");
    assert_eq!(response.kind, SessionKind::Local);
    assert_eq!(response.workspace, workspace("ws", WorkspaceKind::Git));
    assert!(response.managed_worktree.is_none());
}

#[test]
fn session_lists_skip_dead_sessions_and_put_the_newest_first() {
    let stored_sessions = vec![
        stored("old", "rt-old", "ws", None),
        stored("gone", "rt-gone", "ws", None),
        stored("new", "rt-new", "ws", Some("wt")),
    ];
    let runtime_sessions = vec![runtime("rt-old", 100), runtime("rt-new", 200)];
    let list = assemble_session_list(
        &stored_sessions,
        &runtime_sessions,
        &vec![workspace("ws", WorkspaceKind::Git)],
        &vec![worktree("wt", "ws")],
    )
    .unwrap();
    let ids: Vec<&str> = list.iter().map(|s| s.id.as_str()).collect();
    assert_eq!(ids, vec!["new", "old"]);
    assert_eq!(list[0].managed_worktree, Some(worktree("wt", "ws")));
    assert_eq!(list[1].created_at, "1970-01-01T00:01:40Z");
}

#[test]
fn session_lists_keep_stored_order_between_equal_times() {
    let stored_sessions = vec![stored("a", "rt-a", "ws", None), stored("b", "rt-b", "ws", None)];
    let runtime_sessions = vec![runtime("rt-b", 50), runtime("rt-a", 50)];
    let list = assemble_session_list(&stored_sessions, &runtime_sessions, &vec![workspace("ws", WorkspaceKind::Plain)], &vec![])
        .unwrap();
    let ids: Vec<&str> = list.iter().map(|s| s.id.as_str()).collect();
    assert_eq!(ids, vec!["a", "b"]);
}

#[test]
fn session_lists_fail_on_dangling_references() {
    let missing_workspace = assemble_session_list(
        &vec![stored("s1", "rt", "nowhere", None)],
        &vec![runtime("rt", 1)],
        &vec![workspace("ws", WorkspaceKind::Git)],
        &vec![],
    );
    match missing_workspace.unwrap_err() {
        AppError::Runtime(message) => assert_eq!(message, "session s1 references missing workspace nowhere"),
        other => panic!("unexpected {other:?}"),
    }
    let missing_worktree = assemble_session_list(
        &vec![stored("s2", "rt", "ws", Some("wt-x"))],
        &vec![runtime("rt", 1)],
        &vec![workspace("ws", WorkspaceKind::Git)],
        &vec![],
    );
    match missing_worktree.unwrap_err() {
        AppError::Runtime(message) => {
            assert_eq!(message, "session s2 references missing managed worktree wt-x")
        }
        other => panic!("unexpected {other:?}"),
    }
}

#[test]
fn lookups_answer_not_found_with_the_id() {
    assert_eq!(
        not_found(require_workspace(None, "w9").unwrap_err()),
        ("workspace_not_found".to_string(), "workspace not found: w9".to_string())
    );
    assert_eq!(
        not_found(require_stored_session(None, "missing").unwrap_err()),
        ("session_not_found".to_string(), "session not found: missing".to_string())
    );
    let found = require_workspace(Some(workspace("ws", WorkspaceKind::Git)), "ws").unwrap();
    assert_eq!(found.id, "ws");
}

#[test]
fn worktree_sessions_need_a_git_workspace_and_an_owned_worktree() {
    let git = workspace("ws", WorkspaceKind::Git);
    let plain = workspace("ws", WorkspaceKind::Plain);
    let local = CreateSessionRequest { name: None, workspace_id: "ws".to_string(), kind: SessionKind::Local, managed_worktree_id: None };
    assert_eq!(session_worktree_id(&local, &plain).unwrap(), None);
    let wt_request = CreateSessionRequest {
        name: Some("worktree-session".to_string()),
        workspace_id: "ws".to_string(),
        kind: SessionKind::Worktree,
        managed_worktree_id: Some("missing".to_string()),
    };
    assert_eq!(session_worktree_id(&wt_request, &git).unwrap(), Some("missing".to_string()));
    assert_eq!(
        bad_request_message(session_worktree_id(&wt_request, &plain).unwrap_err()),
        "managed worktrees and worktree sessions are only supported for git workspaces"
    );
    let no_id = CreateSessionRequest { managed_worktree_id: None, ..wt_request.clone() };
    assert_eq!(
        bad_request_message(session_worktree_id(&no_id, &git).unwrap_err()),
        "managed_worktree_id is required for worktree sessions"
    );
    assert!(check_worktree_belongs(worktree("wt", "ws"), &git).is_ok());
    assert_eq!(
        bad_request_message(check_worktree_belongs(worktree("wt", "other"), &git).unwrap_err()),
        "managed worktree does not belong to the requested workspace"
    );
    let wt = worktree("wt", "ws");
    assert_eq!(session_cwd(&git, Some(&wt)), "/srv/.amux-worktrees/demo/feature-local");
    assert_eq!(session_cwd(&git, None), "/srv/demo");

    let record = new_stored_session(&wt_request, "worktree-session-1a2b3c4d", &git, Some(&wt));
    assert_eq!(record.id.len(), 36);
    assert_eq!(record.name, "worktree-session");
    assert_eq!(record.runtime_name, "worktree-session-1a2b3c4d");
    assert_eq!(record.kind, SessionKind::Worktree);
    assert_eq!(record.managed_worktree_id, Some("wt".to_string()));
    let unnamed = new_stored_session(&local, "session-00ff00ff", &git, None);
    assert_eq!(unnamed.name, "session-00ff00ff");
    assert_eq!(unnamed.managed_worktree_id, None);
}

#[test]
fn runtime_lookups_find_the_first_match() {
    let list = vec![runtime("a", 1), runtime("b", 2), runtime("b", 3)];
    assert_eq!(find_runtime_session(&list, "b"), Some(1));
    assert_eq!(find_runtime_session(&list, "z"), None);
    assert!(runtime_has_session(&list, "a"));
    assert!(!runtime_has_session(&list, "z"));
    let created = created_runtime_session(list.clone(), "b").unwrap();
    assert_eq!(created.created_at.secs(), 2);
    match created_runtime_session(list.clone(), "z").unwrap_err() {
        AppError::Runtime(message) => assert_eq!(message, "created session missing from runtime"),
        other => panic!("unexpected {other:?}"),
    }
    let s = stored("s1", "b", "ws", None);
    assert_eq!(running_session(list.clone(), &s, "s1").unwrap().created_at.secs(), 2);
    let dead = stored("s2", "zz", "ws", None);
    assert_eq!(
        not_found(running_session(list.clone(), &dead, "s2").unwrap_err()),
        ("session_not_found".to_string(), "session not found: s2".to_string())
    );
    assert!(matches!(terminate_step(&list, &s), TerminateStep::Terminate));
    match terminate_step(&list, &dead) {
        TerminateStep::ForgetMissing(error) => assert_eq!(
            not_found(error),
            ("session_not_found".to_string(), "session not found: s2".to_string())
        ),
        TerminateStep::Terminate => panic!("a missing runtime session cannot be terminated"),
    }
    assert!(check_stream_target(&s, "s1", "b").is_ok());
    assert!(check_stream_target(&s, "s1", "other").is_err());
}

#[test]
fn listing_records_become_runtime_sessions() {
    let session = runtime_session_from_record(TmuxSessionRecord {
        runtime_name: "alpha-1".to_string(),
        created_epoch: 100,
        activity_epoch: 250,
    });
    assert_eq!(session.runtime_name, "alpha-1");
    assert_eq!(session.created_at.secs(), 100);
    assert_eq!(session.last_activity_at.secs(), 250);
    let odd = runtime_session_from_record(TmuxSessionRecord {
        runtime_name: "b".to_string(),
        created_epoch: 100,
        activity_epoch: i64::MAX,
    });
    assert_eq!(odd.last_activity_at.secs(), 100);
}

#[test]
fn lifecycle_events_name_the_session() {
    let created = session_created_event("s1");
    assert_eq!(created.event_type, "session.created");
    assert_eq!(created.session_id, "s1");
    assert_eq!(created.event_id.len(), 36);
    assert!(created.occurred_at.ends_with('Z'));
    let terminated = session_terminated_event("s1");
    assert_eq!(terminated.event_type, "session.terminated");
    assert_ne!(terminated.event_id, created.event_id);
}
