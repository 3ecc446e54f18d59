use amuxd::api::CreateManagedWorktreeRequest;
use amuxd::error::AppError;
use amuxd::store::{ManagedWorktree, SourceRefKind, Workspace, WorkspaceKind};
use amuxd::workspace::{
    check_branch_unused, check_worktree_path_free, classify_workspace_root, ensure_git_workspace,
    git_command_failure, git_top_level_output, new_managed_worktree,
    managed_worktree_path, new_runtime_name, parse_source_ref_line, parse_source_refs,
    plan_managed_worktree, require_directory, runtime_base_name, sanitize_runtime_name, slugify,
    str_lt, workspace_display_name, workspace_root_input, worktree_add_failure,
};

fn workspace(root: &str, kind: WorkspaceKind) -> Workspace {
    Workspace {
        id: "ws-1".to_string(),
        name: "repo".to_string(),
        root_path: root.to_string(),
        kind,
        created_at: "2024-01-01T00:00:00Z".to_string(),
    }
}

fn worktree(branch: &str) -> ManagedWorktree {
    ManagedWorktree {
        id: format!("wt-{branch}"),
        workspace_id: "ws-1".to_string(),
        branch_name: branch.to_string(),
        source_ref: "main".to_string(),
        path: format!("/tmp/.amux-worktrees/repo/{branch}"),
        created_at: "2024-01-01T00:00:00Z".to_string(),
    }
}

fn bad_request_message(error: AppError) -> String {
    match error {
        AppError::BadRequest { code, message } => {
            assert_eq!(code, "invalid_request");
            message
        }
        other => panic!("expected a bad request, got {other:?}"),
    }
}

fn conflict(error: AppError) -> (String, String) {
    match error {
        AppError::Conflict { code, message } => (code, message),
        other => panic!("expected a conflict, got {other:?}"),
    }
}

#[test]
fn slugs_keep_lowercase_alphanumerics_and_single_dashes() {
    assert_eq!(slugify("Feature/Login Page"), "feature-login-page");
    assert_eq!(slugify("--Hello,,  World!!"), "hello-world");
    assert_eq!(slugify("already-ok"), "already-ok");
    assert_eq!(slugify("ÄÖÜ"), "workspace");
    assert_eq!(slugify(""), "workspace");
    assert_eq!(slugify("a__b"), "a-b");
    assert_eq!(slugify(&slugify("Mixed CASE & symbols")), slugify("Mixed CASE & symbols"));
}

#[test]
fn runtime_names_keep_tmux_safe_characters() {
    assert_eq!(sanitize_runtime_name("My Session_1-x"), "mysession_1-x");
    assert_eq!(sanitize_runtime_name("!!!"), "session");
    assert_eq!(runtime_base_name(Some("Alpha Beta")), "alphabeta");
    assert_eq!(runtime_base_name(Some("   ")), "session");
    assert_eq!(runtime_base_name(None), "session");
    assert_eq!(runtime_base_name(Some("é")), "session");
    let once = sanitize_runtime_name("Dev Box #2_A");
    assert_eq!(once, "devbox2_a");
    assert_eq!(sanitize_runtime_name(&once), once);
}

#[test]
fn fresh_runtime_names_end_in_eight_hex_digits() {
    let name = new_runtime_name(Some("Alpha"));
    assert!(name.starts_with("alpha-"));
    let suffix = &name["alpha-".len()..];
    assert_eq!(suffix.len(), 8);
    assert!(suffix.chars().all(|c| c.is_ascii_hexdigit() && !c.is_ascii_uppercase()));
    let other = new_runtime_name(None);
    assert!(other.starts_with("session-"));
    assert_eq!(other.len(), "session-".len() + 8);
}

#[test]
fn managed_worktrees_live_beside_the_workspace() {
    let ws = workspace("/home/me/My Repo", WorkspaceKind::Git);
    assert_eq!(
        managed_worktree_path(&ws, "Feature/X").unwrap(),
        "/home/me/.amux-worktrees/my-repo/feature-x"
    );
    let root = workspace("/", WorkspaceKind::Git);
    assert_eq!(
        bad_request_message(managed_worktree_path(&root, "x").unwrap_err()),
        "workspace root must have a parent directory for worktree storage"
    );
}

#[test]
fn worktree_plans_check_kind_inputs_and_path() {
    let ws = workspace("/srv/repo", WorkspaceKind::Git);
    let plan = plan_managed_worktree(
        &ws,
        &CreateManagedWorktreeRequest {
            source_ref: " origin/main ".to_string(),
            branch_name: " feature-remote ".to_string(),
        },
    )
    .unwrap();
    assert_eq!(plan.source_ref, "origin/main");
    assert_eq!(plan.branch_name, "feature-remote");
    assert_eq!(plan.path, "/srv/.amux-worktrees/repo/feature-remote");

    let plain = workspace("/srv/plain", WorkspaceKind::Plain);
    let refused = plan_managed_worktree(
        &plain,
        &CreateManagedWorktreeRequest { source_ref: "main".to_string(), branch_name: "feature-a".to_string() },
    );
    assert_eq!(
        bad_request_message(refused.unwrap_err()),
        "managed worktrees and worktree sessions are only supported for git workspaces"
    );
    let no_ref = plan_managed_worktree(
        &ws,
        &CreateManagedWorktreeRequest { source_ref: "  ".to_string(), branch_name: "b".to_string() },
    );
    assert_eq!(bad_request_message(no_ref.unwrap_err()), "source_ref is required");
    let no_branch = plan_managed_worktree(
        &ws,
        &CreateManagedWorktreeRequest { source_ref: "main".to_string(), branch_name: "".to_string() },
    );
    assert_eq!(bad_request_message(no_branch.unwrap_err()), "branch_name is required");
}

#[test]
fn worktree_conflicts_are_reported() {
    assert!(check_worktree_path_free("/a/b", false).is_ok());
    assert_eq!(
        conflict(check_worktree_path_free("/a/b", true).unwrap_err()),
        (
            "managed_worktree_path_exists".to_string(),
            "managed worktree path already exists: /a/b".to_string()
        )
    );
    let existing = vec![worktree("feature-a"), worktree("feature-b")];
    assert!(check_branch_unused(&existing, "feature-c").is_ok());
    assert_eq!(
        conflict(check_branch_unused(&existing, "feature-b").unwrap_err()),
        (
            "managed_branch_exists".to_string(),
            "managed worktree branch already exists in workspace: feature-b".to_string()
        )
    );
    assert_eq!(
        conflict(worktree_add_failure("fatal: a branch named 'x' already exists\n", "x")),
        ("branch_name_conflict".to_string(), "branch_name is not new: x".to_string())
    );
    assert_eq!(
        bad_request_message(worktree_add_failure("  fatal: invalid reference: nope \n", "x")),
        "failed creating managed worktree: fatal: invalid reference: nope"
    );
}

#[test]
fn workspace_roots_are_trimmed_checked_and_classified() {
    assert_eq!(workspace_root_input("  /srv/repo \n").unwrap(), "/srv/repo");
    assert_eq!(bad_request_message(workspace_root_input("   ").unwrap_err()), "root_path is required");
    assert!(require_directory(true).is_ok());
    assert_eq!(
        bad_request_message(require_directory(false).unwrap_err()),
        "workspace root_path must resolve to a directory"
    );
    assert_eq!(
        classify_workspace_root("/srv/repo/sub".to_string(), Some("/srv/repo".to_string())),
        ("/srv/repo".to_string(), WorkspaceKind::Git)
    );
    assert_eq!(
        classify_workspace_root("/srv/plain".to_string(), None),
        ("/srv/plain".to_string(), WorkspaceKind::Plain)
    );
    assert_eq!(workspace_display_name(Some("named".to_string()), "/srv/repo"), "named");
    assert_eq!(workspace_display_name(None, "/srv/repo"), "repo");
    assert!(ensure_git_workspace(&workspace("/srv/repo", WorkspaceKind::Git)).is_ok());
    assert_eq!(
        bad_request_message(ensure_git_workspace(&workspace("/srv/p", WorkspaceKind::Plain)).unwrap_err()),
        "managed worktrees and worktree sessions are only supported for git workspaces"
    );
}

#[test]
fn source_refs_are_listed_by_name_without_symbolic_heads() {
    let stdout = "main|refs/heads/main\n\
                  origin/main|refs/remotes/origin/main\n\
                  origin/HEAD|refs/remotes/origin/HEAD\n\
                  local-only|refs/heads/local-only\n\
                  not a ref line\n";
    let refs = parse_source_refs(stdout);
    let names: Vec<&str> = refs.iter().map(|r| r.name.as_str()).collect();
    assert_eq!(names, vec!["local-only", "main", "origin/main"]);
    assert_eq!(refs[0].kind, SourceRefKind::LocalBranch);
    assert_eq!(refs[1].kind, SourceRefKind::LocalBranch);
    assert_eq!(refs[2].kind, SourceRefKind::RemoteTrackingBranch);

    assert!(parse_source_ref_line("x|refs/remotes/x/HEAD").is_none());
    assert!(parse_source_ref_line("no separator").is_none());
    let split = parse_source_ref_line("a|b|refs/heads/c").unwrap();
    assert_eq!(split.name, "a");
    assert_eq!(split.kind, SourceRefKind::RemoteTrackingBranch);
}

#[test]
fn names_compare_character_by_character() {
    assert!(str_lt("a", "b"));
    assert!(str_lt("main", "main2"));
    assert!(!str_lt("main", "main"));
    assert!(!str_lt("origin/main", "main"));
    assert!(str_lt("", "a"));
}

#[test]
fn git_outputs_are_trimmed() {
    assert_eq!(git_top_level_output(true, "/srv/repo\n"), Some("/srv/repo".to_string()));
    assert_eq!(git_top_level_output(false, "/srv/repo\n"), None);
    match git_command_failure("for-each-ref", " fatal: not a git repository \n") {
        AppError::Runtime(message) => {
            assert_eq!(message, "git for-each-ref failed: fatal: not a git repository")
        }
        other => panic!("unexpected {other:?}"),
    }
}

#[test]
fn planned_worktrees_record_the_workspace_and_plan() {
    let ws = workspace("/srv/repo", WorkspaceKind::Git);
    let plan = plan_managed_worktree(
        &ws,
        &CreateManagedWorktreeRequest {
            source_ref: "origin/main".to_string(),
            branch_name: "feature-remote".to_string(),
        },
    )
    .unwrap();
    let record = new_managed_worktree(&ws, plan);
    assert_eq!(record.workspace_id, "ws-1");
    assert_eq!(record.branch_name, "feature-remote");
    assert_eq!(record.source_ref, "origin/main");
    assert_eq!(record.path, "/srv/.amux-worktrees/repo/feature-remote");
    let stored = ManagedWorktree::from_new(record);
    assert_eq!(stored.workspace_id, "ws-1");
    assert_eq!(stored.path, "/srv/.amux-worktrees/repo/feature-remote");
}

#[test]
fn slugs_keep_letters_and_digits_in_order() {
    let slug = slugify("Ab-3 c!D");
    assert_eq!(slug.replace('-', ""), "ab3cd");
    assert_eq!(slugify("-- !! --"), "workspace");
}
