//! The daemon's error type and the HTTP error envelope it is answered with.
use vstd::prelude::*;

use crate::text::{str_concat, owned};

verus! {

/// An error of the daemon: a refused request, a missing resource, a conflict, or a
/// failure of the runtime or the store.
#[derive(Debug)]
pub enum AppError {
    BadRequest { code: String, message: String },
    NotFound { code: String, message: String },
    Conflict { code: String, message: String },
    Runtime(String),
}

/// What an [`AppError`] holds, as character sequences.
pub enum AppErrorView {
    BadRequest { code: Seq<char>, message: Seq<char> },
    NotFound { code: Seq<char>, message: Seq<char> },
    Conflict { code: Seq<char>, message: Seq<char> },
    Runtime(Seq<char>),
}

impl View for AppError {
    type V = AppErrorView;

    open spec fn view(&self) -> AppErrorView {
        match self {
            AppError::BadRequest { code, message } => AppErrorView::BadRequest {
                code: code@,
                message: message@,
            },
            AppError::NotFound { code, message } => AppErrorView::NotFound {
                code: code@,
                message: message@,
            },
            AppError::Conflict { code, message } => AppErrorView::Conflict {
                code: code@,
                message: message@,
            },
            AppError::Runtime(message) => AppErrorView::Runtime(message@),
        }
    }
}

pub type AppResult<T> = Result<T, AppError>;

/// The body of an error response.
#[derive(Debug, Clone)]
pub struct ErrorBody {
    pub code: String,
    pub message: String,
}

/// The JSON envelope `{ "error": { "code", "message" } }` of an error response.
#[derive(Debug, Clone)]
pub struct ErrorEnvelope {
    pub error: ErrorBody,
}

/// The HTTP status of an error.
pub open spec fn status_of(e: AppErrorView) -> u16 {
    match e {
        AppErrorView::BadRequest { .. } => 400,
        AppErrorView::NotFound { .. } => 404,
        AppErrorView::Conflict { .. } => 409,
        AppErrorView::Runtime(_) => 500,
    }
}

/// The machine-readable code of an error's response body.
pub open spec fn code_of(e: AppErrorView) -> Seq<char> {
    match e {
        AppErrorView::BadRequest { code, .. } => code,
        AppErrorView::NotFound { code, .. } => code,
        AppErrorView::Conflict { code, .. } => code,
        AppErrorView::Runtime(_) => "runtime_failure"@,
    }
}

/// The human-readable message of an error.
pub open spec fn message_of(e: AppErrorView) -> Seq<char> {
    match e {
        AppErrorView::BadRequest { message, .. } => message,
        AppErrorView::NotFound { message, .. } => message,
        AppErrorView::Conflict { message, .. } => message,
        AppErrorView::Runtime(message) => message,
    }
}

impl AppError {
    /// A refused request, with code `invalid_request`.
    pub fn bad_request(message: String) -> (r: Self)
        ensures
            r@ == (AppErrorView::BadRequest { code: "invalid_request"@, message: message@ }),
    {
        AppError::BadRequest { code: owned("invalid_request"), message }
    }

    /// A missing resource.
    pub fn not_found(code: String, message: String) -> (r: Self)
        ensures
            r@ == (AppErrorView::NotFound { code: code@, message: message@ }),
    {
        AppError::NotFound { code, message }
    }

    /// A request that conflicts with what exists.
    pub fn conflict(code: String, message: String) -> (r: Self)
        ensures
            r@ == (AppErrorView::Conflict { code: code@, message: message@ }),
    {
        AppError::Conflict { code, message }
    }

    /// The HTTP status code that answers this error: 400, 404, 409 or 500.
    pub fn status_code(&self) -> (r: u16)
        ensures
            r == status_of(self@),
    {
        match self {
            AppError::BadRequest { .. } => 400,
            AppError::NotFound { .. } => 404,
            AppError::Conflict { .. } => 409,
            AppError::Runtime(_) => 500,
        }
    }

    /// The message of this error, as its `Display` form shows it.
    pub fn message(&self) -> (r: String)
        ensures
            r@ == message_of(self@),
    {
        match self {
            AppError::BadRequest { message, .. } => message.clone(),
            AppError::NotFound { message, .. } => message.clone(),
            AppError::Conflict { message, .. } => message.clone(),
            AppError::Runtime(message) => message.clone(),
        }
    }

    /// The envelope of the response that answers this error.
    pub fn envelope(&self) -> (r: ErrorEnvelope)
        ensures
            r.error.code@ == code_of(self@),
            r.error.message@ == message_of(self@),
    {
        let code = match self {
            AppError::BadRequest { code, .. } => code.clone(),
            AppError::NotFound { code, .. } => code.clone(),
            AppError::Conflict { code, .. } => code.clone(),
            AppError::Runtime(_) => owned("runtime_failure"),
        };
        ErrorEnvelope { error: ErrorBody { code, message: self.message() } }
    }
}

/// A not-found error whose message is `prefix` followed by `id`.
fn not_found_with(code: &str, prefix: &str, id: &str) -> (r: AppError)
    ensures
        r@ == (AppErrorView::NotFound { code: code@, message: prefix@ + id@ }),
{
    AppError::not_found(owned(code), str_concat(prefix, id))
}

/// `session_not_found`: "session not found: {id}".
pub fn session_not_found_error(session_id: &str) -> (r: AppError)
    ensures
        r@ == (AppErrorView::NotFound {
            code: "session_not_found"@,
            message: "session not found: "@ + session_id@,
        }),
{
    not_found_with("session_not_found", "session not found: ", session_id)
}

/// `workspace_not_found`: "workspace not found: {id}".
pub fn workspace_not_found_error(workspace_id: &str) -> (r: AppError)
    ensures
        r@ == (AppErrorView::NotFound {
            code: "workspace_not_found"@,
            message: "workspace not found: "@ + workspace_id@,
        }),
{
    not_found_with("workspace_not_found", "workspace not found: ", workspace_id)
}

/// `managed_worktree_not_found`: "managed worktree not found: {id}".
pub fn managed_worktree_not_found_error(managed_worktree_id: &str) -> (r: AppError)
    ensures
        r@ == (AppErrorView::NotFound {
            code: "managed_worktree_not_found"@,
            message: "managed worktree not found: "@ + managed_worktree_id@,
        }),
{
    not_found_with("managed_worktree_not_found", "managed worktree not found: ", managed_worktree_id)
}

/// A bad request with code `invalid_request` and a fixed message.
pub fn bad_request_str(message: &str) -> (r: AppError)
    ensures
        r@ == (AppErrorView::BadRequest { code: "invalid_request"@, message: message@ }),
{
    AppError::bad_request(owned(message))
}

/// A runtime failure with a fixed message.
pub fn runtime_str(message: &str) -> (r: AppError)
    ensures
        r@ == AppErrorView::Runtime(message@),
{
    AppError::Runtime(owned(message))
}

} // verus!
