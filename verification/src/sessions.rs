//! Sessions as the API shows them: how stored metadata, the runtime's view of a session,
//! its workspace and its worktree combine, and what creating, reading, listing and
//! terminating a session decides.
use vstd::prelude::*;

use crate::api::{CreateSessionRequest, LifecycleEvent, RuntimeSession, Session};
use crate::clock::{now_rfc3339, rfc3339_secs_text, time_lt, to_rfc3339_utc, UtcTimestamp};
use crate::error::{
    bad_request_str, managed_worktree_not_found_error, runtime_str, session_not_found_error,
    workspace_not_found_error, AppError, AppErrorView,
};
use crate::ids::new_uuid_string;
use crate::sorting::{
    lemma_insert_stable_at, lemma_stable_sort_sorted, stable_sort, strict_weak_order,
};
use crate::store::{
    opt_view, ManagedWorktree, ManagedWorktreeView, NewStoredSession, SessionKind,
    StoredSession, StoredSessionView, Workspace, WorkspaceKind, WorkspaceView,
};
use crate::text::{str_concat, owned, str_eq};
use crate::tmux::TmuxSessionRecord;
use crate::workspace::ensure_git_workspace;

verus! {

pub struct SessionView {
    pub id: Seq<char>,
    pub name: Seq<char>,
    pub state: Seq<char>,
    pub created_at: Seq<char>,
    pub last_activity_at: Seq<char>,
    pub kind: SessionKind,
    pub workspace: WorkspaceView,
    pub managed_worktree: Option<ManagedWorktreeView>,
}

pub open spec fn opt_worktree_view(o: Option<ManagedWorktree>) -> Option<ManagedWorktreeView> {
    match o {
        Some(w) => Some(w@),
        None => None,
    }
}

impl View for Session {
    type V = SessionView;

    open spec fn view(&self) -> SessionView {
        SessionView {
            id: self.id@,
            name: self.name@,
            state: self.state@,
            created_at: self.created_at@,
            last_activity_at: self.last_activity_at@,
            kind: self.kind,
            workspace: self.workspace@,
            managed_worktree: opt_worktree_view(self.managed_worktree),
        }
    }
}

pub struct RuntimeSessionView {
    pub runtime_name: Seq<char>,
    pub created_at: (int, int),
    pub last_activity_at: (int, int),
}

impl View for RuntimeSession {
    type V = RuntimeSessionView;

    open spec fn view(&self) -> RuntimeSessionView {
        RuntimeSessionView {
            runtime_name: self.runtime_name@,
            created_at: self.created_at@,
            last_activity_at: self.last_activity_at@,
        }
    }
}

// ---------------------------------------------------------------------------------------------
// Runtime sessions
// ---------------------------------------------------------------------------------------------

/// What a runtime session read from a listing record holds: the record's name; its creation
/// second when chrono represents it (else the time of reading); its activity second when
/// chrono represents it, else the creation time.
pub open spec fn read_from_record(r: RuntimeSession, record: TmuxSessionRecord) -> bool {
    &&& r.runtime_name@ == record.runtime_name@
    &&& crate::clock::chrono_utc_accepts(record.created_epoch as int, 0) ==> r.created_at@ == (
        record.created_epoch as int,
        0int,
    )
    &&& crate::clock::chrono_utc_accepts(record.activity_epoch as int, 0) ==> r.last_activity_at@
        == (record.activity_epoch as int, 0int)
    &&& !crate::clock::chrono_utc_accepts(record.activity_epoch as int, 0) ==> r.last_activity_at@
        == r.created_at@
}

/// The runtime session a listing record describes. A creation second that chrono does not
/// represent is replaced by the current time; an activity second that it does not represent
/// by the creation time.
pub fn runtime_session_from_record(record: TmuxSessionRecord) -> (r: RuntimeSession)
    ensures
        read_from_record(r, record),
{
    let created_at = match UtcTimestamp::from_parts(record.created_epoch, 0) {
        Some(t) => t,
        None => UtcTimestamp::now(),
    };
    let last_activity_at = match UtcTimestamp::from_parts(record.activity_epoch, 0) {
        Some(t) => t,
        None => created_at,
    };
    RuntimeSession { runtime_name: record.runtime_name, created_at, last_activity_at }
}

/// The runtime sessions of a whole listing, in listing order.
pub fn runtime_sessions_from_records(records: Vec<TmuxSessionRecord>) -> (r: Vec<RuntimeSession>)
    ensures
        r@.len() == records@.len(),
        forall|i: int| 0 <= i < records@.len() ==> read_from_record(#[trigger] r@[i], records@[i]),
{
    let mut out: Vec<RuntimeSession> = Vec::new();
    let mut i: usize = 0;
    while i < records.len()
        invariant
            i <= records@.len(),
            out@.len() == i,
            forall|k: int| 0 <= k < i ==> read_from_record(#[trigger] out@[k], records@[k]),
        decreases records@.len() - i,
    {
        let rec = TmuxSessionRecord {
            runtime_name: records[i].runtime_name.clone(),
            created_epoch: records[i].created_epoch,
            activity_epoch: records[i].activity_epoch,
        };
        out.push(runtime_session_from_record(rec));
        i += 1;
    }
    out
}

/// The position of the first runtime session named `name`.
pub fn find_runtime_session(list: &Vec<RuntimeSession>, name: &str) -> (r: Option<usize>)
    ensures
        match r {
            Some(i) => i < list@.len() && list@[i as int].runtime_name@ == name@ && forall|k: int|
                0 <= k < i ==> #[trigger] list@[k].runtime_name@ != name@,
            None => forall|k: int|
                0 <= k < list@.len() ==> #[trigger] list@[k].runtime_name@ != name@,
        },
{
    let mut i: usize = 0;
    while i < list.len()
        invariant
            i <= list@.len(),
            forall|k: int| 0 <= k < i ==> #[trigger] list@[k].runtime_name@ != name@,
        decreases list@.len() - i,
    {
        if str_eq(list[i].runtime_name.as_str(), name) {
            return Some(i);
        }
        i += 1;
    }
    None
}

/// The session that `create` just made, looked up by name in the runtime's listing.
pub fn created_runtime_session(list: Vec<RuntimeSession>, name: &str) -> (r: Result<
    RuntimeSession,
    AppError,
>)
    ensures
        match r {
            Ok(s) => exists|i: int|
                0 <= i < list@.len() && list@[i] == s && s.runtime_name@ == name@ && forall|k: int|
                    0 <= k < i ==> #[trigger] list@[k].runtime_name@ != name@,
            Err(e) => e@ == AppErrorView::Runtime("created session missing from runtime"@)
                && forall|k: int| 0 <= k < list@.len() ==> #[trigger] list@[k].runtime_name@ != name@,
        },
{
    match find_runtime_session(&list, name) {
        Some(i) => {
            let ghost l = list@;
            let mut list = list;
            let s = list.swap_remove(i);
            assert(l[i as int] == s);
            Ok(s)
        },
        None => Err(runtime_str("created session missing from runtime")),
    }
}

// ---------------------------------------------------------------------------------------------
// Session responses
// ---------------------------------------------------------------------------------------------

pub open spec fn session_response_spec(
    stored: StoredSessionView,
    runtime: RuntimeSessionView,
    workspace: WorkspaceView,
    managed_worktree: Option<ManagedWorktreeView>,
) -> SessionView {
    SessionView {
        id: stored.id,
        name: stored.name,
        state: "running"@,
        created_at: rfc3339_secs_text(runtime.created_at.0, runtime.created_at.1),
        last_activity_at: rfc3339_secs_text(runtime.last_activity_at.0, runtime.last_activity_at.1),
        kind: stored.kind,
        workspace,
        managed_worktree,
    }
}

/// A running session as the API shows it.
pub fn build_session_response(
    stored: &StoredSession,
    runtime: &RuntimeSession,
    workspace: &Workspace,
    managed_worktree: Option<&ManagedWorktree>,
) -> (r: Session)
    ensures
        r@ == session_response_spec(
            stored@,
            runtime@,
            workspace@,
            match managed_worktree {
                Some(w) => Some(w@),
                None => None,
            },
        ),
{
    Session {
        id: stored.id.clone(),
        name: stored.name.clone(),
        state: owned("running"),
        created_at: to_rfc3339_utc(runtime.created_at),
        last_activity_at: to_rfc3339_utc(runtime.last_activity_at),
        kind: stored.kind,
        workspace: workspace.duplicate(),
        managed_worktree: match managed_worktree {
            Some(w) => Some(w.duplicate()),
            None => None,
        },
    }
}

// ---------------------------------------------------------------------------------------------
// Listing
// ---------------------------------------------------------------------------------------------

pub open spec fn runtime_sessions_view(v: Seq<RuntimeSession>) -> Seq<RuntimeSessionView> {
    v.map_values(|x: RuntimeSession| x@)
}

pub open spec fn workspaces_view(v: Seq<Workspace>) -> Seq<WorkspaceView> {
    v.map_values(|x: Workspace| x@)
}

pub open spec fn worktrees_view(v: Seq<ManagedWorktree>) -> Seq<ManagedWorktreeView> {
    v.map_values(|x: ManagedWorktree| x@)
}

pub open spec fn stored_view(v: Seq<StoredSession>) -> Seq<StoredSessionView> {
    v.map_values(|x: StoredSession| x@)
}

/// The last runtime session named `name`: what a map keyed by name keeps.
pub open spec fn last_runtime_named(list: Seq<RuntimeSessionView>, name: Seq<char>) -> Option<
    RuntimeSessionView,
>
    decreases list.len(),
{
    if list.len() == 0 {
        None
    } else if list.last().runtime_name == name {
        Some(list.last())
    } else {
        last_runtime_named(list.drop_last(), name)
    }
}

/// The last workspace with id `id`: what a map keyed by id keeps.
pub open spec fn last_workspace_with_id(list: Seq<WorkspaceView>, id: Seq<char>) -> Option<
    WorkspaceView,
>
    decreases list.len(),
{
    if list.len() == 0 {
        None
    } else if list.last().id == id {
        Some(list.last())
    } else {
        last_workspace_with_id(list.drop_last(), id)
    }
}

/// The last worktree with id `id`: what a map keyed by id keeps.
pub open spec fn last_worktree_with_id(list: Seq<ManagedWorktreeView>, id: Seq<char>) -> Option<
    ManagedWorktreeView,
>
    decreases list.len(),
{
    if list.len() == 0 {
        None
    } else if list.last().id == id {
        Some(list.last())
    } else {
        last_worktree_with_id(list.drop_last(), id)
    }
}

/// The sessions listed so far, each with its runtime creation time, or the error that
/// stops the listing. Sessions that the runtime no longer has are left out.
pub open spec fn listed_state(
    stored: Seq<StoredSessionView>,
    runtime: Seq<RuntimeSessionView>,
    workspaces: Seq<WorkspaceView>,
    worktrees: Seq<ManagedWorktreeView>,
) -> Result<Seq<((int, int), SessionView)>, AppErrorView>
    decreases stored.len(),
{
    if stored.len() == 0 {
        Ok(seq![])
    } else {
        match listed_state(stored.drop_last(), runtime, workspaces, worktrees) {
            Err(e) => Err(e),
            Ok(acc) => {
                let s = stored.last();
                match last_runtime_named(runtime, s.runtime_name) {
                    None => Ok(acc),
                    Some(rt) => match last_workspace_with_id(workspaces, s.workspace_id) {
                        None => Err(
                            AppErrorView::Runtime(
                                "session "@ + s.id + " references missing workspace "@
                                    + s.workspace_id,
                            ),
                        ),
                        Some(ws) => match s.managed_worktree_id {
                            None => Ok(
                                acc.push((rt.created_at, session_response_spec(s, rt, ws, None))),
                            ),
                            Some(wid) => match last_worktree_with_id(worktrees, wid) {
                                None => Err(
                                    AppErrorView::Runtime(
                                        "session "@ + s.id + " references missing managed worktree "@
                                            + wid,
                                    ),
                                ),
                                Some(wt) => Ok(
                                    acc.push(
                                        (rt.created_at, session_response_spec(s, rt, ws, Some(wt))),
                                    ),
                                ),
                            },
                        },
                    },
                }
            },
        }
    }
}

/// Sessions created later come first.
pub open spec fn later_first(a: ((int, int), SessionView), b: ((int, int), SessionView)) -> bool {
    time_lt(b.0, a.0)
}

/// `GET /sessions`: the stored sessions that the runtime still has, newest runtime creation
/// first (stably, so equal times keep the store's order), or the first missing workspace or
/// worktree that a listed session refers to.
pub open spec fn session_list_spec(
    stored: Seq<StoredSessionView>,
    runtime: Seq<RuntimeSessionView>,
    workspaces: Seq<WorkspaceView>,
    worktrees: Seq<ManagedWorktreeView>,
) -> Result<Seq<SessionView>, AppErrorView> {
    match listed_state(stored, runtime, workspaces, worktrees) {
        Err(e) => Err(e),
        Ok(acc) => Ok(
            stable_sort(acc, |a, b| later_first(a, b)).map_values(
                |p: ((int, int), SessionView)| p.1,
            ),
        ),
    }
}

/// The listing puts newer sessions first: no listed session was created before one listed
/// after it; and it lists exactly the sessions that were found, each once.
pub proof fn lemma_session_list_newest_first(
    stored: Seq<StoredSessionView>,
    runtime: Seq<RuntimeSessionView>,
    workspaces: Seq<WorkspaceView>,
    worktrees: Seq<ManagedWorktreeView>,
)
    ensures
        listed_state(stored, runtime, workspaces, worktrees) matches Ok(acc) ==> {
            let listed = stable_sort(
                acc,
                |a: ((int, int), SessionView), b: ((int, int), SessionView)| later_first(a, b),
            );
            &&& forall|i: int, j: int|
                0 <= i < j < listed.len() ==> !time_lt(
                    (#[trigger] listed[i]).0,
                    (#[trigger] listed[j]).0,
                )
            &&& listed.to_multiset() =~= acc.to_multiset()
        },
{
    if let Ok(acc) = listed_state(stored, runtime, workspaces, worktrees) {
        let before = |a: ((int, int), SessionView), b: ((int, int), SessionView)| later_first(a, b);
        assert(strict_weak_order(before));
        lemma_stable_sort_sorted(acc, before);
        let listed = stable_sort(acc, before);
        assert forall|i: int, j: int| 0 <= i < j < listed.len() implies !time_lt(
            (#[trigger] listed[i]).0,
            (#[trigger] listed[j]).0,
        ) by {
            assert(!before(listed[j], listed[i]));
        }
    }
}

/// A session response names its stored session (id, name and kind), is running, and
/// carries the given workspace and worktree; its times are the runtime session's.
pub proof fn lemma_session_response_fields(
    stored: StoredSessionView,
    runtime: RuntimeSessionView,
    workspace: WorkspaceView,
    managed_worktree: Option<ManagedWorktreeView>,
)
    ensures
        session_response_spec(stored, runtime, workspace, managed_worktree).id == stored.id,
        session_response_spec(stored, runtime, workspace, managed_worktree).name == stored.name,
        session_response_spec(stored, runtime, workspace, managed_worktree).kind == stored.kind,
        session_response_spec(stored, runtime, workspace, managed_worktree).state == "running"@,
        session_response_spec(stored, runtime, workspace, managed_worktree).workspace == workspace,
        session_response_spec(stored, runtime, workspace, managed_worktree).managed_worktree
            == managed_worktree,
        session_response_spec(stored, runtime, workspace, managed_worktree).created_at
            == rfc3339_secs_text(runtime.created_at.0, runtime.created_at.1),
{
}

/// `v` is what [`build_session_response`] gives for stored session `j`, the runtime session
/// of its runtime name, its workspace and its worktree (if it has one); in particular `v`
/// has that stored session's id and name.
pub open spec fn response_of_stored(
    stored: Seq<StoredSessionView>,
    runtime: Seq<RuntimeSessionView>,
    workspaces: Seq<WorkspaceView>,
    worktrees: Seq<ManagedWorktreeView>,
    j: int,
    v: SessionView,
) -> bool {
    &&& 0 <= j < stored.len()
    &&& v.id == stored[j].id
    &&& v.name == stored[j].name
    &&& last_runtime_named(runtime, stored[j].runtime_name) matches Some(rt)
    &&& last_workspace_with_id(workspaces, stored[j].workspace_id) matches Some(ws)
    &&& v == session_response_spec(
        stored[j],
        rt,
        ws,
        match stored[j].managed_worktree_id {
            None => None,
            Some(w) => last_worktree_with_id(worktrees, w),
        },
    )
}

/// `v` is what [`build_session_response`] gives for one of the stored sessions.
pub open spec fn response_of_some_stored(
    stored: Seq<StoredSessionView>,
    runtime: Seq<RuntimeSessionView>,
    workspaces: Seq<WorkspaceView>,
    worktrees: Seq<ManagedWorktreeView>,
    v: SessionView,
) -> bool {
    exists|j: int| response_of_stored(stored, runtime, workspaces, worktrees, j, v)
}

proof fn lemma_listed_state_responses(
    stored: Seq<StoredSessionView>,
    runtime: Seq<RuntimeSessionView>,
    workspaces: Seq<WorkspaceView>,
    worktrees: Seq<ManagedWorktreeView>,
) -> (from: Seq<int>)
    ensures
        listed_state(stored, runtime, workspaces, worktrees) is Ok ==> {
            let acc = listed_state(stored, runtime, workspaces, worktrees)->Ok_0;
            &&& from.len() == acc.len()
            &&& forall|i: int|
                0 <= i < acc.len() ==> response_of_stored(
                    stored,
                    runtime,
                    workspaces,
                    worktrees,
                    #[trigger] from[i],
                    acc[i].1,
                )
        },
    decreases stored.len(),
{
    if stored.len() == 0 {
        seq![]
    } else {
        let prev = stored.drop_last();
        let before_from = lemma_listed_state_responses(prev, runtime, workspaces, worktrees);
        if listed_state(stored, runtime, workspaces, worktrees) is Ok {
            let acc = listed_state(stored, runtime, workspaces, worktrees)->Ok_0;
            let before = listed_state(prev, runtime, workspaces, worktrees)->Ok_0;
            let last = stored.len() - 1;
            assert(stored[last] == stored.last());
            let from = if acc.len() == before.len() {
                before_from
            } else {
                before_from.push(last)
            };
            assert forall|i: int| 0 <= i < acc.len() implies response_of_stored(
                stored,
                runtime,
                workspaces,
                worktrees,
                #[trigger] from[i],
                acc[i].1,
            ) by {
                if i < before.len() {
                    assert(acc[i] == before[i]);
                    assert(from[i] == before_from[i]);
                    assert(response_of_stored(prev, runtime, workspaces, worktrees, before_from[i], before[i].1));
                    assert(prev[before_from[i]] == stored[before_from[i]]);
                }
            }
            from
        } else {
            seq![]
        }
    }
}

/// Every session the listing gives is the response that [`build_session_response`] builds
/// for one of the stored sessions, from the runtime session of its runtime name, its
/// workspace and its worktree: it carries that stored session's id and name.
pub proof fn lemma_listed_sessions_are_stored_responses(
    stored: Seq<StoredSessionView>,
    runtime: Seq<RuntimeSessionView>,
    workspaces: Seq<WorkspaceView>,
    worktrees: Seq<ManagedWorktreeView>,
)
    ensures
        session_list_spec(stored, runtime, workspaces, worktrees) is Ok ==> {
            let list = session_list_spec(stored, runtime, workspaces, worktrees)->Ok_0;
            forall|i: int|
                0 <= i < list.len() ==> response_of_some_stored(
                    stored,
                    runtime,
                    workspaces,
                    worktrees,
                    #[trigger] list[i],
                )
        },
{
    broadcast use vstd::seq_lib::group_to_multiset_ensures;

    let from = lemma_listed_state_responses(stored, runtime, workspaces, worktrees);
    lemma_session_list_newest_first(stored, runtime, workspaces, worktrees);
    if session_list_spec(stored, runtime, workspaces, worktrees) is Ok {
        let list = session_list_spec(stored, runtime, workspaces, worktrees)->Ok_0;
        let acc = listed_state(stored, runtime, workspaces, worktrees)->Ok_0;
        let listed = stable_sort(
            acc,
            |a: ((int, int), SessionView), b: ((int, int), SessionView)| later_first(a, b),
        );
        assert(list == listed.map_values(|p: ((int, int), SessionView)| p.1));
        assert forall|i: int| 0 <= i < list.len() implies response_of_some_stored(
            stored,
            runtime,
            workspaces,
            worktrees,
            #[trigger] list[i],
        ) by {
            assert(list[i] == listed[i].1);
            assert(listed.contains(listed[i]));
            assert(listed.to_multiset().count(listed[i]) > 0);
            assert(acc.to_multiset().count(listed[i]) > 0);
            assert(acc.contains(listed[i]));
            let k = choose|k: int| 0 <= k < acc.len() && acc[k] == listed[i];
            assert(response_of_stored(stored, runtime, workspaces, worktrees, from[k], acc[k].1));
            assert(response_of_stored(stored, runtime, workspaces, worktrees, from[k], list[i]));
        }
    }
}

fn find_last_runtime(list: &Vec<RuntimeSession>, name: &str) -> (r: Option<usize>)
    ensures
        match r {
            Some(i) => i < list@.len() && last_runtime_named(runtime_sessions_view(list@), name@)
                == Some(list@[i as int]@),
            None => last_runtime_named(runtime_sessions_view(list@), name@) is None,
        },
{
    let mut i = list.len();
    proof {
        assert(runtime_sessions_view(list@).take(i as int) =~= runtime_sessions_view(list@));
    }
    while i > 0
        invariant
            i <= list@.len(),
            last_runtime_named(runtime_sessions_view(list@), name@) == last_runtime_named(
                runtime_sessions_view(list@).take(i as int),
                name@,
            ),
        decreases i,
    {
        let ghost t = runtime_sessions_view(list@).take(i as int);
        proof {
            assert(t.drop_last() =~= runtime_sessions_view(list@).take(i - 1));
            assert(t.last() == list@[i - 1]@);
        }
        if str_eq(list[i - 1].runtime_name.as_str(), name) {
            return Some(i - 1);
        }
        i -= 1;
    }
    None
}

fn find_last_workspace(list: &Vec<Workspace>, id: &str) -> (r: Option<usize>)
    ensures
        match r {
            Some(i) => i < list@.len() && last_workspace_with_id(workspaces_view(list@), id@) == Some(
                list@[i as int]@,
            ),
            None => last_workspace_with_id(workspaces_view(list@), id@) is None,
        },
{
    let mut i = list.len();
    proof {
        assert(workspaces_view(list@).take(i as int) =~= workspaces_view(list@));
    }
    while i > 0
        invariant
            i <= list@.len(),
            last_workspace_with_id(workspaces_view(list@), id@) == last_workspace_with_id(
                workspaces_view(list@).take(i as int),
                id@,
            ),
        decreases i,
    {
        let ghost t = workspaces_view(list@).take(i as int);
        proof {
            assert(t.drop_last() =~= workspaces_view(list@).take(i - 1));
            assert(t.last() == list@[i - 1]@);
        }
        if str_eq(list[i - 1].id.as_str(), id) {
            return Some(i - 1);
        }
        i -= 1;
    }
    None
}

fn find_last_worktree(list: &Vec<ManagedWorktree>, id: &str) -> (r: Option<usize>)
    ensures
        match r {
            Some(i) => i < list@.len() && last_worktree_with_id(worktrees_view(list@), id@) == Some(
                list@[i as int]@,
            ),
            None => last_worktree_with_id(worktrees_view(list@), id@) is None,
        },
{
    let mut i = list.len();
    proof {
        assert(worktrees_view(list@).take(i as int) =~= worktrees_view(list@));
    }
    while i > 0
        invariant
            i <= list@.len(),
            last_worktree_with_id(worktrees_view(list@), id@) == last_worktree_with_id(
                worktrees_view(list@).take(i as int),
                id@,
            ),
        decreases i,
    {
        let ghost t = worktrees_view(list@).take(i as int);
        proof {
            assert(t.drop_last() =~= worktrees_view(list@).take(i - 1));
            assert(t.last() == list@[i - 1]@);
        }
        if str_eq(list[i - 1].id.as_str(), id) {
            return Some(i - 1);
        }
        i -= 1;
    }
    None
}

pub open spec fn pairs_view(v: Seq<(UtcTimestamp, Session)>) -> Seq<((int, int), SessionView)> {
    v.map_values(|p: (UtcTimestamp, Session)| (p.0@, p.1@))
}

fn missing_reference(prefix: &str, id: &str, middle: &str, other: &str) -> (r: AppError)
    ensures
        r@ == AppErrorView::Runtime(prefix@ + id@ + middle@ + other@),
{
    let mut m = str_concat(prefix, id);
    m.append(middle);
    m.append(other);
    AppError::Runtime(m)
}

/// `GET /sessions` from the store's sessions (in store order), the runtime's listing, and
/// the stored workspaces and worktrees.
pub fn assemble_session_list(
    stored: &Vec<StoredSession>,
    runtime: &Vec<RuntimeSession>,
    workspaces: &Vec<Workspace>,
    worktrees: &Vec<ManagedWorktree>,
) -> (r: Result<Vec<Session>, AppError>)
    ensures
        match r {
            Ok(v) => session_list_spec(
                stored_view(stored@),
                runtime_sessions_view(runtime@),
                workspaces_view(workspaces@),
                worktrees_view(worktrees@),
            ) == Ok::<Seq<SessionView>, AppErrorView>(v@.map_values(|s: Session| s@)),
            Err(e) => session_list_spec(
                stored_view(stored@),
                runtime_sessions_view(runtime@),
                workspaces_view(workspaces@),
                worktrees_view(worktrees@),
            ) == Err::<Seq<SessionView>, AppErrorView>(e@),
        },
{
    let ghost sv = stored_view(stored@);
    let ghost rv = runtime_sessions_view(runtime@);
    let ghost wv = workspaces_view(workspaces@);
    let ghost tv = worktrees_view(worktrees@);
    let ghost before_fn = |a: ((int, int), SessionView), b: ((int, int), SessionView)|
        later_first(a, b);
    let ghost mut acc: Seq<((int, int), SessionView)> = seq![];
    let mut out: Vec<(UtcTimestamp, Session)> = Vec::new();
    let mut i: usize = 0;
    while i < stored.len()
        invariant
            i <= stored@.len(),
            sv == stored_view(stored@),
            rv == runtime_sessions_view(runtime@),
            wv == workspaces_view(workspaces@),
            tv == worktrees_view(worktrees@),
            before_fn == (|a: ((int, int), SessionView), b: ((int, int), SessionView)|
                later_first(a, b)),
            listed_state(sv.take(i as int), rv, wv, tv) == Ok::<
                Seq<((int, int), SessionView)>,
                AppErrorView,
            >(acc),
            pairs_view(out@) == stable_sort(acc, before_fn),
        decreases stored@.len() - i,
    {
        let s = &stored[i];
        proof {
            assert(sv.take(i + 1).drop_last() =~= sv.take(i as int));
            assert(sv.take(i + 1).last() == s@);
        }
        let rt_index = find_last_runtime(runtime, s.runtime_name.as_str());
        if let Some(ri) = rt_index {
            let rt = &runtime[ri];
            let ws_index = find_last_workspace(workspaces, s.workspace_id.as_str());
            let ws = match ws_index {
                Some(wi) => &workspaces[wi],
                None => {
                    let e = missing_reference(
                        "session ",
                        s.id.as_str(),
                        " references missing workspace ",
                        s.workspace_id.as_str(),
                    );
                    proof {
                        lemma_listed_error_sticks(sv, rv, wv, tv, i + 1);
                    }
                    return Err(e);
                },
            };
            let wt: Option<&ManagedWorktree> = match &s.managed_worktree_id {
                None => None,
                Some(wid) => {
                    match find_last_worktree(worktrees, wid.as_str()) {
                        Some(ti) => Some(&worktrees[ti]),
                        None => {
                            let e = missing_reference(
                                "session ",
                                s.id.as_str(),
                                " references missing managed worktree ",
                                wid.as_str(),
                            );
                            proof {
                                lemma_listed_error_sticks(sv, rv, wv, tv, i + 1);
                            }
                            return Err(e);
                        },
                    }
                },
            };
            let response = build_session_response(s, rt, ws, wt);
            let created = rt.created_at;
            let ghost xv = (created@, response@);
            let ghost sorted = pairs_view(out@);
            let mut j = out.len();
            while j > 0 && created.is_later_than(&out[j - 1].0)
                invariant
                    j <= out@.len(),
                    sorted == pairs_view(out@),
                    xv == (created@, response@),
                    forall|k: int| j <= k < sorted.len() ==> later_first(xv, #[trigger] sorted[k]),
                decreases j,
            {
                j -= 1;
            }
            proof {
                if j > 0 {
                    assert(sorted[j - 1] == (out@[j - 1].0@, out@[j - 1].1@));
                }
                assert forall|k: int| j <= k < sorted.len() implies before_fn(
                    xv,
                    #[trigger] sorted[k],
                ) by {}
                lemma_insert_stable_at(sorted, xv, before_fn, j as int);
            }
            out.insert(j, (created, response));
            proof {
                assert(pairs_view(out@) =~= sorted.take(j as int).push(xv) + sorted.skip(j as int));
                let old_acc = acc;
                acc = acc.push(xv);
                assert(acc.drop_last() =~= old_acc);
                assert(acc.last() == xv);
            }
        }
        i += 1;
    }
    proof {
        assert(sv.take(i as int) =~= sv);
    }
    let mut result: Vec<Session> = Vec::new();
    let mut k: usize = 0;
    let ghost sorted = pairs_view(out@);
    let mut rest = out;
    let mut drained: Vec<(UtcTimestamp, Session)> = Vec::new();
    while k < rest.len()
        invariant
            k <= rest@.len(),
            sorted == pairs_view(rest@),
            result@.map_values(|s: Session| s@) == sorted.take(k as int).map_values(
                |p: ((int, int), SessionView)| p.1,
            ),
        decreases rest@.len() - k,
    {
        let session = clone_session(&rest[k].1);
        let ghost before = result@;
        result.push(session);
        proof {
            assert(result@.map_values(|s: Session| s@) =~= before.map_values(|s: Session| s@).push(
                session@,
            ));
            assert(sorted.take(k + 1) =~= sorted.take(k as int).push(sorted[k as int]));
            assert(sorted.take(k + 1).map_values(|p: ((int, int), SessionView)| p.1)
                =~= sorted.take(k as int).map_values(|p: ((int, int), SessionView)| p.1).push(
                sorted[k as int].1,
            ));
        }
        k += 1;
    }
    proof {
        assert(sorted.take(k as int) =~= sorted);
    }
    Ok(result)
}

/// A copy of a session.
pub fn clone_session(s: &Session) -> (r: Session)
    ensures
        r@ == s@,
{
    Session {
        id: s.id.clone(),
        name: s.name.clone(),
        state: s.state.clone(),
        created_at: s.created_at.clone(),
        last_activity_at: s.last_activity_at.clone(),
        kind: s.kind,
        workspace: s.workspace.duplicate(),
        managed_worktree: match &s.managed_worktree {
            Some(w) => Some(w.duplicate()),
            None => None,
        },
    }
}

proof fn lemma_listed_error_sticks(
    stored: Seq<StoredSessionView>,
    runtime: Seq<RuntimeSessionView>,
    workspaces: Seq<WorkspaceView>,
    worktrees: Seq<ManagedWorktreeView>,
    k: int,
)
    requires
        0 <= k <= stored.len(),
        listed_state(stored.take(k), runtime, workspaces, worktrees) is Err,
    ensures
        listed_state(stored, runtime, workspaces, worktrees) == listed_state(
            stored.take(k),
            runtime,
            workspaces,
            worktrees,
        ),
    decreases stored.len() - k,
{
    if k < stored.len() {
        assert(stored.drop_last().take(k) =~= stored.take(k));
        lemma_listed_error_sticks(stored.drop_last(), runtime, workspaces, worktrees, k);
    } else {
        assert(stored.take(k) =~= stored);
    }
}

// ---------------------------------------------------------------------------------------------
// Lookups, creation, termination
// ---------------------------------------------------------------------------------------------

/// A workspace looked up by id, or `workspace_not_found`.
pub fn require_workspace(found: Option<Workspace>, workspace_id: &str) -> (r: Result<
    Workspace,
    AppError,
>)
    ensures
        match found {
            Some(w) => r matches Ok(x) && x == w,
            None => r matches Err(e) && e@ == (AppErrorView::NotFound {
                code: "workspace_not_found"@,
                message: "workspace not found: "@ + workspace_id@,
            }),
        },
{
    match found {
        Some(w) => Ok(w),
        None => Err(workspace_not_found_error(workspace_id)),
    }
}

/// A managed worktree looked up by id, or `managed_worktree_not_found`.
pub fn require_managed_worktree(found: Option<ManagedWorktree>, managed_worktree_id: &str) -> (r:
    Result<ManagedWorktree, AppError>)
    ensures
        match found {
            Some(w) => r matches Ok(x) && x == w,
            None => r matches Err(e) && e@ == (AppErrorView::NotFound {
                code: "managed_worktree_not_found"@,
                message: "managed worktree not found: "@ + managed_worktree_id@,
            }),
        },
{
    match found {
        Some(w) => Ok(w),
        None => Err(managed_worktree_not_found_error(managed_worktree_id)),
    }
}

/// A stored session looked up by id, or `session_not_found`.
pub fn require_stored_session(found: Option<StoredSession>, session_id: &str) -> (r: Result<
    StoredSession,
    AppError,
>)
    ensures
        match found {
            Some(s) => r matches Ok(x) && x == s,
            None => r matches Err(e) && e@ == (AppErrorView::NotFound {
                code: "session_not_found"@,
                message: "session not found: "@ + session_id@,
            }),
        },
{
    match found {
        Some(s) => Ok(s),
        None => Err(session_not_found_error(session_id)),
    }
}

/// Which managed worktree a new session runs in: none for a local session; for a worktree
/// session the requested id, in a git workspace.
pub fn session_worktree_id(request: &CreateSessionRequest, workspace: &Workspace) -> (r: Result<
    Option<String>,
    AppError,
>)
    ensures
        request.kind == SessionKind::Local ==> (r matches Ok(x) && x is None),
        request.kind == SessionKind::Worktree ==> if workspace.kind != WorkspaceKind::Git {
            r matches Err(e) && e@ == (AppErrorView::BadRequest {
                code: "invalid_request"@,
                message: "managed worktrees and worktree sessions are only supported for git workspaces"@,
            })
        } else {
            match request.managed_worktree_id {
                Some(id) => r matches Ok(x) && opt_view(x) == Some(id@),
                None => r matches Err(e) && e@ == (AppErrorView::BadRequest {
                    code: "invalid_request"@,
                    message: "managed_worktree_id is required for worktree sessions"@,
                }),
            }
        },
{
    match request.kind {
        SessionKind::Local => Ok(None),
        SessionKind::Worktree => {
            match ensure_git_workspace(workspace) {
                Ok(()) => {},
                Err(e) => {
                    return Err(e);
                },
            }
            match &request.managed_worktree_id {
                Some(id) => Ok(Some(id.clone())),
                None => Err(bad_request_str("managed_worktree_id is required for worktree sessions")),
            }
        },
    }
}

/// A worktree session's worktree must belong to the session's workspace.
pub fn check_worktree_belongs(worktree: ManagedWorktree, workspace: &Workspace) -> (r: Result<
    ManagedWorktree,
    AppError,
>)
    ensures
        worktree.workspace_id@ == workspace.id@ ==> (r matches Ok(x) && x == worktree),
        worktree.workspace_id@ != workspace.id@ ==> (r matches Err(e) && e@ == (
        AppErrorView::BadRequest {
            code: "invalid_request"@,
            message: "managed worktree does not belong to the requested workspace"@,
        })),
{
    if worktree.workspace_id != workspace.id {
        return Err(bad_request_str("managed worktree does not belong to the requested workspace"));
    }
    Ok(worktree)
}

/// Where a new session starts: its worktree's directory, else the workspace root.
pub fn session_cwd(workspace: &Workspace, managed_worktree: Option<&ManagedWorktree>) -> (r: String)
    ensures
        match managed_worktree {
            Some(w) => r@ == w.path@,
            None => r@ == workspace.root_path@,
        },
{
    match managed_worktree {
        Some(w) => w.path.clone(),
        None => workspace.root_path.clone(),
    }
}

/// The metadata a new session is stored with: a fresh id, the requested name or else the
/// runtime name, and its workspace and worktree.
pub fn new_stored_session(
    request: &CreateSessionRequest,
    runtime_name: &str,
    workspace: &Workspace,
    managed_worktree: Option<&ManagedWorktree>,
) -> (r: NewStoredSession)
    ensures
        crate::ids::is_uuid_text(r.id@),
        r.name@ == match request.name {
            Some(n) => n@,
            None => runtime_name@,
        },
        r.runtime_name@ == runtime_name@,
        r.kind == request.kind,
        r.workspace_id@ == workspace.id@,
        opt_view(r.managed_worktree_id) == match managed_worktree {
            Some(w) => Some(w.id@),
            None => None,
        },
{
    let name = match &request.name {
        Some(n) => n.clone(),
        None => owned(runtime_name),
    };
    NewStoredSession {
        id: new_uuid_string(),
        name,
        runtime_name: owned(runtime_name),
        kind: request.kind,
        workspace_id: workspace.id.clone(),
        managed_worktree_id: match managed_worktree {
            Some(w) => Some(w.id.clone()),
            None => None,
        },
    }
}

/// A lifecycle event of type `event_type` for a session: a fresh id, the current time.
pub fn lifecycle_event(event_type: &str, session_id: &str) -> (r: LifecycleEvent)
    ensures
        crate::ids::is_uuid_text(r.event_id@),
        r.event_type@ == event_type@,
        crate::store::is_timestamp_text(r.occurred_at@),
        r.session_id@ == session_id@,
{
    LifecycleEvent {
        event_id: new_uuid_string(),
        event_type: owned(event_type),
        occurred_at: now_rfc3339(),
        session_id: owned(session_id),
    }
}

/// `session.created` for a session.
pub fn session_created_event(session_id: &str) -> (r: LifecycleEvent)
    ensures
        r.event_type@ == "session.created"@,
        r.session_id@ == session_id@,
        crate::ids::is_uuid_text(r.event_id@),
        crate::store::is_timestamp_text(r.occurred_at@),
{
    lifecycle_event("session.created", session_id)
}

/// `session.terminated` for a session.
pub fn session_terminated_event(session_id: &str) -> (r: LifecycleEvent)
    ensures
        r.event_type@ == "session.terminated"@,
        r.session_id@ == session_id@,
        crate::ids::is_uuid_text(r.event_id@),
        crate::store::is_timestamp_text(r.occurred_at@),
{
    lifecycle_event("session.terminated", session_id)
}

/// Whether the runtime still has a session of this name.
pub fn runtime_has_session(list: &Vec<RuntimeSession>, runtime_name: &str) -> (r: bool)
    ensures
        r == exists|k: int| 0 <= k < list@.len() && #[trigger] list@[k].runtime_name@ == runtime_name@,
{
    match find_runtime_session(list, runtime_name) {
        Some(i) => {
            assert(list@[i as int].runtime_name@ == runtime_name@);
            true
        },
        None => false,
    }
}

/// What terminating a session does once the runtime's listing is known: a session that the
/// runtime no longer has is forgotten and answered with `session_not_found`; else the
/// runtime session is terminated.
#[derive(Debug)]
pub enum TerminateStep {
    ForgetMissing(AppError),
    Terminate,
}

pub fn terminate_step(list: &Vec<RuntimeSession>, stored: &StoredSession) -> (r: TerminateStep)
    ensures
        (exists|k: int| 0 <= k < list@.len() && #[trigger] list@[k].runtime_name@ == stored.runtime_name@)
            ==> r is Terminate,
        !(exists|k: int| 0 <= k < list@.len() && #[trigger] list@[k].runtime_name@ == stored.runtime_name@)
            ==> (r matches TerminateStep::ForgetMissing(e) && e@ == (AppErrorView::NotFound {
            code: "session_not_found"@,
            message: "session not found: "@ + stored.id@,
        })),
{
    if runtime_has_session(list, stored.runtime_name.as_str()) {
        TerminateStep::Terminate
    } else {
        TerminateStep::ForgetMissing(session_not_found_error(stored.id.as_str()))
    }
}

/// `GET /sessions/{id}`: the runtime session of a stored session, or `session_not_found`.
pub fn running_session(list: Vec<RuntimeSession>, stored: &StoredSession, session_id: &str) -> (r:
    Result<RuntimeSession, AppError>)
    ensures
        match r {
            Ok(s) => exists|i: int|
                0 <= i < list@.len() && list@[i] == s && s.runtime_name@ == stored.runtime_name@
                    && forall|k: int|
                    0 <= k < i ==> #[trigger] list@[k].runtime_name@ != stored.runtime_name@,
            Err(e) => e@ == (AppErrorView::NotFound {
                code: "session_not_found"@,
                message: "session not found: "@ + session_id@,
            }) && forall|k: int|
                0 <= k < list@.len() ==> #[trigger] list@[k].runtime_name@ != stored.runtime_name@,
        },
{
    match find_runtime_session(&list, stored.runtime_name.as_str()) {
        Some(i) => {
            let ghost l = list@;
            let mut list = list;
            let s = list.swap_remove(i);
            assert(l[i as int] == s);
            Ok(s)
        },
        None => Err(session_not_found_error(session_id)),
    }
}

/// A terminal stream keeps following a session only while the stored session still runs
/// under the same runtime name.
pub fn check_stream_target(stored: &StoredSession, session_id: &str, runtime_name: &str) -> (r:
    Result<(), AppError>)
    ensures
        stored.runtime_name@ == runtime_name@ ==> r is Ok,
        stored.runtime_name@ != runtime_name@ ==> (r matches Err(e) && e@ == (
        AppErrorView::NotFound {
            code: "session_not_found"@,
            message: "session not found: "@ + session_id@,
        })),
{
    if !str_eq(stored.runtime_name.as_str(), runtime_name) {
        return Err(session_not_found_error(session_id));
    }
    Ok(())
}

} // verus!
