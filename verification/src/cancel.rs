//! The submitter's cancellation protocol: locating a task by (a prefix
//! of) its identifier across the queue directories, and deciding what
//! cancellation means in each state — a pending task is removed and a
//! cancelled record written, a running task gets a cancel request in
//! `control/<node>/`, a completed task is left alone.

use vstd::prelude::*;
use vstd::string::*;
use crate::models::{CancelCommand, TaskResult, TaskSpec};
use crate::strutil::str_starts_with;

verus! {

/// The state a located task was found in.
#[derive(Debug, Clone, Copy, PartialEq, Eq, Structural)]
pub enum TaskQueryState {
    Pending,
    Running,
    Done,
    Failed,
}

/// Whether a query names a task: it is the task's id or a prefix of it.
pub open spec fn spec_query_matches(task_id: Seq<char>, query: Seq<char>) -> bool {
    query.is_prefix_of(task_id)
}

/// Decides whether a query names a task.
pub fn query_matches(task_id: &str, query: &str) -> (r: bool)
    ensures
        r == spec_query_matches(task_id@, query@),
{
    str_starts_with(task_id, query)
}

/// Whether any task record in the group matches the query.
pub open spec fn spec_group_spec_match(g: Seq<TaskSpec>, q: Seq<char>) -> bool {
    exists|i: int| 0 <= i < g.len() && spec_query_matches(g[i].task_id@, q)
}

/// Whether any group of the per-node listing holds a matching task record.
pub open spec fn spec_any_spec_match(groups: Seq<(String, Vec<TaskSpec>)>, q: Seq<char>) -> bool {
    exists|i: int| 0 <= i < groups.len() && spec_group_spec_match(groups[i].1@, q)
}

/// `gi` is the first group with a matching task record.
pub open spec fn spec_first_spec_group(
    groups: Seq<(String, Vec<TaskSpec>)>,
    q: Seq<char>,
    gi: int,
) -> bool {
    &&& 0 <= gi < groups.len()
    &&& spec_group_spec_match(groups[gi].1@, q)
    &&& forall|g: int| 0 <= g < gi ==> !spec_group_spec_match(groups[g].1@, q)
}

/// Whether any result record in the group matches the query.
pub open spec fn spec_group_result_match(g: Seq<TaskResult>, q: Seq<char>) -> bool {
    exists|i: int| 0 <= i < g.len() && spec_query_matches(g[i].task_id@, q)
}

/// Whether any group of the per-node listing holds a matching result.
pub open spec fn spec_any_result_match(groups: Seq<(String, Vec<TaskResult>)>, q: Seq<char>) -> bool {
    exists|i: int| 0 <= i < groups.len() && spec_group_result_match(groups[i].1@, q)
}

/// `gi` is the first group with a matching result, and `ti` the first
/// matching result within it.
pub open spec fn spec_first_result_pos(
    groups: Seq<(String, Vec<TaskResult>)>,
    q: Seq<char>,
    gi: int,
    ti: int,
) -> bool {
    &&& 0 <= gi < groups.len()
    &&& forall|g: int| 0 <= g < gi ==> !spec_group_result_match(groups[g].1@, q)
    &&& 0 <= ti < groups[gi].1@.len()
    &&& spec_query_matches(groups[gi].1@[ti].task_id@, q)
    &&& forall|t: int| 0 <= t < ti ==> !spec_query_matches(groups[gi].1@[t].task_id@, q)
}

/// Finds the first matching task record across per-node groups of decoded
/// specs, scanning groups and entries in the order given.
fn find_in_spec_groups(groups: &Vec<(String, Vec<TaskSpec>)>, query: &str) -> (r: Option<
    (usize, usize),
>)
    ensures
        (r is None) <==> !spec_any_spec_match(groups@, query@),
        r matches Some(p) ==> {
            &&& spec_first_spec_group(groups@, query@, p.0 as int)
            &&& 0 <= p.1 < groups@[p.0 as int].1@.len()
            &&& spec_query_matches(groups@[p.0 as int].1@[p.1 as int].task_id@, query@)
        },
{
    let mut gi: usize = 0;
    while gi < groups.len()
        invariant
            gi <= groups@.len(),
            forall|g: int| 0 <= g < gi ==> !spec_group_spec_match(groups@[g].1@, query@),
        decreases groups@.len() - gi,
    {
        let g: &Vec<TaskSpec> = &groups[gi].1;
        let mut ti: usize = 0;
        while ti < g.len()
            invariant
                ti <= g@.len(),
                g@ == groups@[gi as int].1@,
                gi < groups@.len(),
                forall|g2: int| 0 <= g2 < gi ==> !spec_group_spec_match(groups@[g2].1@, query@),
                forall|t: int| 0 <= t < ti ==> !spec_query_matches(g@[t].task_id@, query@),
            decreases g@.len() - ti,
        {
            if query_matches(g[ti].task_id.as_str(), query) {
                proof {
                    assert(spec_query_matches(groups@[gi as int].1@[ti as int].task_id@, query@));
                    assert(spec_group_spec_match(groups@[gi as int].1@, query@));
                    assert(spec_any_spec_match(groups@, query@));
                }
                return Some((gi, ti));
            }
            ti = ti + 1;
        }
        gi = gi + 1;
    }
    None
}

/// Finds the first matching result record across per-node groups of
/// decoded results, scanning groups and entries in the order given.
fn find_in_result_groups(groups: &Vec<(String, Vec<TaskResult>)>, query: &str) -> (r: Option<
    (usize, usize),
>)
    ensures
        (r is None) <==> !spec_any_result_match(groups@, query@),
        r matches Some(p) ==> spec_first_result_pos(groups@, query@, p.0 as int, p.1 as int),
{
    let mut gi: usize = 0;
    while gi < groups.len()
        invariant
            gi <= groups@.len(),
            forall|g: int| 0 <= g < gi ==> !spec_group_result_match(groups@[g].1@, query@),
        decreases groups@.len() - gi,
    {
        let g: &Vec<TaskResult> = &groups[gi].1;
        let mut ti: usize = 0;
        while ti < g.len()
            invariant
                ti <= g@.len(),
                g@ == groups@[gi as int].1@,
                gi < groups@.len(),
                forall|g2: int| 0 <= g2 < gi ==> !spec_group_result_match(groups@[g2].1@, query@),
                forall|t: int| 0 <= t < ti ==> !spec_query_matches(g@[t].task_id@, query@),
            decreases g@.len() - ti,
        {
            if query_matches(g[ti].task_id.as_str(), query) {
                proof {
                    assert(spec_query_matches(groups@[gi as int].1@[ti as int].task_id@, query@));
                    assert(spec_group_result_match(groups@[gi as int].1@, query@));
                    assert(spec_any_result_match(groups@, query@));
                }
                return Some((gi, ti));
            }
            ti = ti + 1;
        }
        gi = gi + 1;
    }
    None
}

/// Locates a task by query across the three queue directories, decoded
/// per node: a match in `inbox/` is `Pending`, else one in `claimed/` is
/// `Running`, else one in `done/` is `Done` or `Failed` by its recorded
/// exit code.  The first match in scan order decides, and the node it was
/// found under is returned with the state.
pub fn find_task(
    inbox: &Vec<(String, Vec<TaskSpec>)>,
    claimed: &Vec<(String, Vec<TaskSpec>)>,
    done: &Vec<(String, Vec<TaskResult>)>,
    query: &str,
) -> (r: Option<(String, TaskQueryState)>)
    ensures
        (r is None) <==> (!spec_any_spec_match(inbox@, query@) && !spec_any_spec_match(
            claimed@,
            query@,
        ) && !spec_any_result_match(done@, query@)),
        r matches Some(p) ==> {
            &&& (p.1 is Pending) ==> exists|gi: int|
                #[trigger] spec_first_spec_group(inbox@, query@, gi) && p.0@ == inbox@[gi].0@
            &&& (p.1 is Running) ==> !spec_any_spec_match(inbox@, query@) && exists|gi: int|
                #[trigger] spec_first_spec_group(claimed@, query@, gi) && p.0@ == claimed@[gi].0@
            &&& (p.1 is Done || p.1 is Failed) ==> !spec_any_spec_match(inbox@, query@)
                && !spec_any_spec_match(claimed@, query@) && exists|gi: int, ti: int|
                #[trigger] spec_first_result_pos(done@, query@, gi, ti) && p.0@ == done@[gi].0@ && (
                (p.1 is Done) <==> done@[gi].1@[ti].exit_code == 0)
        },
{
    if let Some(p) = find_in_spec_groups(inbox, query) {
        return Some((inbox[p.0].0.clone(), TaskQueryState::Pending));
    }
    if let Some(p) = find_in_spec_groups(claimed, query) {
        return Some((claimed[p.0].0.clone(), TaskQueryState::Running));
    }
    if let Some(p) = find_in_result_groups(done, query) {
        let st = if done[p.0].1[p.1].exit_code == 0 {
            TaskQueryState::Done
        } else {
            TaskQueryState::Failed
        };
        return Some((done[p.0].0.clone(), st));
    }
    None
}

/// Finds the first entry of an inbox listing, decoded beside its
/// filename, whose task matches the query: the file a pending
/// cancellation removes.
pub fn find_pending_match(entries: &Vec<(String, TaskSpec)>, query: &str) -> (r: Option<usize>)
    ensures
        r matches Some(i) ==> 0 <= i < entries@.len() && spec_query_matches(
            entries@[i as int].1.task_id@,
            query@,
        ) && forall|j: int|
            0 <= j < i ==> !spec_query_matches(entries@[j].1.task_id@, query@),
        (r is None) <==> forall|j: int|
            0 <= j < entries@.len() ==> !spec_query_matches(entries@[j].1.task_id@, query@),
{
    let mut i: usize = 0;
    while i < entries.len()
        invariant
            i <= entries@.len(),
            forall|j: int| 0 <= j < i ==> !spec_query_matches(entries@[j].1.task_id@, query@),
        decreases entries@.len() - i,
    {
        if query_matches(entries[i].1.task_id.as_str(), query) {
            return Some(i);
        }
        i = i + 1;
    }
    None
}

/// The record left in `done/<node>/` for a task cancelled while pending:
/// exit code `-1`, no logs, no runtime, both timestamps the moment of
/// cancellation, the command echoed.
pub open spec fn is_cancelled_result(r: TaskResult, s: TaskSpec, node: Seq<char>, now: u64) -> bool {
    &&& r.task_id@ == s.task_id@
    &&& r.idempotency_key@ == s.idempotency_key@
    &&& r.node@ == node
    &&& r.started_at == now
    &&& r.finished_at == now
    &&& r.exit_code == -1
    &&& r.stdout@ == Seq::<char>::empty()
    &&& r.stderr@ == Seq::<char>::empty()
    &&& r.runtime_ms == 0
    &&& r.command@ == s.command@
    &&& r.gpus_requested == s.gpus
    &&& r.gpus_assigned@ == Seq::<char>::empty()
}

/// Builds the cancelled record for a pending task.
pub fn cancelled_result(spec: &TaskSpec, node: &str, now: u64) -> (r: TaskResult)
    ensures
        is_cancelled_result(r, *spec, node@, now),
{
    TaskResult {
        task_id: spec.task_id.clone(),
        idempotency_key: spec.idempotency_key.clone(),
        node: node.to_owned(),
        started_at: now,
        finished_at: now,
        exit_code: -1,
        stdout: String::new(),
        stderr: String::new(),
        runtime_ms: 0,
        command: spec.command.clone(),
        gpus_requested: spec.gpus,
        gpus_assigned: String::new(),
    }
}

/// Builds the cancel request a submitter writes for a running task.
pub fn cancel_command_for(task_id: &str, now: u64) -> (c: CancelCommand)
    ensures
        c.task_id@ == task_id@,
        c.requested_at == now,
{
    CancelCommand { task_id: task_id.to_owned(), requested_at: now }
}

/// What a cancellation does, by located state.
#[derive(Debug, Clone, Copy, PartialEq, Eq, Structural)]
pub enum CancelAction {
    /// Write a cancelled record and remove the inbox entry.
    RemovePending,
    /// Write a cancel request for the runner to act on.
    SignalRunning,
    /// Nothing: the task already completed.
    AlreadyCompleted,
}

/// Maps a located task's state to the cancellation step to take.
pub fn cancel_action_for(st: TaskQueryState) -> (a: CancelAction)
    ensures
        (a is RemovePending) <==> (st is Pending),
        (a is SignalRunning) <==> (st is Running),
        (a is AlreadyCompleted) <==> (st is Done || st is Failed),
{
    match st {
        TaskQueryState::Pending => CancelAction::RemovePending,
        TaskQueryState::Running => CancelAction::SignalRunning,
        TaskQueryState::Done => CancelAction::AlreadyCompleted,
        TaskQueryState::Failed => CancelAction::AlreadyCompleted,
    }
}

} // verus!
