//! The observer's read-only projection of the queue: node liveness from
//! heartbeats, the classification of every task file into RUNNING, STUCK,
//! PENDING, DONE or FAILED, the display ordering, and the task filters.

use vstd::prelude::*;
use vstd::string::*;
use crate::models::{Heartbeat, TaskResult, TaskSpec};
use crate::strutil::{append_str, push_char, str_eq, str_ends_with, str_starts_with};
use crate::{spec_fresh, heartbeat_fresh, DISPLAY_STALE_SECS, STALE_SECS};

verus! {

/// Lower-casing of a single ASCII letter; every other character is kept.
pub open spec fn spec_lower_char(c: char) -> char {
    if 'A' as u32 <= c as u32 <= 'Z' as u32 {
        ((c as u32 + 32) as char)
    } else {
        c
    }
}

/// Character-wise ASCII lower-casing.
pub open spec fn spec_lower(s: Seq<char>) -> Seq<char> {
    s.map_values(|c: char| spec_lower_char(c))
}

/// Lower-cases the ASCII letters of a string.
pub fn ascii_lower(s: &str) -> (r: String)
    ensures
        r@ == spec_lower(s@),
{
    let len = s.unicode_len();
    let mut r = String::new();
    let mut i: usize = 0;
    while i < len
        invariant
            len == s@.len(),
            i <= len,
            r@ =~= spec_lower(s@.take(i as int)),
        decreases len - i,
    {
        let c = s.get_char(i);
        let code = c as u32;
        let lc: char = if 'A' as u32 <= code && code <= 'Z' as u32 {
            match c {
                'A' => 'a',
                'B' => 'b',
                'C' => 'c',
                'D' => 'd',
                'E' => 'e',
                'F' => 'f',
                'G' => 'g',
                'H' => 'h',
                'I' => 'i',
                'J' => 'j',
                'K' => 'k',
                'L' => 'l',
                'M' => 'm',
                'N' => 'n',
                'O' => 'o',
                'P' => 'p',
                'Q' => 'q',
                'R' => 'r',
                'S' => 's',
                'T' => 't',
                'U' => 'u',
                'V' => 'v',
                'W' => 'w',
                'X' => 'x',
                'Y' => 'y',
                _ => 'z',
            }
        } else {
            c
        };
        proof {
            vstd::utf8::char_u32_cast(c, c as u32);
            assert(lc == spec_lower_char(c));
            assert(spec_lower(s@.take(i + 1)) =~= spec_lower(s@.take(i as int)).push(
                spec_lower_char(c),
            ));
        }
        push_char(&mut r, lc);
        i = i + 1;
    }
    proof {
        assert(s@.take(s@.len() as int) =~= s@);
    }
    r
}

/// The task-state filter of the listing command.
#[derive(Debug, Clone, Copy, PartialEq, Eq, Structural)]
pub enum TaskStateFilter {
    All,
    Pending,
    Running,
    Done,
    Failed,
    Stuck,
}

/// The filter a user's word names, case-insensitively: `all`, `pending`,
/// `running`, `done` or `finished`, `failed`, `stuck` or `unresponsive`;
/// anything else names none.
pub open spec fn spec_filter_from(s: Seq<char>) -> Option<TaskStateFilter> {
    let l = spec_lower(s);
    if l == "all"@ {
        Some(TaskStateFilter::All)
    } else if l == "pending"@ {
        Some(TaskStateFilter::Pending)
    } else if l == "running"@ {
        Some(TaskStateFilter::Running)
    } else if l == "done"@ || l == "finished"@ {
        Some(TaskStateFilter::Done)
    } else if l == "failed"@ {
        Some(TaskStateFilter::Failed)
    } else if l == "stuck"@ || l == "unresponsive"@ {
        Some(TaskStateFilter::Stuck)
    } else {
        None
    }
}

impl TaskStateFilter {
    /// Parses a user's word into a filter, case-insensitively.
    pub fn from_str(s: &str) -> (r: Option<TaskStateFilter>)
        ensures
            r == spec_filter_from(s@),
    {
        let l = ascii_lower(s);
        let ls = l.as_str();
        if str_eq(ls, "all") {
            Some(TaskStateFilter::All)
        } else if str_eq(ls, "pending") {
            Some(TaskStateFilter::Pending)
        } else if str_eq(ls, "running") {
            Some(TaskStateFilter::Running)
        } else if str_eq(ls, "done") || str_eq(ls, "finished") {
            Some(TaskStateFilter::Done)
        } else if str_eq(ls, "failed") {
            Some(TaskStateFilter::Failed)
        } else if str_eq(ls, "stuck") || str_eq(ls, "unresponsive") {
            Some(TaskStateFilter::Stuck)
        } else {
            None
        }
    }
}

/// What the observer concludes about one task.
#[derive(Debug, Clone, Copy, PartialEq, Eq, Structural)]
pub enum TaskPhase {
    Running,
    Stuck,
    Pending,
    Done,
    Failed,
}

impl TaskPhase {
    /// The phase's display word.
    pub fn label(&self) -> (r: String)
        ensures
            self is Running ==> r@ == "RUNNING"@,
            self is Stuck ==> r@ == "STUCK"@,
            self is Pending ==> r@ == "PENDING"@,
            self is Done ==> r@ == "DONE"@,
            self is Failed ==> r@ == "FAILED"@,
    {
        match self {
            TaskPhase::Running => "RUNNING".to_owned(),
            TaskPhase::Stuck => "STUCK".to_owned(),
            TaskPhase::Pending => "PENDING".to_owned(),
            TaskPhase::Done => "DONE".to_owned(),
            TaskPhase::Failed => "FAILED".to_owned(),
        }
    }
}

/// One row of the observer's task table.
#[derive(Debug, Clone)]
pub struct TaskState {
    pub id: String,
    pub command: String,
    pub state: TaskPhase,
    pub node: String,
    pub exit_code: Option<i32>,
    pub gpus_requested: u32,
    pub gpus_assigned: String,
    /// Unix seconds; present only for completed tasks.
    pub finished_at: Option<u64>,
}

/// A node's health as the status display shows it.
#[derive(Debug, Clone, Copy, PartialEq, Eq, Structural)]
pub enum NodeHealth {
    Alive,
    Stale,
}

/// One row of the observer's node table.
#[derive(Debug, Clone)]
pub struct NodeState {
    pub name: String,
    pub status: NodeHealth,
    /// Seconds since the node's heartbeat; zero for one from the future.
    pub last_seen: u64,
}

/// A heartbeat shows as stale when more than `DISPLAY_STALE_SECS` seconds
/// old.
pub open spec fn spec_display_stale(ts: u64, now: u64) -> bool {
    now > ts && now - ts > DISPLAY_STALE_SECS
}

/// Builds the node table from the decoded heartbeats, in the order given.
pub fn build_node_states(hbs: &Vec<Heartbeat>, now: u64) -> (r: Vec<NodeState>)
    ensures
        r@.len() == hbs@.len(),
        forall|i: int|
            0 <= i < hbs@.len() ==> {
                &&& (#[trigger] r@[i]).name@ == hbs@[i].node@
                &&& (r@[i].status is Stale) == spec_display_stale(hbs@[i].ts, now)
                &&& r@[i].last_seen == (if now > hbs@[i].ts {
                    now - hbs@[i].ts
                } else {
                    0
                })
            },
{
    let mut r: Vec<NodeState> = Vec::new();
    let mut i: usize = 0;
    while i < hbs.len()
        invariant
            i <= hbs@.len(),
            r@.len() == i,
            forall|j: int|
                0 <= j < i ==> {
                    &&& (#[trigger] r@[j]).name@ == hbs@[j].node@
                    &&& (r@[j].status is Stale) == spec_display_stale(hbs@[j].ts, now)
                    &&& r@[j].last_seen == (if now > hbs@[j].ts {
                        now - hbs@[j].ts
                    } else {
                        0
                    })
                },
        decreases hbs@.len() - i,
    {
        let hb = &hbs[i];
        let age: u64 = if now > hb.ts {
            now - hb.ts
        } else {
            0
        };
        let status = if now > hb.ts && now - hb.ts > DISPLAY_STALE_SECS {
            NodeHealth::Stale
        } else {
            NodeHealth::Alive
        };
        r.push(NodeState { name: hb.node.clone(), status, last_seen: age });
        i = i + 1;
    }
    r
}

/// Whether some heartbeat of this node is fresh under the stuck-detection
/// threshold: the condition for a claimed task to count as RUNNING.
pub open spec fn spec_node_alive(hbs: Seq<Heartbeat>, node: Seq<char>, now: u64) -> bool {
    exists|i: int|
        0 <= i < hbs.len() && #[trigger] hbs[i].node@ == node && spec_fresh(
            hbs[i].ts,
            now,
            STALE_SECS,
        )
}

/// Decides whether a node has a fresh heartbeat.
pub fn node_alive(hbs: &Vec<Heartbeat>, node: &str, now: u64) -> (r: bool)
    ensures
        r == spec_node_alive(hbs@, node@, now),
{
    let mut i: usize = 0;
    while i < hbs.len()
        invariant
            i <= hbs@.len(),
            forall|j: int|
                0 <= j < i ==> !(#[trigger] hbs@[j].node@ == node@ && spec_fresh(
                    hbs@[j].ts,
                    now,
                    STALE_SECS,
                )),
        decreases hbs@.len() - i,
    {
        if str_eq(hbs[i].node.as_str(), node) && heartbeat_fresh(hbs[i].ts, now, STALE_SECS) {
            proof {
                assert(hbs@[i as int].node@ == node@ && spec_fresh(hbs@[i as int].ts, now, STALE_SECS));
            }
            return true;
        }
        i = i + 1;
    }
    false
}

} // verus!

verus! {

/// A per-node listing of decoded task records, flattened in listing
/// order: each task beside the node it sits under.
pub open spec fn spec_flatten_specs(groups: Seq<(String, Vec<TaskSpec>)>) -> Seq<(String, TaskSpec)>
    decreases groups.len(),
{
    if groups.len() == 0 {
        Seq::empty()
    } else {
        spec_flatten_specs(groups.drop_last()) + groups.last().1@.map_values(
            |s: TaskSpec| (groups.last().0, s),
        )
    }
}

/// A per-node listing of decoded result records, flattened in listing
/// order.
pub open spec fn spec_flatten_results(groups: Seq<(String, Vec<TaskResult>)>) -> Seq<TaskResult>
    decreases groups.len(),
{
    if groups.len() == 0 {
        Seq::empty()
    } else {
        spec_flatten_results(groups.drop_last()) + groups.last().1@
    }
}

/// The observer's row for a task found in `claimed/<node>/`: RUNNING when
/// the node has a fresh heartbeat, STUCK otherwise; no exit code and no
/// finish time yet.
pub open spec fn is_claimed_row(t: TaskState, s: TaskSpec, node: Seq<char>, alive: bool) -> bool {
    &&& t.id@ == s.task_id@
    &&& t.command@ == s.command@
    &&& t.state == (if alive {
        TaskPhase::Running
    } else {
        TaskPhase::Stuck
    })
    &&& t.node@ == node
    &&& t.exit_code is None
    &&& t.gpus_requested == s.gpus
    &&& t.gpus_assigned@ == Seq::<char>::empty()
    &&& t.finished_at is None
}

/// The observer's row for a task still in `inbox/<node>/`.
pub open spec fn is_pending_row(t: TaskState, s: TaskSpec, node: Seq<char>) -> bool {
    &&& t.id@ == s.task_id@
    &&& t.command@ == s.command@
    &&& t.state is Pending
    &&& t.node@ == node
    &&& t.exit_code is None
    &&& t.gpus_requested == s.gpus
    &&& t.gpus_assigned@ == Seq::<char>::empty()
    &&& t.finished_at is None
}

/// The observer's row for a result record in `done/<node>/`: DONE exactly
/// when the recorded exit code is zero.
pub open spec fn is_done_row(t: TaskState, res: TaskResult) -> bool {
    &&& t.id@ == res.task_id@
    &&& t.command@ == res.command@
    &&& t.state == (if res.exit_code == 0 {
        TaskPhase::Done
    } else {
        TaskPhase::Failed
    })
    &&& t.node@ == res.node@
    &&& t.exit_code == Some(res.exit_code)
    &&& t.gpus_requested == res.gpus_requested
    &&& t.gpus_assigned@ == res.gpus_assigned@
    &&& t.finished_at == Some(res.finished_at)
}

/// The observer's full, unsorted task table: every claimed task (RUNNING
/// or STUCK by its node's heartbeat), then every pending task, then every
/// result record (DONE or FAILED by exit code), each section in listing
/// order.  `sort_tasks` puts the table into display order.
pub fn project_tasks(
    claimed: &Vec<(String, Vec<TaskSpec>)>,
    inbox: &Vec<(String, Vec<TaskSpec>)>,
    done: &Vec<(String, Vec<TaskResult>)>,
    hbs: &Vec<Heartbeat>,
    now: u64,
) -> (r: Vec<TaskState>)
    ensures
        ({
            let fc = spec_flatten_specs(claimed@);
            let fi = spec_flatten_specs(inbox@);
            let fd = spec_flatten_results(done@);
            &&& r@.len() == fc.len() + fi.len() + fd.len()
            &&& forall|i: int|
                0 <= i < fc.len() ==> is_claimed_row(
                    #[trigger] r@[i],
                    fc[i].1,
                    fc[i].0@,
                    spec_node_alive(hbs@, fc[i].0@, now),
                )
            &&& forall|i: int|
                0 <= i < fi.len() ==> is_pending_row(#[trigger] r@[fc.len() + i], fi[i].1, fi[i].0@)
            &&& forall|i: int|
                0 <= i < fd.len() ==> is_done_row(#[trigger] r@[fc.len() + fi.len() + i], fd[i])
        }),
{
    let mut r: Vec<TaskState> = Vec::new();
    let mut g: usize = 0;
    while g < claimed.len()
        invariant
            g <= claimed@.len(),
            r@.len() == spec_flatten_specs(claimed@.take(g as int)).len(),
            forall|j: int|
                0 <= j < r@.len() ==> is_claimed_row(
                    #[trigger] r@[j],
                    spec_flatten_specs(claimed@.take(g as int))[j].1,
                    spec_flatten_specs(claimed@.take(g as int))[j].0@,
                    spec_node_alive(hbs@, spec_flatten_specs(claimed@.take(g as int))[j].0@, now),
                ),
        decreases claimed@.len() - g,
    {
        let ghost base = spec_flatten_specs(claimed@.take(g as int));
        let node: &String = &claimed[g].0;
        let specs: &Vec<TaskSpec> = &claimed[g].1;
        let alive = node_alive(hbs, node.as_str(), now);
        let mut t: usize = 0;
        while t < specs.len()
            invariant
                t <= specs@.len(),
                g < claimed@.len(),
                node@ == claimed@[g as int].0@,
                specs@ == claimed@[g as int].1@,
                alive == spec_node_alive(hbs@, claimed@[g as int].0@, now),
                base == spec_flatten_specs(claimed@.take(g as int)),
                r@.len() == base.len() + t,
                forall|j: int|
                    0 <= j < base.len() ==> is_claimed_row(
                        #[trigger] r@[j],
                        base[j].1,
                        base[j].0@,
                        spec_node_alive(hbs@, base[j].0@, now),
                    ),
                forall|j: int|
                    0 <= j < t ==> is_claimed_row(
                        #[trigger] r@[base.len() + j],
                        claimed@[g as int].1@[j],
                        claimed@[g as int].0@,
                        alive,
                    ),
            decreases specs@.len() - t,
        {
            let s = &specs[t];
            r.push(
                TaskState {
                    id: s.task_id.clone(),
                    command: s.command.clone(),
                    state: if alive {
                        TaskPhase::Running
                    } else {
                        TaskPhase::Stuck
                    },
                    node: node.clone(),
                    exit_code: None,
                    gpus_requested: s.gpus,
                    gpus_assigned: String::new(),
                    finished_at: None,
                },
            );
            t = t + 1;
        }
        proof {
            let taken = claimed@.take(g + 1);
            assert(taken.drop_last() =~= claimed@.take(g as int));
            assert(taken.last() == claimed@[g as int]);
            let grown = spec_flatten_specs(claimed@.take(g + 1));
            assert(taken.len() == g + 1);
            assert(grown == spec_flatten_specs(taken.drop_last()) + taken.last().1@.map_values(
                |s: TaskSpec| (taken.last().0, s),
            ));
            assert(spec_flatten_specs(taken.drop_last()) == base);
            assert(taken.last().1@.map_values(|s: TaskSpec| (taken.last().0, s)) =~= claimed@[
                g as int
            ].1@.map_values(|s: TaskSpec| (claimed@[g as int].0, s)));
            assert(grown =~= base + claimed@[g as int].1@.map_values(
                |s: TaskSpec| (claimed@[g as int].0, s),
            ));
            assert forall|j: int| 0 <= j < r@.len() implies is_claimed_row(
                #[trigger] r@[j],
                grown[j].1,
                grown[j].0@,
                spec_node_alive(hbs@, grown[j].0@, now),
            ) by {
                if j >= base.len() {
                    let jj = j - base.len();
                    assert(is_claimed_row(
                        r@[base.len() + jj],
                        claimed@[g as int].1@[jj],
                        claimed@[g as int].0@,
                        alive,
                    ));
                    assert(grown[j] == (claimed@[g as int].0, claimed@[g as int].1@[jj]));
                }
            }
        }
        g = g + 1;
    }
    proof {
        assert(claimed@.take(claimed@.len() as int) =~= claimed@);
    }
    let ghost fc = spec_flatten_specs(claimed@);
    let mut g: usize = 0;
    while g < inbox.len()
        invariant
            g <= inbox@.len(),
            fc == spec_flatten_specs(claimed@),
            r@.len() == fc.len() + spec_flatten_specs(inbox@.take(g as int)).len(),
            forall|j: int|
                0 <= j < fc.len() ==> is_claimed_row(
                    #[trigger] r@[j],
                    fc[j].1,
                    fc[j].0@,
                    spec_node_alive(hbs@, fc[j].0@, now),
                ),
            forall|j: int|
                0 <= j < spec_flatten_specs(inbox@.take(g as int)).len() ==> is_pending_row(
                    #[trigger] r@[fc.len() + j],
                    spec_flatten_specs(inbox@.take(g as int))[j].1,
                    spec_flatten_specs(inbox@.take(g as int))[j].0@,
                ),
        decreases inbox@.len() - g,
    {
        let ghost base = spec_flatten_specs(inbox@.take(g as int));
        let node: &String = &inbox[g].0;
        let specs: &Vec<TaskSpec> = &inbox[g].1;
        let mut t: usize = 0;
        while t < specs.len()
            invariant
                t <= specs@.len(),
                g < inbox@.len(),
                node@ == inbox@[g as int].0@,
                specs@ == inbox@[g as int].1@,
                fc == spec_flatten_specs(claimed@),
                base == spec_flatten_specs(inbox@.take(g as int)),
                r@.len() == fc.len() + base.len() + t,
                forall|j: int|
                    0 <= j < fc.len() ==> is_claimed_row(
                        #[trigger] r@[j],
                        fc[j].1,
                        fc[j].0@,
                        spec_node_alive(hbs@, fc[j].0@, now),
                    ),
                forall|j: int|
                    0 <= j < base.len() ==> is_pending_row(
                        #[trigger] r@[fc.len() + j],
                        base[j].1,
                        base[j].0@,
                    ),
                forall|j: int|
                    0 <= j < t ==> is_pending_row(
                        #[trigger] r@[fc.len() + base.len() + j],
                        inbox@[g as int].1@[j],
                        inbox@[g as int].0@,
                    ),
            decreases specs@.len() - t,
        {
            let s = &specs[t];
            r.push(
                TaskState {
                    id: s.task_id.clone(),
                    command: s.command.clone(),
                    state: TaskPhase::Pending,
                    node: node.clone(),
                    exit_code: None,
                    gpus_requested: s.gpus,
                    gpus_assigned: String::new(),
                    finished_at: None,
                },
            );
            t = t + 1;
        }
        proof {
            let taken = inbox@.take(g + 1);
            assert(taken.drop_last() =~= inbox@.take(g as int));
            assert(taken.last() == inbox@[g as int]);
            let grown = spec_flatten_specs(inbox@.take(g + 1));
            assert(grown =~= base + inbox@[g as int].1@.map_values(
                |s: TaskSpec| (inbox@[g as int].0, s),
            ));
            assert forall|j: int| 0 <= j < grown.len() implies is_pending_row(
                #[trigger] r@[fc.len() + j],
                grown[j].1,
                grown[j].0@,
            ) by {
                if j >= base.len() {
                    let jj = j - base.len();
                    assert(is_pending_row(
                        r@[fc.len() + base.len() + jj],
                        inbox@[g as int].1@[jj],
                        inbox@[g as int].0@,
                    ));
                    assert(grown[j] == (inbox@[g as int].0, inbox@[g as int].1@[jj]));
                }
            }
        }
        g = g + 1;
    }
    proof {
        assert(inbox@.take(inbox@.len() as int) =~= inbox@);
    }
    let ghost fi = spec_flatten_specs(inbox@);
    let mut g: usize = 0;
    while g < done.len()
        invariant
            g <= done@.len(),
            fc == spec_flatten_specs(claimed@),
            fi == spec_flatten_specs(inbox@),
            r@.len() == fc.len() + fi.len() + spec_flatten_results(done@.take(g as int)).len(),
            forall|j: int|
                0 <= j < fc.len() ==> is_claimed_row(
                    #[trigger] r@[j],
                    fc[j].1,
                    fc[j].0@,
                    spec_node_alive(hbs@, fc[j].0@, now),
                ),
            forall|j: int|
                0 <= j < fi.len() ==> is_pending_row(#[trigger] r@[fc.len() + j], fi[j].1, fi[j].0@),
            forall|j: int|
                0 <= j < spec_flatten_results(done@.take(g as int)).len() ==> is_done_row(
                    #[trigger] r@[fc.len() + fi.len() + j],
                    spec_flatten_results(done@.take(g as int))[j],
                ),
        decreases done@.len() - g,
    {
        let ghost base = spec_flatten_results(done@.take(g as int));
        let results: &Vec<TaskResult> = &done[g].1;
        let mut t: usize = 0;
        while t < results.len()
            invariant
                t <= results@.len(),
                g < done@.len(),
                results@ == done@[g as int].1@,
                fc == spec_flatten_specs(claimed@),
                fi == spec_flatten_specs(inbox@),
                base == spec_flatten_results(done@.take(g as int)),
                r@.len() == fc.len() + fi.len() + base.len() + t,
                forall|j: int|
                    0 <= j < fc.len() ==> is_claimed_row(
                        #[trigger] r@[j],
                        fc[j].1,
                        fc[j].0@,
                        spec_node_alive(hbs@, fc[j].0@, now),
                    ),
                forall|j: int|
                    0 <= j < fi.len() ==> is_pending_row(
                        #[trigger] r@[fc.len() + j],
                        fi[j].1,
                        fi[j].0@,
                    ),
                forall|j: int|
                    0 <= j < base.len() ==> is_done_row(
                        #[trigger] r@[fc.len() + fi.len() + j],
                        base[j],
                    ),
                forall|j: int|
                    0 <= j < t ==> is_done_row(
                        #[trigger] r@[fc.len() + fi.len() + base.len() + j],
                        done@[g as int].1@[j],
                    ),
            decreases results@.len() - t,
        {
            let res = &results[t];
            r.push(
                TaskState {
                    id: res.task_id.clone(),
                    command: res.command.clone(),
                    state: if res.exit_code == 0 {
                        TaskPhase::Done
                    } else {
                        TaskPhase::Failed
                    },
                    node: res.node.clone(),
                    exit_code: Some(res.exit_code),
                    gpus_requested: res.gpus_requested,
                    gpus_assigned: res.gpus_assigned.clone(),
                    finished_at: Some(res.finished_at),
                },
            );
            t = t + 1;
        }
        proof {
            let taken = done@.take(g + 1);
            assert(taken.drop_last() =~= done@.take(g as int));
            assert(taken.last() == done@[g as int]);
            let grown = spec_flatten_results(done@.take(g + 1));
            assert(grown =~= base + done@[g as int].1@);
            assert forall|j: int| 0 <= j < grown.len() implies is_done_row(
                #[trigger] r@[fc.len() + fi.len() + j],
                grown[j],
            ) by {
                if j >= base.len() {
                    let jj = j - base.len();
                    assert(is_done_row(
                        r@[fc.len() + fi.len() + base.len() + jj],
                        done@[g as int].1@[jj],
                    ));
                    assert(grown[j] == done@[g as int].1@[jj]);
                }
            }
        }
        g = g + 1;
    }
    proof {
        assert(done@.take(done@.len() as int) =~= done@);
    }
    r
}

} // verus!

verus! {

/// An equal copy of a task row.
pub fn clone_task(t: &TaskState) -> (r: TaskState)
    ensures
        r == *t,
{
    TaskState {
        id: t.id.clone(),
        command: t.command.clone(),
        state: t.state,
        node: t.node.clone(),
        exit_code: t.exit_code,
        gpus_requested: t.gpus_requested,
        gpus_assigned: t.gpus_assigned.clone(),
        finished_at: t.finished_at,
    }
}

/// The display rank of a phase: running tasks first, then pending, then
/// failed, then done; stuck tasks last.
pub open spec fn spec_phase_rank(p: TaskPhase) -> int {
    match p {
        TaskPhase::Running => 0,
        TaskPhase::Pending => 1,
        TaskPhase::Failed => 2,
        TaskPhase::Done => 3,
        TaskPhase::Stuck => 4,
    }
}

/// The finish-time sort key: completed rows by their finish time, rows
/// without one below every completed row.
pub open spec fn spec_fin_key(t: TaskState) -> int {
    if t.finished_at is Some {
        t.finished_at->0 as int
    } else {
        -1
    }
}

/// The display order: by phase rank when `by_rank`, most recently
/// finished first within a rank; by finish time alone otherwise.
pub open spec fn spec_display_leq(by_rank: bool, a: TaskState, b: TaskState) -> bool {
    if by_rank {
        spec_phase_rank(a.state) < spec_phase_rank(b.state) || (spec_phase_rank(a.state)
            == spec_phase_rank(b.state) && spec_fin_key(a) >= spec_fin_key(b))
    } else {
        spec_fin_key(a) >= spec_fin_key(b)
    }
}

/// Strictly-before in display order.
pub open spec fn spec_display_lt(by_rank: bool, a: TaskState, b: TaskState) -> bool {
    spec_display_leq(by_rank, a, b) && !spec_display_leq(by_rank, b, a)
}

fn phase_rank(p: TaskPhase) -> (r: u8)
    ensures
        r as int == spec_phase_rank(p),
{
    match p {
        TaskPhase::Running => 0,
        TaskPhase::Pending => 1,
        TaskPhase::Failed => 2,
        TaskPhase::Done => 3,
        TaskPhase::Stuck => 4,
    }
}

fn fin_gt(a: &TaskState, b: &TaskState) -> (r: bool)
    ensures
        r == (spec_fin_key(*a) > spec_fin_key(*b)),
{
    match (a.finished_at, b.finished_at) {
        (Some(x), Some(y)) => x > y,
        (Some(_), None) => true,
        _ => false,
    }
}

/// Decides strict display order.
fn display_before(by_rank: bool, a: &TaskState, b: &TaskState) -> (r: bool)
    ensures
        r == spec_display_lt(by_rank, *a, *b),
{
    if by_rank {
        let ra = phase_rank(a.state);
        let rb = phase_rank(b.state);
        ra < rb || (ra == rb && fin_gt(a, b))
    } else {
        fin_gt(a, b)
    }
}

/// Sorts task rows into display order by selection of the least
/// remaining row; the result is an ordered permutation of the input.
pub fn sort_tasks_by(v: Vec<TaskState>, by_rank: bool) -> (r: Vec<TaskState>)
    ensures
        r@.to_multiset() == v@.to_multiset(),
        r@.len() == v@.len(),
        forall|i: int, j: int|
            0 <= i < j < r@.len() ==> spec_display_leq(by_rank, r@[i], r@[j]),
{
    broadcast use vstd::seq_lib::group_to_multiset_ensures;
    broadcast use vstd::multiset::group_multiset_axioms;

    let mut src = v;
    let mut out: Vec<TaskState> = Vec::new();
    let ghost orig = src@;
    while src.len() > 0
        invariant
            out@.to_multiset().add(src@.to_multiset()) == orig.to_multiset(),
            out@.len() + src@.len() == orig.len(),
            forall|i: int, j: int|
                0 <= i < j < out@.len() ==> spec_display_leq(by_rank, out@[i], out@[j]),
            forall|i: int, k: int|
                0 <= i < out@.len() && 0 <= k < src@.len() ==> spec_display_leq(
                    by_rank,
                    out@[i],
                    src@[k],
                ),
        decreases src@.len(),
    {
        let mut best: usize = 0;
        let mut k: usize = 1;
        while k < src.len()
            invariant
                src@.len() > 0,
                best < src@.len(),
                k <= src@.len(),
                forall|m: int| 0 <= m < k ==> !spec_display_lt(by_rank, src@[m], src@[best as int]),
            decreases src@.len() - k,
        {
            if display_before(by_rank, &src[k], &src[best]) {
                best = k;
            }
            k = k + 1;
        }
        let ghost prev_src = src@;
        let ghost prev_out = out@;
        let m = src.remove(best);
        out.push(m);
        proof {
            prev_src.to_multiset_ensures();
            prev_out.to_multiset_ensures();
            assert(src@ == prev_src.remove(best as int));
            assert(prev_src.contains(m)) by {
                assert(prev_src[best as int] == m);
            }
            assert(prev_src.to_multiset().count(m) > 0);
            assert(prev_src.remove(best as int).to_multiset() =~= prev_src.to_multiset().remove(m));
            assert(prev_src.to_multiset() =~= src@.to_multiset().insert(m));
            assert(out@ == prev_out.push(m));
            assert(prev_out.push(m).to_multiset() =~= prev_out.to_multiset().insert(m));
            assert(prev_out.to_multiset().add(prev_src.to_multiset()) =~= out@.to_multiset().add(
                src@.to_multiset(),
            ));
            assert forall|i: int, kk: int|
                0 <= i < out@.len() && 0 <= kk < src@.len() implies spec_display_leq(
                by_rank,
                out@[i],
                src@[kk],
            ) by {
                if kk < best {
                    assert(src@[kk] == prev_src[kk]);
                } else {
                    assert(src@[kk] == prev_src[kk + 1]);
                }
            }
        }
    }
    proof {
        assert(src@.to_multiset() =~= vstd::multiset::Multiset::<TaskState>::empty());
        assert(out@.to_multiset() =~= orig.to_multiset());
    }
    out
}

/// Sorts the task table into the order the interface shows: running
/// first, then pending, failed, done, stuck, most recent first within a
/// kind.
pub fn sort_tasks(v: Vec<TaskState>) -> (r: Vec<TaskState>)
    ensures
        r@.to_multiset() == v@.to_multiset(),
        r@.len() == v@.len(),
        forall|i: int, j: int| 0 <= i < j < r@.len() ==> spec_display_leq(true, r@[i], r@[j]),
{
    sort_tasks_by(v, true)
}

} // verus!

verus! {

/// The interactive view's task filter.
#[derive(Debug, Clone, Copy, PartialEq, Eq, Structural)]
pub enum TaskFilter {
    All,
    Running,
    Pending,
    Done,
    Failed,
    Recent,
}

impl Default for TaskFilter {
    /// The view opens on the recent filter.
    fn default() -> (r: Self)
        ensures
            r is Recent,
    {
        TaskFilter::Recent
    }
}

impl TaskFilter {
    /// The filter's display word.
    pub fn label(&self) -> (r: String)
        ensures
            self is All ==> r@ == "All"@,
            self is Running ==> r@ == "Running"@,
            self is Pending ==> r@ == "Pending"@,
            self is Done ==> r@ == "Done"@,
            self is Failed ==> r@ == "Failed"@,
            self is Recent ==> r@ == "Recent"@,
    {
        match self {
            TaskFilter::All => "All".to_owned(),
            TaskFilter::Running => "Running".to_owned(),
            TaskFilter::Pending => "Pending".to_owned(),
            TaskFilter::Done => "Done".to_owned(),
            TaskFilter::Failed => "Failed".to_owned(),
            TaskFilter::Recent => "Recent".to_owned(),
        }
    }

    /// The next filter in the cycle the view steps through.
    pub fn next(self) -> (r: Self)
        ensures
            self is Recent ==> r is All,
            self is All ==> r is Running,
            self is Running ==> r is Pending,
            self is Pending ==> r is Done,
            self is Done ==> r is Failed,
            self is Failed ==> r is Recent,
    {
        match self {
            TaskFilter::Recent => TaskFilter::All,
            TaskFilter::All => TaskFilter::Running,
            TaskFilter::Running => TaskFilter::Pending,
            TaskFilter::Pending => TaskFilter::Done,
            TaskFilter::Done => TaskFilter::Failed,
            TaskFilter::Failed => TaskFilter::Recent,
        }
    }
}

/// The filter settings of the interactive view.
#[derive(Debug, Clone)]
pub struct FilterState {
    pub filter: TaskFilter,
    /// The recent filter keeps completed tasks newer than this many hours.
    pub recent_hours: u64,
    /// The recent filter caps completed tasks at this many rows.
    pub max_completed: usize,
}

impl Default for FilterState {
    /// Recent tasks of the last day, fifty completed rows at most.
    fn default() -> (r: Self)
        ensures
            r.filter is Recent,
            r.recent_hours == 24,
            r.max_completed == 50,
    {
        FilterState { filter: TaskFilter::Recent, recent_hours: 24, max_completed: 50 }
    }
}

/// A row the recent filter counts as active.
pub open spec fn spec_is_active(t: TaskState) -> bool {
    t.state is Running || t.state is Pending
}

/// A row of a completed task.
pub open spec fn spec_is_completed(t: TaskState) -> bool {
    t.state is Done || t.state is Failed
}

/// Whether the recent filter keeps a completed row at time `now`: its
/// finish time lies within the last `hours` hours.  A row without a
/// finish time is kept.
pub open spec fn spec_recent_keep(t: TaskState, now: u64, hours: u64) -> bool {
    t.finished_at matches Some(ft) ==> ft + hours * 3600 > now
}

/// Decides whether the recent filter keeps a completed row.
fn recent_keep(t: &TaskState, now: u64, hours: u64) -> (r: bool)
    ensures
        r == spec_recent_keep(*t, now, hours),
{
    match t.finished_at {
        None => true,
        Some(ft) => (ft as u128) + (hours as u128) * 3600 > now as u128,
    }
}

/// Applies the view's filter to the full task table: a state filter keeps
/// its rows in order; the recent filter keeps every active row, followed
/// by the completed rows of the last `recent_hours` hours, most recently
/// finished first, capped at `max_completed`.
pub fn apply_filter(fs: &FilterState, all: &Vec<TaskState>, now: u64) -> (r: Vec<TaskState>)
    ensures
        fs.filter is All ==> r@ == all@,
        fs.filter is Running ==> r@ == all@.filter(|t: TaskState| t.state is Running),
        fs.filter is Pending ==> r@ == all@.filter(|t: TaskState| t.state is Pending),
        fs.filter is Done ==> r@ == all@.filter(|t: TaskState| t.state is Done),
        fs.filter is Failed ==> r@ == all@.filter(|t: TaskState| t.state is Failed),
        fs.filter is Recent ==> ({
            let act = all@.filter(|t: TaskState| spec_is_active(t));
            let comp = all@.filter(
                |t: TaskState| spec_is_completed(t) && spec_recent_keep(t, now, fs.recent_hours),
            );
            exists|srt: Seq<TaskState>|
                {
                    &&& #[trigger] srt.to_multiset() == comp.to_multiset()
                    &&& srt.len() == comp.len()
                    &&& forall|i: int, j: int|
                        0 <= i < j < srt.len() ==> spec_display_leq(false, srt[i], srt[j])
                    &&& r@ == act + (if comp.len() <= fs.max_completed {
                        srt
                    } else {
                        srt.subrange(0, fs.max_completed as int)
                    })
                }
        }),
{
    match fs.filter {
        TaskFilter::All => filter_rows(all, 0),
        TaskFilter::Running => filter_rows(all, 1),
        TaskFilter::Pending => filter_rows(all, 2),
        TaskFilter::Done => filter_rows(all, 3),
        TaskFilter::Failed => filter_rows(all, 4),
        TaskFilter::Recent => {
            let mut act: Vec<TaskState> = Vec::new();
            let mut comp: Vec<TaskState> = Vec::new();
            let mut i: usize = 0;
            proof {
                reveal(Seq::filter);
            }
            while i < all.len()
                invariant
                    i <= all@.len(),
                    act@ =~= all@.take(i as int).filter(|t: TaskState| spec_is_active(t)),
                    comp@ =~= all@.take(i as int).filter(
                        |t: TaskState| spec_is_completed(t) && spec_recent_keep(
                            t,
                            now,
                            fs.recent_hours,
                        ),
                    ),
                decreases all@.len() - i,
            {
                let t = &all[i];
                let active = match t.state {
                    TaskPhase::Running => true,
                    TaskPhase::Pending => true,
                    _ => false,
                };
                let completed = match t.state {
                    TaskPhase::Done => true,
                    TaskPhase::Failed => true,
                    _ => false,
                };
                if active {
                    act.push(clone_task(t));
                }
                if completed && recent_keep(t, now, fs.recent_hours) {
                    comp.push(clone_task(t));
                }
                proof {
                    reveal(Seq::filter);
                    assert(all@.take(i + 1).drop_last() =~= all@.take(i as int));
                    assert(all@.take(i + 1).last() == all@[i as int]);
                }
                i = i + 1;
            }
            proof {
                assert(all@.take(all@.len() as int) =~= all@);
            }
            let ghost comp_view = comp@;
            let sorted = sort_tasks_by(comp, false);
            let ghost srt = sorted@;
            let mut sorted = sorted;
            if sorted.len() > fs.max_completed {
                sorted.truncate(fs.max_completed);
            }
            let mut r = act;
            let mut sorted = sorted;
            r.append(&mut sorted);
            proof {
                assert(srt.to_multiset() == comp_view.to_multiset());
                if comp_view.len() <= fs.max_completed {
                    assert(r@ == all@.filter(|t: TaskState| spec_is_active(t)) + srt);
                } else {
                    assert(r@ == all@.filter(|t: TaskState| spec_is_active(t)) + srt.subrange(
                        0,
                        fs.max_completed as int,
                    ));
                }
            }
            r
        },
    }
}

/// Keeps the rows of one phase, in order; zero keeps every row.
fn filter_rows(all: &Vec<TaskState>, which: u8) -> (r: Vec<TaskState>)
    requires
        which <= 4,
    ensures
        which == 0 ==> r@ == all@,
        which == 1 ==> r@ == all@.filter(|t: TaskState| t.state is Running),
        which == 2 ==> r@ == all@.filter(|t: TaskState| t.state is Pending),
        which == 3 ==> r@ == all@.filter(|t: TaskState| t.state is Done),
        which == 4 ==> r@ == all@.filter(|t: TaskState| t.state is Failed),
{
    let mut r: Vec<TaskState> = Vec::new();
    let mut i: usize = 0;
    proof {
        reveal(Seq::filter);
    }
    while i < all.len()
        invariant
            which <= 4,
            i <= all@.len(),
            which == 0 ==> r@ =~= all@.take(i as int),
            which == 1 ==> r@ =~= all@.take(i as int).filter(|t: TaskState| t.state is Running),
            which == 2 ==> r@ =~= all@.take(i as int).filter(|t: TaskState| t.state is Pending),
            which == 3 ==> r@ =~= all@.take(i as int).filter(|t: TaskState| t.state is Done),
            which == 4 ==> r@ =~= all@.take(i as int).filter(|t: TaskState| t.state is Failed),
        decreases all@.len() - i,
    {
        let t = &all[i];
        let keep = if which == 0 {
            true
        } else if which == 1 {
            match t.state {
                TaskPhase::Running => true,
                _ => false,
            }
        } else if which == 2 {
            match t.state {
                TaskPhase::Pending => true,
                _ => false,
            }
        } else if which == 3 {
            match t.state {
                TaskPhase::Done => true,
                _ => false,
            }
        } else {
            match t.state {
                TaskPhase::Failed => true,
                _ => false,
            }
        };
        if keep {
            r.push(clone_task(t));
        }
        proof {
            reveal(Seq::filter);
            assert(all@.take(i + 1).drop_last() =~= all@.take(i as int));
            assert(all@.take(i + 1).last() == all@[i as int]);
        }
        i = i + 1;
    }
    proof {
        assert(all@.take(all@.len() as int) =~= all@);
    }
    r
}

} // verus!

verus! {

/// Shortens a command for a table cell: a string longer than `max_len`
/// characters is cut to `max_len - 3` and finished with three dots.
pub fn truncate(s: &str, max_len: usize) -> (r: String)
    requires
        s@.len() <= max_len || max_len >= 3,
    ensures
        s@.len() <= max_len ==> r@ == s@,
        s@.len() > max_len ==> r@ == s@.take(max_len - 3) + "..."@,
{
    let len = s.unicode_len();
    if len <= max_len {
        s.to_owned()
    } else {
        let head = s.substring_char(0, max_len - 3);
        let mut r = head.to_owned();
        append_str(&mut r, "...");
        proof {
            assert(s@.subrange(0, max_len - 3) =~= s@.take(max_len - 3));
        }
        r
    }
}

/// Shortens a string for a narrow cell: one longer than `max_len`
/// characters is cut to `max_len - 1` and finished with an ellipsis.
pub fn truncate_str(s: &str, max_len: usize) -> (r: String)
    ensures
        s@.len() <= max_len ==> r@ == s@,
        s@.len() > max_len ==> r@ == s@.take(
            if max_len >= 1 {
                max_len - 1
            } else {
                0
            },
        ).push('…'),
{
    let len = s.unicode_len();
    if len <= max_len {
        s.to_owned()
    } else {
        let cut: usize = if max_len >= 1 {
            max_len - 1
        } else {
            0
        };
        let head = s.substring_char(0, cut);
        let mut r = head.to_owned();
        push_char(&mut r, '…');
        proof {
            assert(s@.subrange(0, cut as int) =~= s@.take(cut as int));
        }
        r
    }
}

/// Why no task could be picked for following.
#[derive(Debug, Clone, Copy, PartialEq, Eq, Structural)]
pub enum FollowError {
    /// No task is claimed on any matching node.
    NoRunningTasks,
    /// More than one task is claimed; the caller must name one.
    MultipleRunningTasks,
}

/// Whether a node passes an optional node filter.
pub open spec fn spec_node_passes(node: Seq<char>, nf: Option<String>) -> bool {
    nf matches Some(f) ==> node == f@
}

/// How many claimed tasks the filtered listing holds.
pub open spec fn spec_running_count(
    groups: Seq<(String, Vec<TaskSpec>)>,
    nf: Option<String>,
) -> int
    decreases groups.len(),
{
    if groups.len() == 0 {
        0
    } else {
        spec_running_count(groups.drop_last(), nf) + (if spec_node_passes(groups.last().0@, nf) {
            groups.last().1@.len() as int
        } else {
            0
        })
    }
}

/// Picks the task to follow: the single claimed task on the nodes the
/// filter admits.  With none the caller must name a task; with several,
/// a task or node.
pub fn find_running_task(claimed: &Vec<(String, Vec<TaskSpec>)>, node_filter: &Option<String>) -> (r:
    Result<String, FollowError>)
    ensures
        (r matches Err(e) && e is NoRunningTasks) <==> spec_running_count(claimed@, *node_filter)
            == 0,
        (r matches Err(e) && e is MultipleRunningTasks) <==> spec_running_count(
            claimed@,
            *node_filter,
        ) >= 2,
        r matches Ok(v) ==> spec_running_count(claimed@, *node_filter) == 1 && exists|g: int, t: int|
            0 <= g < claimed@.len() && 0 <= t < claimed@[g].1@.len() && spec_node_passes(
                #[trigger] claimed@[g].0@,
                *node_filter,
            ) && v@ == #[trigger] claimed@[g].1@[t].task_id@,
{
    let mut found: Option<String> = None;
    let mut multiple: bool = false;
    let ghost nf = *node_filter;
    let mut g: usize = 0;
    while g < claimed.len()
        invariant
            g <= claimed@.len(),
            nf == *node_filter,
            ({
                let c = spec_running_count(claimed@.take(g as int), nf);
                &&& (found is None ==> !multiple && c == 0)
                &&& (found is Some && !multiple ==> c == 1)
                &&& (multiple ==> found is Some && c >= 2)
                &&& (found matches Some(v) ==> exists|gg: int, t: int|
                    0 <= gg < g && 0 <= t < claimed@[gg].1@.len() && spec_node_passes(
                        #[trigger] claimed@[gg].0@,
                        nf,
                    ) && v@ == #[trigger] claimed@[gg].1@[t].task_id@)
            }),
        decreases claimed@.len() - g,
    {
        let passes = match node_filter {
            Some(f) => str_eq(claimed[g].0.as_str(), f.as_str()),
            None => true,
        };
        let ghost c0 = spec_running_count(claimed@.take(g as int), nf);
        if passes {
            let specs: &Vec<TaskSpec> = &claimed[g].1;
            let mut t: usize = 0;
            while t < specs.len()
                invariant
                    t <= specs@.len(),
                    g < claimed@.len(),
                    nf == *node_filter,
                    specs@ == claimed@[g as int].1@,
                    spec_node_passes(claimed@[g as int].0@, nf),
                    ({
                        let c = c0 + t;
                        &&& c0 == spec_running_count(claimed@.take(g as int), nf)
                        &&& (found is None ==> !multiple && c == 0)
                        &&& (found is Some && !multiple ==> c == 1)
                        &&& (multiple ==> found is Some && c >= 2)
                        &&& (found matches Some(v) ==> exists|gg: int, tt: int|
                            0 <= gg <= g && 0 <= tt < claimed@[gg].1@.len() && spec_node_passes(
                                #[trigger] claimed@[gg].0@,
                                nf,
                            ) && v@ == #[trigger] claimed@[gg].1@[tt].task_id@)
                    }),
                decreases specs@.len() - t,
            {
                match found {
                    None => {
                        found = Some(specs[t].task_id.clone());
                        proof {
                            assert(claimed@[g as int].1@[t as int].task_id@ == specs@[t as int].task_id@);
                        }
                    },
                    Some(_) => {
                        multiple = true;
                    },
                }
                t = t + 1;
            }
        }
        proof {
            let taken = claimed@.take(g + 1);
            assert(taken.drop_last() =~= claimed@.take(g as int));
            assert(taken.last() == claimed@[g as int]);
        }
        g = g + 1;
    }
    proof {
        assert(claimed@.take(claimed@.len() as int) =~= claimed@);
    }
    if multiple {
        Err(FollowError::MultipleRunningTasks)
    } else {
        match found {
            Some(v) => Ok(v),
            None => Err(FollowError::NoRunningTasks),
        }
    }
}

/// Finds the first name in a log-directory listing that starts with the
/// task prefix and carries the wanted extension (`.err` when `stderr`,
/// else `.out`).
pub fn find_log_name(names: &Vec<String>, task_prefix: &str, stderr: bool) -> (r: Option<usize>)
    ensures
        ({
            let ext = if stderr {
                ".err"@
            } else {
                ".out"@
            };
            &&& (r matches Some(i) ==> 0 <= i < names@.len() && task_prefix@.is_prefix_of(
                names@[i as int]@,
            ) && ext.is_suffix_of(names@[i as int]@) && forall|j: int|
                0 <= j < i ==> !(task_prefix@.is_prefix_of(#[trigger] names@[j]@)
                    && ext.is_suffix_of(names@[j]@)))
            &&& ((r is None) <==> forall|j: int|
                0 <= j < names@.len() ==> !(task_prefix@.is_prefix_of(#[trigger] names@[j]@)
                    && ext.is_suffix_of(names@[j]@)))
        }),
{
    let ext = if stderr {
        ".err"
    } else {
        ".out"
    };
    let mut i: usize = 0;
    while i < names.len()
        invariant
            i <= names@.len(),
            ext@ == (if stderr {
                ".err"@
            } else {
                ".out"@
            }),
            forall|j: int|
                0 <= j < i ==> !(task_prefix@.is_prefix_of(#[trigger] names@[j]@) && (if stderr {
                    ".err"@
                } else {
                    ".out"@
                }).is_suffix_of(names@[j]@)),
        decreases names@.len() - i,
    {
        if str_starts_with(names[i].as_str(), task_prefix) && str_ends_with(names[i].as_str(), ext) {
            return Some(i);
        }
        i = i + 1;
    }
    None
}

} // verus!

verus! {

/// Whether the listing command's state filter keeps a row of this phase.
pub fn state_filter_keeps(f: TaskStateFilter, phase: TaskPhase) -> (r: bool)
    ensures
        f is All ==> r,
        f is Running ==> r == (phase is Running),
        f is Pending ==> r == (phase is Pending),
        f is Done ==> r == (phase is Done),
        f is Failed ==> r == (phase is Failed),
        f is Stuck ==> r == (phase is Stuck),
{
    match f {
        TaskStateFilter::All => true,
        TaskStateFilter::Running => matches!(phase, TaskPhase::Running),
        TaskStateFilter::Pending => matches!(phase, TaskPhase::Pending),
        TaskStateFilter::Done => matches!(phase, TaskPhase::Done),
        TaskStateFilter::Failed => matches!(phase, TaskPhase::Failed),
        TaskStateFilter::Stuck => matches!(phase, TaskPhase::Stuck),
    }
}

/// The first line to print when only the last `keep` lines of `total`
/// are wanted.
pub fn tail_start(total: usize, keep: usize) -> (r: usize)
    ensures
        r == (if total > keep {
            total - keep
        } else {
            0
        }),
{
    if total > keep {
        total - keep
    } else {
        0
    }
}

} // verus!
