//! The per-node runner's decisions: which inbox entry to claim, whether a
//! claimed task is a duplicate, what record each outcome leaves behind,
//! which cancel request applies, and the heartbeat it emits each tick.
//!
//! The surrounding loop — ticking once a second, renaming files, spawning
//! the child process — performs these decisions against the filesystem;
//! every decision itself is made here, on plain values.

use vstd::prelude::*;
use vstd::string::*;
use crate::models::{CancelCommand, Heartbeat, TaskResult, TaskSpec};
use crate::fname::{is_result_file, spec_is_result_file, spec_log_err_rel, spec_log_out_rel};
use crate::strutil::{lex_lt, str_eq, str_lt, str_starts_with, u64_to_string, push_char, dec_chars};

verus! {

/// The comma-separated device list `"0,1,…,n-1"` assigned to a task that
/// requested `n` GPUs; empty when `n == 0`.
pub open spec fn spec_gpu_list(n: nat) -> Seq<char>
    decreases n,
{
    if n == 0 {
        Seq::empty()
    } else if n == 1 {
        dec_chars(0)
    } else {
        spec_gpu_list((n - 1) as nat) + ","@ + dec_chars((n - 1) as nat)
    }
}

/// Builds the assigned-device list for a requested GPU count.
pub fn gpus_assigned_string(gpus: u32) -> (r: String)
    ensures
        r@ == spec_gpu_list(gpus as nat),
{
    let mut s = String::new();
    let mut i: u32 = 0;
    while i < gpus
        invariant
            i <= gpus,
            s@ =~= spec_gpu_list(i as nat),
        decreases gpus - i,
    {
        if i > 0 {
            push_char(&mut s, ',');
            proof {
                reveal_strlit(",");
                assert(spec_gpu_list(i as nat).push(',') =~= spec_gpu_list(i as nat) + ","@);
            }
        }
        let d = u64_to_string(i as u64);
        crate::strutil::append_str(&mut s, d.as_str());
        proof {
            assert(s@ =~= spec_gpu_list((i + 1) as nat));
        }
        i = i + 1;
    }
    s
}

/// What a runner does with a task it has just claimed and decoded: skip it
/// as a duplicate, leaving the given record, or execute it.
pub enum ClaimStep {
    Skip(TaskResult),
    Execute,
}

/// The record left for a task skipped as a duplicate: exit code zero, no
/// logs, no runtime, both timestamps the moment of the decision.
pub open spec fn is_skipped_result(r: TaskResult, s: TaskSpec, node: Seq<char>, now: u64) -> bool {
    &&& r.task_id@ == s.task_id@
    &&& r.idempotency_key@ == s.idempotency_key@
    &&& r.node@ == node
    &&& r.started_at == now
    &&& r.finished_at == now
    &&& r.exit_code == 0
    &&& r.stdout@ == Seq::<char>::empty()
    &&& r.stderr@ == Seq::<char>::empty()
    &&& r.runtime_ms == 0
    &&& r.command@ == s.command@
    &&& r.gpus_requested == s.gpus
    &&& r.gpus_assigned@ == Seq::<char>::empty()
}

/// The record left for an executed task: log paths under `logs/`, the
/// echoed command and GPU request, the measured times, and the process's
/// exit code, with `-1` standing for a process that yielded none.
pub open spec fn is_executed_result(
    r: TaskResult,
    s: TaskSpec,
    node: Seq<char>,
    started_ms: u64,
    finished_ms: u64,
    code: Option<i32>,
) -> bool {
    &&& r.task_id@ == s.task_id@
    &&& r.idempotency_key@ == s.idempotency_key@
    &&& r.node@ == node
    &&& r.started_at == started_ms / 1000
    &&& r.finished_at == finished_ms / 1000
    &&& r.exit_code == (if code is Some {
        code->0
    } else {
        -1i32
    })
    &&& r.stdout@ == spec_log_out_rel(s.task_id@)
    &&& r.stderr@ == spec_log_err_rel(s.task_id@)
    &&& r.runtime_ms == finished_ms - started_ms
    &&& r.command@ == s.command@
    &&& r.gpus_requested == s.gpus
    &&& r.gpus_assigned@ == spec_gpu_list(s.gpus as nat)
}

/// The state a runner carries between ticks: its node name and the cache
/// of idempotency keys already executed on this node.
pub struct Runner {
    pub node: String,
    /// The dedup cache: keys of results already recorded on this node.
    pub executed_keys: Vec<String>,
}

impl Runner {
    /// The set of idempotency keys this runner holds as already executed.
    pub closed spec fn spec_keys(&self) -> Set<Seq<char>> {
        Set::new(
            |k: Seq<char>|
                exists|i: int| 0 <= i < self.executed_keys@.len() && self.executed_keys@[i]@ == k,
        )
    }

    /// A fresh runner for a node, with an empty dedup cache.
    pub fn new(node: String) -> (r: Runner)
        ensures
            r.node@ == node@,
            r.spec_keys() == Set::<Seq<char>>::empty(),
    {
        let r = Runner { node, executed_keys: Vec::new() };
        proof {
            assert(r.spec_keys() =~= Set::<Seq<char>>::empty());
        }
        r
    }

    /// Whether a key is in the dedup cache.
    pub fn is_duplicate(&self, idempotency_key: &str) -> (r: bool)
        ensures
            r == self.spec_keys().contains(idempotency_key@),
    {
        let mut i: usize = 0;
        while i < self.executed_keys.len()
            invariant
                i <= self.executed_keys@.len(),
                forall|j: int| 0 <= j < i ==> self.executed_keys@[j]@ != idempotency_key@,
            decreases self.executed_keys@.len() - i,
        {
            if str_eq(self.executed_keys[i].as_str(), idempotency_key) {
                proof {
                    assert(self.spec_keys().contains(idempotency_key@)) by {
                        assert(self.executed_keys@[i as int]@ == idempotency_key@);
                    }
                }
                return true;
            }
            i = i + 1;
        }
        false
    }

    /// Adds a key to the dedup cache.
    fn insert_key(&mut self, key: String)
        ensures
            final(self).node == old(self).node,
            final(self).spec_keys() == old(self).spec_keys().insert(key@),
    {
        let ghost prev = self.executed_keys@;
        self.executed_keys.push(key);
        proof {
            assert forall|k: Seq<char>|
                self.spec_keys().contains(k) <==> old(self).spec_keys().insert(key@).contains(
                    k,
                ) by {
                if old(self).spec_keys().insert(key@).contains(k) {
                    if k == key@ {
                        assert(self.executed_keys@[prev.len() as int]@ == k);
                    } else {
                        let i = choose|i: int|
                            0 <= i < prev.len() && prev[i]@ == k;
                        assert(self.executed_keys@[i]@ == k);
                    }
                }
            }
            assert(self.spec_keys() =~= old(self).spec_keys().insert(key@));
        }
    }

    /// Seeds the dedup cache from decoded `*.result.json` records found in
    /// `done/<node>/` at startup; every key of `results` enters the cache.
    pub fn load_executed_keys(&mut self, results: &Vec<TaskResult>)
        ensures
            final(self).node == old(self).node,
            final(self).spec_keys() == old(self).spec_keys() + Set::new(
                |k: Seq<char>|
                    exists|i: int| 0 <= i < results@.len() && results@[i].idempotency_key@ == k,
            ),
    {
        let mut i: usize = 0;
        while i < results.len()
            invariant
                i <= results@.len(),
                self.node == old(self).node,
                self.spec_keys() =~= old(self).spec_keys() + Set::new(
                    |k: Seq<char>|
                        exists|j: int| 0 <= j < i && results@[j].idempotency_key@ == k,
                ),
            decreases results@.len() - i,
        {
            let ghost before = self.spec_keys();
            self.insert_key(results[i].idempotency_key.clone());
            proof {
                assert(self.spec_keys() =~= old(self).spec_keys() + Set::new(
                    |k: Seq<char>|
                        exists|j: int| 0 <= j < i + 1 && results@[j].idempotency_key@ == k,
                ));
            }
            i = i + 1;
        }
    }

    /// Keeps exactly the names of executed-task records (`*.result.json`)
    /// from a `done/<node>/` listing, in order.
    pub fn filter_result_files(names: &Vec<String>) -> (r: Vec<String>)
        ensures
            r@.map_values(|s: String| s@) == names@.map_values(|s: String| s@).filter(
                |n: Seq<char>| spec_is_result_file(n),
            ),
    {
        let mut r: Vec<String> = Vec::new();
        let mut i: usize = 0;
        proof {
            reveal(Seq::filter);
            assert(names@.map_values(|s: String| s@).take(0).filter(
                |n: Seq<char>| spec_is_result_file(n),
            ) =~= Seq::<Seq<char>>::empty());
        }
        while i < names.len()
            invariant
                i <= names@.len(),
                r@.map_values(|s: String| s@) =~= names@.map_values(|s: String| s@).take(
                    i as int,
                ).filter(|n: Seq<char>| spec_is_result_file(n)),
            decreases names@.len() - i,
        {
            let ghost mapped = names@.map_values(|s: String| s@);
            if is_result_file(names[i].as_str()) {
                r.push(names[i].clone());
            }
            proof {
                reveal(Seq::filter);
                assert(mapped.take(i + 1).drop_last() =~= mapped.take(i as int));
                assert(mapped.take(i + 1).last() == mapped[i as int]);
            }
            i = i + 1;
        }
        proof {
            assert(names@.map_values(|s: String| s@).take(names@.len() as int) =~= names@.map_values(
                |s: String| s@,
            ));
        }
        r
    }

    /// Picks the entry to claim from an inbox listing: the lexicographically
    /// least name, hence the oldest submission.  An empty inbox yields `None`.
    pub fn poll_pick(entries: &Vec<String>) -> (r: Option<usize>)
        ensures
            (r is None) <==> entries@.len() == 0,
            r matches Some(i) ==> 0 <= i < entries@.len() && forall|k: int|
                0 <= k < entries@.len() ==> !lex_lt(entries@[k]@, entries@[i as int]@),
    {
        if entries.len() == 0 {
            return None;
        }
        let mut best: usize = 0;
        let mut k: usize = 1;
        proof {
            crate::strutil::lemma_lex_irrefl(entries@[0]@);
        }
        while k < entries.len()
            invariant
                entries@.len() > 0,
                best < entries@.len(),
                k <= entries@.len(),
                forall|m: int| 0 <= m < k ==> !lex_lt(entries@[m]@, entries@[best as int]@),
            decreases entries@.len() - k,
        {
            let ghost prev_best = best as int;
            if str_lt(entries[k].as_str(), entries[best].as_str()) {
                best = k;
                proof {
                    crate::strutil::lemma_lex_irrefl(entries@[best as int]@);
                    assert forall|m: int| 0 <= m < k + 1 implies !lex_lt(
                        entries@[m]@,
                        entries@[best as int]@,
                    ) by {
                        if m < k && lex_lt(entries@[m]@, entries@[best as int]@) {
                            crate::strutil::lemma_lex_trans(
                                entries@[m]@,
                                entries@[best as int]@,
                                entries@[prev_best]@,
                            );
                        }
                    }
                }
            }
            k = k + 1;
        }
        Some(best)
    }

    /// Decides what to do with a claimed, decoded task: a spec whose key is
    /// already in the dedup cache is skipped and leaves a skipped record;
    /// any other spec is executed.  The cache itself does not change here.
    pub fn on_spec_claimed(&mut self, spec: &TaskSpec, now: u64) -> (r: ClaimStep)
        ensures
            *final(self) == *old(self),
            (r is Skip) <==> old(self).spec_keys().contains(spec.idempotency_key@),
            r matches ClaimStep::Skip(res) ==> is_skipped_result(res, *spec, old(self).node@, now),
    {
        if self.is_duplicate(spec.idempotency_key.as_str()) {
            ClaimStep::Skip(self.skipped_result(spec, now))
        } else {
            ClaimStep::Execute
        }
    }

    /// The record for a task skipped as a duplicate.
    fn skipped_result(&self, spec: &TaskSpec, now: u64) -> (r: TaskResult)
        ensures
            is_skipped_result(r, *spec, self.node@, now),
    {
        TaskResult {
            task_id: spec.task_id.clone(),
            idempotency_key: spec.idempotency_key.clone(),
            node: self.node.clone(),
            started_at: now,
            finished_at: now,
            exit_code: 0,
            stdout: String::new(),
            stderr: String::new(),
            runtime_ms: 0,
            command: spec.command.clone(),
            gpus_requested: spec.gpus,
            gpus_assigned: String::new(),
        }
    }

    /// Builds the record for an executed task and remembers its key in the
    /// dedup cache, so that any later spec with the same key is skipped.
    pub fn on_execution_finished(
        &mut self,
        spec: &TaskSpec,
        started_ms: u64,
        finished_ms: u64,
        code: Option<i32>,
    ) -> (r: TaskResult)
        requires
            started_ms <= finished_ms,
        ensures
            final(self).node == old(self).node,
            final(self).spec_keys() == old(self).spec_keys().insert(spec.idempotency_key@),
            is_executed_result(r, *spec, old(self).node@, started_ms, finished_ms, code),
    {
        let exit_code: i32 = match code {
            Some(c) => c,
            None => -1,
        };
        let r = TaskResult {
            task_id: spec.task_id.clone(),
            idempotency_key: spec.idempotency_key.clone(),
            node: self.node.clone(),
            started_at: started_ms / 1000,
            finished_at: finished_ms / 1000,
            exit_code,
            stdout: crate::fname::log_out_rel(spec.task_id.as_str()),
            stderr: crate::fname::log_err_rel(spec.task_id.as_str()),
            runtime_ms: finished_ms - started_ms,
            command: spec.command.clone(),
            gpus_requested: spec.gpus,
            gpus_assigned: gpus_assigned_string(spec.gpus),
        };
        self.insert_key(spec.idempotency_key.clone());
        r
    }

    /// The heartbeat record for a tick: the given clock reading becomes its
    /// timestamp, and the currently running task, pid, version and pending
    /// estimate are carried as given.
    pub fn heartbeat(
        &self,
        now: u64,
        running: Option<String>,
        pid: u32,
        version: String,
        pending: u32,
    ) -> (hb: Heartbeat)
        ensures
            hb.node@ == self.node@,
            hb.ts == now,
            hb.running_task_id == running,
            hb.pending_estimate == pending,
            hb.runner_pid == pid,
            hb.version == version,
    {
        Heartbeat {
            node: self.node.clone(),
            ts: now,
            running_task_id: running,
            pending_estimate: pending,
            runner_pid: pid,
            version,
        }
    }

    /// The heartbeat for a tick, stamped with the clock now.
    pub fn heartbeat_now(
        &self,
        running: Option<String>,
        pid: u32,
        version: String,
        pending: u32,
    ) -> (hb: Heartbeat)
        ensures
            hb.node@ == self.node@,
            hb.running_task_id == running,
            hb.pending_estimate == pending,
            hb.runner_pid == pid,
            hb.version == version,
    {
        let now = crate::clock::now_unix_seconds();
        self.heartbeat(now, running, pid, version, pending)
    }
}

/// Whether a cancel request for `cmd` applies to the running task
/// `running`: the request names the task or a prefix of its id.
pub open spec fn spec_cancel_matches(cmd: Seq<char>, running: Seq<char>) -> bool {
    cmd.is_prefix_of(running)
}

/// Decides whether a cancel request applies to the running task.
pub fn cancel_matches(cmd_task_id: &str, running: &str) -> (r: bool)
    ensures
        r == spec_cancel_matches(cmd_task_id@, running@),
{
    str_starts_with(running, cmd_task_id)
}

/// Finds the first decoded cancel request that applies to the running
/// task; the runner removes that file and signals the child.
pub fn find_cancel_match(cmds: &Vec<CancelCommand>, running: &str) -> (r: Option<usize>)
    ensures
        r matches Some(i) ==> 0 <= i < cmds@.len() && spec_cancel_matches(
            cmds@[i as int].task_id@,
            running@,
        ) && forall|j: int| 0 <= j < i ==> !spec_cancel_matches(cmds@[j].task_id@, running@),
        (r is None) ==> forall|j: int|
            0 <= j < cmds@.len() ==> !spec_cancel_matches(cmds@[j].task_id@, running@),
{
    let mut i: usize = 0;
    while i < cmds.len()
        invariant
            i <= cmds@.len(),
            forall|j: int| 0 <= j < i ==> !spec_cancel_matches(cmds@[j].task_id@, running@),
        decreases cmds@.len() - i,
    {
        if cancel_matches(cmds[i].task_id.as_str(), running) {
            return Some(i);
        }
        i = i + 1;
    }
    None
}

/// Deduplication: a key, once recorded as executed, keeps every later
/// spec carrying it out of execution.  `on_execution_finished` for a spec
/// with key `k` leaves a runner whose cache contains `k`, so by the
/// contract of `on_spec_claimed` that runner answers `Skip` for every
/// later spec whose key equals `k` — and the `Skip` record carries
/// `runtime_ms == 0` by `is_skipped_result`.
pub proof fn lemma_dedup_second_is_skipped(before: Runner, after: Runner, a: TaskSpec, b: TaskSpec)
    requires
        after.spec_keys() == before.spec_keys().insert(a.idempotency_key@),
        a.idempotency_key@ == b.idempotency_key@,
    ensures
        after.spec_keys().contains(b.idempotency_key@),
{
}

} // verus!
