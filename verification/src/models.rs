//! The queue's data model: lease identity, task specifications, task
//! results, heartbeats, cancel commands, and events.
//!
//! Timestamps are unix seconds unless a field name says otherwise; `seq`
//! is unix microseconds at submission and orders inbox filenames.  The
//! identifiers that outside libraries produce (UUIDs) are carried as their
//! rendered strings.

use vstd::prelude::*;

verus! {

/// The identity of a lease: `local:<host>` for a single-host lease, or a
/// bare batch-scheduler job id.
#[derive(Debug, Clone, PartialEq, Eq, Hash)]
pub struct LeaseId(pub String);

impl LeaseId {
    /// The identifier as a plain string.
    pub fn to_string(&self) -> (r: String)
        ensures
            r@ == self.0@,
    {
        self.0.clone()
    }
}

/// Configuration a local (single-host) lease was created with.
#[derive(Debug, Clone)]
pub struct LocalLeaseConfig {
    pub total_gpus: u32,
    pub parallel: u32,
}

/// Configuration a batch-scheduler lease was created with.
#[derive(Debug, Clone)]
pub struct SlurmLeaseConfig {
    pub sbatch_args: Vec<String>,
}

/// How tasks share the nodes of a batch-scheduler lease.
#[derive(Debug, Clone, PartialEq, Eq, Structural)]
pub enum ExecutionMode {
    ExclusivePerNode,
    Fractional,
}

impl Default for ExecutionMode {
    fn default() -> (r: Self)
        ensures
            r is ExclusivePerNode,
    {
        ExecutionMode::ExclusivePerNode
    }
}

/// The durable description of a lease, tagged by lease kind.
#[derive(Debug, Clone)]
pub enum LeaseMeta {
    Local { lease_id: LeaseId, created_at: u64, local: LocalLeaseConfig },
    Slurm {
        lease_id: LeaseId,
        name: Option<String>,
        created_at: u64,
        slurm: SlurmLeaseConfig,
        mode: ExecutionMode,
    },
}

/// An immutable record describing one task to run, written by a submitter
/// into `inbox/<node>/` and destroyed only by archiving into `done/`.
#[derive(Debug, Clone)]
pub struct TaskSpec {
    /// Short opaque identifier, unique within a lease.
    pub task_id: String,
    /// Deduplication key: at most one task per key is ever executed on a
    /// `(lease, node)` pair.
    pub idempotency_key: String,
    pub lease_id: LeaseId,
    pub target_node: String,
    /// Unix microseconds at submission; orders inbox filenames.
    pub seq: u64,
    /// Hyphenated rendering of the submission UUID.
    pub uuid: String,
    /// Unix seconds at submission.
    pub created_at: u64,
    pub cwd: String,
    /// Full environment snapshot from submission time.
    pub env: Vec<(String, String)>,
    /// Requested GPU count; zero for a CPU task.
    pub gpus: u32,
    /// The shell command to run.
    pub command: String,
}

/// An immutable record describing the outcome of one task.
#[derive(Debug, Clone)]
pub struct TaskResult {
    pub task_id: String,
    pub idempotency_key: String,
    /// The node whose runner produced this record.
    pub node: String,
    /// Unix seconds when execution started.
    pub started_at: u64,
    /// Unix seconds when execution finished.
    pub finished_at: u64,
    /// The process's exit code; `-1` when the process yielded no code, and
    /// for records written for tasks cancelled while pending.
    pub exit_code: i32,
    /// Path of the captured standard output, relative to the lease root;
    /// empty for skipped and cancelled tasks.
    pub stdout: String,
    /// Path of the captured standard error, relative to the lease root;
    /// empty for skipped and cancelled tasks.
    pub stderr: String,
    /// Wall-clock runtime in milliseconds; zero for skipped tasks.
    pub runtime_ms: u64,
    /// Echo of the command that was (or would have been) run.
    pub command: String,
    /// Echo of the requested GPU count.
    pub gpus_requested: u32,
    /// Comma-separated assigned device indices, or empty.
    pub gpus_assigned: String,
}


/// The liveness record a runner overwrites at every tick.
#[derive(Debug, Clone)]
pub struct Heartbeat {
    pub node: String,
    /// Unix seconds when the heartbeat was written.
    pub ts: u64,
    /// The task currently executing, if any.
    pub running_task_id: Option<String>,
    /// An estimate of how many tasks wait in this node's inbox.
    pub pending_estimate: u32,
    pub runner_pid: u32,
    pub version: String,
}

/// A transient record asking the runner to terminate a running task;
/// consumed (deleted) by the runner as acknowledgment.
#[derive(Debug, Clone)]
pub struct CancelCommand {
    pub task_id: String,
    /// Unix seconds when cancellation was requested.
    pub requested_at: u64,
}

/// A protocol event, as recorded under `events/<node>/`.
#[derive(Debug, Clone)]
pub enum Event {
    Claimed { task_id: String, node: String },
    Started { task_id: String, node: String },
    Finished { task_id: String, exit_code: i32 },
    Failed { task_id: String, error: String },
    SkippedDup { task_id: String, key: String },
    Cancelled { task_id: String },
}

} // verus!
