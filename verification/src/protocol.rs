//! The shared-filesystem protocol itself, as a transition system over one
//! node's queue directories, and the laws the queue rests on.
//!
//! A task file lives in `inbox`, `claimed` or `done`; submissions create
//! it, an atomic rename claims it, finishing archives it, and cancelling
//! a pending task retires it.  A rename attempt on a file that is gone
//! changes nothing — that is the losing side of a claim race.  The laws:
//! a file is in at most one directory, a claim succeeds at most once per
//! submission, and the full submit–claim–finish pass walks a task through
//! pending, running and done.

use vstd::prelude::*;
use crate::models::{TaskResult, TaskSpec};
use crate::observe::{is_done_row, TaskPhase, TaskState};
use crate::runner::is_executed_result;
use crate::strutil::lex_lt;
use crate::fname::spec_task_file_name;

verus! {

/// One node's queue directories, each a set of task filenames.
pub struct QueueModel {
    pub inbox: Set<Seq<char>>,
    pub claimed: Set<Seq<char>>,
    pub done: Set<Seq<char>>,
}

/// Two directories never hold the same filename.
pub open spec fn sets_disjoint(a: Set<Seq<char>>, b: Set<Seq<char>>) -> bool {
    forall|f: Seq<char>| #[trigger] a.contains(f) ==> !b.contains(f)
}

/// Location exclusivity: every task filename lies in at most one of the
/// three directories.
pub open spec fn exclusive(m: QueueModel) -> bool {
    &&& sets_disjoint(m.inbox, m.claimed)
    &&& sets_disjoint(m.inbox, m.done)
    &&& sets_disjoint(m.claimed, m.done)
}

/// A submission needs a fresh filename.
pub open spec fn can_submit(m: QueueModel, f: Seq<char>) -> bool {
    !m.inbox.contains(f) && !m.claimed.contains(f) && !m.done.contains(f)
}

/// Submitting drops the task file into the inbox.
pub open spec fn submit(m: QueueModel, f: Seq<char>) -> QueueModel {
    QueueModel { inbox: m.inbox.insert(f), claimed: m.claimed, done: m.done }
}

/// A claim's rename succeeds exactly while the file is in the inbox.
pub open spec fn can_claim(m: QueueModel, f: Seq<char>) -> bool {
    m.inbox.contains(f)
}

/// Claiming renames the file from inbox to claimed.
pub open spec fn claim(m: QueueModel, f: Seq<char>) -> QueueModel {
    QueueModel { inbox: m.inbox.remove(f), claimed: m.claimed.insert(f), done: m.done }
}

/// Finishing archives a claimed file into done, beside its result record.
pub open spec fn can_finish(m: QueueModel, f: Seq<char>) -> bool {
    m.claimed.contains(f)
}

/// Finishing renames the file from claimed to done.
pub open spec fn finish(m: QueueModel, f: Seq<char>) -> QueueModel {
    QueueModel { inbox: m.inbox, claimed: m.claimed.remove(f), done: m.done.insert(f) }
}

/// Cancelling a pending task removes it from the inbox, leaving the
/// cancelled record in done.
pub open spec fn cancel_pending(m: QueueModel, f: Seq<char>) -> QueueModel {
    QueueModel { inbox: m.inbox.remove(f), claimed: m.claimed, done: m.done.insert(f) }
}

/// One attempted operation of some process against the node's queue.
pub enum QueueStep {
    Submit(Seq<char>),
    Claim(Seq<char>),
    Finish(Seq<char>),
    CancelPending(Seq<char>),
}

/// The effect of one attempt.  An attempt whose precondition fails — a
/// rename of a file that is gone, a submission colliding with an existing
/// name — changes nothing: that is the losing side of a race.
pub open spec fn apply_step(m: QueueModel, s: QueueStep) -> QueueModel {
    match s {
        QueueStep::Submit(f) => if can_submit(m, f) {
            submit(m, f)
        } else {
            m
        },
        QueueStep::Claim(f) => if can_claim(m, f) {
            claim(m, f)
        } else {
            m
        },
        QueueStep::Finish(f) => if can_finish(m, f) {
            finish(m, f)
        } else {
            m
        },
        QueueStep::CancelPending(f) => if can_claim(m, f) {
            cancel_pending(m, f)
        } else {
            m
        },
    }
}

/// The effect of a whole run of attempts, in order.
pub open spec fn apply_steps(m: QueueModel, ss: Seq<QueueStep>) -> QueueModel
    decreases ss.len(),
{
    if ss.len() == 0 {
        m
    } else {
        apply_steps(apply_step(m, ss[0]), ss.skip(1))
    }
}

/// Location exclusivity is preserved by every attempt.
pub proof fn lemma_step_preserves_exclusivity(m: QueueModel, s: QueueStep)
    requires
        exclusive(m),
    ensures
        exclusive(apply_step(m, s)),
{
}

/// Location exclusivity: from an exclusive state, every reachable state
/// is exclusive — no run of submissions, claims, finishes and pending
/// cancellations ever puts one task filename in two directories.
pub proof fn lemma_runs_preserve_exclusivity(m: QueueModel, ss: Seq<QueueStep>)
    requires
        exclusive(m),
    ensures
        exclusive(apply_steps(m, ss)),
    decreases ss.len(),
{
    if ss.len() > 0 {
        lemma_step_preserves_exclusivity(m, ss[0]);
        lemma_runs_preserve_exclusivity(apply_step(m, ss[0]), ss.skip(1));
    }
}

/// Whether a run holds no submission of `f`.
pub open spec fn no_submit_of(ss: Seq<QueueStep>, f: Seq<char>) -> bool {
    forall|i: int| 0 <= i < ss.len() ==> !((#[trigger] ss[i]) matches QueueStep::Submit(g) && g == f)
}

/// While `f` is out of the inbox and nothing resubmits it, no run puts it
/// back: every claim attempt on it keeps failing.
pub proof fn lemma_stays_unclaimed(m: QueueModel, ss: Seq<QueueStep>, f: Seq<char>)
    requires
        !m.inbox.contains(f),
        no_submit_of(ss, f),
    ensures
        !apply_steps(m, ss).inbox.contains(f),
    decreases ss.len(),
{
    if ss.len() > 0 {
        assert(!(ss[0] matches QueueStep::Submit(g) && g == f));
        assert(!apply_step(m, ss[0]).inbox.contains(f));
        assert(forall|i: int|
            0 <= i < ss.skip(1).len() ==> ss.skip(1)[i] == ss[i + 1]);
        lemma_stays_unclaimed(apply_step(m, ss[0]), ss.skip(1), f);
    }
}

/// At-most-one-claim: however many runners race on one inbox, once one
/// claim of `f` succeeds, `f` has left the inbox, and no later claim
/// attempt in any interleaving succeeds until a new submission of `f`.
pub proof fn lemma_at_most_one_claim(m: QueueModel, ss: Seq<QueueStep>, f: Seq<char>)
    requires
        can_claim(m, f),
        no_submit_of(ss, f),
    ensures
        !can_claim(claim(m, f), f),
        !can_claim(apply_steps(claim(m, f), ss), f),
{
    lemma_stays_unclaimed(claim(m, f), ss, f);
}

/// Round trip: a submitted task is observed pending (in the inbox), a
/// claimed task running (in claimed), and a finished task done (in done),
/// each stage leaving exactly one directory holding it.
pub proof fn lemma_round_trip(m: QueueModel, f: Seq<char>)
    requires
        exclusive(m),
        can_submit(m, f),
    ensures
        ({
            let pending = submit(m, f);
            let running = claim(pending, f);
            let finished = finish(running, f);
            &&& pending.inbox.contains(f) && !pending.claimed.contains(f) && !pending.done.contains(
                f,
            )
            &&& can_claim(pending, f)
            &&& running.claimed.contains(f) && !running.inbox.contains(f) && !running.done.contains(
                f,
            )
            &&& can_finish(running, f)
            &&& finished.done.contains(f) && !finished.inbox.contains(f)
                && !finished.claimed.contains(f)
            &&& exclusive(finished)
        }),
{
}

/// The completed row of an executed task echoes its submission: the
/// command and requested GPUs come back unchanged, the exit code is the
/// process's (with `-1` for none), the recorded runtime is the measured
/// interval, and the row reads DONE exactly for exit code zero.
pub proof fn lemma_executed_row_echo(
    row: TaskState,
    res: TaskResult,
    s: TaskSpec,
    node: Seq<char>,
    started_ms: u64,
    finished_ms: u64,
    code: Option<i32>,
)
    requires
        started_ms <= finished_ms,
        is_executed_result(res, s, node, started_ms, finished_ms, code),
        is_done_row(row, res),
    ensures
        row.id@ == s.task_id@,
        row.command@ == s.command@,
        row.gpus_requested == s.gpus,
        row.exit_code == Some(
            if code is Some {
                code->0
            } else {
                -1i32
            },
        ),
        res.runtime_ms == finished_ms - started_ms,
        row.state == (if code == Some(0i32) {
            TaskPhase::Done
        } else {
            TaskPhase::Failed
        }),
{
}

/// Ordering: among the filenames a runner polls, a task whose seq is
/// smaller than another's is never passed over — the pick is never the
/// later task while the earlier one is listed.
pub proof fn lemma_claim_order(
    entries: Seq<String>,
    pick: int,
    i1: int,
    i2: int,
    s1: nat,
    id1: Seq<char>,
    u1: Seq<char>,
    s2: nat,
    id2: Seq<char>,
    u2: Seq<char>,
)
    requires
        0 <= pick < entries.len(),
        0 <= i1 < entries.len(),
        0 <= i2 < entries.len(),
        entries[i1]@ == spec_task_file_name(s1, id1, u1),
        entries[i2]@ == spec_task_file_name(s2, id2, u2),
        s1 < s2,
        s2 < 10_000_000_000_000_000,
        forall|k: int| 0 <= k < entries.len() ==> !lex_lt(#[trigger] entries[k]@, entries[pick]@),
    ensures
        entries[pick]@ != entries[i2]@,
{
    crate::fname::lemma_task_file_name_order(s1, id1, u1, s2, id2, u2);
    if entries[pick]@ == entries[i2]@ {
        assert(lex_lt(entries[i1]@, entries[pick]@));
    }
}

/// Atomic-write staging: a directory view shows no hidden name, and every
/// staging name is hidden, so a reader never lists — and so never opens —
/// a record that is still being written.
pub proof fn lemma_staging_invisible(listed: Seq<String>, staged: Seq<char>)
    requires
        forall|i: int| 0 <= i < listed.len() ==> !crate::fname::spec_is_hidden(#[trigger] listed[i]@),
        crate::fname::spec_is_hidden(staged),
    ensures
        forall|i: int| 0 <= i < listed.len() ==> (#[trigger] listed[i]@) != staged,
{
}

} // verus!
