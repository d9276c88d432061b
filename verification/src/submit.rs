//! The submitter's side of the protocol: choosing a target node and
//! constructing the task record that lands in `inbox/<node>/`.

use vstd::prelude::*;
use vstd::string::*;
use crate::models::{Heartbeat, LeaseId, TaskSpec};
use crate::strutil::{append_str, dec_chars, lex_lt, str_lt, u64_to_string};
use crate::{spec_fresh, heartbeat_fresh, STALE_SECS};

verus! {

/// Why a submission could not be placed.
#[derive(Debug, Clone, PartialEq, Eq, Structural)]
pub enum SubmitError {
    /// No node of the lease has a fresh heartbeat, and none was named.
    NoActiveNodes,
}

/// The node a submission goes to.  An explicitly named node wins; a local
/// lease runs on the submitting host; otherwise the lease's heartbeats
/// decide: the first node in name order whose heartbeat is fresh.
pub fn select_node(
    explicit: Option<String>,
    lease_id: &str,
    hostname: &str,
    heartbeats: &Vec<Heartbeat>,
    now: u64,
) -> (r: Result<String, SubmitError>)
    ensures
        explicit matches Some(n) ==> (r matches Ok(v) && v@ == n@),
        explicit is None && crate::config::spec_is_local_lease(lease_id@) ==> (r matches Ok(v)
            && v@ == hostname@),
        explicit is None && !crate::config::spec_is_local_lease(lease_id@) ==> {
            &&& (r is Err) <==> (forall|i: int|
                0 <= i < heartbeats@.len() ==> !spec_fresh(heartbeats@[i].ts, now, STALE_SECS))
            &&& (r matches Ok(v) ==> exists|i: int|
                0 <= i < heartbeats@.len() && #[trigger] heartbeats@[i].node@ == v@ && spec_fresh(
                    heartbeats@[i].ts,
                    now,
                    STALE_SECS,
                ))
            &&& (r matches Ok(v) ==> forall|j: int|
                0 <= j < heartbeats@.len() && spec_fresh(heartbeats@[j].ts, now, STALE_SECS)
                    ==> !lex_lt(#[trigger] heartbeats@[j].node@, v@))
        },
{
    match explicit {
        Some(n) => Ok(n),
        None => {
            if crate::config::is_local_lease(lease_id) {
                Ok(hostname.to_owned())
            } else {
                let mut best: Option<usize> = None;
                let mut i: usize = 0;
                while i < heartbeats.len()
                    invariant
                        i <= heartbeats@.len(),
                        best matches Some(b) ==> 0 <= b < i && spec_fresh(
                            heartbeats@[b as int].ts,
                            now,
                            STALE_SECS,
                        ),
                        best matches Some(b) ==> forall|j: int|
                            0 <= j < i && spec_fresh(heartbeats@[j].ts, now, STALE_SECS)
                                ==> !lex_lt(
                                #[trigger] heartbeats@[j].node@,
                                heartbeats@[b as int].node@,
                            ),
                        best is None ==> forall|j: int|
                            0 <= j < i ==> !spec_fresh(heartbeats@[j].ts, now, STALE_SECS),
                    decreases heartbeats@.len() - i,
                {
                    if heartbeat_fresh(heartbeats[i].ts, now, STALE_SECS) {
                        match best {
                            None => {
                                best = Some(i);
                                proof {
                                    crate::strutil::lemma_lex_irrefl(heartbeats@[i as int].node@);
                                }
                            },
                            Some(b) => {
                                let ghost prev = b as int;
                                if str_lt(
                                    heartbeats[i].node.as_str(),
                                    heartbeats[b].node.as_str(),
                                ) {
                                    best = Some(i);
                                    proof {
                                        crate::strutil::lemma_lex_irrefl(
                                            heartbeats@[i as int].node@,
                                        );
                                        assert forall|j: int|
                                            0 <= j < i + 1 && spec_fresh(
                                                heartbeats@[j].ts,
                                                now,
                                                STALE_SECS,
                                            ) implies !lex_lt(
                                            #[trigger] heartbeats@[j].node@,
                                            heartbeats@[i as int].node@,
                                        ) by {
                                            if j < i && lex_lt(
                                                heartbeats@[j].node@,
                                                heartbeats@[i as int].node@,
                                            ) {
                                                crate::strutil::lemma_lex_trans(
                                                    heartbeats@[j].node@,
                                                    heartbeats@[i as int].node@,
                                                    heartbeats@[prev].node@,
                                                );
                                            }
                                        }
                                    }
                                }
                            },
                        }
                    }
                    i = i + 1;
                }
                match best {
                    Some(b) => {
                        let node = heartbeats[b].node.clone();
                        proof {
                            assert(node@ == heartbeats@[b as int].node@);
                            assert(spec_fresh(heartbeats@[b as int].ts, now, STALE_SECS));
                        }
                        Ok(node)
                    },
                    None => Err(SubmitError::NoActiveNodes),
                }
            }
        },
    }
}

/// The short task identifier derived from a submission's UUID: a `T`
/// followed by the first six characters of the simple rendering.
pub open spec fn spec_task_id_of(uuid_simple: Seq<char>) -> Seq<char> {
    "T"@ + uuid_simple.take(6)
}

/// Builds the short task identifier from a simple-form UUID.
pub fn task_id_of(uuid_simple: &str) -> (r: String)
    requires
        uuid_simple@.len() >= 6,
    ensures
        r@ == spec_task_id_of(uuid_simple@),
{
    let mut s = String::new();
    append_str(&mut s, "T");
    let head = uuid_simple.substring_char(0, 6);
    append_str(&mut s, head);
    proof {
        assert(uuid_simple@.subrange(0, 6) =~= uuid_simple@.take(6));
    }
    s
}

/// The idempotency key a plain submission carries: lease, node and
/// microsecond timestamp, joined by dashes — unique per submission, so
/// such tasks are never deduplicated against each other.
pub open spec fn spec_idem_key(lease: Seq<char>, node: Seq<char>, micros: nat) -> Seq<char> {
    lease + "-"@ + node + "-"@ + dec_chars(micros)
}

/// Builds the idempotency key for a plain submission.
pub fn idempotency_key_for(lease_id: &str, node: &str, micros: u64) -> (r: String)
    ensures
        r@ == spec_idem_key(lease_id@, node@, micros as nat),
{
    let mut s = String::new();
    append_str(&mut s, lease_id);
    append_str(&mut s, "-");
    append_str(&mut s, node);
    append_str(&mut s, "-");
    let m = u64_to_string(micros);
    append_str(&mut s, m.as_str());
    proof {
        assert(s@ =~= spec_idem_key(lease_id@, node@, micros as nat));
    }
    s
}

/// Builds the task record for a submission from plain values: the clock
/// reading in microseconds, the task's two UUID renderings, the working
/// directory, the environment, and the command line.
pub fn build_task_spec(
    lease_id: &str,
    target_node: &str,
    command: String,
    cwd: String,
    env: Vec<(String, String)>,
    now_micros: u64,
    uuid_simple: &str,
    uuid_hyphenated: &str,
) -> (s: TaskSpec)
    requires
        uuid_simple@.len() >= 6,
    ensures
        s.task_id@ == spec_task_id_of(uuid_simple@),
        s.idempotency_key@ == spec_idem_key(lease_id@, target_node@, now_micros as nat),
        s.lease_id.0@ == lease_id@,
        s.target_node@ == target_node@,
        s.seq == now_micros,
        s.uuid@ == uuid_hyphenated@,
        s.created_at == now_micros / 1_000_000,
        s.cwd == cwd,
        s.env == env,
        s.gpus == 0,
        s.command == command,
{
    TaskSpec {
        task_id: task_id_of(uuid_simple),
        idempotency_key: idempotency_key_for(lease_id, target_node, now_micros),
        lease_id: LeaseId(lease_id.to_owned()),
        target_node: target_node.to_owned(),
        seq: now_micros,
        uuid: uuid_hyphenated.to_owned(),
        created_at: now_micros / 1_000_000,
        cwd,
        env,
        gpus: 0,
        command,
    }
}

/// Builds the task record for a submission, drawing the identifiers and
/// reading the clock itself.  The task id is a `T` plus the first six
/// characters of the drawn UUID, which the record's `uuid` field carries
/// in hyphenated form.
pub fn new_task_spec(
    lease_id: &str,
    target_node: &str,
    command: String,
    cwd: String,
    env: Vec<(String, String)>,
) -> (s: TaskSpec)
    ensures
        s.uuid@.len() == 36,
        s.task_id@ == "T"@ + s.uuid@.take(6),
        s.idempotency_key@ == spec_idem_key(lease_id@, target_node@, s.seq as nat),
        s.lease_id.0@ == lease_id@,
        s.target_node@ == target_node@,
        s.created_at == s.seq / 1_000_000,
        s.cwd == cwd,
        s.env == env,
        s.gpus == 0,
        s.command == command,
{
    let micros = crate::clock::now_unix_micros();
    let (simple, hyphenated) = crate::ids::fresh_uuid();
    let s = build_task_spec(
        lease_id,
        target_node,
        command,
        cwd,
        env,
        micros,
        simple.as_str(),
        hyphenated.as_str(),
    );
    proof {
        assert(hyphenated@.take(6) =~= simple@.take(6)) by {
            assert(hyphenated@ =~= simple@.subrange(0, 8) + "-"@ + simple@.subrange(8, 12) + "-"@
                + simple@.subrange(12, 16) + "-"@ + simple@.subrange(16, 20) + "-"@
                + simple@.subrange(20, 32));
        }
        assert("T"@ + simple@.take(6) == "T"@ + s.uuid@.take(6));
    }
    s
}

/// The filename a task record is placed under in `inbox/<node>/`.
pub fn inbox_file_name(s: &TaskSpec) -> (r: String)
    ensures
        r@ == crate::fname::spec_task_file_name(s.seq as nat, s.task_id@, s.uuid@),
{
    crate::fname::task_file_name(s.seq, s.task_id.as_str(), s.uuid.as_str())
}

} // verus!
