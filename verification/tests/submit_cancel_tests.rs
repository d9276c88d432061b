//! Node selection, task-record construction, and the cancellation
//! protocol's decisions.

use leaseq::cancel::{
    cancel_action_for, cancel_command_for, cancelled_result, find_pending_match, find_task,
    CancelAction, TaskQueryState,
};
use leaseq::models::{Heartbeat, LeaseId, TaskResult, TaskSpec};
use leaseq::submit::{
    build_task_spec, idempotency_key_for, inbox_file_name, new_task_spec, select_node, task_id_of,
    SubmitError,
};

fn hb(node: &str, ts: u64) -> Heartbeat {
    Heartbeat {
        node: node.to_string(),
        ts,
        running_task_id: None,
        pending_estimate: 0,
        runner_pid: 1234,
        version: "0.1.0".to_string(),
    }
}

fn spec_on(node: &str, task_id: &str, command: &str) -> TaskSpec {
    TaskSpec {
        task_id: task_id.to_string(),
        idempotency_key: format!("key-{}", task_id),
        lease_id: LeaseId("local:h".to_string()),
        target_node: node.to_string(),
        seq: 1,
        uuid: "u".to_string(),
        created_at: 0,
        cwd: ".".to_string(),
        env: Vec::new(),
        gpus: 0,
        command: command.to_string(),
    }
}

fn result_on(node: &str, task_id: &str, exit_code: i32) -> TaskResult {
    TaskResult {
        task_id: task_id.to_string(),
        idempotency_key: format!("key-{}", task_id),
        node: node.to_string(),
        started_at: 10,
        finished_at: 20,
        exit_code,
        stdout: String::new(),
        stderr: String::new(),
        runtime_ms: 10_000,
        command: "c".to_string(),
        gpus_requested: 0,
        gpus_assigned: String::new(),
    }
}

#[test]
fn test_select_node_explicit_wins() {
    let r = select_node(Some("gpu-7".to_string()), "job-1", "myhost", &Vec::new(), 0);
    assert_eq!(r, Ok("gpu-7".to_string()));
}

#[test]
fn test_select_node_local_uses_hostname() {
    let r = select_node(None, "local:myhost", "myhost", &Vec::new(), 0);
    assert_eq!(r, Ok("myhost".to_string()));
}

#[test]
fn test_select_node_rejects_dead_node() {
    // a single heartbeat one hour old: no active node
    let now: u64 = 1_700_000_000;
    let beats = vec![hb("dead-node", now - 3600)];
    let r = select_node(None, "job-dead-node-test", "myhost", &beats, now);
    assert_eq!(r, Err(SubmitError::NoActiveNodes));
}

#[test]
fn test_select_node_picks_first_fresh() {
    let now: u64 = 1_700_000_000;
    let beats = vec![hb("node-c", now - 5), hb("node-a", now - 3600), hb("node-b", now - 10)];
    // node-a is stale; of the fresh ones node-b sorts first
    let r = select_node(None, "job-1", "myhost", &beats, now);
    assert_eq!(r, Ok("node-b".to_string()));
}

#[test]
fn test_task_id_from_uuid() {
    assert_eq!(task_id_of("abcdef0123456789abcdef0123456789"), "Tabcdef");
}

#[test]
fn test_idempotency_key_formula() {
    assert_eq!(idempotency_key_for("local:h", "h", 1700000000000001), "local:h-h-1700000000000001");
}

#[test]
fn test_build_task_spec_fields() {
    let s = build_task_spec(
        "local:h",
        "h",
        "echo hello".to_string(),
        "/home/user".to_string(),
        vec![("PATH".to_string(), "/bin".to_string())],
        1_700_000_000_000_001,
        "abcdef0123456789abcdef0123456789",
        "abcdef01-2345-6789-abcd-ef0123456789",
    );
    assert_eq!(s.task_id, "Tabcdef");
    assert_eq!(s.idempotency_key, "local:h-h-1700000000000001");
    assert_eq!(s.lease_id.0, "local:h");
    assert_eq!(s.target_node, "h");
    assert_eq!(s.seq, 1_700_000_000_000_001);
    assert_eq!(s.uuid, "abcdef01-2345-6789-abcd-ef0123456789");
    assert_eq!(s.created_at, 1_700_000_000);
    assert_eq!(s.cwd, "/home/user");
    assert_eq!(s.gpus, 0);
    assert_eq!(s.command, "echo hello");
    assert_eq!(
        inbox_file_name(&s),
        "1700000000000001_Tabcdef_abcdef01-2345-6789-abcd-ef0123456789.json"
    );
}

#[test]
fn test_new_task_spec_draws_consistent_ids() {
    let s = new_task_spec("local:h", "h", "echo hi".to_string(), "/tmp".to_string(), Vec::new());
    assert_eq!(s.uuid.len(), 36);
    assert!(s.task_id.starts_with('T'));
    assert_eq!(s.task_id.len(), 7);
    assert_eq!(&s.task_id[1..7], &s.uuid[0..6]);
    assert_eq!(s.created_at, s.seq / 1_000_000);
    let other = new_task_spec("local:h", "h", "echo hi".to_string(), "/tmp".to_string(), Vec::new());
    assert_ne!(s.uuid, other.uuid);
}

#[test]
fn test_find_task_states_and_priority() {
    let inbox = vec![("n1".to_string(), vec![spec_on("n1", "Tpend", "a")])];
    let claimed = vec![("n2".to_string(), vec![spec_on("n2", "Trun", "b")])];
    let done = vec![(
        "n3".to_string(),
        vec![result_on("n3", "Tok", 0), result_on("n3", "Tbad", 9)],
    )];

    assert_eq!(
        find_task(&inbox, &claimed, &done, "Tpend"),
        Some(("n1".to_string(), TaskQueryState::Pending))
    );
    assert_eq!(
        find_task(&inbox, &claimed, &done, "Trun"),
        Some(("n2".to_string(), TaskQueryState::Running))
    );
    assert_eq!(
        find_task(&inbox, &claimed, &done, "Tok"),
        Some(("n3".to_string(), TaskQueryState::Done))
    );
    assert_eq!(
        find_task(&inbox, &claimed, &done, "Tbad"),
        Some(("n3".to_string(), TaskQueryState::Failed))
    );
    assert_eq!(find_task(&inbox, &claimed, &done, "Tmissing"), None);
    // a prefix of the id is enough
    assert_eq!(
        find_task(&inbox, &claimed, &done, "Tp"),
        Some(("n1".to_string(), TaskQueryState::Pending))
    );
}

#[test]
fn test_cancel_pending_decision() {
    let entries = vec![
        ("0001_Ta_u.json".to_string(), spec_on("n1", "Ta", "x")),
        ("0002_Tb_u.json".to_string(), spec_on("n1", "Tb", "y")),
    ];
    assert_eq!(find_pending_match(&entries, "Tb"), Some(1));
    assert_eq!(find_pending_match(&entries, "Tz"), None);

    let spec = spec_on("n1", "Tb", "y");
    let res = cancelled_result(&spec, "n1", 777);
    assert_eq!(res.exit_code, -1);
    assert_eq!(res.runtime_ms, 0);
    assert_eq!(res.started_at, 777);
    assert_eq!(res.finished_at, 777);
    assert_eq!(res.stdout, "");
    assert_eq!(res.stderr, "");
    assert_eq!(res.command, "y");
    assert_eq!(res.node, "n1");
}

#[test]
fn test_cancel_actions_by_state() {
    assert_eq!(cancel_action_for(TaskQueryState::Pending), CancelAction::RemovePending);
    assert_eq!(cancel_action_for(TaskQueryState::Running), CancelAction::SignalRunning);
    assert_eq!(cancel_action_for(TaskQueryState::Done), CancelAction::AlreadyCompleted);
    assert_eq!(cancel_action_for(TaskQueryState::Failed), CancelAction::AlreadyCompleted);
}

#[test]
fn test_cancel_command_record() {
    let c = cancel_command_for("T12", 999);
    assert_eq!(c.task_id, "T12");
    assert_eq!(c.requested_at, 999);
}
