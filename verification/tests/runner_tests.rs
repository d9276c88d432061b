//! The runner's decisions: claim selection, deduplication, result
//! records, heartbeats, and cancel matching.

use leaseq::models::{CancelCommand, LeaseId, TaskResult, TaskSpec};
use leaseq::runner::{
    cancel_matches, find_cancel_match, gpus_assigned_string, ClaimStep, Runner,
};

fn sample_spec(task_id: &str, key: &str, command: &str, gpus: u32) -> TaskSpec {
    TaskSpec {
        task_id: task_id.to_string(),
        idempotency_key: key.to_string(),
        lease_id: LeaseId("local:h".to_string()),
        target_node: "h".to_string(),
        seq: 42,
        uuid: "u-1".to_string(),
        created_at: 1_700_000_000,
        cwd: "/tmp".to_string(),
        env: Vec::new(),
        gpus,
        command: command.to_string(),
    }
}

fn sample_result(key: &str) -> TaskResult {
    TaskResult {
        task_id: "T0".to_string(),
        idempotency_key: key.to_string(),
        node: "h".to_string(),
        started_at: 1,
        finished_at: 2,
        exit_code: 0,
        stdout: String::new(),
        stderr: String::new(),
        runtime_ms: 1000,
        command: "true".to_string(),
        gpus_requested: 0,
        gpus_assigned: String::new(),
    }
}

#[test]
fn test_poll_pick_empty_inbox_is_idle() {
    let entries: Vec<String> = Vec::new();
    assert_eq!(Runner::poll_pick(&entries), None);
}

#[test]
fn test_poll_pick_takes_oldest() {
    let entries = vec![
        "0000000000000002_Tb_u.json".to_string(),
        "0000000000000001_Ta_u.json".to_string(),
        "0000000000000003_Tc_u.json".to_string(),
    ];
    assert_eq!(Runner::poll_pick(&entries), Some(1));
}

#[test]
fn test_dedup_cache_warmup() {
    let mut r = Runner::new("h".to_string());
    assert!(!r.is_duplicate("K"));
    r.load_executed_keys(&vec![sample_result("K"), sample_result("L")]);
    assert!(r.is_duplicate("K"));
    assert!(r.is_duplicate("L"));
    assert!(!r.is_duplicate("M"));
}

#[test]
fn test_filter_result_files() {
    let names = vec![
        "0001_T_u.json".to_string(),
        "0001_T_u.result.json".to_string(),
        "0002_T_u.skipped.json".to_string(),
        "0003_T_u.cancelled.json".to_string(),
        "0004_T_u.result.json".to_string(),
    ];
    let r = Runner::filter_result_files(&names);
    assert_eq!(
        r,
        vec!["0001_T_u.result.json".to_string(), "0004_T_u.result.json".to_string()]
    );
}

#[test]
fn test_first_spec_with_key_executes() {
    let mut r = Runner::new("h".to_string());
    let spec = sample_spec("T1", "K", "echo one", 0);
    match r.on_spec_claimed(&spec, 100) {
        ClaimStep::Execute => {},
        ClaimStep::Skip(_) => panic!("fresh key must execute"),
    }
}

#[test]
fn test_second_spec_with_same_key_is_skipped() {
    let mut r = Runner::new("h".to_string());
    let first = sample_spec("T1", "K", "echo one", 0);
    match r.on_spec_claimed(&first, 100) {
        ClaimStep::Execute => {},
        ClaimStep::Skip(_) => panic!("fresh key must execute"),
    }
    let res = r.on_execution_finished(&first, 100_000, 101_500, Some(0));
    assert_eq!(res.exit_code, 0);

    let second = sample_spec("T2", "K", "echo two", 0);
    match r.on_spec_claimed(&second, 200) {
        ClaimStep::Skip(skipped) => {
            assert_eq!(skipped.task_id, "T2");
            assert_eq!(skipped.idempotency_key, "K");
            assert_eq!(skipped.exit_code, 0);
            assert_eq!(skipped.runtime_ms, 0);
            assert_eq!(skipped.started_at, 200);
            assert_eq!(skipped.finished_at, 200);
            assert_eq!(skipped.stdout, "");
            assert_eq!(skipped.stderr, "");
            assert_eq!(skipped.gpus_assigned, "");
            assert_eq!(skipped.command, "echo two");
        },
        ClaimStep::Execute => panic!("duplicate key must be skipped"),
    }
}

#[test]
fn test_executed_result_record() {
    let mut r = Runner::new("h".to_string());
    let spec = sample_spec("T7", "K7", "false", 2);
    let res = r.on_execution_finished(&spec, 1_700_000_000_250, 1_700_000_003_750, Some(1));
    assert_eq!(res.task_id, "T7");
    assert_eq!(res.idempotency_key, "K7");
    assert_eq!(res.node, "h");
    assert_eq!(res.started_at, 1_700_000_000);
    assert_eq!(res.finished_at, 1_700_000_003);
    assert_eq!(res.exit_code, 1);
    assert_eq!(res.stdout, "logs/T7.out");
    assert_eq!(res.stderr, "logs/T7.err");
    assert_eq!(res.runtime_ms, 3500);
    assert_eq!(res.command, "false");
    assert_eq!(res.gpus_requested, 2);
    assert_eq!(res.gpus_assigned, "0,1");
}

#[test]
fn test_missing_exit_code_records_minus_one() {
    let mut r = Runner::new("h".to_string());
    let spec = sample_spec("T8", "K8", "sleep 1", 0);
    let res = r.on_execution_finished(&spec, 1000, 1000, None);
    assert_eq!(res.exit_code, -1);
    assert_eq!(res.runtime_ms, 0);
}

#[test]
fn test_gpus_assigned_placeholder_list() {
    assert_eq!(gpus_assigned_string(0), "");
    assert_eq!(gpus_assigned_string(1), "0");
    assert_eq!(gpus_assigned_string(4), "0,1,2,3");
}

#[test]
fn test_heartbeat_carries_clock_reading() {
    let r = Runner::new("node-1".to_string());
    let hb = r.heartbeat(1_700_000_000, Some("T1".to_string()), 4242, "0.1.0".to_string(), 0);
    assert_eq!(hb.node, "node-1");
    assert_eq!(hb.ts, 1_700_000_000);
    assert_eq!(hb.running_task_id, Some("T1".to_string()));
    assert_eq!(hb.runner_pid, 4242);
    assert_eq!(hb.version, "0.1.0");
    assert_eq!(hb.pending_estimate, 0);

    let later = r.heartbeat(1_700_000_001, None, 4242, "0.1.0".to_string(), 0);
    assert!(later.ts > hb.ts);
}

#[test]
fn test_cancel_matches_id_or_prefix() {
    assert!(cancel_matches("T123abc", "T123abc"));
    assert!(cancel_matches("T123", "T123abc"));
    assert!(!cancel_matches("T124", "T123abc"));
    assert!(!cancel_matches("T123abcd", "T123abc"));
}

#[test]
fn test_find_cancel_match_takes_first() {
    let cmds = vec![
        CancelCommand { task_id: "T9".to_string(), requested_at: 5 },
        CancelCommand { task_id: "T1".to_string(), requested_at: 6 },
        CancelCommand { task_id: "T1a".to_string(), requested_at: 7 },
    ];
    assert_eq!(find_cancel_match(&cmds, "T1abc"), Some(1));
    assert_eq!(find_cancel_match(&cmds, "T5"), None);
}
