//! The observer's projection: classification, display order, filters,
//! and the small display helpers.

use leaseq::models::{Heartbeat, LeaseId, TaskResult, TaskSpec};
use leaseq::observe::{
    apply_filter, build_node_states, find_log_name, find_running_task, node_alive, project_tasks,
    sort_tasks, state_filter_keeps, tail_start, truncate, truncate_str, FilterState, FollowError,
    NodeHealth, TaskFilter, TaskPhase, TaskState, TaskStateFilter,
};

fn hb(node: &str, ts: u64) -> Heartbeat {
    Heartbeat {
        node: node.to_string(),
        ts,
        running_task_id: None,
        pending_estimate: 0,
        runner_pid: 1234,
        version: "0.1.0".to_string(),
    }
}

fn spec_on(node: &str, task_id: &str, command: &str) -> TaskSpec {
    TaskSpec {
        task_id: task_id.to_string(),
        idempotency_key: format!("key-{}", task_id),
        lease_id: LeaseId("local:h".to_string()),
        target_node: node.to_string(),
        seq: 1,
        uuid: "u".to_string(),
        created_at: 0,
        cwd: ".".to_string(),
        env: Vec::new(),
        gpus: 0,
        command: command.to_string(),
    }
}

fn result_on(node: &str, task_id: &str, exit_code: i32, finished_at: u64) -> TaskResult {
    TaskResult {
        task_id: task_id.to_string(),
        idempotency_key: format!("key-{}", task_id),
        node: node.to_string(),
        started_at: finished_at.saturating_sub(1),
        finished_at,
        exit_code,
        stdout: String::new(),
        stderr: String::new(),
        runtime_ms: 1000,
        command: "c".to_string(),
        gpus_requested: 0,
        gpus_assigned: String::new(),
    }
}

fn row(id: &str, phase: TaskPhase, finished_at: Option<u64>) -> TaskState {
    TaskState {
        id: id.to_string(),
        command: "c".to_string(),
        state: phase,
        node: "n".to_string(),
        exit_code: None,
        gpus_requested: 0,
        gpus_assigned: String::new(),
        finished_at,
    }
}

#[test]
fn test_filter_words() {
    assert_eq!(TaskStateFilter::from_str("all"), Some(TaskStateFilter::All));
    assert_eq!(TaskStateFilter::from_str("pending"), Some(TaskStateFilter::Pending));
    assert_eq!(TaskStateFilter::from_str("running"), Some(TaskStateFilter::Running));
    assert_eq!(TaskStateFilter::from_str("done"), Some(TaskStateFilter::Done));
    assert_eq!(TaskStateFilter::from_str("finished"), Some(TaskStateFilter::Done));
    assert_eq!(TaskStateFilter::from_str("failed"), Some(TaskStateFilter::Failed));
    assert_eq!(TaskStateFilter::from_str("stuck"), Some(TaskStateFilter::Stuck));
    assert_eq!(TaskStateFilter::from_str("unresponsive"), Some(TaskStateFilter::Stuck));
    assert_eq!(TaskStateFilter::from_str("STUCK"), Some(TaskStateFilter::Stuck));
    assert_eq!(TaskStateFilter::from_str("Running"), Some(TaskStateFilter::Running));
    assert_eq!(TaskStateFilter::from_str("bogus"), None);
    assert_eq!(TaskStateFilter::from_str(""), None);
}

#[test]
fn test_node_table_staleness() {
    let now: u64 = 1_700_000_000;
    let beats = vec![hb("fresh", now - 10), hb("old", now - 61), hb("edge", now - 60)];
    let r = build_node_states(&beats, now);
    assert_eq!(r.len(), 3);
    assert_eq!(r[0].name, "fresh");
    assert_eq!(r[0].status, NodeHealth::Alive);
    assert_eq!(r[0].last_seen, 10);
    assert_eq!(r[1].status, NodeHealth::Stale);
    assert_eq!(r[2].status, NodeHealth::Alive);
}

#[test]
fn test_node_alive_threshold() {
    let now: u64 = 1_700_000_000;
    let beats = vec![hb("n", now - 119)];
    assert!(node_alive(&beats, "n", now));
    let beats = vec![hb("n", now - 120)];
    assert!(!node_alive(&beats, "n", now));
    assert!(!node_alive(&beats, "other", now));
}

#[test]
fn test_stuck_classification() {
    // a heartbeat three minutes old: the claimed task is STUCK
    let now: u64 = 1_700_000_000;
    let claimed = vec![("node-stale".to_string(), vec![spec_on("node-stale", "T1", "stale job")])];
    let beats = vec![hb("node-stale", now - 180)];
    let rows = project_tasks(&claimed, &Vec::new(), &Vec::new(), &beats, now);
    assert_eq!(rows.len(), 1);
    assert_eq!(rows[0].state, TaskPhase::Stuck);
    assert_eq!(rows[0].state.label(), "STUCK");
    assert!(state_filter_keeps(TaskStateFilter::Stuck, rows[0].state));
    assert!(!state_filter_keeps(TaskStateFilter::Running, rows[0].state));
}

#[test]
fn test_projection_classifies_all_sections() {
    let now: u64 = 1_700_000_000;
    let claimed = vec![("n1".to_string(), vec![spec_on("n1", "Trun", "b")])];
    let inbox = vec![("n1".to_string(), vec![spec_on("n1", "Tpend", "a")])];
    let done = vec![(
        "n1".to_string(),
        vec![result_on("n1", "Tok", 0, now - 50), result_on("n1", "Tbad", 3, now - 40)],
    )];
    let beats = vec![hb("n1", now - 2)];
    let rows = project_tasks(&claimed, &inbox, &done, &beats, now);
    assert_eq!(rows.len(), 4);
    assert_eq!(rows[0].id, "Trun");
    assert_eq!(rows[0].state, TaskPhase::Running);
    assert_eq!(rows[1].id, "Tpend");
    assert_eq!(rows[1].state, TaskPhase::Pending);
    assert_eq!(rows[2].id, "Tok");
    assert_eq!(rows[2].state, TaskPhase::Done);
    assert_eq!(rows[2].exit_code, Some(0));
    assert_eq!(rows[2].finished_at, Some(now - 50));
    assert_eq!(rows[3].id, "Tbad");
    assert_eq!(rows[3].state, TaskPhase::Failed);
    assert_eq!(rows[3].exit_code, Some(3));
}

#[test]
fn test_display_order() {
    let rows = vec![
        row("d", TaskPhase::Done, Some(100)),
        row("s", TaskPhase::Stuck, None),
        row("f", TaskPhase::Failed, Some(50)),
        row("p", TaskPhase::Pending, None),
        row("r", TaskPhase::Running, None),
        row("d2", TaskPhase::Done, Some(200)),
    ];
    let sorted = sort_tasks(rows);
    let ids: Vec<&str> = sorted.iter().map(|t| t.id.as_str()).collect();
    assert_eq!(ids, vec!["r", "p", "f", "d2", "d", "s"]);
}

#[test]
fn test_filter_by_state() {
    let all = vec![
        row("r", TaskPhase::Running, None),
        row("p", TaskPhase::Pending, None),
        row("d", TaskPhase::Done, Some(5)),
        row("f", TaskPhase::Failed, Some(6)),
    ];
    let fs = FilterState { filter: TaskFilter::Running, recent_hours: 24, max_completed: 50 };
    let r = apply_filter(&fs, &all, 100);
    assert_eq!(r.len(), 1);
    assert_eq!(r[0].id, "r");

    let fs = FilterState { filter: TaskFilter::All, recent_hours: 24, max_completed: 50 };
    assert_eq!(apply_filter(&fs, &all, 100).len(), 4);

    let fs = FilterState { filter: TaskFilter::Failed, recent_hours: 24, max_completed: 50 };
    let r = apply_filter(&fs, &all, 100);
    assert_eq!(r.len(), 1);
    assert_eq!(r[0].id, "f");
}

#[test]
fn test_recent_filter_window_and_cap() {
    let now: u64 = 1_700_000_000;
    let day: u64 = 24 * 3600;
    let all = vec![
        row("r", TaskPhase::Running, None),
        row("new1", TaskPhase::Done, Some(now - 100)),
        row("old", TaskPhase::Done, Some(now - day - 100)),
        row("new2", TaskPhase::Failed, Some(now - 50)),
        row("new3", TaskPhase::Done, Some(now - 200)),
    ];
    let fs = FilterState { filter: TaskFilter::Recent, recent_hours: 24, max_completed: 2 };
    let r = apply_filter(&fs, &all, now);
    let ids: Vec<&str> = r.iter().map(|t| t.id.as_str()).collect();
    // the active row, then the two most recently finished of the last day
    assert_eq!(ids, vec!["r", "new2", "new1"]);
}

#[test]
fn test_filter_cycle() {
    assert_eq!(TaskFilter::default(), TaskFilter::Recent);
    let mut f = TaskFilter::Recent;
    let expected = [
        TaskFilter::All,
        TaskFilter::Running,
        TaskFilter::Pending,
        TaskFilter::Done,
        TaskFilter::Failed,
        TaskFilter::Recent,
    ];
    for e in expected {
        f = f.next();
        assert_eq!(f, e);
    }
    let d = FilterState::default();
    assert_eq!(d.recent_hours, 24);
    assert_eq!(d.max_completed, 50);
}

#[test]
fn test_find_running_task_decision() {
    let none: Vec<(String, Vec<TaskSpec>)> = Vec::new();
    assert_eq!(find_running_task(&none, &None), Err(FollowError::NoRunningTasks));

    let one = vec![("n1".to_string(), vec![spec_on("n1", "T1", "a")])];
    assert_eq!(find_running_task(&one, &None), Ok("T1".to_string()));

    let two = vec![
        ("n1".to_string(), vec![spec_on("n1", "T1", "a")]),
        ("n2".to_string(), vec![spec_on("n2", "T2", "b")]),
    ];
    assert_eq!(find_running_task(&two, &None), Err(FollowError::MultipleRunningTasks));
    assert_eq!(find_running_task(&two, &Some("n2".to_string())), Ok("T2".to_string()));
    assert_eq!(
        find_running_task(&two, &Some("n3".to_string())),
        Err(FollowError::NoRunningTasks)
    );
}

#[test]
fn test_find_log_name_by_prefix() {
    let names = vec![
        "T1.err".to_string(),
        "T2.out".to_string(),
        "T1.out".to_string(),
    ];
    assert_eq!(find_log_name(&names, "T1", false), Some(2));
    assert_eq!(find_log_name(&names, "T1", true), Some(0));
    assert_eq!(find_log_name(&names, "T3", false), None);
}

#[test]
fn test_truncate_commands() {
    assert_eq!(truncate("short", 40), "short");
    assert_eq!(truncate("abcdefghij", 8), "abcde...");
    assert_eq!(truncate_str("short", 40), "short");
    assert_eq!(truncate_str("abcdefghij", 4), "abc\u{2026}");
}

#[test]
fn test_tail_start_index() {
    assert_eq!(tail_start(100, 10), 90);
    assert_eq!(tail_start(5, 10), 0);
}
