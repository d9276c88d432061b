//! Filename encoding, string ordering, and path resolution.

use leaseq::fname::{
    cancel_file_name, cancelled_file_name, hb_file_name, is_cancel_file, is_hidden, is_result_file,
    log_err_rel, log_out_rel, result_file_name, skipped_file_name, sort_strings, stem_of,
    task_file_name, temp_file_name, visible_sorted,
};
use leaseq::config::{is_local_lease, lease_root_path, local_lease_id, log_file, pid_file};
use leaseq::strutil::{format_seq16, str_lt, u64_to_string};

#[test]
fn test_lease_id_display() {
    let local = leaseq::models::LeaseId("local:myhost".to_string());
    assert_eq!(local.to_string(), "local:myhost");

    let slurm = leaseq::models::LeaseId("12345".to_string());
    assert_eq!(slurm.to_string(), "12345");
}

#[test]
fn test_decimal_rendering() {
    assert_eq!(u64_to_string(0), "0");
    assert_eq!(u64_to_string(7), "7");
    assert_eq!(u64_to_string(12345), "12345");
    assert_eq!(u64_to_string(u64::MAX), "18446744073709551615");
}

#[test]
fn test_seq16_padding() {
    assert_eq!(format_seq16(0), "0000000000000000");
    assert_eq!(format_seq16(1), "0000000000000001");
    assert_eq!(format_seq16(1_700_000_000_000_000), "1700000000000000");
    // seventeen digits render unpadded
    assert_eq!(format_seq16(10_000_000_000_000_000), "10000000000000000");
}

#[test]
fn test_task_file_name_format() {
    let name = task_file_name(1, "T1", "uuid");
    assert_eq!(name, "0000000000000001_T1_uuid.json");
}

#[test]
fn test_task_file_names_sort_in_seq_order() {
    let early = task_file_name(999, "Tzzz", "zzz");
    let late = task_file_name(1000, "Taaa", "aaa");
    assert!(str_lt(&early, &late));
    assert!(!str_lt(&late, &early));
}

#[test]
fn test_stem_and_record_names() {
    assert_eq!(stem_of("0001_T_u.json"), "0001_T_u");
    assert_eq!(stem_of("noext"), "noext");
    assert_eq!(result_file_name("0001_T_u.json"), "0001_T_u.result.json");
    assert_eq!(skipped_file_name("0001_T_u.json"), "0001_T_u.skipped.json");
    assert_eq!(cancelled_file_name("0001_T_u.json"), "0001_T_u.cancelled.json");
    assert!(is_result_file("a.result.json"));
    assert!(!is_result_file("a.skipped.json"));
    assert!(!is_result_file("a.json"));
}

#[test]
fn test_hb_log_and_cancel_names() {
    assert_eq!(hb_file_name("node-1"), "node-1.json");
    assert_eq!(log_out_rel("T014"), "logs/T014.out");
    assert_eq!(log_err_rel("T014"), "logs/T014.err");
    assert_eq!(cancel_file_name("T014", "u-1"), "cancel_T014_u-1.json");
    assert!(is_cancel_file("cancel_T014_u-1.json"));
    assert!(!is_cancel_file("0001_T014_u.json"));
}

#[test]
fn test_temp_names_are_hidden() {
    let t = temp_file_name("hb.json", "u-1");
    assert_eq!(t, ".tmp.hb.json.u-1");
    assert!(is_hidden(&t));
    assert!(!is_hidden("hb.json"));
}

#[test]
fn test_visible_sorted_drops_dotfiles() {
    let names = vec![
        "002_task.json".to_string(),
        ".hidden".to_string(),
        "001_task.json".to_string(),
    ];
    let r = visible_sorted(names);
    assert_eq!(r, vec!["001_task.json".to_string(), "002_task.json".to_string()]);
}

#[test]
fn test_sort_strings_orders_lexicographically() {
    let r = sort_strings(vec!["b".to_string(), "a".to_string(), "ab".to_string()]);
    assert_eq!(r, vec!["a".to_string(), "ab".to_string(), "b".to_string()]);
}

#[test]
fn test_lease_root_resolution() {
    assert!(is_local_lease("local:myhost"));
    assert!(!is_local_lease("12345"));
    assert_eq!(local_lease_id("myhost"), "local:myhost");
    assert_eq!(lease_root_path("/run/q", "/home/u/.leaseq", "local:h"), "/run/q/local:h");
    assert_eq!(lease_root_path("/run/q", "/home/u/.leaseq", "job-7"), "/home/u/.leaseq/runs/job-7");
}

#[test]
fn test_daemon_paths() {
    assert_eq!(pid_file("/run/q"), "/run/q/daemon.pid");
    assert_eq!(log_file("/run/q"), "/run/q/daemon.log");
}
