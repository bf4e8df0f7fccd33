use urocket_http_stage::processcontroller::{
    effective_timeout, join_lines, kill_flag, retention_deadline, ProcessInfos, ProcessRecordStore,
    ResourceUsage,
};
use urocket_http_stage::procenv::ProcEnv;

fn record(uuid: &str, killed: bool) -> ProcessInfos {
    ProcessInfos {
        uuid: uuid.to_string(),
        pid: 42,
        start_ms: 1000,
        stop_ms: 1300,
        resources: Some(ResourceUsage { exit_code: None, user_time_us: 10, system_time_us: 20, max_rss: 1024 }),
        was_killed: killed,
        stdout: String::new(),
        stderr: String::new(),
    }
}

#[test]
fn record_is_handed_out_once() {
    let mut store = ProcessRecordStore::new();
    store.add_proc_infos(record("REQUEST-ID1", false), 7000);
    let first = store.get_infos("REQUEST-ID1", 2000).expect("first read finds the record");
    assert_eq!(first.pid, 42);
    assert_eq!(first.uuid, "REQUEST-ID1");
    assert!(store.get_infos("REQUEST-ID1", 2001).is_none());
    assert!(store.get_infos("REQUEST-ID1", 2002).is_none());
    assert_eq!(store.len(), 0);
}

#[test]
fn record_expires_after_timeout_and_grace() {
    let mut store = ProcessRecordStore::new();
    let deadline = retention_deadline(1000, 300);
    assert_eq!(deadline, 5300);
    store.add_proc_infos(record("123123123123", true), deadline);
    assert!(store.get_infos("123123123123", 5300).is_none());
    assert_eq!(store.len(), 0);
}

#[test]
fn purge_drops_only_expired_records() {
    let mut store = ProcessRecordStore::new();
    store.add_proc_infos(record("a", false), 100);
    store.add_proc_infos(record("b", false), 500);
    store.purge_expired("a", 99);
    assert_eq!(store.len(), 2);
    store.purge_expired("a", 100);
    store.purge_expired("b", 100);
    assert_eq!(store.len(), 1);
    let b = store.get_infos("b", 499).unwrap();
    assert!(!b.was_killed);
}

#[test]
fn unknown_record_is_none() {
    let mut store = ProcessRecordStore::new();
    assert!(store.get_infos("nothing", 0).is_none());
}

#[test]
fn deadline_saturates() {
    assert_eq!(retention_deadline(u128::MAX - 10, 5), u128::MAX);
}

#[test]
fn timeout_defaults_to_one_second() {
    let mut proce = ProcEnv::default();
    assert_eq!(effective_timeout(&proce), 1000);
    proce.timeout = Some(300);
    assert_eq!(effective_timeout(&proce), 300);
}

#[test]
fn kill_flag_needs_fired_watchdog_and_delivered_signal() {
    assert!(kill_flag(true, 0));
    assert!(!kill_flag(true, -1));
    assert!(!kill_flag(false, 0));
}

#[test]
fn output_lines_are_joined() {
    assert_eq!(join_lines(&vec![]), "");
    assert_eq!(join_lines(&vec!["one".to_string()]), "one");
    assert_eq!(join_lines(&vec!["one".to_string(), "".to_string(), "three".to_string()]), "one\n\nthree");
}
