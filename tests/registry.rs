use process_exporter::probe::KernelMaps;
use process_exporter::reconcile::run_loader_op;
use process_exporter::registry::{
    dedup_labels, identity_ops, refresh_ops, LoaderOp, RegisterRequest, Registry, RegistryError,
};
use process_exporter::stats::ProcessStats;

fn req(name: &str, cmdline: &str) -> RegisterRequest {
    RegisterRequest { name: name.to_string(), cmdline: cmdline.to_string(), labels: vec![] }
}

#[test]
fn first_registration_grants_the_process() {
    let mut reg = Registry::new();
    let ops = reg.register(req("svc", "svc-bin"), Some(42), true, ProcessStats::empty(), 100).unwrap();
    assert_eq!(ops, vec![LoaderOp::Grant(42)]);
    let e = &reg.entries()[0];
    assert_eq!(e.config.name, "svc");
    assert_eq!((e.registered_at, e.last_check, e.is_running, e.pid), (100, 100, true, Some(42)));
}

#[test]
fn registration_without_process_grants_nothing() {
    let mut reg = Registry::new();
    let ops = reg.register(req("svc", "svc-bin"), None, false, ProcessStats::empty(), 1).unwrap();
    assert!(ops.is_empty());
    assert_eq!(reg.entries()[0].pid, None);
}

#[test]
fn reregistration_keeps_registration_time() {
    let mut reg = Registry::new();
    reg.register(req("svc", "old-rule"), Some(42), true, ProcessStats::empty(), 100).unwrap();
    let mut r = req("svc", "new-rule");
    r.labels = vec![("team".to_string(), "core".to_string())];
    let ops = reg.register(r, Some(43), true, ProcessStats::empty(), 200).unwrap();
    assert_eq!(ops, vec![LoaderOp::Revoke(42), LoaderOp::Grant(43)]);
    assert_eq!(reg.entries().len(), 1);
    let e = &reg.entries()[0];
    assert_eq!(e.registered_at, 100);
    assert_eq!(e.last_check, 200);
    assert_eq!(e.config.cmdline, "new-rule");
    assert_eq!(e.config.labels, vec![("team".to_string(), "core".to_string())]);
}

#[test]
fn process_claimed_by_another_name_is_a_conflict() {
    let mut reg = Registry::new();
    reg.register(req("a", "x"), Some(42), true, ProcessStats::empty(), 1).unwrap();
    match reg.register(req("b", "x"), Some(42), true, ProcessStats::empty(), 2) {
        Err(RegistryError::Conflict { existing_name, pid }) => {
            assert_eq!(existing_name, "a");
            assert_eq!(pid, 42);
        }
        other => panic!("expected a conflict, got {:?}", other),
    }
    assert_eq!(reg.entries().len(), 1);
    assert_eq!(reg.claimant("b", Some(42)), Some(0));
    assert_eq!(reg.claimant("a", Some(42)), None);
}

#[test]
fn unregistering_unknown_name_is_not_found() {
    let mut reg = Registry::new();
    reg.register(req("a", "x"), Some(42), true, ProcessStats::empty(), 1).unwrap();
    assert!(matches!(reg.unregister("ghost"), Err(RegistryError::NotFound)));
    assert_eq!(reg.entries().len(), 1);
    assert_eq!(reg.entries()[0].pid, Some(42));
}

#[test]
fn unregistering_revokes_the_held_process() {
    let mut reg = Registry::new();
    reg.register(req("a", "x"), Some(42), true, ProcessStats::empty(), 1).unwrap();
    reg.register(req("b", "y"), None, false, ProcessStats::empty(), 1).unwrap();
    assert_eq!(reg.unregister("a").unwrap(), vec![LoaderOp::Revoke(42)]);
    assert_eq!(reg.unregister("b").unwrap(), vec![]);
    assert!(reg.entries().is_empty());
    assert_eq!(reg.find("a"), None);
}

#[test]
fn identity_change_revokes_then_grants_then_reads() {
    assert_eq!(
        refresh_ops(Some(10), Some(20)),
        vec![LoaderOp::Revoke(10), LoaderOp::Grant(20), LoaderOp::ReadCounters(20)]
    );
    assert_eq!(refresh_ops(Some(10), Some(10)), vec![LoaderOp::ReadCounters(10)]);
    assert_eq!(refresh_ops(Some(10), None), vec![LoaderOp::Revoke(10)]);
    assert_eq!(refresh_ops(None, Some(3)), vec![LoaderOp::Grant(3), LoaderOp::ReadCounters(3)]);
    assert!(identity_ops(None, None).is_empty());
}

#[test]
fn identity_change_moves_whitelist_before_counter_read() {
    let mut maps = KernelMaps::new();
    maps.whitelist_insert(10, 1).unwrap();
    let ops = refresh_ops(Some(10), Some(20));
    let mut read = None;
    for op in ops {
        if let LoaderOp::ReadCounters(_) = op {
            assert_eq!(maps.whitelist_remove(10), Err(process_exporter::probe::MapError::NotFound));
            process_exporter::probe::tcp_sendmsg(&mut maps, 20u64 << 32, Some(64));
        }
        read = run_loader_op(&mut maps, op).or(read);
    }
    assert_eq!(read.unwrap().tx_bytes, 64);
}

#[test]
fn refresh_keeps_last_stats_when_process_is_gone() {
    let mut reg = Registry::new();
    let mut stats = ProcessStats::empty();
    stats.memory_bytes = 4096;
    reg.register(req("a", "x"), Some(42), true, stats, 1).unwrap();
    assert!(reg.apply_refresh("a", false, None, 9, None));
    let e = &reg.entries()[0];
    assert_eq!((e.is_running, e.pid, e.last_check, e.stats.memory_bytes), (false, None, 9, 4096));
    assert!(!reg.apply_refresh("gone", true, Some(1), 10, None));
    let tasks = reg.refresh_tasks();
    assert_eq!(tasks.len(), 1);
    assert_eq!((tasks[0].name.as_str(), tasks[0].cmdline.as_str(), tasks[0].old_pid), ("a", "x", None));
}

fn pair(k: &str, v: &str) -> (String, String) {
    (k.to_string(), v.to_string())
}

#[test]
fn duplicate_label_keys_keep_the_first_value() {
    let labels = vec![pair("env", "prod"), pair("team", "core"), pair("env", "dev")];
    assert_eq!(dedup_labels(&labels), vec![pair("env", "prod"), pair("team", "core")]);
    let mut reg = Registry::new();
    let mut r = req("svc", "x");
    r.labels = labels;
    reg.register(r, None, false, ProcessStats::empty(), 1).unwrap();
    assert_eq!(reg.entries()[0].config.labels, vec![pair("env", "prod"), pair("team", "core")]);
}

#[test]
fn conflict_names_the_target_holding_the_process() {
    let mut reg = Registry::new();
    reg.register(req("a", "x"), Some(1), true, ProcessStats::empty(), 1).unwrap();
    reg.register(req("b", "y"), Some(2), true, ProcessStats::empty(), 1).unwrap();
    match reg.register(req("c", "y"), Some(2), true, ProcessStats::empty(), 2) {
        Err(RegistryError::Conflict { existing_name, pid }) => assert_eq!((existing_name.as_str(), pid), ("b", 2)),
        other => panic!("expected a conflict, got {:?}", other),
    }
}
