use process_exporter::resolver::{
    check_process_running, get_all_matching_pids, get_process_pid, matching_candidates,
    rule_selects, select_primary, Candidate, ProcessInfo,
};

fn proc_info(pid: i32, parent: Option<i32>, name: &str, cmd: &str) -> ProcessInfo {
    ProcessInfo { pid, parent, name: name.to_string(), cmd: cmd.to_string() }
}

fn cand(pid: i32, parent: Option<i32>) -> Candidate {
    Candidate { pid, parent, cmd: String::from("app") }
}

#[test]
fn no_candidate_resolves_to_none() {
    assert_eq!(select_primary(&vec![]), None);
}

#[test]
fn single_candidate_is_chosen() {
    assert_eq!(select_primary(&vec![cand(900, Some(900))]), Some(900));
}

#[test]
fn init_child_wins() {
    let c = vec![cand(10, Some(5)), cand(30, Some(1)), cand(20, Some(1))];
    assert_eq!(select_primary(&c), Some(20));
}

#[test]
fn parent_outside_group_wins_without_init_child() {
    let c = vec![cand(11, Some(10)), cand(10, Some(500)), cand(12, Some(10))];
    assert_eq!(select_primary(&c), Some(10));
}

#[test]
fn smallest_pid_is_the_fallback() {
    let c = vec![cand(40, Some(30)), cand(30, Some(40)), cand(35, None)];
    assert_eq!(select_primary(&c), Some(30));
}

#[test]
fn regex_rule_matches_command_line() {
    let procs = vec![
        proc_info(100, Some(1), "java", "java -jar svc.jar --port 80"),
        proc_info(101, Some(100), "java", "java -jar other.jar"),
        proc_info(102, Some(1), "bash", "bash"),
    ];
    let c = matching_candidates("svc\\.jar", &procs);
    assert_eq!(c.len(), 1);
    assert_eq!(c[0].pid, 100);
    assert_eq!(c[0].cmd, "java -jar svc.jar --port 80");
    assert_eq!(get_process_pid("java -jar", &procs), Some(100));
    assert!(check_process_running("^bash$", &procs));
    assert!(!check_process_running("python", &procs));
}

#[test]
fn regex_does_not_match_process_name_alone() {
    let procs = vec![proc_info(7, Some(1), "nginx", "/usr/sbin/daemon -c conf")];
    assert_eq!(get_process_pid("nginx", &procs), None);
}

#[test]
fn invalid_regex_falls_back_to_substring() {
    let procs = vec![
        proc_info(50, Some(1), "tool", "tool --opt=[x"),
        proc_info(51, Some(1), "[x-name", "other"),
        proc_info(52, Some(1), "none", "nothing here"),
    ];
    let c = matching_candidates("[x", &procs);
    let pids: Vec<i32> = c.iter().map(|x| x.pid).collect();
    assert_eq!(pids, vec![50, 51]);
    assert_eq!(get_all_matching_pids("[x", &procs), vec![50, 51]);
    assert_eq!(get_process_pid("[x", &procs), Some(50));
}

#[test]
fn all_matching_pids_are_sorted() {
    let procs = vec![
        proc_info(300, Some(1), "w", "worker run"),
        proc_info(100, Some(300), "w", "worker run"),
        proc_info(200, Some(300), "w", "worker run"),
        proc_info(150, Some(1), "x", "idle"),
    ];
    assert_eq!(get_all_matching_pids("worker", &procs), vec![100, 200, 300]);
    assert_eq!(get_process_pid("worker", &procs), Some(300));
}

#[test]
fn forked_workers_resolve_to_their_supervisor() {
    let procs = vec![
        proc_info(2001, Some(2000), "app", "app serve"),
        proc_info(2000, Some(1500), "app", "app serve"),
        proc_info(2002, Some(2000), "app", "app serve"),
    ];
    assert_eq!(get_process_pid("app serve", &procs), Some(2000));
}

#[test]
fn tie_break_ignores_listing_order() {
    let a = proc_info(11, Some(1), "srv", "srv run");
    let b = proc_info(10, Some(1), "srv", "srv run");
    let c = proc_info(12, Some(10), "srv", "srv run");
    let one = vec![a.clone(), b.clone(), c.clone()];
    let two = vec![c, b, a];
    assert_eq!(get_process_pid("srv", &one), Some(10));
    assert_eq!(get_process_pid("srv", &two), Some(10));
}

#[test]
fn smallest_group_root_wins_without_init_child() {
    let c = vec![cand(21, Some(900)), cand(20, Some(800)), cand(22, Some(20))];
    assert_eq!(select_primary(&c), Some(20));
    let c = vec![cand(20, Some(800)), cand(21, Some(900)), cand(22, Some(20))];
    assert_eq!(select_primary(&c), Some(20));
}

#[test]
fn rule_selection_from_regex_outcome_or_substring() {
    let p = proc_info(1, None, "nginx", "/usr/sbin/nginx -g daemon");
    assert!(rule_selects(true, true, "zzz", &p));
    assert!(!rule_selects(true, false, "nginx", &p));
    assert!(rule_selects(false, false, "sbin/ng", &p));
    assert!(rule_selects(false, false, "ngin", &p));
    assert!(!rule_selects(false, true, "apache", &p));
    assert!(rule_selects(false, false, "", &p));
}
