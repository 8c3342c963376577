use sillyvpn::procs::{
    base_name, ensure_app_not_running, force_kill_list, is_app_running,
    is_app_running_in_namespace, kill_targets, process_matches_path, ProcessInfo,
};

const NS: u64 = 4026531993;

fn proc_record(pid: i32, ns: Option<u64>, exe: Option<&str>, args: &[&str], comm: Option<&str>)
    -> ProcessInfo {
    ProcessInfo {
        pid,
        net_namespace_inode: ns,
        exe_target: exe.map(|s| s.as_bytes().to_vec()),
        args: args.iter().map(|s| s.as_bytes().to_vec()).collect(),
        command_name: comm.map(|s| s.as_bytes().to_vec()),
    }
}

#[test]
fn base_name_takes_what_follows_the_last_slash() {
    assert_eq!(base_name(b"/usr/bin/firefox"), b"firefox".to_vec());
    assert_eq!(base_name(b"firefox"), b"firefox".to_vec());
    assert_eq!(base_name(b"/usr/bin/"), b"".to_vec());
}

#[test]
fn exe_symlink_match_suffices() {
    let p = proc_record(10, Some(NS), Some("/usr/bin/firefox"), &[], None);
    assert!(process_matches_path(&p, b"/usr/bin/firefox", b"firefox"));
    assert!(!process_matches_path(&p, b"/usr/bin/chromium", b"chromium"));
}

#[test]
fn exact_argument_match_suffices() {
    let p = proc_record(11, Some(NS), None, &["/bin/sh", "/usr/bin/firefox"], None);
    assert!(process_matches_path(&p, b"/usr/bin/firefox", b"firefox"));
}

#[test]
fn argument_base_name_match_suffices() {
    let p = proc_record(12, Some(NS), None, &["/opt/other/firefox", "--new-window"], None);
    assert!(process_matches_path(&p, b"/usr/bin/firefox", b"firefox"));
}

#[test]
fn argument_base_name_match_ignores_ascii_case() {
    let p = proc_record(13, Some(NS), None, &["/opt/FireFox"], None);
    assert!(process_matches_path(&p, b"/usr/bin/firefox", b"firefox"));
}

#[test]
fn command_name_alone_still_matches() {
    let p = proc_record(14, Some(NS), None, &["/usr/bin/python3", "launcher.py"], Some("firefox\n"));
    assert!(process_matches_path(&p, b"/usr/bin/firefox", b"firefox"));
    let q = proc_record(15, Some(NS), None, &[], Some("FIREFOX"));
    assert!(process_matches_path(&q, b"/usr/bin/firefox", b"firefox"));
}

#[test]
fn unrelated_processes_do_not_match() {
    let p = proc_record(16, Some(NS), Some("/usr/bin/vim"), &["/usr/bin/vim", "notes"], Some("vim"));
    assert!(!process_matches_path(&p, b"/usr/bin/firefox", b"firefox"));
}

#[test]
fn empty_target_base_disables_the_loose_signals() {
    let p = proc_record(17, Some(NS), None, &["/opt/x/"], Some("x"));
    assert!(!process_matches_path(&p, b"/usr/bin/firefox/", b""));
}

#[test]
fn foreign_namespace_is_never_reported_running() {
    let inside = proc_record(20, Some(NS), Some("/usr/bin/firefox"), &[], None);
    let outside = proc_record(21, Some(NS + 1), Some("/usr/bin/firefox"), &[], None);
    let unreadable = proc_record(22, None, Some("/usr/bin/firefox"), &[], None);
    let procs = vec![outside, unreadable];
    assert!(!is_app_running_in_namespace(&procs, Some(NS), b"/usr/bin/firefox", b"firefox"));
    assert!(kill_targets(&procs, NS, b"/usr/bin/firefox", b"firefox").is_empty());
    let procs = vec![proc_record(23, Some(NS + 1), Some("/usr/bin/firefox"), &[], None), inside];
    assert!(is_app_running_in_namespace(&procs, Some(NS), b"/usr/bin/firefox", b"firefox"));
    assert_eq!(kill_targets(&procs, NS, b"/usr/bin/firefox", b"firefox"), vec![20]);
}

#[test]
fn a_missing_namespace_means_nothing_runs() {
    let procs = vec![proc_record(30, Some(NS), Some("/usr/bin/firefox"), &[], None)];
    assert!(!is_app_running_in_namespace(&procs, None, b"/usr/bin/firefox", b"firefox"));
}

#[test]
fn kill_targets_lists_every_match_in_table_order() {
    let procs = vec![
        proc_record(40, Some(NS), Some("/usr/bin/firefox"), &[], None),
        proc_record(41, Some(NS), None, &["/usr/bin/firefox"], None),
        proc_record(42, Some(NS + 1), Some("/usr/bin/firefox"), &[], None),
        proc_record(43, Some(NS), Some("/usr/bin/vim"), &[], Some("vim")),
        proc_record(44, Some(NS), None, &[], Some("firefox")),
    ];
    assert_eq!(kill_targets(&procs, NS, b"/usr/bin/firefox", b"firefox"), vec![40, 41, 44]);
}

#[test]
fn graceful_exits_spare_the_forceful_signal() {
    let pids = vec![40, 41, 44];
    let all_gone = vec![false, false, false];
    assert!(force_kill_list(&pids, &all_gone).is_empty());
    let one_left = vec![false, true, false];
    assert_eq!(force_kill_list(&pids, &one_left), vec![41]);
    let all_left = vec![true, true, true];
    assert_eq!(force_kill_list(&pids, &all_left), vec![40, 41, 44]);
}

#[test]
fn running_anywhere_blocks_a_sandbox_launch() {
    let procs = vec![proc_record(50, None, Some("/usr/bin/firefox"), &[], None)];
    assert!(is_app_running(&procs, b"/usr/bin/firefox", b"firefox"));
    let err = ensure_app_not_running(&procs, b"/usr/bin/firefox", b"firefox").unwrap_err();
    assert_eq!(
        err,
        "Приложение уже запущено. Закройте его полностью и повторите запуск через VPN."
    );
    let none: Vec<ProcessInfo> = Vec::new();
    assert!(ensure_app_not_running(&none, b"/usr/bin/firefox", b"firefox").is_ok());
}
