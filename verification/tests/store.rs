use sillyvpn::errors::{HelperError, StorageError, map_helper_error};
use sillyvpn::host::{installed_helper_path, polkit_status};
use sillyvpn::storage::{tail_lines, AppStateFile, AppStateStore};

fn store() -> AppStateStore {
    AppStateStore::new(
        "/home/u/.config/sillyvpn".to_string(),
        "/home/u/.config/sillyvpn/app.log".to_string(),
        AppStateFile::empty(),
    )
}

#[test]
fn fresh_ids_have_the_hyphenated_length() {
    let mut s = store();
    let app = s.add_app("/usr/bin/firefox".to_string(), "Firefox".to_string());
    assert_eq!(app.id.chars().count(), 36);
    assert_eq!(app.label, "Firefox");
    assert_eq!(app.path, "/usr/bin/firefox");
}

#[test]
fn importing_derives_the_stored_path_from_the_id() {
    let mut s = store();
    let t = s.import_conf("homelab".to_string());
    assert_eq!(t.name, "homelab");
    assert_eq!(t.path, format!("/home/u/.config/sillyvpn/{}.conf", t.id));
    let snapshot = s.state_snapshot();
    assert_eq!(snapshot.tunnels.len(), 1);
    assert_eq!(snapshot.last_tunnel_id.as_deref(), Some(t.id.as_str()));
    let found = s.find_tunnel(t.id.as_str()).unwrap();
    assert_eq!(found.name, "homelab");
    assert!(s.find_tunnel("no-such-id").is_none());
}

#[test]
fn removing_an_app_requires_it_to_exist() {
    let mut s = store();
    let a = s.add_app("/usr/bin/firefox".to_string(), "Firefox".to_string());
    let b = s.add_app("/usr/bin/vim".to_string(), "Vim".to_string());
    assert!(s.remove_app(a.id.as_str()).is_ok());
    assert_eq!(s.state_snapshot().apps.len(), 1);
    assert_eq!(s.find_app(b.id.as_str()).unwrap().label, "Vim");
    assert!(s.find_app(a.id.as_str()).is_none());
    match s.remove_app(a.id.as_str()) {
        Err(StorageError::AppNotFound) => {},
        _ => panic!("expected AppNotFound"),
    }
}

#[test]
fn marks_are_remembered() {
    let mut s = store();
    s.set_vpn_enabled(true);
    s.set_last_tunnel_id("t-1");
    s.set_last_app_id("a-1");
    let snapshot = s.state_snapshot();
    assert!(snapshot.vpn_enabled);
    assert_eq!(snapshot.last_tunnel_id.as_deref(), Some("t-1"));
    assert_eq!(snapshot.last_app_id.as_deref(), Some("a-1"));
    assert_eq!(s.data_dir(), "/home/u/.config/sillyvpn");
    assert_eq!(s.log_path(), "/home/u/.config/sillyvpn/app.log");
}

#[test]
fn log_tail_keeps_the_newest_lines() {
    let lines: Vec<String> = (0..5).map(|i| format!("line {}", i)).collect();
    assert_eq!(tail_lines(&lines, 10), lines);
    assert_eq!(tail_lines(&lines, 2), vec!["line 3".to_string(), "line 4".to_string()]);
    assert!(tail_lines(&lines, 0).is_empty());
}

#[test]
fn error_texts_are_fixed() {
    assert_eq!(HelperError::MissingHelper.message(), "helper binary not found");
    assert_eq!(HelperError::Io("broken pipe".to_string()).message(), "io error: broken pipe");
    assert_eq!(StorageError::TunnelNotFound.message(), "tunnel not found");
    assert_eq!(StorageError::Json("eof".to_string()).message(), "json error: eof");
    assert_eq!(StorageError::MissingConfigDir.message(), "missing config directory");
}

#[test]
fn permission_failures_become_guidance() {
    let err = HelperError::HelperFailed("pkexec: Permission denied".to_string());
    let text = map_helper_error(&err);
    assert!(text.starts_with("Недостаточно прав."));
    let err = HelperError::HelperFailed("install failed: no tty".to_string());
    assert!(map_helper_error(&err).starts_with("Недостаточно прав."));
}

#[test]
fn dns_conflicts_become_guidance() {
    let err = HelperError::HelperFailed(
        "wg-quick error: resolvconf: command not found".to_string(),
    );
    let text = map_helper_error(&err);
    assert!(text.starts_with("Ошибка DNS:"));
}

#[test]
fn other_failures_pass_through_verbatim() {
    let err = HelperError::HelperFailed("ip error: RTNETLINK answers: File exists".to_string());
    assert_eq!(
        map_helper_error(&err),
        "helper failed: ip error: RTNETLINK answers: File exists"
    );
}

#[test]
fn host_facts_are_fixed() {
    assert_eq!(installed_helper_path(), "/usr/local/lib/sillyvpn/sillyvpn-helper");
    let up = polkit_status(true);
    assert!(up.running);
    assert_eq!(up.detail, "polkit-agent is running");
    let down = polkit_status(false);
    assert!(!down.running);
    assert_eq!(down.detail, "polkit-agent is not running");
}
