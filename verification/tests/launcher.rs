use sillyvpn::cli::{parse_helper_args, HelperCommand};
use sillyvpn::launch::{
    allowed_env_key, caller_identity, filter_env, find_setpriv, find_setsid, gid_for_uid,
    launch_command, parse_env_pair, CallerIdentity, EnvPair,
};

fn pair(key: &str, value: &str) -> EnvPair {
    EnvPair { key: key.to_string(), value: value.to_string() }
}

fn strings(xs: &[&str]) -> Vec<String> {
    xs.iter().map(|s| s.to_string()).collect()
}

#[test]
fn the_allow_list_is_exact() {
    for key in ["DISPLAY", "WAYLAND_DISPLAY", "XAUTHORITY", "XDG_RUNTIME_DIR",
        "DBUS_SESSION_BUS_ADDRESS", "HOME", "USER", "LOGNAME", "PATH"] {
        assert!(allowed_env_key(key));
    }
    assert!(!allowed_env_key("LD_PRELOAD"));
    assert!(!allowed_env_key("display"));
    assert!(!allowed_env_key(""));
}

#[test]
fn env_pairs_are_screened() {
    let p = parse_env_pair("DISPLAY=:0").unwrap().unwrap();
    assert_eq!(p.key, "DISPLAY");
    assert_eq!(p.value, ":0");
    assert!(parse_env_pair("LD_PRELOAD=/tmp/x.so").unwrap().is_none());
    assert_eq!(parse_env_pair("=x").unwrap_err(), "empty env key");
    assert_eq!(parse_env_pair("").unwrap_err(), "empty env key");
    let p = parse_env_pair(" HOME =/home/u").unwrap().unwrap();
    assert_eq!(p.key, "HOME");
    assert_eq!(p.value, "/home/u");
    let p = parse_env_pair("PATH=/bin:/usr/bin=odd").unwrap().unwrap();
    assert_eq!(p.value, "/bin:/usr/bin=odd");
    let p = parse_env_pair("USER").unwrap();
    assert_eq!(p.unwrap().value, "");
}

#[test]
fn forwarding_keeps_only_allow_listed_nonblank_variables() {
    let input = vec![
        pair("DISPLAY", ":0"),
        pair("LD_PRELOAD", "/tmp/x.so"),
        pair("HOME", "   "),
        pair("PATH", "/usr/bin"),
        pair("SECRET_TOKEN", "s"),
    ];
    let kept = filter_env(&input);
    let keys: Vec<&str> = kept.iter().map(|p| p.key.as_str()).collect();
    assert_eq!(keys, vec!["DISPLAY", "PATH"]);
}

#[test]
fn caller_identity_falls_back_to_the_uid_as_gid() {
    let c = caller_identity(Some("1000".to_string()), Some("1001".to_string())).unwrap();
    assert_eq!((c.uid.as_str(), c.gid.as_str()), ("1000", "1001"));
    let c = caller_identity(Some("1000".to_string()), None).unwrap();
    assert_eq!((c.uid.as_str(), c.gid.as_str()), ("1000", "1000"));
    assert!(caller_identity(None, Some("1001".to_string())).is_none());
}

#[test]
fn group_lookup_reads_the_fourth_field_of_the_matching_line() {
    let passwd = b"root:x:0:0:root:/root:/bin/bash\nalice:x:1000:1001:Alice:/home/alice:/bin/sh\nshort:line\n";
    assert_eq!(gid_for_uid(passwd, b"1000"), Some(b"1001".to_vec()));
    assert_eq!(gid_for_uid(passwd, b"0"), Some(b"0".to_vec()));
    assert_eq!(gid_for_uid(passwd, b"555"), None);
}

#[test]
fn tool_discovery_prefers_the_usr_path() {
    assert_eq!(find_setpriv(true, true).unwrap(), "/usr/bin/setpriv");
    assert_eq!(find_setpriv(false, true).unwrap(), "/bin/setpriv");
    assert!(find_setpriv(false, false).is_none());
    assert_eq!(find_setsid(true, false), ("/usr/bin/setsid".to_string(), true));
    assert_eq!(find_setsid(false, true), ("/bin/setsid".to_string(), true));
    assert_eq!(find_setsid(false, false), ("/usr/bin/ip".to_string(), false));
}

#[test]
fn launch_command_with_every_tool_present() {
    let caller = CallerIdentity { uid: "1000".to_string(), gid: "1001".to_string() };
    let env = vec![pair("DISPLAY", ":0")];
    let cmd = launch_command(
        "/usr/bin/firefox",
        Some("/usr/bin/setsid".to_string()),
        Some("/usr/bin/setpriv".to_string()),
        Some(caller),
        env,
    );
    assert_eq!(cmd.program, "/usr/bin/setsid");
    assert_eq!(
        cmd.args,
        strings(&["/usr/bin/ip", "netns", "exec", "sillyvpn-ns", "/usr/bin/setpriv", "--reuid",
            "1000", "--regid", "1001", "--init-groups", "--inh-caps", "-all", "/usr/bin/firefox"])
    );
    assert_eq!(cmd.env.len(), 1);
    assert_eq!(cmd.env[0].key, "DISPLAY");
}

#[test]
fn launch_command_degrades_without_the_tools() {
    let cmd = launch_command("/usr/bin/firefox", None, None, None, Vec::new());
    assert_eq!(cmd.program, "/usr/bin/ip");
    assert_eq!(cmd.args, strings(&["netns", "exec", "sillyvpn-ns", "/usr/bin/firefox"]));
    let caller = CallerIdentity { uid: "1000".to_string(), gid: "1000".to_string() };
    let cmd = launch_command("/usr/bin/firefox", None, None, Some(caller), Vec::new());
    assert_eq!(cmd.args, strings(&["netns", "exec", "sillyvpn-ns", "/usr/bin/firefox"]));
}

#[test]
fn helper_arguments_parse_to_commands() {
    let args = strings(&["enable", "--config", "/home/u/t.conf", "--ifname", "wg-temp"]);
    match parse_helper_args(&args).unwrap() {
        HelperCommand::Enable { config, ifname } => {
            assert_eq!(config, "/home/u/t.conf");
            assert_eq!(ifname, "wg-temp");
        },
        _ => panic!("expected enable"),
    }
    match parse_helper_args(&strings(&["disable"])).unwrap() {
        HelperCommand::Disable => {},
        _ => panic!("expected disable"),
    }
    let args = strings(&["run", "--bin", "/usr/bin/firefox", "--env", "DISPLAY=:0", "--env",
        "LD_PRELOAD=x"]);
    match parse_helper_args(&args).unwrap() {
        HelperCommand::Run { bins, envs } => {
            assert_eq!(bins, strings(&["/usr/bin/firefox"]));
            assert_eq!(envs.len(), 1);
            assert_eq!(envs[0].key, "DISPLAY");
            assert_eq!(envs[0].value, ":0");
        },
        _ => panic!("expected run"),
    }
}

#[test]
fn helper_argument_errors_name_the_problem() {
    assert_eq!(parse_helper_args(&Vec::new()).unwrap_err(), "missing command");
    assert_eq!(parse_helper_args(&strings(&["pause"])).unwrap_err(), "unknown command: pause");
    assert_eq!(parse_helper_args(&strings(&["enable"])).unwrap_err(), "--config missing");
    assert_eq!(
        parse_helper_args(&strings(&["enable", "--config", "c"])).unwrap_err(),
        "--ifname missing"
    );
    assert_eq!(
        parse_helper_args(&strings(&["enable", "--config", "c", "--ifname"])).unwrap_err(),
        "--ifname missing"
    );
    assert_eq!(
        parse_helper_args(&strings(&["enable", "-x"])).unwrap_err(),
        "unknown argument: -x"
    );
    assert_eq!(parse_helper_args(&strings(&["run"])).unwrap_err(), "--bin missing");
    assert_eq!(
        parse_helper_args(&strings(&["run", "--bin"])).unwrap_err(),
        "--bin missing value"
    );
    assert_eq!(
        parse_helper_args(&strings(&["run", "--bin", "b", "--env"])).unwrap_err(),
        "--env missing value"
    );
    assert_eq!(
        parse_helper_args(&strings(&["run", "--bin", "b", "--env", "=x"])).unwrap_err(),
        "empty env key"
    );
}
