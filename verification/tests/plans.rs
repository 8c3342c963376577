use sillyvpn::ops::{context_for_disable, op_for_step, Op, PlanContext};
use sillyvpn::plan::{
    disable_plan, enable_pre_steps, enable_transaction_steps, rollback_steps,
    step_tolerates_failure, Step,
};
use sillyvpn::session::SessionRecord;

fn ctx() -> PlanContext {
    PlanContext {
        ifname: "wg-temp".to_string(),
        temp_config: "/run/sillyvpn/wg-temp.conf".to_string(),
        prior_ip_forward: "0".to_string(),
        sanitized: b"[Interface]\n".to_vec(),
        resolver: b"nameserver 9.9.9.9\n".to_vec(),
        session_json: "{}".to_string(),
    }
}

fn command_of(op: Op) -> (String, Vec<String>, bool) {
    match op {
        Op::RunCommand { program, args, tolerate_failure } => (program, args, tolerate_failure),
        _ => panic!("expected a command"),
    }
}

#[test]
fn transaction_steps_run_in_the_documented_order() {
    let steps = enable_transaction_steps();
    assert_eq!(steps.len(), 17);
    assert_eq!(steps[0], Step::NetnsAdd);
    assert_eq!(steps[1], Step::WriteResolver);
    assert_eq!(steps[9], Step::TunnelUp);
    assert_eq!(steps[16], Step::PersistSession);
    for step in steps {
        assert!(!step_tolerates_failure(step));
    }
}

#[test]
fn pre_steps_set_the_flag_and_clear_stale_resources() {
    let steps = enable_pre_steps();
    assert_eq!(
        steps,
        vec![Step::WriteTempConfig, Step::WriteIpForwardOn, Step::VethDel, Step::NetnsDel]
    );
}

#[test]
fn rollback_is_entirely_best_effort() {
    let steps = rollback_steps();
    assert_eq!(steps.len(), 10);
    for step in steps {
        assert!(step_tolerates_failure(step));
    }
}

#[test]
fn disable_without_session_only_cleans_fixed_resources() {
    let steps = disable_plan(false);
    assert_eq!(
        steps,
        vec![Step::VethDel, Step::NetnsDel, Step::RemoveResolverFile, Step::RemoveResolverDir]
    );
    for step in steps {
        assert!(step_tolerates_failure(step));
    }
}

#[test]
fn disable_with_session_ends_with_flag_restore_and_record_removal() {
    let steps = disable_plan(true);
    assert_eq!(steps.len(), 13);
    assert_eq!(steps[0], Step::MarkRuleDel);
    assert_eq!(steps[11], Step::RestoreIpForward);
    assert_eq!(steps[12], Step::RemoveSessionFile);
    assert!(!step_tolerates_failure(Step::RestoreIpForward));
}

#[test]
fn namespace_creation_command_is_exact() {
    let (program, args, lenient) = command_of(op_for_step(Step::NetnsAdd, &ctx()));
    assert_eq!(program, "ip");
    assert_eq!(args, vec!["netns", "add", "sillyvpn-ns"]);
    assert!(!lenient);
}

#[test]
fn veth_creation_command_is_exact() {
    let (program, args, _) = command_of(op_for_step(Step::VethAdd, &ctx()));
    assert_eq!(program, "ip");
    assert_eq!(
        args,
        vec!["link", "add", "svpn0", "type", "veth", "peer", "name", "svpn1"]
    );
}

#[test]
fn tunnel_commands_use_the_sanitized_config() {
    let (program, args, _) = command_of(op_for_step(Step::TunnelUp, &ctx()));
    assert_eq!(program, "wg-quick");
    assert_eq!(args, vec!["up", "/run/sillyvpn/wg-temp.conf"]);
    let (program, args, lenient) = command_of(op_for_step(Step::TunnelDown, &ctx()));
    assert_eq!(program, "wg-quick");
    assert_eq!(args, vec!["down", "/run/sillyvpn/wg-temp.conf"]);
    assert!(lenient);
}

#[test]
fn routing_commands_splice_the_interface_name_in() {
    let (_, args, _) = command_of(op_for_step(Step::TableRouteAdd, &ctx()));
    assert_eq!(args, vec!["route", "add", "default", "dev", "wg-temp", "table", "51820"]);
    let (_, args, _) = command_of(op_for_step(Step::NatAdd, &ctx()));
    assert_eq!(
        args,
        vec!["-t", "nat", "-A", "POSTROUTING", "-s", "10.200.0.0/24", "-o", "wg-temp", "-j",
            "MASQUERADE"]
    );
}

#[test]
fn mark_rule_uses_the_fixed_mark() {
    let (program, args, _) = command_of(op_for_step(Step::MarkRuleAdd, &ctx()));
    assert_eq!(program, "iptables");
    assert_eq!(
        args,
        vec!["-t", "mangle", "-A", "PREROUTING", "-i", "svpn0", "-j", "MARK", "--set-mark",
            "0x51"]
    );
}

#[test]
fn forwarding_flag_writes_are_file_operations() {
    match op_for_step(Step::WriteIpForwardOn, &ctx()) {
        Op::WriteFile { path, content, private, tolerate_failure } => {
            assert_eq!(path, "/proc/sys/net/ipv4/ip_forward");
            assert_eq!(content, b"1".to_vec());
            assert!(!private);
            assert!(!tolerate_failure);
        },
        _ => panic!("expected a file write"),
    }
    match op_for_step(Step::RestoreIpForward, &ctx()) {
        Op::WriteFile { path, content, tolerate_failure, .. } => {
            assert_eq!(path, "/proc/sys/net/ipv4/ip_forward");
            assert_eq!(content, b"0".to_vec());
            assert!(!tolerate_failure);
        },
        _ => panic!("expected a file write"),
    }
}

#[test]
fn sanitized_config_is_written_privately() {
    match op_for_step(Step::WriteTempConfig, &ctx()) {
        Op::WriteFile { path, content, private, .. } => {
            assert_eq!(path, "/run/sillyvpn/wg-temp.conf");
            assert_eq!(content, b"[Interface]\n".to_vec());
            assert!(private);
        },
        _ => panic!("expected a file write"),
    }
}

#[test]
fn resolver_cleanup_removes_file_then_directory() {
    match op_for_step(Step::RemoveResolverFile, &ctx()) {
        Op::RemoveFile { path, tolerate_failure } => {
            assert_eq!(path, "/etc/netns/sillyvpn-ns/resolv.conf");
            assert!(tolerate_failure);
        },
        _ => panic!("expected a file removal"),
    }
    match op_for_step(Step::RemoveResolverDir, &ctx()) {
        Op::RemoveDir { path, tolerate_failure } => {
            assert_eq!(path, "/etc/netns/sillyvpn-ns");
            assert!(tolerate_failure);
        },
        _ => panic!("expected a directory removal"),
    }
}

#[test]
fn disable_context_comes_from_the_session_record() {
    let session = SessionRecord {
        wg_ifname: "wg-temp".to_string(),
        config_path: "/home/u/t.conf".to_string(),
        temp_config: "/run/sillyvpn/wg-temp.conf".to_string(),
        ip_forward_prev: "0".to_string(),
    };
    let ctx = context_for_disable(&session);
    assert_eq!(ctx.ifname, "wg-temp");
    assert_eq!(ctx.temp_config, "/run/sillyvpn/wg-temp.conf");
    assert_eq!(ctx.prior_ip_forward, "0");
    assert!(ctx.sanitized.is_empty());
    assert!(ctx.resolver.is_empty());
    assert!(ctx.session_json.is_empty());
}
