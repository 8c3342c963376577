//! The concrete operation behind each plan step: which program runs with
//! which arguments, or which file is written or removed. The runner that
//! executes these operations performs no decisions of its own; everything
//! it does is fixed here, step by step.

use vstd::prelude::*;
use crate::plan::{Step, step_is_lenient};

verus! {

/// One operation for the runner: an external command to completion, or a
/// small file operation. `WriteFile` creates missing parent directories
/// and, when `private` is set, restricts the file to owner read/write —
/// the content may hold private key material. A `tolerate_failure`
/// operation never aborts the plan it belongs to.
pub enum Op {
    RunCommand { program: String, args: Vec<String>, tolerate_failure: bool },
    WriteFile { path: String, content: Vec<u8>, private: bool, tolerate_failure: bool },
    RemoveFile { path: String, tolerate_failure: bool },
    RemoveDir { path: String, tolerate_failure: bool },
}

/// The mathematical shadow of an `Op`.
#[verifier::ext_equal]
pub enum OpModel {
    RunCommand { program: Seq<char>, args: Seq<Seq<char>>, tolerate_failure: bool },
    WriteFile { path: Seq<char>, content: Seq<u8>, private: bool, tolerate_failure: bool },
    RemoveFile { path: Seq<char>, tolerate_failure: bool },
    RemoveDir { path: Seq<char>, tolerate_failure: bool },
}

pub open spec fn op_model(op: &Op) -> OpModel {
    match op {
        Op::RunCommand { program, args, tolerate_failure } => OpModel::RunCommand {
            program: program@,
            args: args.deep_view(),
            tolerate_failure: *tolerate_failure,
        },
        Op::WriteFile { path, content, private, tolerate_failure } => OpModel::WriteFile {
            path: path@,
            content: content@,
            private: *private,
            tolerate_failure: *tolerate_failure,
        },
        Op::RemoveFile { path, tolerate_failure } => OpModel::RemoveFile {
            path: path@,
            tolerate_failure: *tolerate_failure,
        },
        Op::RemoveDir { path, tolerate_failure } => OpModel::RemoveDir {
            path: path@,
            tolerate_failure: *tolerate_failure,
        },
    }
}

/// Whether an operation's failure is tolerated.
pub open spec fn op_tolerates(m: OpModel) -> bool {
    match m {
        OpModel::RunCommand { tolerate_failure, .. } => tolerate_failure,
        OpModel::WriteFile { tolerate_failure, .. } => tolerate_failure,
        OpModel::RemoveFile { tolerate_failure, .. } => tolerate_failure,
        OpModel::RemoveDir { tolerate_failure, .. } => tolerate_failure,
    }
}

/// Everything a plan's operations draw on: the tunnel interface name
/// (the sanitized configuration's file stem), the sanitized
/// configuration's fixed path, the forwarding flag's pre-enable value,
/// the sanitized configuration itself, the namespace resolver file's
/// content, and the encoded session record.
pub struct PlanContext {
    pub ifname: String,
    pub temp_config: String,
    pub prior_ip_forward: String,
    pub sanitized: Vec<u8>,
    pub resolver: Vec<u8>,
    pub session_json: String,
}

#[verifier::ext_equal]
pub struct PlanContextModel {
    pub ifname: Seq<char>,
    pub temp_config: Seq<char>,
    pub prior_ip_forward: Seq<char>,
    pub sanitized: Seq<u8>,
    pub resolver: Seq<u8>,
    pub session_json: Seq<char>,
}

impl View for PlanContext {
    type V = PlanContextModel;

    open spec fn view(&self) -> PlanContextModel {
        PlanContextModel {
            ifname: self.ifname@,
            temp_config: self.temp_config@,
            prior_ip_forward: self.prior_ip_forward@,
            sanitized: self.sanitized@,
            resolver: self.resolver@,
            session_json: self.session_json@,
        }
    }
}

/// The operation each step stands for. This is the controller's command
/// table: the fixed namespace, veth, address, mark and table names, and
/// where the interface name and paths from the context are spliced in.
pub open spec fn step_op(step: Step, ctx: PlanContextModel) -> OpModel {
    match step {
        Step::WriteTempConfig => OpModel::WriteFile {
            path: "/run/sillyvpn/wg-temp.conf"@,
            content: ctx.sanitized,
            private: true,
            tolerate_failure: false,
        },
        Step::WriteIpForwardOn => OpModel::WriteFile {
            path: "/proc/sys/net/ipv4/ip_forward"@,
            content: seq![49u8],
            private: false,
            tolerate_failure: false,
        },
        Step::VethDel => OpModel::RunCommand {
            program: "ip"@,
            args: seq!["link"@, "del"@, "svpn0"@],
            tolerate_failure: true,
        },
        Step::NetnsDel => OpModel::RunCommand {
            program: "ip"@,
            args: seq!["netns"@, "del"@, "sillyvpn-ns"@],
            tolerate_failure: true,
        },
        Step::NetnsAdd => OpModel::RunCommand {
            program: "ip"@,
            args: seq!["netns"@, "add"@, "sillyvpn-ns"@],
            tolerate_failure: false,
        },
        Step::WriteResolver => OpModel::WriteFile {
            path: "/etc/netns/sillyvpn-ns/resolv.conf"@,
            content: ctx.resolver,
            private: false,
            tolerate_failure: false,
        },
        Step::VethAdd => OpModel::RunCommand {
            program: "ip"@,
            args: seq!["link"@, "add"@, "svpn0"@, "type"@, "veth"@, "peer"@, "name"@, "svpn1"@],
            tolerate_failure: false,
        },
        Step::VethMoveNs => OpModel::RunCommand {
            program: "ip"@,
            args: seq!["link"@, "set"@, "svpn1"@, "netns"@, "sillyvpn-ns"@],
            tolerate_failure: false,
        },
        Step::AddrHost => OpModel::RunCommand {
            program: "ip"@,
            args: seq!["addr"@, "add"@, "10.200.0.1/24"@, "dev"@, "svpn0"@],
            tolerate_failure: false,
        },
        Step::LinkUpHost => OpModel::RunCommand {
            program: "ip"@,
            args: seq!["link"@, "set"@, "svpn0"@, "up"@],
            tolerate_failure: false,
        },
        Step::AddrNs => OpModel::RunCommand {
            program: "ip"@,
            args: seq![
                "netns"@,
                "exec"@,
                "sillyvpn-ns"@,
                "ip"@,
                "addr"@,
                "add"@,
                "10.200.0.2/24"@,
                "dev"@,
                "svpn1"@,
            ],
            tolerate_failure: false,
        },
        Step::LinkUpNs => OpModel::RunCommand {
            program: "ip"@,
            args: seq![
                "netns"@,
                "exec"@,
                "sillyvpn-ns"@,
                "ip"@,
                "link"@,
                "set"@,
                "svpn1"@,
                "up"@,
            ],
            tolerate_failure: false,
        },
        Step::RouteNsDefault => OpModel::RunCommand {
            program: "ip"@,
            args: seq![
                "netns"@,
                "exec"@,
                "sillyvpn-ns"@,
                "ip"@,
                "route"@,
                "add"@,
                "default"@,
                "via"@,
                "10.200.0.1"@,
            ],
            tolerate_failure: false,
        },
        Step::TunnelUp => OpModel::RunCommand {
            program: "wg-quick"@,
            args: seq!["up"@, ctx.temp_config],
            tolerate_failure: false,
        },
        Step::PolicyRuleAdd => OpModel::RunCommand {
            program: "ip"@,
            args: seq!["rule"@, "add"@, "fwmark"@, "0x51"@, "table"@, "51820"@],
            tolerate_failure: false,
        },
        Step::TableRouteAdd => OpModel::RunCommand {
            program: "ip"@,
            args: seq!["route"@, "add"@, "default"@, "dev"@, ctx.ifname, "table"@, "51820"@],
            tolerate_failure: false,
        },
        Step::MarkRuleAdd => OpModel::RunCommand {
            program: "iptables"@,
            args: seq![
                "-t"@,
                "mangle"@,
                "-A"@,
                "PREROUTING"@,
                "-i"@,
                "svpn0"@,
                "-j"@,
                "MARK"@,
                "--set-mark"@,
                "0x51"@,
            ],
            tolerate_failure: false,
        },
        Step::ForwardInAdd => OpModel::RunCommand {
            program: "iptables"@,
            args: seq!["-A"@, "FORWARD"@, "-i"@, "svpn0"@, "-o"@, ctx.ifname, "-j"@, "ACCEPT"@],
            tolerate_failure: false,
        },
        Step::ForwardOutAdd => OpModel::RunCommand {
            program: "iptables"@,
            args: seq!["-A"@, "FORWARD"@, "-i"@, ctx.ifname, "-o"@, "svpn0"@, "-j"@, "ACCEPT"@],
            tolerate_failure: false,
        },
        Step::NatAdd => OpModel::RunCommand {
            program: "iptables"@,
            args: seq![
                "-t"@,
                "nat"@,
                "-A"@,
                "POSTROUTING"@,
                "-s"@,
                "10.200.0.0/24"@,
                "-o"@,
                ctx.ifname,
                "-j"@,
                "MASQUERADE"@,
            ],
            tolerate_failure: false,
        },
        Step::PersistSession => OpModel::WriteFile {
            path: "/run/sillyvpn/state.json"@,
            content: vstd::utf8::encode_utf8(ctx.session_json),
            private: true,
            tolerate_failure: false,
        },
        Step::MarkRuleDel => OpModel::RunCommand {
            program: "iptables"@,
            args: seq![
                "-t"@,
                "mangle"@,
                "-D"@,
                "PREROUTING"@,
                "-i"@,
                "svpn0"@,
                "-j"@,
                "MARK"@,
                "--set-mark"@,
                "0x51"@,
            ],
            tolerate_failure: true,
        },
        Step::ForwardInDel => OpModel::RunCommand {
            program: "iptables"@,
            args: seq!["-D"@, "FORWARD"@, "-i"@, "svpn0"@, "-o"@, ctx.ifname, "-j"@, "ACCEPT"@],
            tolerate_failure: true,
        },
        Step::ForwardOutDel => OpModel::RunCommand {
            program: "iptables"@,
            args: seq!["-D"@, "FORWARD"@, "-i"@, ctx.ifname, "-o"@, "svpn0"@, "-j"@, "ACCEPT"@],
            tolerate_failure: true,
        },
        Step::NatDel => OpModel::RunCommand {
            program: "iptables"@,
            args: seq![
                "-t"@,
                "nat"@,
                "-D"@,
                "POSTROUTING"@,
                "-s"@,
                "10.200.0.0/24"@,
                "-o"@,
                ctx.ifname,
                "-j"@,
                "MASQUERADE"@,
            ],
            tolerate_failure: true,
        },
        Step::PolicyRuleDel => OpModel::RunCommand {
            program: "ip"@,
            args: seq!["rule"@, "del"@, "fwmark"@, "0x51"@, "table"@, "51820"@],
            tolerate_failure: true,
        },
        Step::TableRouteDel => OpModel::RunCommand {
            program: "ip"@,
            args: seq!["route"@, "del"@, "default"@, "dev"@, ctx.ifname, "table"@, "51820"@],
            tolerate_failure: true,
        },
        Step::TunnelDown => OpModel::RunCommand {
            program: "wg-quick"@,
            args: seq!["down"@, ctx.temp_config],
            tolerate_failure: true,
        },
        Step::RemoveResolverFile => OpModel::RemoveFile {
            path: "/etc/netns/sillyvpn-ns/resolv.conf"@,
            tolerate_failure: true,
        },
        Step::RemoveResolverDir => OpModel::RemoveDir {
            path: "/etc/netns/sillyvpn-ns"@,
            tolerate_failure: true,
        },
        Step::RestoreIpForward => OpModel::WriteFile {
            path: "/proc/sys/net/ipv4/ip_forward"@,
            content: vstd::utf8::encode_utf8(ctx.prior_ip_forward),
            private: false,
            tolerate_failure: false,
        },
        Step::RestoreIpForwardBestEffort => OpModel::WriteFile {
            path: "/proc/sys/net/ipv4/ip_forward"@,
            content: vstd::utf8::encode_utf8(ctx.prior_ip_forward),
            private: false,
            tolerate_failure: true,
        },
        Step::RemoveSessionFile => OpModel::RemoveFile {
            path: "/run/sillyvpn/state.json"@,
            tolerate_failure: true,
        },
    }
}

/// A step's operation tolerates failure exactly when the step does.
pub proof fn lemma_step_op_tolerates(step: Step, ctx: PlanContextModel)
    ensures
        op_tolerates(step_op(step, ctx)) == step_is_lenient(step),
{
}

/// The context a `disable` run draws on: everything comes from the
/// persisted session record, and the enable-only fields stay empty.
pub fn context_for_disable(s: &crate::session::SessionRecord) -> (r: PlanContext)
    ensures
        r@.ifname == s@.wg_ifname,
        r@.temp_config == s@.temp_config,
        r@.prior_ip_forward == s@.ip_forward_prev,
        r@.sanitized.len() == 0,
        r@.resolver.len() == 0,
        r@.session_json.len() == 0,
{
    PlanContext {
        ifname: s.wg_ifname.clone(),
        temp_config: s.temp_config.clone(),
        prior_ip_forward: s.ip_forward_prev.clone(),
        sanitized: Vec::new(),
        resolver: Vec::new(),
        session_json: String::new(),
    }
}

fn arg(x: &str) -> (r: String)
    ensures
        r@ == x@,
{
    String::from_str(x)
}

fn copy_bytes(v: &Vec<u8>) -> (r: Vec<u8>)
    ensures
        r@ == v@,
{
    let r = crate::text::subvec(v.as_slice(), 0, v.len());
    proof {
        assert(v@.subrange(0, v@.len() as int) =~= v@);
    }
    r
}

/// The operation behind one plan step, with the context's values spliced
/// into the fixed command table.
pub fn op_for_step(step: Step, ctx: &PlanContext) -> (r: Op)
    ensures
        op_model(&r) == step_op(step, ctx@),
{
    match step {
        Step::WriteTempConfig => {
            let r = Op::WriteFile {
                path: arg("/run/sillyvpn/wg-temp.conf"),
                content: copy_bytes(&ctx.sanitized),
                private: true,
                tolerate_failure: false,
            };
            proof {
                assert(op_model(&r) =~~= step_op(step, ctx@));
            }
            r
        },
        Step::WriteIpForwardOn => {
            let content: Vec<u8> = vec![49u8];
            proof {
                assert(content@ =~= seq![49u8]);
            }
            let r = Op::WriteFile {
                path: arg("/proc/sys/net/ipv4/ip_forward"),
                content,
                private: false,
                tolerate_failure: false,
            };
            proof {
                assert(op_model(&r) =~~= step_op(step, ctx@));
            }
            r
        },
        Step::VethDel => {
            let r = Op::RunCommand {
                program: arg("ip"),
                args: vec![arg("link"), arg("del"), arg("svpn0")],
                tolerate_failure: true,
            };
            proof {
                assert(op_model(&r) =~~= step_op(step, ctx@));
            }
            r
        },
        Step::NetnsDel => {
            let r = Op::RunCommand {
                program: arg("ip"),
                args: vec![arg("netns"), arg("del"), arg("sillyvpn-ns")],
                tolerate_failure: true,
            };
            proof {
                assert(op_model(&r) =~~= step_op(step, ctx@));
            }
            r
        },
        Step::NetnsAdd => {
            let r = Op::RunCommand {
                program: arg("ip"),
                args: vec![arg("netns"), arg("add"), arg("sillyvpn-ns")],
                tolerate_failure: false,
            };
            proof {
                assert(op_model(&r) =~~= step_op(step, ctx@));
            }
            r
        },
        Step::WriteResolver => {
            let r = Op::WriteFile {
                path: arg("/etc/netns/sillyvpn-ns/resolv.conf"),
                content: copy_bytes(&ctx.resolver),
                private: false,
                tolerate_failure: false,
            };
            proof {
                assert(op_model(&r) =~~= step_op(step, ctx@));
            }
            r
        },
        Step::VethAdd => {
            let r = Op::RunCommand {
                program: arg("ip"),
                args: vec![
                    arg("link"),
                    arg("add"),
                    arg("svpn0"),
                    arg("type"),
                    arg("veth"),
                    arg("peer"),
                    arg("name"),
                    arg("svpn1"),
                ],
                tolerate_failure: false,
            };
            proof {
                assert(op_model(&r) =~~= step_op(step, ctx@));
            }
            r
        },
        Step::VethMoveNs => {
            let r = Op::RunCommand {
                program: arg("ip"),
                args: vec![arg("link"), arg("set"), arg("svpn1"), arg("netns"), arg(
                    "sillyvpn-ns",
                )],
                tolerate_failure: false,
            };
            proof {
                assert(op_model(&r) =~~= step_op(step, ctx@));
            }
            r
        },
        Step::AddrHost => {
            let r = Op::RunCommand {
                program: arg("ip"),
                args: vec![arg("addr"), arg("add"), arg("10.200.0.1/24"), arg("dev"), arg(
                    "svpn0",
                )],
                tolerate_failure: false,
            };
            proof {
                assert(op_model(&r) =~~= step_op(step, ctx@));
            }
            r
        },
        Step::LinkUpHost => {
            let r = Op::RunCommand {
                program: arg("ip"),
                args: vec![arg("link"), arg("set"), arg("svpn0"), arg("up")],
                tolerate_failure: false,
            };
            proof {
                assert(op_model(&r) =~~= step_op(step, ctx@));
            }
            r
        },
        Step::AddrNs => {
            let r = Op::RunCommand {
                program: arg("ip"),
                args: vec![
                    arg("netns"),
                    arg("exec"),
                    arg("sillyvpn-ns"),
                    arg("ip"),
                    arg("addr"),
                    arg("add"),
                    arg("10.200.0.2/24"),
                    arg("dev"),
                    arg("svpn1"),
                ],
                tolerate_failure: false,
            };
            proof {
                assert(op_model(&r) =~~= step_op(step, ctx@));
            }
            r
        },
        Step::LinkUpNs => {
            let r = Op::RunCommand {
                program: arg("ip"),
                args: vec![
                    arg("netns"),
                    arg("exec"),
                    arg("sillyvpn-ns"),
                    arg("ip"),
                    arg("link"),
                    arg("set"),
                    arg("svpn1"),
                    arg("up"),
                ],
                tolerate_failure: false,
            };
            proof {
                assert(op_model(&r) =~~= step_op(step, ctx@));
            }
            r
        },
        Step::RouteNsDefault => {
            let r = Op::RunCommand {
                program: arg("ip"),
                args: vec![
                    arg("netns"),
                    arg("exec"),
                    arg("sillyvpn-ns"),
                    arg("ip"),
                    arg("route"),
                    arg("add"),
                    arg("default"),
                    arg("via"),
                    arg("10.200.0.1"),
                ],
                tolerate_failure: false,
            };
            proof {
                assert(op_model(&r) =~~= step_op(step, ctx@));
            }
            r
        },
        Step::TunnelUp => {
            let r = Op::RunCommand {
                program: arg("wg-quick"),
                args: vec![arg("up"), ctx.temp_config.clone()],
                tolerate_failure: false,
            };
            proof {
                assert(op_model(&r) =~~= step_op(step, ctx@));
            }
            r
        },
        Step::PolicyRuleAdd => {
            let r = Op::RunCommand {
                program: arg("ip"),
                args: vec![arg("rule"), arg("add"), arg("fwmark"), arg("0x51"), arg("table"), arg(
                    "51820",
                )],
                tolerate_failure: false,
            };
            proof {
                assert(op_model(&r) =~~= step_op(step, ctx@));
            }
            r
        },
        Step::TableRouteAdd => {
            let r = Op::RunCommand {
                program: arg("ip"),
                args: vec![
                    arg("route"),
                    arg("add"),
                    arg("default"),
                    arg("dev"),
                    ctx.ifname.clone(),
                    arg("table"),
                    arg("51820"),
                ],
                tolerate_failure: false,
            };
            proof {
                assert(op_model(&r) =~~= step_op(step, ctx@));
            }
            r
        },
        Step::MarkRuleAdd => {
            let r = Op::RunCommand {
                program: arg("iptables"),
                args: vec![
                    arg("-t"),
                    arg("mangle"),
                    arg("-A"),
                    arg("PREROUTING"),
                    arg("-i"),
                    arg("svpn0"),
                    arg("-j"),
                    arg("MARK"),
                    arg("--set-mark"),
                    arg("0x51"),
                ],
                tolerate_failure: false,
            };
            proof {
                assert(op_model(&r) =~~= step_op(step, ctx@));
            }
            r
        },
        Step::ForwardInAdd => {
            let r = Op::RunCommand {
                program: arg("iptables"),
                args: vec![
                    arg("-A"),
                    arg("FORWARD"),
                    arg("-i"),
                    arg("svpn0"),
                    arg("-o"),
                    ctx.ifname.clone(),
                    arg("-j"),
                    arg("ACCEPT"),
                ],
                tolerate_failure: false,
            };
            proof {
                assert(op_model(&r) =~~= step_op(step, ctx@));
            }
            r
        },
        Step::ForwardOutAdd => {
            let r = Op::RunCommand {
                program: arg("iptables"),
                args: vec![
                    arg("-A"),
                    arg("FORWARD"),
                    arg("-i"),
                    ctx.ifname.clone(),
                    arg("-o"),
                    arg("svpn0"),
                    arg("-j"),
                    arg("ACCEPT"),
                ],
                tolerate_failure: false,
            };
            proof {
                assert(op_model(&r) =~~= step_op(step, ctx@));
            }
            r
        },
        Step::NatAdd => {
            let r = Op::RunCommand {
                program: arg("iptables"),
                args: vec![
                    arg("-t"),
                    arg("nat"),
                    arg("-A"),
                    arg("POSTROUTING"),
                    arg("-s"),
                    arg("10.200.0.0/24"),
                    arg("-o"),
                    ctx.ifname.clone(),
                    arg("-j"),
                    arg("MASQUERADE"),
                ],
                tolerate_failure: false,
            };
            proof {
                assert(op_model(&r) =~~= step_op(step, ctx@));
            }
            r
        },
        Step::PersistSession => {
            let r = Op::WriteFile {
                path: arg("/run/sillyvpn/state.json"),
                content: ctx.session_json.as_str().as_bytes_vec(),
                private: true,
                tolerate_failure: false,
            };
            proof {
                assert(op_model(&r) =~~= step_op(step, ctx@));
            }
            r
        },
        Step::MarkRuleDel => {
            let r = Op::RunCommand {
                program: arg("iptables"),
                args: vec![
                    arg("-t"),
                    arg("mangle"),
                    arg("-D"),
                    arg("PREROUTING"),
                    arg("-i"),
                    arg("svpn0"),
                    arg("-j"),
                    arg("MARK"),
                    arg("--set-mark"),
                    arg("0x51"),
                ],
                tolerate_failure: true,
            };
            proof {
                assert(op_model(&r) =~~= step_op(step, ctx@));
            }
            r
        },
        Step::ForwardInDel => {
            let r = Op::RunCommand {
                program: arg("iptables"),
                args: vec![
                    arg("-D"),
                    arg("FORWARD"),
                    arg("-i"),
                    arg("svpn0"),
                    arg("-o"),
                    ctx.ifname.clone(),
                    arg("-j"),
                    arg("ACCEPT"),
                ],
                tolerate_failure: true,
            };
            proof {
                assert(op_model(&r) =~~= step_op(step, ctx@));
            }
            r
        },
        Step::ForwardOutDel => {
            let r = Op::RunCommand {
                program: arg("iptables"),
                args: vec![
                    arg("-D"),
                    arg("FORWARD"),
                    arg("-i"),
                    ctx.ifname.clone(),
                    arg("-o"),
                    arg("svpn0"),
                    arg("-j"),
                    arg("ACCEPT"),
                ],
                tolerate_failure: true,
            };
            proof {
                assert(op_model(&r) =~~= step_op(step, ctx@));
            }
            r
        },
        Step::NatDel => {
            let r = Op::RunCommand {
                program: arg("iptables"),
                args: vec![
                    arg("-t"),
                    arg("nat"),
                    arg("-D"),
                    arg("POSTROUTING"),
                    arg("-s"),
                    arg("10.200.0.0/24"),
                    arg("-o"),
                    ctx.ifname.clone(),
                    arg("-j"),
                    arg("MASQUERADE"),
                ],
                tolerate_failure: true,
            };
            proof {
                assert(op_model(&r) =~~= step_op(step, ctx@));
            }
            r
        },
        Step::PolicyRuleDel => {
            let r = Op::RunCommand {
                program: arg("ip"),
                args: vec![arg("rule"), arg("del"), arg("fwmark"), arg("0x51"), arg("table"), arg(
                    "51820",
                )],
                tolerate_failure: true,
            };
            proof {
                assert(op_model(&r) =~~= step_op(step, ctx@));
            }
            r
        },
        Step::TableRouteDel => {
            let r = Op::RunCommand {
                program: arg("ip"),
                args: vec![
                    arg("route"),
                    arg("del"),
                    arg("default"),
                    arg("dev"),
                    ctx.ifname.clone(),
                    arg("table"),
                    arg("51820"),
                ],
                tolerate_failure: true,
            };
            proof {
                assert(op_model(&r) =~~= step_op(step, ctx@));
            }
            r
        },
        Step::TunnelDown => {
            let r = Op::RunCommand {
                program: arg("wg-quick"),
                args: vec![arg("down"), ctx.temp_config.clone()],
                tolerate_failure: true,
            };
            proof {
                assert(op_model(&r) =~~= step_op(step, ctx@));
            }
            r
        },
        Step::RemoveResolverFile => {
            let r = Op::RemoveFile {
                path: arg("/etc/netns/sillyvpn-ns/resolv.conf"),
                tolerate_failure: true,
            };
            proof {
                assert(op_model(&r) =~~= step_op(step, ctx@));
            }
            r
        },
        Step::RemoveResolverDir => {
            let r = Op::RemoveDir { path: arg("/etc/netns/sillyvpn-ns"), tolerate_failure: true };
            proof {
                assert(op_model(&r) =~~= step_op(step, ctx@));
            }
            r
        },
        Step::RestoreIpForward => {
            let r = Op::WriteFile {
                path: arg("/proc/sys/net/ipv4/ip_forward"),
                content: ctx.prior_ip_forward.as_str().as_bytes_vec(),
                private: false,
                tolerate_failure: false,
            };
            proof {
                assert(op_model(&r) =~~= step_op(step, ctx@));
            }
            r
        },
        Step::RestoreIpForwardBestEffort => {
            let r = Op::WriteFile {
                path: arg("/proc/sys/net/ipv4/ip_forward"),
                content: ctx.prior_ip_forward.as_str().as_bytes_vec(),
                private: false,
                tolerate_failure: true,
            };
            proof {
                assert(op_model(&r) =~~= step_op(step, ctx@));
            }
            r
        },
        Step::RemoveSessionFile => {
            let r = Op::RemoveFile { path: arg("/run/sillyvpn/state.json"), tolerate_failure: true };
            proof {
                assert(op_model(&r) =~~= step_op(step, ctx@));
            }
            r
        },
    }
}

} // verus!
