//! The sandbox controller's lifecycle plans. Enabling and disabling the
//! sandbox is a fixed sequence of steps — external commands and small
//! file operations — and the controller's correctness lies in which steps
//! run, in what order, and which failures abort. The plans are modelled
//! here as step sequences with an effect function over an abstract view
//! of the host's resources, so that rollback and disable can be proved to
//! converge to a clean state.

use vstd::prelude::*;

verus! {

/// One step of a lifecycle plan. Each step stands for one external
/// command or one file operation; `ops::op_for_step` says exactly which.
#[derive(Clone, Copy, PartialEq, Eq, Structural, Debug)]
pub enum Step {
    /// Write the sanitized tunnel configuration to its fixed path.
    WriteTempConfig,
    /// Enable the kernel's global IP-forwarding flag.
    WriteIpForwardOn,
    /// Delete the veth pair (tolerated when absent).
    VethDel,
    /// Delete the sandbox namespace (tolerated when absent).
    NetnsDel,
    /// Create the sandbox namespace.
    NetnsAdd,
    /// Write the namespace-local resolver configuration.
    WriteResolver,
    /// Create the veth pair.
    VethAdd,
    /// Move the namespace-side veth end into the namespace.
    VethMoveNs,
    /// Assign the host-side veth address.
    AddrHost,
    /// Bring the host-side veth end up.
    LinkUpHost,
    /// Assign the namespace-side veth address.
    AddrNs,
    /// Bring the namespace-side veth end up.
    LinkUpNs,
    /// Install the namespace's default route via the host-side veth.
    RouteNsDefault,
    /// Bring the tunnel up from the sanitized configuration.
    TunnelUp,
    /// Install the policy-routing rule for marked packets.
    PolicyRuleAdd,
    /// Install the default route in the dedicated routing table.
    TableRouteAdd,
    /// Install the firewall rule marking namespace ingress traffic.
    MarkRuleAdd,
    /// Allow forwarding from the veth into the tunnel.
    ForwardInAdd,
    /// Allow forwarding from the tunnel back to the veth.
    ForwardOutAdd,
    /// Masquerade namespace-subnet traffic egressing via the tunnel.
    NatAdd,
    /// Persist the session record.
    PersistSession,
    /// Remove the marking rule (tolerated when absent).
    MarkRuleDel,
    /// Remove the veth-to-tunnel forwarding rule (tolerated when absent).
    ForwardInDel,
    /// Remove the tunnel-to-veth forwarding rule (tolerated when absent).
    ForwardOutDel,
    /// Remove the masquerade rule (tolerated when absent).
    NatDel,
    /// Remove the policy-routing rule (tolerated when absent).
    PolicyRuleDel,
    /// Remove the dedicated table's route (tolerated when absent).
    TableRouteDel,
    /// Bring the tunnel down (tolerated when already down).
    TunnelDown,
    /// Remove the namespace resolver file (tolerated when absent).
    RemoveResolverFile,
    /// Remove the namespace resolver directory (tolerated when absent).
    RemoveResolverDir,
    /// Restore the prior IP-forwarding flag; a failure is reported.
    RestoreIpForward,
    /// Restore the prior IP-forwarding flag, best-effort.
    RestoreIpForwardBestEffort,
    /// Delete the persisted session record (tolerated when absent).
    RemoveSessionFile,
}

/// Whether a step's failure is tolerated: the plan goes on and no error
/// is reported. Removals are tolerated because the resource may already
/// be gone; every constructive step of the enable transaction is not.
pub open spec fn step_is_lenient(step: Step) -> bool {
    match step {
        Step::VethDel => true,
        Step::NetnsDel => true,
        Step::MarkRuleDel => true,
        Step::ForwardInDel => true,
        Step::ForwardOutDel => true,
        Step::NatDel => true,
        Step::PolicyRuleDel => true,
        Step::TableRouteDel => true,
        Step::TunnelDown => true,
        Step::RemoveResolverFile => true,
        Step::RemoveResolverDir => true,
        Step::RestoreIpForwardBestEffort => true,
        Step::RemoveSessionFile => true,
        _ => false,
    }
}

/// What `enable` does before its transactional body: write the sanitized
/// configuration, remember-and-set the forwarding flag (the reading is
/// the caller's), and clear any stale veth pair or namespace.
pub open spec fn enable_pre_spec() -> Seq<Step> {
    seq![Step::WriteTempConfig, Step::WriteIpForwardOn, Step::VethDel, Step::NetnsDel]
}

/// The transactional body of `enable`: any step's failure aborts to the
/// rollback plan.
pub open spec fn enable_transaction_spec() -> Seq<Step> {
    seq![
        Step::NetnsAdd,
        Step::WriteResolver,
        Step::VethAdd,
        Step::VethMoveNs,
        Step::AddrHost,
        Step::LinkUpHost,
        Step::AddrNs,
        Step::LinkUpNs,
        Step::RouteNsDefault,
        Step::TunnelUp,
        Step::PolicyRuleAdd,
        Step::TableRouteAdd,
        Step::MarkRuleAdd,
        Step::ForwardInAdd,
        Step::ForwardOutAdd,
        Step::NatAdd,
        Step::PersistSession,
    ]
}

/// The rollback plan, run after any transactional step fails: tear down
/// namespace, veth and resolver, restore the forwarding flag, remove the
/// firewall rules just attempted, and bring the tunnel down — every step
/// best-effort.
pub open spec fn rollback_spec() -> Seq<Step> {
    seq![
        Step::VethDel,
        Step::NetnsDel,
        Step::RemoveResolverFile,
        Step::RemoveResolverDir,
        Step::RestoreIpForwardBestEffort,
        Step::MarkRuleDel,
        Step::ForwardInDel,
        Step::ForwardOutDel,
        Step::NatDel,
        Step::TunnelDown,
    ]
}

/// The disable plan when a session record was found: remove every rule,
/// bring the tunnel down, tear down namespace, veth and resolver — all
/// best-effort — then restore the forwarding flag (whose failure is
/// reported) and drop the session record.
pub open spec fn disable_spec() -> Seq<Step> {
    seq![
        Step::MarkRuleDel,
        Step::ForwardInDel,
        Step::ForwardOutDel,
        Step::NatDel,
        Step::PolicyRuleDel,
        Step::TableRouteDel,
        Step::TunnelDown,
        Step::VethDel,
        Step::NetnsDel,
        Step::RemoveResolverFile,
        Step::RemoveResolverDir,
        Step::RestoreIpForward,
        Step::RemoveSessionFile,
    ]
}

/// The disable plan when no session record exists: best-effort cleanup
/// of the fixed resources, nothing else.
pub open spec fn disable_cleanup_spec() -> Seq<Step> {
    seq![Step::VethDel, Step::NetnsDel, Step::RemoveResolverFile, Step::RemoveResolverDir]
}

pub fn enable_pre_steps() -> (r: Vec<Step>)
    ensures
        r@ == enable_pre_spec(),
{
    let r = vec![Step::WriteTempConfig, Step::WriteIpForwardOn, Step::VethDel, Step::NetnsDel];
    proof {
        assert(r@ =~= enable_pre_spec());
    }
    r
}

pub fn enable_transaction_steps() -> (r: Vec<Step>)
    ensures
        r@ == enable_transaction_spec(),
{
    let r = vec![
        Step::NetnsAdd,
        Step::WriteResolver,
        Step::VethAdd,
        Step::VethMoveNs,
        Step::AddrHost,
        Step::LinkUpHost,
        Step::AddrNs,
        Step::LinkUpNs,
        Step::RouteNsDefault,
        Step::TunnelUp,
        Step::PolicyRuleAdd,
        Step::TableRouteAdd,
        Step::MarkRuleAdd,
        Step::ForwardInAdd,
        Step::ForwardOutAdd,
        Step::NatAdd,
        Step::PersistSession,
    ];
    proof {
        assert(r@ =~= enable_transaction_spec());
    }
    r
}

pub fn rollback_steps() -> (r: Vec<Step>)
    ensures
        r@ == rollback_spec(),
{
    let r = vec![
        Step::VethDel,
        Step::NetnsDel,
        Step::RemoveResolverFile,
        Step::RemoveResolverDir,
        Step::RestoreIpForwardBestEffort,
        Step::MarkRuleDel,
        Step::ForwardInDel,
        Step::ForwardOutDel,
        Step::NatDel,
        Step::TunnelDown,
    ];
    proof {
        assert(r@ =~= rollback_spec());
    }
    r
}

/// The steps `disable` runs: the full teardown when a session record was
/// found, and best-effort cleanup of the fixed resources alone when not.
pub fn disable_plan(session_found: bool) -> (r: Vec<Step>)
    ensures
        session_found ==> r@ == disable_spec(),
        !session_found ==> r@ == disable_cleanup_spec(),
{
    if session_found {
        let r = vec![
            Step::MarkRuleDel,
            Step::ForwardInDel,
            Step::ForwardOutDel,
            Step::NatDel,
            Step::PolicyRuleDel,
            Step::TableRouteDel,
            Step::TunnelDown,
            Step::VethDel,
            Step::NetnsDel,
            Step::RemoveResolverFile,
            Step::RemoveResolverDir,
            Step::RestoreIpForward,
            Step::RemoveSessionFile,
        ];
        proof {
            assert(r@ =~= disable_spec());
        }
        r
    } else {
        let r = vec![
            Step::VethDel,
            Step::NetnsDel,
            Step::RemoveResolverFile,
            Step::RemoveResolverDir,
        ];
        proof {
            assert(r@ =~= disable_cleanup_spec());
        }
        r
    }
}

pub fn step_tolerates_failure(step: Step) -> (r: bool)
    ensures
        r == step_is_lenient(step),
{
    match step {
        Step::VethDel => true,
        Step::NetnsDel => true,
        Step::MarkRuleDel => true,
        Step::ForwardInDel => true,
        Step::ForwardOutDel => true,
        Step::NatDel => true,
        Step::PolicyRuleDel => true,
        Step::TableRouteDel => true,
        Step::TunnelDown => true,
        Step::RemoveResolverFile => true,
        Step::RemoveResolverDir => true,
        Step::RestoreIpForwardBestEffort => true,
        Step::RemoveSessionFile => true,
        _ => false,
    }
}

/// An abstract view of the host resources the controller touches. The
/// forwarding flag is the file's text; the rest are presence bits.
pub struct NetStateModel {
    pub namespace_exists: bool,
    pub veth_exists: bool,
    pub resolver_exists: bool,
    pub tunnel_up: bool,
    pub policy_rule: bool,
    pub table_route: bool,
    pub mark_rule: bool,
    pub forward_in: bool,
    pub forward_out: bool,
    pub nat_rule: bool,
    pub ip_forward: Seq<char>,
    pub session_persisted: bool,
}

/// What one step does to the abstract resource state. A constructive
/// step takes effect only when it succeeded; a removal leaves the
/// resource absent either way, because the removal commands fail only
/// when there is nothing to remove (they are idempotent by design).
pub open spec fn step_effect(
    s: NetStateModel,
    step: Step,
    ok: bool,
    prior_ip_forward: Seq<char>,
) -> NetStateModel {
    match step {
        Step::WriteTempConfig => s,
        Step::WriteIpForwardOn => if ok {
            NetStateModel { ip_forward: seq!['1'], ..s }
        } else {
            s
        },
        Step::VethDel => NetStateModel { veth_exists: false, ..s },
        Step::NetnsDel => NetStateModel { namespace_exists: false, ..s },
        Step::NetnsAdd => if ok {
            NetStateModel { namespace_exists: true, ..s }
        } else {
            s
        },
        Step::WriteResolver => if ok {
            NetStateModel { resolver_exists: true, ..s }
        } else {
            s
        },
        Step::VethAdd => if ok {
            NetStateModel { veth_exists: true, ..s }
        } else {
            s
        },
        Step::VethMoveNs => s,
        Step::AddrHost => s,
        Step::LinkUpHost => s,
        Step::AddrNs => s,
        Step::LinkUpNs => s,
        Step::RouteNsDefault => s,
        Step::TunnelUp => if ok {
            NetStateModel { tunnel_up: true, ..s }
        } else {
            s
        },
        Step::PolicyRuleAdd => if ok {
            NetStateModel { policy_rule: true, ..s }
        } else {
            s
        },
        Step::TableRouteAdd => if ok {
            NetStateModel { table_route: true, ..s }
        } else {
            s
        },
        Step::MarkRuleAdd => if ok {
            NetStateModel { mark_rule: true, ..s }
        } else {
            s
        },
        Step::ForwardInAdd => if ok {
            NetStateModel { forward_in: true, ..s }
        } else {
            s
        },
        Step::ForwardOutAdd => if ok {
            NetStateModel { forward_out: true, ..s }
        } else {
            s
        },
        Step::NatAdd => if ok {
            NetStateModel { nat_rule: true, ..s }
        } else {
            s
        },
        Step::PersistSession => if ok {
            NetStateModel { session_persisted: true, ..s }
        } else {
            s
        },
        Step::MarkRuleDel => NetStateModel { mark_rule: false, ..s },
        Step::ForwardInDel => NetStateModel { forward_in: false, ..s },
        Step::ForwardOutDel => NetStateModel { forward_out: false, ..s },
        Step::NatDel => NetStateModel { nat_rule: false, ..s },
        Step::PolicyRuleDel => NetStateModel { policy_rule: false, ..s },
        Step::TableRouteDel => NetStateModel { table_route: false, ..s },
        Step::TunnelDown => NetStateModel { tunnel_up: false, ..s },
        Step::RemoveResolverFile => NetStateModel { resolver_exists: false, ..s },
        Step::RemoveResolverDir => s,
        Step::RestoreIpForward => if ok {
            NetStateModel { ip_forward: prior_ip_forward, ..s }
        } else {
            s
        },
        Step::RestoreIpForwardBestEffort => if ok {
            NetStateModel { ip_forward: prior_ip_forward, ..s }
        } else {
            s
        },
        Step::RemoveSessionFile => NetStateModel { session_persisted: false, ..s },
    }
}

/// The state after running `steps` with the given per-step outcomes.
pub open spec fn apply_steps(
    s: NetStateModel,
    steps: Seq<Step>,
    oks: Seq<bool>,
    prior_ip_forward: Seq<char>,
) -> NetStateModel
    decreases steps.len(),
{
    if steps.len() == 0 {
        s
    } else {
        apply_steps(
            step_effect(s, steps[0], oks.len() > 0 && oks[0], prior_ip_forward),
            steps.drop_first(),
            oks.drop_first(),
            prior_ip_forward,
        )
    }
}

/// The state after running `steps` with every step succeeding.
pub open spec fn apply_steps_ok(
    s: NetStateModel,
    steps: Seq<Step>,
    prior_ip_forward: Seq<char>,
) -> NetStateModel
    decreases steps.len(),
{
    if steps.len() == 0 {
        s
    } else {
        apply_steps_ok(
            step_effect(s, steps[0], true, prior_ip_forward),
            steps.drop_first(),
            prior_ip_forward,
        )
    }
}

/// Rollback converges from anywhere: whatever state the host is in when
/// the rollback plan runs — in particular the state after any prefix of
/// the enable transaction, with any mix of outcomes — it ends with no
/// namespace, no veth pair, no resolver file, the tunnel down, no
/// firewall rules of the sandbox, and the forwarding flag restored to
/// its pre-enable value. The flag restoration is the one rollback step
/// that must itself succeed; the removals converge regardless.
pub proof fn lemma_rollback_completeness(
    init: NetStateModel,
    oks: Seq<bool>,
    k: int,
    prior: Seq<char>,
)
    requires
        0 <= k <= enable_transaction_spec().len(),
    ensures
        ({
            let mid = apply_steps(init, enable_transaction_spec().take(k), oks, prior);
            let fin = apply_steps_ok(mid, rollback_spec(), prior);
            &&& !fin.namespace_exists
            &&& !fin.veth_exists
            &&& !fin.resolver_exists
            &&& !fin.tunnel_up
            &&& !fin.mark_rule
            &&& !fin.forward_in
            &&& !fin.forward_out
            &&& !fin.nat_rule
            &&& fin.ip_forward == prior
        }),
{
    let mid = apply_steps(init, enable_transaction_spec().take(k), oks, prior);
    lemma_rollback_from_anywhere(mid, prior);
}

/// The rollback plan's outcome, from any starting state.
pub proof fn lemma_rollback_from_anywhere(mid: NetStateModel, prior: Seq<char>)
    ensures
        ({
            let fin = apply_steps_ok(mid, rollback_spec(), prior);
            &&& !fin.namespace_exists
            &&& !fin.veth_exists
            &&& !fin.resolver_exists
            &&& !fin.tunnel_up
            &&& !fin.mark_rule
            &&& !fin.forward_in
            &&& !fin.forward_out
            &&& !fin.nat_rule
            &&& fin.ip_forward == prior
        }),
{
    let p = rollback_spec();
    reveal_with_fuel(apply_steps_ok, 12);
    assert(p.drop_first() =~= p.subrange(1, 10));
    assert(p.subrange(1, 10).drop_first() =~= p.subrange(2, 10));
    assert(p.subrange(2, 10).drop_first() =~= p.subrange(3, 10));
    assert(p.subrange(3, 10).drop_first() =~= p.subrange(4, 10));
    assert(p.subrange(4, 10).drop_first() =~= p.subrange(5, 10));
    assert(p.subrange(5, 10).drop_first() =~= p.subrange(6, 10));
    assert(p.subrange(6, 10).drop_first() =~= p.subrange(7, 10));
    assert(p.subrange(7, 10).drop_first() =~= p.subrange(8, 10));
    assert(p.subrange(8, 10).drop_first() =~= p.subrange(9, 10));
    assert(p.subrange(9, 10).drop_first() =~= Seq::<Step>::empty());
}

/// Disable converges likewise when its steps succeed: after the full
/// disable plan nothing of the sandbox remains and the forwarding flag
/// holds the remembered prior value.
#[verifier::rlimit(60)]
pub proof fn lemma_disable_completeness(init: NetStateModel, prior: Seq<char>)
    ensures
        ({
            let fin = apply_steps_ok(init, disable_spec(), prior);
            &&& !fin.namespace_exists
            &&& !fin.veth_exists
            &&& !fin.resolver_exists
            &&& !fin.tunnel_up
            &&& !fin.policy_rule
            &&& !fin.table_route
            &&& !fin.mark_rule
            &&& !fin.forward_in
            &&& !fin.forward_out
            &&& !fin.nat_rule
            &&& !fin.session_persisted
            &&& fin.ip_forward == prior
        }),
{
    let p = disable_spec();
    reveal_with_fuel(apply_steps_ok, 15);
    assert(p.drop_first() =~= p.subrange(1, 13));
    assert(p.subrange(1, 13).drop_first() =~= p.subrange(2, 13));
    assert(p.subrange(2, 13).drop_first() =~= p.subrange(3, 13));
    assert(p.subrange(3, 13).drop_first() =~= p.subrange(4, 13));
    assert(p.subrange(4, 13).drop_first() =~= p.subrange(5, 13));
    assert(p.subrange(5, 13).drop_first() =~= p.subrange(6, 13));
    assert(p.subrange(6, 13).drop_first() =~= p.subrange(7, 13));
    assert(p.subrange(7, 13).drop_first() =~= p.subrange(8, 13));
    assert(p.subrange(8, 13).drop_first() =~= p.subrange(9, 13));
    assert(p.subrange(9, 13).drop_first() =~= p.subrange(10, 13));
    assert(p.subrange(10, 13).drop_first() =~= p.subrange(11, 13));
    assert(p.subrange(11, 13).drop_first() =~= p.subrange(12, 13));
    assert(p.subrange(12, 13).drop_first() =~= Seq::<Step>::empty());
}

/// Disabling with no persisted session performs only best-effort cleanup
/// and cannot fail: the plan is exactly the fixed-resource cleanup, and
/// every step of it tolerates failure, so no outcome aborts the run or
/// surfaces an error.
pub proof fn lemma_disable_without_session_is_best_effort()
    ensures
        forall|i: int|
            0 <= i < disable_cleanup_spec().len() ==> step_is_lenient(
                #[trigger] disable_cleanup_spec()[i],
            ),
{
}

} // verus!
