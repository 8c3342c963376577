//! Namespace-scoped process locator. The process table is handed in as
//! plain records — one per live process, read from the host by the
//! caller — and everything decided about them is decided here: which
//! processes count as "the application", which of those live inside the
//! sandbox namespace, whom to signal, and whom to signal again after the
//! grace period.

use vstd::prelude::*;
use crate::text::{lower_seq, trimmed, bytes_eq, eq_ignore_case, subvec, trim};

verus! {

/// One live process, as read from the process table: its id, its network
/// namespace identity (absent when unreadable), its executable symlink's
/// target (absent when unreadable), its argument list, and its short
/// command name (raw, possibly with a trailing line break).
#[derive(Debug)]
pub struct ProcessInfo {
    pub pid: i32,
    pub net_namespace_inode: Option<u64>,
    pub exe_target: Option<Vec<u8>>,
    pub args: Vec<Vec<u8>>,
    pub command_name: Option<Vec<u8>>,
}

#[verifier::ext_equal]
pub struct ProcessModel {
    pub pid: i32,
    pub net_namespace_inode: Option<u64>,
    pub exe_target: Option<Seq<u8>>,
    pub args: Seq<Seq<u8>>,
    pub command_name: Option<Seq<u8>>,
}

impl View for ProcessInfo {
    type V = ProcessModel;

    open spec fn view(&self) -> ProcessModel {
        ProcessModel {
            pid: self.pid,
            net_namespace_inode: self.net_namespace_inode,
            exe_target: match self.exe_target {
                Some(v) => Some(v@),
                None => None,
            },
            args: self.args.deep_view(),
            command_name: match self.command_name {
                Some(v) => Some(v@),
                None => None,
            },
        }
    }
}

impl DeepView for ProcessInfo {
    type V = ProcessModel;

    open spec fn deep_view(&self) -> ProcessModel {
        self.view()
    }
}

/// Index of the last path separator, or `-1` if there is none.
pub open spec fn last_slash(s: Seq<u8>) -> int
    decreases s.len(),
{
    if s.len() == 0 {
        -1
    } else if s.last() == 47 {
        s.len() - 1
    } else {
        last_slash(s.drop_last())
    }
}

/// What follows the last path separator.
pub open spec fn base_name_spec(s: Seq<u8>) -> Seq<u8> {
    s.subrange(last_slash(s) + 1, s.len() as int)
}

proof fn lemma_last_slash_is(s: Seq<u8>, cut: int)
    requires
        0 <= cut <= s.len(),
        forall|j: int| cut <= j < s.len() ==> s[j] != 47,
        cut > 0 ==> s[cut - 1] == 47,
    ensures
        last_slash(s) == cut - 1,
    decreases s.len(),
{
    if s.len() == 0 {
    } else if s.last() == 47 {
        assert(cut == s.len());
    } else {
        let t = s.drop_last();
        assert(forall|j: int| cut <= j < t.len() ==> t[j] == s[j] && t[j] != 47);
        lemma_last_slash_is(t, cut);
    }
}

/// The file name part of a path: everything after the last `/`.
pub fn base_name(p: &[u8]) -> (r: Vec<u8>)
    ensures
        r@ == base_name_spec(p@),
{
    let n = p.len();
    let mut cut: usize = n;
    while cut > 0 && p[cut - 1] != 47
        invariant
            0 <= cut <= n == p@.len(),
            forall|j: int| cut <= j < n ==> p@[j] != 47,
        decreases cut,
    {
        cut = cut - 1;
    }
    proof {
        lemma_last_slash_is(p@, cut as int);
    }
    subvec(p, cut, n)
}

/// Whether one argument hits the target: it equals the canonical path
/// verbatim, or (when the target's base name is nonempty) its own base
/// name equals the target's, exactly or ignoring ASCII case.
pub open spec fn arg_matches(arg: Seq<u8>, target: Seq<u8>, target_base: Seq<u8>) -> bool {
    arg == target || (target_base.len() > 0 && (base_name_spec(arg) == target_base || lower_seq(
        base_name_spec(arg),
    ) == lower_seq(target_base)))
}

/// Whether the short command name hits the target's base name, exactly
/// or ignoring ASCII case, after trimming.
pub open spec fn comm_matches(comm: Option<Seq<u8>>, target_base: Seq<u8>) -> bool {
    target_base.len() > 0 && match comm {
        Some(c) => trimmed(c) == target_base || lower_seq(trimmed(c)) == lower_seq(target_base),
        None => false,
    }
}

/// The three-way match policy: a process corresponds to the target path
/// when its executable symlink equals the canonical path, or some
/// argument hits it, or its short command name does. Any one signal
/// suffices.
pub open spec fn process_matches(p: ProcessModel, target: Seq<u8>, target_base: Seq<u8>) -> bool {
    ||| p.exe_target == Some(target)
    ||| exists|i: int| 0 <= i < p.args.len() && arg_matches(#[trigger] p.args[i], target, target_base)
    ||| comm_matches(p.command_name, target_base)
}

/// Whether the process lives in the namespace with the given identity.
pub open spec fn in_namespace(p: ProcessModel, ns_inode: u64) -> bool {
    p.net_namespace_inode == Some(ns_inode)
}

/// A process is acted on only when it both matches the path and lives in
/// the namespace.
pub open spec fn is_match_in_ns(
    p: ProcessModel,
    ns_inode: u64,
    target: Seq<u8>,
    target_base: Seq<u8>,
) -> bool {
    in_namespace(p, ns_inode) && process_matches(p, target, target_base)
}

fn opt_bytes_eq(a: &Option<Vec<u8>>, b: &[u8]) -> (r: bool)
    ensures
        r == (match a {
            Some(v) => v@ == b@,
            None => false,
        }),
{
    match a {
        Some(v) => bytes_eq(v.as_slice(), b),
        None => false,
    }
}

/// Evaluates the three-way match policy against one process record.
pub fn process_matches_path(p: &ProcessInfo, target: &[u8], target_base: &[u8]) -> (r: bool)
    ensures
        r == process_matches(p@, target@, target_base@),
{
    if opt_bytes_eq(&p.exe_target, target) {
        return true;
    }
    let n = p.args.len();
    let mut i: usize = 0;
    while i < n
        invariant
            0 <= i <= n == p.args@.len(),
            p@.args.len() == n,
            forall|j: int| 0 <= j < i ==> !arg_matches(#[trigger] p@.args[j], target@, target_base@),
        decreases n - i,
    {
        let arg = &p.args[i];
        proof {
            assert(p@.args[i as int] =~= arg@);
        }
        if bytes_eq(arg.as_slice(), target) {
            return true;
        }
        if target_base.len() > 0 {
            let ab = base_name(arg.as_slice());
            if bytes_eq(ab.as_slice(), target_base) || eq_ignore_case(ab.as_slice(), target_base) {
                return true;
            }
        }
        proof {
            assert(!arg_matches(p@.args[i as int], target@, target_base@));
        }
        i = i + 1;
    }
    if target_base.len() > 0 {
        match &p.command_name {
            Some(c) => {
                let t = trim(c.as_slice());
                if bytes_eq(t.as_slice(), target_base) || eq_ignore_case(
                    t.as_slice(),
                    target_base,
                ) {
                    return true;
                }
            },
            None => {},
        }
    }
    false
}

/// The ids of the processes to act on, in process-table order: those
/// that match the path and live in the namespace.
pub open spec fn matching_pids_spec(
    ps: Seq<ProcessModel>,
    ns_inode: u64,
    target: Seq<u8>,
    target_base: Seq<u8>,
) -> Seq<i32>
    decreases ps.len(),
{
    if ps.len() == 0 {
        Seq::empty()
    } else if is_match_in_ns(ps.last(), ns_inode, target, target_base) {
        matching_pids_spec(ps.drop_last(), ns_inode, target, target_base) + seq![ps.last().pid]
    } else {
        matching_pids_spec(ps.drop_last(), ns_inode, target, target_base)
    }
}

/// Collects the processes to terminate: exactly those records that both
/// match the target path and live in the namespace, in order.
pub fn kill_targets(
    procs: &Vec<ProcessInfo>,
    ns_inode: u64,
    target: &[u8],
    target_base: &[u8],
) -> (r: Vec<i32>)
    ensures
        r@ == matching_pids_spec(procs.deep_view(), ns_inode, target@, target_base@),
{
    let ghost pdv = procs.deep_view();
    let n = procs.len();
    let mut r: Vec<i32> = Vec::new();
    proof {
        assert(pdv.len() == n);
        assert(pdv.subrange(0, 0) =~= Seq::<ProcessModel>::empty());
        assert(r@ =~= matching_pids_spec(pdv.subrange(0, 0), ns_inode, target@, target_base@));
    }
    let mut i: usize = 0;
    while i < n
        invariant
            0 <= i <= n == pdv.len(),
            pdv == procs.deep_view(),
            procs@.len() == n,
            r@ == matching_pids_spec(pdv.subrange(0, i as int), ns_inode, target@, target_base@),
        decreases n - i,
    {
        let ghost pre = pdv.subrange(0, i as int);
        let ghost cur = pdv.subrange(0, i + 1);
        proof {
            assert(cur.drop_last() =~= pre);
            assert(cur.last() == pdv[i as int]);
            assert(pdv[i as int] =~= procs@[i as int]@);
        }
        let p = &procs[i];
        let in_ns = match p.net_namespace_inode {
            Some(inode) => inode == ns_inode,
            None => false,
        };
        if in_ns {
            if process_matches_path(p, target, target_base) {
                r.push(p.pid);
                proof {
                    assert(r@ =~= matching_pids_spec(cur, ns_inode, target@, target_base@));
                }
            }
        }
        i = i + 1;
    }
    proof {
        assert(pdv.subrange(0, n as int) =~= pdv);
    }
    r
}

/// Whether some record matches the path inside the namespace.
pub open spec fn any_match_in_ns(
    ps: Seq<ProcessModel>,
    ns_inode: u64,
    target: Seq<u8>,
    target_base: Seq<u8>,
) -> bool {
    exists|i: int|
        0 <= i < ps.len() && is_match_in_ns(#[trigger] ps[i], ns_inode, target, target_base)
}

/// Whether the application is running inside the namespace. When the
/// namespace does not exist (`None`), nothing is running in it.
pub fn is_app_running_in_namespace(
    procs: &Vec<ProcessInfo>,
    ns_inode: Option<u64>,
    target: &[u8],
    target_base: &[u8],
) -> (r: bool)
    ensures
        r == (match ns_inode {
            Some(n) => any_match_in_ns(procs.deep_view(), n, target@, target_base@),
            None => false,
        }),
{
    let ns = match ns_inode {
        Some(n) => n,
        None => {
            return false;
        },
    };
    let ghost pdv = procs.deep_view();
    let n = procs.len();
    let mut i: usize = 0;
    while i < n
        invariant
            0 <= i <= n == pdv.len(),
            pdv == procs.deep_view(),
            procs@.len() == n,
            ns_inode == Some(ns),
            forall|j: int| 0 <= j < i ==> !is_match_in_ns(#[trigger] pdv[j], ns, target@, target_base@),
        decreases n - i,
    {
        proof {
            assert(pdv[i as int] =~= procs@[i as int]@);
        }
        let p = &procs[i];
        let in_ns = match p.net_namespace_inode {
            Some(inode) => inode == ns,
            None => false,
        };
        if in_ns && process_matches_path(p, target, target_base) {
            return true;
        }
        i = i + 1;
    }
    false
}

/// Whether the application is running anywhere on the host, namespace
/// disregarded.
pub fn is_app_running(procs: &Vec<ProcessInfo>, target: &[u8], target_base: &[u8]) -> (r: bool)
    ensures
        r == exists|i: int|
            0 <= i < procs.deep_view().len() && process_matches(
                #[trigger] procs.deep_view()[i],
                target@,
                target_base@,
            ),
{
    let ghost pdv = procs.deep_view();
    let n = procs.len();
    let mut i: usize = 0;
    while i < n
        invariant
            0 <= i <= n == pdv.len(),
            pdv == procs.deep_view(),
            procs@.len() == n,
            forall|j: int| 0 <= j < i ==> !process_matches(#[trigger] pdv[j], target@, target_base@),
        decreases n - i,
    {
        proof {
            assert(pdv[i as int] =~= procs@[i as int]@);
        }
        let p = &procs[i];
        if process_matches_path(p, target, target_base) {
            return true;
        }
        i = i + 1;
    }
    false
}

/// Refuses a launch while the application already runs anywhere on the
/// host: the user must close it fully before routing it through the
/// sandbox.
pub fn ensure_app_not_running(procs: &Vec<ProcessInfo>, target: &[u8], target_base: &[u8]) -> (r:
    Result<(), String>)
    ensures
        r is Ok <==> !exists|i: int|
            0 <= i < procs.deep_view().len() && process_matches(
                #[trigger] procs.deep_view()[i],
                target@,
                target_base@,
            ),
        r matches Err(e) ==> e@
            == "Приложение уже запущено. Закройте его полностью и повторите запуск через VPN."@,
{
    if is_app_running(procs, target, target_base) {
        Err(
            String::from_str(
                "Приложение уже запущено. Закройте его полностью и повторите запуск через VPN.",
            ),
        )
    } else {
        Ok(())
    }
}

/// The targets still alive after the grace period: exactly those whose
/// process-table entry remains, in order. These, and only these, get the
/// forceful signal.
pub open spec fn force_list_spec(pids: Seq<i32>, alive: Seq<bool>) -> Seq<i32>
    decreases pids.len(),
{
    if pids.len() == 0 || alive.len() != pids.len() {
        Seq::empty()
    } else if alive.last() {
        force_list_spec(pids.drop_last(), alive.drop_last()) + seq![pids.last()]
    } else {
        force_list_spec(pids.drop_last(), alive.drop_last())
    }
}

/// Picks the processes to escalate on: those of the graceful round's
/// targets whose process-table entry is still present.
pub fn force_kill_list(pids: &Vec<i32>, alive: &Vec<bool>) -> (r: Vec<i32>)
    requires
        pids@.len() == alive@.len(),
    ensures
        r@ == force_list_spec(pids@, alive@),
{
    let n = pids.len();
    let mut r: Vec<i32> = Vec::new();
    proof {
        assert(pids@.subrange(0, 0) =~= Seq::<i32>::empty());
        assert(alive@.subrange(0, 0) =~= Seq::<bool>::empty());
        assert(r@ =~= force_list_spec(pids@.subrange(0, 0), alive@.subrange(0, 0)));
    }
    let mut i: usize = 0;
    while i < n
        invariant
            0 <= i <= n == pids@.len() == alive@.len(),
            r@ == force_list_spec(pids@.subrange(0, i as int), alive@.subrange(0, i as int)),
        decreases n - i,
    {
        let ghost pp = pids@.subrange(0, i as int);
        let ghost pa = alive@.subrange(0, i as int);
        let ghost cp = pids@.subrange(0, i + 1);
        let ghost ca = alive@.subrange(0, i + 1);
        proof {
            assert(cp.drop_last() =~= pp);
            assert(ca.drop_last() =~= pa);
        }
        if alive[i] {
            r.push(pids[i]);
            proof {
                assert(r@ =~= force_list_spec(cp, ca));
            }
        }
        i = i + 1;
    }
    proof {
        assert(pids@.subrange(0, n as int) =~= pids@);
        assert(alive@.subrange(0, n as int) =~= alive@);
    }
    r
}

/// Namespace scoping: a process whose network-namespace identity differs
/// from the resolved namespace is never a kill target and is never
/// reported as running, however well its path matches.
pub proof fn lemma_namespace_scoping(
    p: ProcessModel,
    ns_inode: u64,
    target: Seq<u8>,
    target_base: Seq<u8>,
)
    requires
        p.net_namespace_inode != Some(ns_inode),
    ensures
        !is_match_in_ns(p, ns_inode, target, target_base),
{
}

/// Whether some record matching inside the namespace has this id.
pub open spec fn pid_witnessed(
    ps: Seq<ProcessModel>,
    ns_inode: u64,
    target: Seq<u8>,
    target_base: Seq<u8>,
    v: i32,
) -> bool {
    exists|j: int|
        0 <= j < ps.len() && is_match_in_ns(#[trigger] ps[j], ns_inode, target, target_base)
            && ps[j].pid == v
}

/// What the kill-target list holds: every entry is the id of some record
/// that matches inside the namespace, and every record that matches
/// inside the namespace has its id in the list.
pub proof fn lemma_matching_pids_characterization(
    ps: Seq<ProcessModel>,
    ns_inode: u64,
    target: Seq<u8>,
    target_base: Seq<u8>,
)
    ensures
        forall|k: int|
            0 <= k < matching_pids_spec(ps, ns_inode, target, target_base).len()
                ==> pid_witnessed(
                ps,
                ns_inode,
                target,
                target_base,
                #[trigger] matching_pids_spec(ps, ns_inode, target, target_base)[k],
            ),
        forall|j: int|
            0 <= j < ps.len() && is_match_in_ns(#[trigger] ps[j], ns_inode, target, target_base)
                ==> matching_pids_spec(ps, ns_inode, target, target_base).contains(ps[j].pid),
    decreases ps.len(),
{
    if ps.len() > 0 {
        let t = ps.drop_last();
        lemma_matching_pids_characterization(t, ns_inode, target, target_base);
        let whole = matching_pids_spec(ps, ns_inode, target, target_base);
        let prefix = matching_pids_spec(t, ns_inode, target, target_base);
        assert forall|k: int| 0 <= k < whole.len() implies pid_witnessed(
            ps,
            ns_inode,
            target,
            target_base,
            #[trigger] whole[k],
        ) by {
            if k < prefix.len() {
                assert(pid_witnessed(t, ns_inode, target, target_base, prefix[k]));
                let j = choose|j: int|
                    0 <= j < t.len() && is_match_in_ns(
                        #[trigger] t[j],
                        ns_inode,
                        target,
                        target_base,
                    ) && t[j].pid == prefix[k];
                assert(ps[j] == t[j]);
                assert(is_match_in_ns(ps[j], ns_inode, target, target_base));
                assert(whole[k] == ps[j].pid);
            } else {
                let j = ps.len() - 1;
                assert(is_match_in_ns(ps[j], ns_inode, target, target_base));
                assert(whole[k] == ps[j].pid);
            }
        }
        assert forall|j: int|
            0 <= j < ps.len() && is_match_in_ns(
                #[trigger] ps[j],
                ns_inode,
                target,
                target_base,
            ) implies whole.contains(ps[j].pid) by {
            if j < ps.len() - 1 {
                assert(t[j] == ps[j]);
                assert(prefix.contains(ps[j].pid));
                let k = choose|k: int| 0 <= k < prefix.len() && prefix[k] == ps[j].pid;
                assert(whole[k] == ps[j].pid);
            } else {
                assert(whole[whole.len() - 1] == ps[j].pid);
            }
        }
    }
}

/// The graceful round suffices when everyone exits: if no target's entry
/// survives the grace period, the forceful signal is sent to nobody —
/// while the reported count stays the full target list's length, since
/// it counts the processes originally matched, not the survivors.
pub proof fn lemma_graceful_exit_spares_force(pids: Seq<i32>, alive: Seq<bool>)
    requires
        alive.len() == pids.len(),
        forall|i: int| 0 <= i < alive.len() ==> !alive[i],
    ensures
        force_list_spec(pids, alive) == Seq::<i32>::empty(),
    decreases pids.len(),
{
    if pids.len() > 0 {
        let tp = pids.drop_last();
        let ta = alive.drop_last();
        assert(forall|i: int| 0 <= i < ta.len() ==> !ta[i]);
        lemma_graceful_exit_spares_force(tp, ta);
        assert(!alive.last());
    }
}

} // verus!
