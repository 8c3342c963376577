//! The privileged launcher's decisions: which environment variables may
//! reach a launched application, how `KEY=value` arguments are screened,
//! how the caller's unprivileged identity is recovered, and the exact
//! command that starts the application inside the sandbox namespace with
//! privileges dropped when a drop tool is available.

use vstd::prelude::*;
use crate::text::{ctrimmed, trim_str, str_eq, split_lines_spec, split_lines, bytes_eq, subvec};

verus! {

/// One environment variable to forward.
#[derive(Debug)]
pub struct EnvPair {
    pub key: String,
    pub value: String,
}

#[verifier::ext_equal]
pub struct EnvPairModel {
    pub key: Seq<char>,
    pub value: Seq<char>,
}

impl View for EnvPair {
    type V = EnvPairModel;

    open spec fn view(&self) -> EnvPairModel {
        EnvPairModel { key: self.key@, value: self.value@ }
    }
}

impl DeepView for EnvPair {
    type V = EnvPairModel;

    open spec fn deep_view(&self) -> EnvPairModel {
        self.view()
    }
}

impl Clone for EnvPair {
    fn clone(&self) -> (r: Self)
        ensures
            r@ == self@,
    {
        EnvPair { key: self.key.clone(), value: self.value.clone() }
    }
}

/// The allow-list: display and session addressing, bus addressing, and
/// basic identity variables. Nothing else of the caller's environment
/// reaches a launched application.
pub open spec fn allowed_env_key_spec(k: Seq<char>) -> bool {
    ||| k == "DISPLAY"@
    ||| k == "WAYLAND_DISPLAY"@
    ||| k == "XAUTHORITY"@
    ||| k == "XDG_RUNTIME_DIR"@
    ||| k == "DBUS_SESSION_BUS_ADDRESS"@
    ||| k == "HOME"@
    ||| k == "USER"@
    ||| k == "LOGNAME"@
    ||| k == "PATH"@
}

/// Whether a key is on the environment allow-list.
pub fn allowed_env_key(key: &str) -> (r: bool)
    ensures
        r == allowed_env_key_spec(key@),
{
    str_eq(key, "DISPLAY") || str_eq(key, "WAYLAND_DISPLAY") || str_eq(key, "XAUTHORITY") || str_eq(
        key,
        "XDG_RUNTIME_DIR",
    ) || str_eq(key, "DBUS_SESSION_BUS_ADDRESS") || str_eq(key, "HOME") || str_eq(key, "USER")
        || str_eq(key, "LOGNAME") || str_eq(key, "PATH")
}

/// Index of the first `=` in the text, or its length if there is none.
pub open spec fn first_eq_char(s: Seq<char>) -> int
    decreases s.len(),
{
    if s.len() == 0 {
        0
    } else if s[0] == '=' {
        0
    } else {
        1 + first_eq_char(s.drop_first())
    }
}

proof fn lemma_first_eq_char_is(s: Seq<char>, k: int)
    requires
        0 <= k <= s.len(),
        forall|j: int| 0 <= j < k ==> s[j] != '=',
        k < s.len() ==> s[k] == '=',
    ensures
        first_eq_char(s) == k,
    decreases s.len(),
{
    if s.len() == 0 {
    } else if s[0] == '=' {
        assert(k == 0);
    } else {
        let t = s.drop_first();
        assert(forall|j: int| 0 <= j < k - 1 ==> t[j] == s[j + 1] && t[j] != '=');
        lemma_first_eq_char_is(t, k - 1);
    }
}

/// The key of a `KEY=value` argument: what precedes the first `=`,
/// trimmed.
pub open spec fn env_key_of(s: Seq<char>) -> Seq<char> {
    ctrimmed(s.subrange(0, first_eq_char(s)))
}

/// The value of a `KEY=value` argument: what follows the first `=`, or
/// nothing when there is no `=`.
pub open spec fn env_value_of(s: Seq<char>) -> Seq<char> {
    if first_eq_char(s) < s.len() {
        s.subrange(first_eq_char(s) + 1, s.len() as int)
    } else {
        Seq::empty()
    }
}

/// Screens one `KEY=value` argument: an empty key is an error, a key off
/// the allow-list is silently dropped, and an allow-listed key passes
/// through with its value.
pub fn parse_env_pair(pair: &str) -> (r: Result<Option<EnvPair>, String>)
    ensures
        match r {
            Err(e) => env_key_of(pair@).len() == 0 && e@ == "empty env key"@,
            Ok(None) => env_key_of(pair@).len() > 0 && !allowed_env_key_spec(env_key_of(pair@)),
            Ok(Some(p)) => allowed_env_key_spec(env_key_of(pair@)) && p@.key == env_key_of(pair@)
                && p@.value == env_value_of(pair@),
        },
{
    let n = pair.unicode_len();
    let mut e: usize = 0;
    while e < n && pair.get_char(e) != '='
        invariant
            0 <= e <= n == pair@.len(),
            forall|j: int| 0 <= j < e ==> pair@[j] != '=',
        decreases n - e,
    {
        e = e + 1;
    }
    proof {
        lemma_first_eq_char_is(pair@, e as int);
    }
    let key = trim_str(pair.substring_char(0, e));
    let value = if e < n {
        pair.substring_char(e + 1, n).to_owned()
    } else {
        String::from_str("")
    };
    proof {
        reveal_strlit("");
        assert(""@ =~= Seq::<char>::empty());
    }
    if key.as_str().unicode_len() == 0 {
        return Err(String::from_str("empty env key"));
    }
    if !allowed_env_key(key.as_str()) {
        return Ok(None);
    }
    Ok(Some(EnvPair { key, value }))
}

/// The pairs that may be forwarded: those whose key is allow-listed and
/// whose value is not blank, in order.
pub open spec fn filter_env_spec(pairs: Seq<EnvPairModel>) -> Seq<EnvPairModel>
    decreases pairs.len(),
{
    if pairs.len() == 0 {
        Seq::empty()
    } else if allowed_env_key_spec(pairs.last().key) && ctrimmed(pairs.last().value).len() > 0 {
        filter_env_spec(pairs.drop_last()) + seq![pairs.last()]
    } else {
        filter_env_spec(pairs.drop_last())
    }
}

/// Keeps of the caller's environment exactly the allow-listed variables
/// with a non-blank value.
pub fn filter_env(pairs: &Vec<EnvPair>) -> (r: Vec<EnvPair>)
    ensures
        r.deep_view() == filter_env_spec(pairs.deep_view()),
{
    let ghost pdv = pairs.deep_view();
    let n = pairs.len();
    let mut r: Vec<EnvPair> = Vec::new();
    proof {
        assert(pdv.subrange(0, 0) =~= Seq::<EnvPairModel>::empty());
        assert(r.deep_view() =~= filter_env_spec(pdv.subrange(0, 0)));
    }
    let mut i: usize = 0;
    while i < n
        invariant
            0 <= i <= n == pdv.len(),
            pdv == pairs.deep_view(),
            pairs@.len() == n,
            r.deep_view() == filter_env_spec(pdv.subrange(0, i as int)),
        decreases n - i,
    {
        let ghost pre = pdv.subrange(0, i as int);
        let ghost cur = pdv.subrange(0, i + 1);
        proof {
            assert(cur.drop_last() =~= pre);
            assert(cur.last() == pdv[i as int]);
            assert(pdv[i as int] =~= pairs@[i as int]@);
        }
        let p = &pairs[i];
        if allowed_env_key(p.key.as_str()) {
            let t = trim_str(p.value.as_str());
            if t.as_str().unicode_len() > 0 {
                let ghost old_r = r.deep_view();
                r.push(p.clone());
                proof {
                    assert(r.deep_view() =~~= old_r + seq![pdv[i as int]]);
                }
            }
        }
        i = i + 1;
    }
    proof {
        assert(pdv.subrange(0, n as int) =~= pdv);
    }
    r
}

/// Environment forwarding is an allow-list and nothing more: every
/// forwarded pair carries an allow-listed key and was present in the
/// caller's environment, and every allow-listed, non-blank pair of the
/// caller's environment is forwarded.
pub proof fn lemma_env_allowlist(pairs: Seq<EnvPairModel>)
    ensures
        forall|k: int|
            0 <= k < filter_env_spec(pairs).len() ==> allowed_env_key_spec(
                (#[trigger] filter_env_spec(pairs)[k]).key,
            ) && pairs.contains(filter_env_spec(pairs)[k]),
        forall|j: int|
            0 <= j < pairs.len() && allowed_env_key_spec((#[trigger] pairs[j]).key) && ctrimmed(
                pairs[j].value,
            ).len() > 0 ==> filter_env_spec(pairs).contains(pairs[j]),
    decreases pairs.len(),
{
    if pairs.len() > 0 {
        let t = pairs.drop_last();
        lemma_env_allowlist(t);
        let whole = filter_env_spec(pairs);
        let prefix = filter_env_spec(t);
        assert forall|k: int| 0 <= k < whole.len() implies allowed_env_key_spec(
            (#[trigger] whole[k]).key,
        ) && pairs.contains(whole[k]) by {
            if k < prefix.len() {
                assert(whole[k] == prefix[k]);
                let j = choose|j: int| 0 <= j < t.len() && t[j] == prefix[k];
                assert(pairs[j] == whole[k]);
            } else {
                assert(whole[k] == pairs.last());
                assert(pairs[pairs.len() - 1] == whole[k]);
            }
        }
        assert forall|j: int|
            0 <= j < pairs.len() && allowed_env_key_spec((#[trigger] pairs[j]).key) && ctrimmed(
                pairs[j].value,
            ).len() > 0 implies whole.contains(pairs[j]) by {
            if j < pairs.len() - 1 {
                assert(t[j] == pairs[j]);
                assert(prefix.contains(pairs[j]));
                let k = choose|k: int| 0 <= k < prefix.len() && prefix[k] == pairs[j];
                assert(whole[k] == pairs[j]);
            } else {
                assert(whole[whole.len() - 1] == pairs[j]);
            }
        }
    }
}

/// The caller's unprivileged identity, recovered from the escalation
/// context.
#[derive(Debug)]
pub struct CallerIdentity {
    pub uid: String,
    pub gid: String,
}

#[verifier::ext_equal]
pub struct CallerIdentityModel {
    pub uid: Seq<char>,
    pub gid: Seq<char>,
}

impl View for CallerIdentity {
    type V = CallerIdentityModel;

    open spec fn view(&self) -> CallerIdentityModel {
        CallerIdentityModel { uid: self.uid@, gid: self.gid@ }
    }
}

/// Combines the escalation context's user id with the group looked up
/// for it: no user id means no identity, and a missing group falls back
/// to the user id itself.
pub fn caller_identity(pkexec_uid: Option<String>, gid_lookup: Option<String>) -> (r: Option<
    CallerIdentity,
>)
    ensures
        match (pkexec_uid, gid_lookup) {
            (Some(u), Some(g)) => (r matches Some(c) && c@.uid == u@ && c@.gid == g@),
            (Some(u), None) => (r matches Some(c) && c@.uid == u@ && c@.gid == u@),
            (None, _) => r is None,
        },
{
    match pkexec_uid {
        Some(u) => match gid_lookup {
            Some(g) => Some(CallerIdentity { uid: u, gid: g }),
            None => Some(CallerIdentity { uid: u.clone(), gid: u }),
        },
        None => None,
    }
}

/// Index of the first field separator in a password-file line.
pub open spec fn first_colon(s: Seq<u8>) -> int
    decreases s.len(),
{
    if s.len() == 0 {
        0
    } else if s[0] == 58 {
        0
    } else {
        1 + first_colon(s.drop_first())
    }
}

proof fn lemma_first_colon_is(s: Seq<u8>, k: int)
    requires
        0 <= k <= s.len(),
        forall|j: int| 0 <= j < k ==> s[j] != 58,
        k < s.len() ==> s[k] == 58,
    ensures
        first_colon(s) == k,
    decreases s.len(),
{
    if s.len() == 0 {
    } else if s[0] == 58 {
        assert(k == 0);
    } else {
        let t = s.drop_first();
        assert(forall|j: int| 0 <= j < k - 1 ==> t[j] == s[j + 1] && t[j] != 58);
        lemma_first_colon_is(t, k - 1);
    }
}

/// A password-file line's fields: split on `:`, empties kept.
pub open spec fn split_colon_spec(s: Seq<u8>) -> Seq<Seq<u8>>
    decreases s.len(),
{
    let i = first_colon(s);
    if 0 <= i && i < s.len() {
        seq![s.subrange(0, i)] + split_colon_spec(s.subrange(i + 1, s.len() as int))
    } else {
        seq![s]
    }
}

fn split_colon(s: &[u8]) -> (r: Vec<Vec<u8>>)
    ensures
        r.deep_view() == split_colon_spec(s@),
{
    let n = s.len();
    let mut parts: Vec<Vec<u8>> = Vec::new();
    let mut start: usize = 0;
    let mut i: usize = 0;
    proof {
        assert(s@.subrange(0, n as int) =~= s@);
        assert(parts.deep_view() + split_colon_spec(s@) =~= split_colon_spec(s@));
    }
    while i < n
        invariant
            0 <= start <= i <= n == s@.len(),
            forall|j: int| start <= j < i ==> s@[j] != 58,
            parts.deep_view() + split_colon_spec(s@.subrange(start as int, n as int))
                == split_colon_spec(s@),
        decreases n - i,
    {
        if s[i] == 58 {
            let ghost rest = s@.subrange(start as int, n as int);
            let part = subvec(s, start, i);
            proof {
                assert(forall|q: int| 0 <= q < i - start ==> rest[q] == s@[start + q]);
                lemma_first_colon_is(rest, i - start);
                assert(rest.subrange(0, i - start) =~= part@);
                assert(rest.subrange(i - start + 1, rest.len() as int) =~= s@.subrange(
                    i + 1,
                    n as int,
                ));
            }
            let ghost old_parts = parts.deep_view();
            parts.push(part);
            proof {
                assert(parts.deep_view() =~~= old_parts + seq![part@]);
                assert(parts.deep_view() + split_colon_spec(s@.subrange(i + 1, n as int))
                    =~= old_parts + (seq![part@] + split_colon_spec(s@.subrange(i + 1, n as int))));
            }
            start = i + 1;
        }
        i = i + 1;
    }
    let ghost rest = s@.subrange(start as int, n as int);
    let last = subvec(s, start, n);
    proof {
        assert(forall|q: int| 0 <= q < n - start ==> rest[q] == s@[start + q]);
        lemma_first_colon_is(rest, (n - start) as int);
        assert(rest =~= last@);
        assert(split_colon_spec(rest) == seq![last@]);
    }
    let ghost old_parts = parts.deep_view();
    parts.push(last);
    proof {
        assert(parts.deep_view() =~~= old_parts + seq![last@]);
    }
    parts
}

/// The group of the user with the given id, as the password file shows
/// it: field four of the first line whose third field is the id.
pub open spec fn gid_for_uid_spec(lines: Seq<Seq<u8>>, uid: Seq<u8>) -> Option<Seq<u8>>
    decreases lines.len(),
{
    if lines.len() == 0 {
        None
    } else {
        let f = split_colon_spec(lines[0]);
        if f.len() >= 4 && f[2] == uid {
            Some(f[3])
        } else {
            gid_for_uid_spec(lines.drop_first(), uid)
        }
    }
}

/// Looks the user's group up in the password file's text.
pub fn gid_for_uid(passwd: &[u8], uid: &[u8]) -> (r: Option<Vec<u8>>)
    ensures
        match r {
            Some(g) => gid_for_uid_spec(split_lines_spec(passwd@), uid@) == Some(g@),
            None => gid_for_uid_spec(split_lines_spec(passwd@), uid@) is None,
        },
{
    let lines = split_lines(passwd);
    let ghost ldv = lines.deep_view();
    let n = lines.len();
    proof {
        assert(ldv.skip(0) =~= ldv);
    }
    let mut i: usize = 0;
    while i < n
        invariant
            0 <= i <= n == ldv.len(),
            ldv == lines.deep_view(),
            ldv == split_lines_spec(passwd@),
            lines@.len() == n,
            gid_for_uid_spec(ldv, uid@) == gid_for_uid_spec(ldv.skip(i as int), uid@),
        decreases n - i,
    {
        let ghost rest = ldv.skip(i as int);
        proof {
            assert(rest.drop_first() =~= ldv.skip(i + 1));
            assert(rest[0] == ldv[i as int]);
            assert(ldv[i as int] =~= lines@[i as int]@);
        }
        let fields = split_colon(lines[i].as_slice());
        if fields.len() >= 4 {
            proof {
                assert(fields.deep_view()[2] =~= fields@[2]@);
                assert(fields.deep_view()[3] =~= fields@[3]@);
            }
            if bytes_eq(fields[2].as_slice(), uid) {
                let g = &fields[3];
                let out = subvec(g.as_slice(), 0, g.len());
                proof {
                    assert(out@ =~= fields.deep_view()[3]);
                    let f = split_colon_spec(ldv.skip(i as int)[0]);
                    assert(f == fields.deep_view());
                    assert(f.len() >= 4 && f[2] == uid@);
                    assert(gid_for_uid_spec(ldv.skip(i as int), uid@) == Some(f[3]));
                }
                return Some(out);
            }
        }
        i = i + 1;
    }
    proof {
        assert(ldv.skip(n as int).len() == 0);
    }
    None
}

/// Where the privilege-dropping tool lives, when it is present at one of
/// its two usual places. Its absence degrades to launching without a
/// privilege drop.
pub fn find_setpriv(usr_present: bool, bin_present: bool) -> (r: Option<String>)
    ensures
        usr_present ==> (r matches Some(p) && p@ == "/usr/bin/setpriv"@),
        !usr_present && bin_present ==> (r matches Some(p) && p@ == "/bin/setpriv"@),
        !usr_present && !bin_present ==> r is None,
{
    if usr_present {
        Some(String::from_str("/usr/bin/setpriv"))
    } else if bin_present {
        Some(String::from_str("/bin/setpriv"))
    } else {
        None
    }
}

/// The session-detaching launcher to start with, when one is present at
/// one of its two usual places; otherwise the namespace tool itself, and
/// the flag says which happened.
pub fn find_setsid(usr_present: bool, bin_present: bool) -> (r: (String, bool))
    ensures
        usr_present ==> r.0@ == "/usr/bin/setsid"@ && r.1,
        !usr_present && bin_present ==> r.0@ == "/bin/setsid"@ && r.1,
        !usr_present && !bin_present ==> r.0@ == "/usr/bin/ip"@ && !r.1,
{
    if usr_present {
        (String::from_str("/usr/bin/setsid"), true)
    } else if bin_present {
        (String::from_str("/bin/setsid"), true)
    } else {
        (String::from_str("/usr/bin/ip"), false)
    }
}

/// The command that starts an application inside the sandbox namespace.
#[derive(Debug)]
pub struct LaunchCommand {
    pub program: String,
    pub args: Vec<String>,
    pub env: Vec<EnvPair>,
}

#[verifier::ext_equal]
pub struct LaunchCommandModel {
    pub program: Seq<char>,
    pub args: Seq<Seq<char>>,
    pub env: Seq<EnvPairModel>,
}

impl View for LaunchCommand {
    type V = LaunchCommandModel;

    open spec fn view(&self) -> LaunchCommandModel {
        LaunchCommandModel {
            program: self.program@,
            args: self.args.deep_view(),
            env: self.env.deep_view(),
        }
    }
}

/// The launch command's exact shape: through the session-detaching tool
/// when one is present, into the namespace, through the privilege drop
/// when both a caller identity and a drop tool are at hand, then the
/// binary — with exactly the given environment.
pub open spec fn launch_command_spec(
    bin: Seq<char>,
    setsid: Option<Seq<char>>,
    setpriv: Option<Seq<char>>,
    caller: Option<CallerIdentityModel>,
    env: Seq<EnvPairModel>,
) -> LaunchCommandModel {
    let program = match setsid {
        Some(p) => p,
        None => "/usr/bin/ip"@,
    };
    let head = match setsid {
        Some(_) => seq!["/usr/bin/ip"@],
        None => Seq::<Seq<char>>::empty(),
    };
    let drop_part = match (caller, setpriv) {
        (Some(c), Some(sp)) => seq![
            sp,
            "--reuid"@,
            c.uid,
            "--regid"@,
            c.gid,
            "--init-groups"@,
            "--inh-caps"@,
            "-all"@,
        ],
        _ => Seq::<Seq<char>>::empty(),
    };
    LaunchCommandModel {
        program,
        args: head + seq!["netns"@, "exec"@, "sillyvpn-ns"@] + drop_part + seq![bin],
        env,
    }
}

/// Builds the launch command.
pub fn launch_command(
    bin: &str,
    setsid: Option<String>,
    setpriv: Option<String>,
    caller: Option<CallerIdentity>,
    env: Vec<EnvPair>,
) -> (r: LaunchCommand)
    ensures
        r@ == launch_command_spec(
            bin@,
            match setsid {
                Some(p) => Some(p@),
                None => None,
            },
            match setpriv {
                Some(p) => Some(p@),
                None => None,
            },
            match caller {
                Some(c) => Some(c@),
                None => None,
            },
            env.deep_view(),
        ),
{
    let ghost env_model = env.deep_view();
    let mut args: Vec<String> = Vec::new();
    let program = match &setsid {
        Some(p) => {
            args.push(String::from_str("/usr/bin/ip"));
            p.clone()
        },
        None => String::from_str("/usr/bin/ip"),
    };
    args.push(String::from_str("netns"));
    args.push(String::from_str("exec"));
    args.push(String::from_str("sillyvpn-ns"));
    match (&caller, &setpriv) {
        (Some(c), Some(sp)) => {
            args.push(sp.clone());
            args.push(String::from_str("--reuid"));
            args.push(c.uid.clone());
            args.push(String::from_str("--regid"));
            args.push(c.gid.clone());
            args.push(String::from_str("--init-groups"));
            args.push(String::from_str("--inh-caps"));
            args.push(String::from_str("-all"));
        },
        _ => {},
    }
    args.push(bin.to_owned());
    let r = LaunchCommand { program, args, env };
    proof {
        assert(r@.args =~= launch_command_spec(
            bin@,
            match setsid {
                Some(p) => Some(p@),
                None => None,
            },
            match setpriv {
                Some(p) => Some(p@),
                None => None,
            },
            match caller {
                Some(c) => Some(c@),
                None => None,
            },
            env_model,
        ).args);
        assert(r@ =~= launch_command_spec(
            bin@,
            match setsid {
                Some(p) => Some(p@),
                None => None,
            },
            match setpriv {
                Some(p) => Some(p@),
                None => None,
            },
            match caller {
                Some(c) => Some(c@),
                None => None,
            },
            env_model,
        ));
    }
    r
}

} // verus!
