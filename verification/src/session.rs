//! The persisted sandbox session: the single record that lets `disable`
//! reverse exactly what `enable` did, across process restarts. The record
//! is stored as a small fixed-shape JSON object; the codec here is exact,
//! and decoding what was encoded gives the record back.

use vstd::prelude::*;

verus! {

/// The active session's facts: the tunnel interface name (the sanitized
/// configuration's file stem), the original and sanitized configuration
/// paths, and the forwarding flag's value before enable.
#[derive(Debug)]
pub struct SessionRecord {
    pub wg_ifname: String,
    pub config_path: String,
    pub temp_config: String,
    pub ip_forward_prev: String,
}

#[verifier::ext_equal]
pub struct SessionModel {
    pub wg_ifname: Seq<char>,
    pub config_path: Seq<char>,
    pub temp_config: Seq<char>,
    pub ip_forward_prev: Seq<char>,
}

impl View for SessionRecord {
    type V = SessionModel;

    open spec fn view(&self) -> SessionModel {
        SessionModel {
            wg_ifname: self.wg_ifname@,
            config_path: self.config_path@,
            temp_config: self.temp_config@,
            ip_forward_prev: self.ip_forward_prev@,
        }
    }
}

pub open spec fn json_head() -> Seq<char> {
    "{\"wg_ifname\":\""@
}

pub open spec fn json_sep_config() -> Seq<char> {
    "\",\"config_path\":\""@
}

pub open spec fn json_sep_temp() -> Seq<char> {
    "\",\"temp_config\":\""@
}

pub open spec fn json_sep_prev() -> Seq<char> {
    "\",\"ip_forward_prev\":\""@
}

pub open spec fn json_tail() -> Seq<char> {
    "\"}"@
}

/// The session record's stored form.
pub open spec fn json_of(s: SessionModel) -> Seq<char> {
    json_head() + s.wg_ifname + json_sep_config() + s.config_path + json_sep_temp()
        + s.temp_config + json_sep_prev() + s.ip_forward_prev + json_tail()
}

/// Whether a field can be stored faithfully: it carries no quote.
pub open spec fn no_quote(s: Seq<char>) -> bool {
    forall|j: int| 0 <= j < s.len() ==> s[j] != '"'
}

/// Serializes the session record.
pub fn encode_session(s: &SessionRecord) -> (r: String)
    ensures
        r@ == json_of(s@),
{
    let mut r = String::from_str("{\"wg_ifname\":\"");
    r.append(s.wg_ifname.as_str());
    r.append("\",\"config_path\":\"");
    r.append(s.config_path.as_str());
    r.append("\",\"temp_config\":\"");
    r.append(s.temp_config.as_str());
    r.append("\",\"ip_forward_prev\":\"");
    r.append(s.ip_forward_prev.as_str());
    r.append("\"}");
    r
}

/// Index of the first quote in `s`, or `s.len()` if there is none.
pub open spec fn first_quote(s: Seq<char>) -> int
    decreases s.len(),
{
    if s.len() == 0 {
        0
    } else if s[0] == '"' {
        0
    } else {
        1 + first_quote(s.drop_first())
    }
}

proof fn lemma_first_quote_is(s: Seq<char>, k: int)
    requires
        0 <= k <= s.len(),
        forall|j: int| 0 <= j < k ==> s[j] != '"',
        k < s.len() ==> s[k] == '"',
    ensures
        first_quote(s) == k,
    decreases s.len(),
{
    if s.len() == 0 {
    } else if s[0] == '"' {
        assert(k == 0);
    } else {
        let t = s.drop_first();
        assert(forall|j: int| 0 <= j < k - 1 ==> t[j] == s[j + 1] && t[j] != '"');
        lemma_first_quote_is(t, k - 1);
    }
}

/// Whether `lit` occurs in `c` at position `i`.
pub open spec fn starts_at(c: Seq<char>, i: int, lit: Seq<char>) -> bool {
    0 <= i && i + lit.len() <= c.len() && c.subrange(i, i + lit.len()) == lit
}

/// What the stored form parses to: `Some` exactly for texts of the
/// record's shape, with the four quote-free field values extracted.
pub open spec fn decode_session_spec(c: Seq<char>) -> Option<SessionModel> {
    if !starts_at(c, 0, json_head()) {
        None
    } else {
        let i1 = json_head().len() as int;
        let f1 = i1 + first_quote(c.skip(i1));
        if !(f1 < c.len() && starts_at(c, f1, json_sep_config())) {
            None
        } else {
            let i2 = f1 + json_sep_config().len();
            let f2 = i2 + first_quote(c.skip(i2));
            if !(f2 < c.len() && starts_at(c, f2, json_sep_temp())) {
                None
            } else {
                let i3 = f2 + json_sep_temp().len();
                let f3 = i3 + first_quote(c.skip(i3));
                if !(f3 < c.len() && starts_at(c, f3, json_sep_prev())) {
                    None
                } else {
                    let i4 = f3 + json_sep_prev().len();
                    let f4 = i4 + first_quote(c.skip(i4));
                    if !(f4 < c.len() && starts_at(c, f4, json_tail()) && f4
                        + json_tail().len() == c.len()) {
                        None
                    } else {
                        Some(
                            SessionModel {
                                wg_ifname: c.subrange(i1, f1),
                                config_path: c.subrange(i2, f2),
                                temp_config: c.subrange(i3, f3),
                                ip_forward_prev: c.subrange(i4, f4),
                            },
                        )
                    }
                }
            }
        }
    }
}

/// Whether `lit` occurs in `c` at character position `i`.
fn has_lit_at(c: &str, i: usize, lit: &str) -> (r: bool)
    ensures
        r == starts_at(c@, i as int, lit@),
{
    let n = c.unicode_len();
    let m = lit.unicode_len();
    if i > n || m > n - i {
        return false;
    }
    let mut j: usize = 0;
    while j < m
        invariant
            0 <= j <= m == lit@.len(),
            i + m <= n == c@.len(),
            forall|q: int| 0 <= q < j ==> c@[i + q] == lit@[q],
        decreases m - j,
    {
        if c.get_char(i + j) != lit.get_char(j) {
            proof {
                assert(c@.subrange(i as int, i + lit@.len())[j as int] != lit@[j as int]);
            }
            return false;
        }
        j = j + 1;
    }
    proof {
        assert(c@.subrange(i as int, i + lit@.len()) =~= lit@);
    }
    true
}

/// The position of the first quote at or after `i`.
fn find_quote_from(c: &str, i: usize) -> (r: usize)
    requires
        i <= c@.len(),
    ensures
        r as int == i + first_quote(c@.skip(i as int)),
        i <= r <= c@.len(),
{
    let n = c.unicode_len();
    let mut j: usize = i;
    while j < n && c.get_char(j) != '"'
        invariant
            i <= j <= n == c@.len(),
            forall|q: int| i <= q < j ==> c@[q] != '"',
        decreases n - j,
    {
        j = j + 1;
    }
    proof {
        let t = c@.skip(i as int);
        assert(forall|q: int| 0 <= q < j - i ==> t[q] == c@[i + q] && t[q] != '"');
        if j < n {
            assert(t[j - i] == c@[j as int]);
        }
        lemma_first_quote_is(t, j - i);
    }
    j
}

/// Parses a stored session record. Returns `Some` exactly when the text
/// has the shape the encoder writes.
pub fn decode_session(c: &str) -> (r: Option<SessionRecord>)
    ensures
        match r {
            Some(s) => decode_session_spec(c@) == Some(s@),
            None => decode_session_spec(c@) is None,
        },
{
    let n = c.unicode_len();
    proof {
        reveal_strlit("{\"wg_ifname\":\"");
        reveal_strlit("\",\"config_path\":\"");
        reveal_strlit("\",\"temp_config\":\"");
        reveal_strlit("\",\"ip_forward_prev\":\"");
        reveal_strlit("\"}");
    }
    if !has_lit_at(c, 0, "{\"wg_ifname\":\"") {
        return None;
    }
    let i1: usize = 14;
    let f1 = find_quote_from(c, i1);
    if !(f1 < n && has_lit_at(c, f1, "\",\"config_path\":\"")) {
        return None;
    }
    let i2 = f1 + 17;
    let f2 = find_quote_from(c, i2);
    if !(f2 < n && has_lit_at(c, f2, "\",\"temp_config\":\"")) {
        return None;
    }
    let i3 = f2 + 17;
    let f3 = find_quote_from(c, i3);
    if !(f3 < n && has_lit_at(c, f3, "\",\"ip_forward_prev\":\"")) {
        return None;
    }
    let i4 = f3 + 21;
    let f4 = find_quote_from(c, i4);
    if !(f4 < n && has_lit_at(c, f4, "\"}") && f4 + 2 == n) {
        return None;
    }
    let wg_ifname = c.substring_char(i1, f1).to_owned();
    let config_path = c.substring_char(i2, f2).to_owned();
    let temp_config = c.substring_char(i3, f3).to_owned();
    let ip_forward_prev = c.substring_char(i4, f4).to_owned();
    Some(SessionRecord { wg_ifname, config_path, temp_config, ip_forward_prev })
}

/// Round trip: a session record whose fields are quote-free decodes from
/// its own stored form, unchanged.
pub proof fn lemma_session_round_trip(s: SessionModel)
    requires
        no_quote(s.wg_ifname),
        no_quote(s.config_path),
        no_quote(s.temp_config),
        no_quote(s.ip_forward_prev),
    ensures
        decode_session_spec(json_of(s)) == Some(s),
{
    reveal_strlit("{\"wg_ifname\":\"");
    reveal_strlit("\",\"config_path\":\"");
    reveal_strlit("\",\"temp_config\":\"");
    reveal_strlit("\",\"ip_forward_prev\":\"");
    reveal_strlit("\"}");
    let c = json_of(s);
    let i1: int = 14;
    let f1 = i1 + s.wg_ifname.len() as int;
    let i2 = f1 + 17;
    let f2 = i2 + s.config_path.len() as int;
    let i3 = f2 + 17;
    let f3 = i3 + s.temp_config.len() as int;
    let i4 = f3 + 21;
    let f4 = i4 + s.ip_forward_prev.len() as int;
    assert(c.len() == f4 + 2);
    assert(c.subrange(0, 14) =~= json_head());
    assert(starts_at(c, 0, json_head()));
    let t1 = c.skip(i1);
    assert(forall|q: int| 0 <= q < s.wg_ifname.len() ==> t1[q] == s.wg_ifname[q]);
    assert(t1[s.wg_ifname.len() as int] == json_sep_config()[0]);
    lemma_first_quote_is(t1, s.wg_ifname.len() as int);
    assert(c.subrange(f1, f1 + 17) =~= json_sep_config());
    assert(starts_at(c, f1, json_sep_config()));
    let t2 = c.skip(i2);
    assert(forall|q: int| 0 <= q < s.config_path.len() ==> t2[q] == s.config_path[q]);
    assert(t2[s.config_path.len() as int] == json_sep_temp()[0]);
    lemma_first_quote_is(t2, s.config_path.len() as int);
    assert(c.subrange(f2, f2 + 17) =~= json_sep_temp());
    assert(starts_at(c, f2, json_sep_temp()));
    let t3 = c.skip(i3);
    assert(forall|q: int| 0 <= q < s.temp_config.len() ==> t3[q] == s.temp_config[q]);
    assert(t3[s.temp_config.len() as int] == json_sep_prev()[0]);
    lemma_first_quote_is(t3, s.temp_config.len() as int);
    assert(c.subrange(f3, f3 + 21) =~= json_sep_prev());
    assert(starts_at(c, f3, json_sep_prev()));
    let t4 = c.skip(i4);
    assert(forall|q: int| 0 <= q < s.ip_forward_prev.len() ==> t4[q] == s.ip_forward_prev[q]);
    assert(t4[s.ip_forward_prev.len() as int] == json_tail()[0]);
    lemma_first_quote_is(t4, s.ip_forward_prev.len() as int);
    assert(c.subrange(f4, f4 + 2) =~= json_tail());
    assert(starts_at(c, f4, json_tail()));
    let d = decode_session_spec(c);
    assert(c.subrange(i1, f1) =~= s.wg_ifname);
    assert(c.subrange(i2, f2) =~= s.config_path);
    assert(c.subrange(i3, f3) =~= s.temp_config);
    assert(c.subrange(i4, f4) =~= s.ip_forward_prev);
    assert(d == Some(s));
}

} // verus!
