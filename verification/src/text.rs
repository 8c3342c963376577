//! Text utilities shared by the sanitizer, the session codec, the
//! process locator and the launcher: whitespace trimming, ASCII case
//! folding, line splitting and equality, on bytes and on characters.

use vstd::prelude::*;

verus! {

pub const NL: u8 = 10;

/// Lowercases one ASCII byte; any other byte passes through unchanged.
pub open spec fn lower_byte(b: u8) -> u8 {
    if 65 <= b && b <= 90 {
        (b + 32) as u8
    } else {
        b
    }
}

pub fn lower_byte_exec(b: u8) -> (r: u8)
    ensures
        r == lower_byte(b),
{
    if 65 <= b && b <= 90 {
        b + 32
    } else {
        b
    }
}

pub const CR: u8 = 13;

/// ASCII whitespace as the sanitizer understands it.
pub open spec fn is_space(b: u8) -> bool {
    b == 32 || b == 9 || b == 13 || b == 10
}

pub fn is_space_exec(b: u8) -> (r: bool)
    ensures
        r == is_space(b),
{
    b == 32 || b == 9 || b == 13 || b == 10
}

/// The whole sequence, ASCII-lowercased.
pub open spec fn lower_seq(s: Seq<u8>) -> Seq<u8> {
    s.map_values(|b: u8| lower_byte(b))
}

/// Leading whitespace removed.
pub open spec fn trim_front(s: Seq<u8>) -> Seq<u8>
    decreases s.len(),
{
    if s.len() > 0 && is_space(s[0]) {
        trim_front(s.drop_first())
    } else {
        s
    }
}

/// Trailing whitespace removed.
pub open spec fn trim_back(s: Seq<u8>) -> Seq<u8>
    decreases s.len(),
{
    if s.len() > 0 && is_space(s.last()) {
        trim_back(s.drop_last())
    } else {
        s
    }
}

/// Both ends trimmed.
pub open spec fn trimmed(s: Seq<u8>) -> Seq<u8> {
    trim_back(trim_front(s))
}

proof fn lemma_trim_front_skip(s: Seq<u8>, lo: int)
    requires
        0 <= lo <= s.len(),
        forall|j: int| 0 <= j < lo ==> is_space(s[j]),
        lo < s.len() ==> !is_space(s[lo]),
    ensures
        trim_front(s) == s.subrange(lo, s.len() as int),
    decreases lo,
{
    if lo == 0 {
        if s.len() > 0 && is_space(s[0]) {
            assert(false);
        }
        assert(trim_front(s) == s);
        assert(s =~= s.subrange(0, s.len() as int));
    } else {
        assert(is_space(s[0]));
        let t = s.drop_first();
        lemma_trim_front_skip(t, lo - 1);
        assert(t.subrange(lo - 1, t.len() as int) =~= s.subrange(lo, s.len() as int));
    }
}

proof fn lemma_trim_back_take(s: Seq<u8>, hi: int)
    requires
        0 <= hi <= s.len(),
        forall|j: int| hi <= j < s.len() ==> is_space(s[j]),
        hi > 0 ==> !is_space(s[hi - 1]),
    ensures
        trim_back(s) == s.subrange(0, hi),
    decreases s.len() - hi,
{
    if hi == s.len() {
        if s.len() > 0 && is_space(s.last()) {
            assert(false);
        }
        assert(s =~= s.subrange(0, s.len() as int));
    } else {
        assert(is_space(s.last()));
        let t = s.drop_last();
        lemma_trim_back_take(t, hi);
        assert(t.subrange(0, hi) =~= s.subrange(0, hi));
    }
}

/// Copies `s[i..j]` into a fresh vector.
pub fn subvec(s: &[u8], i: usize, j: usize) -> (r: Vec<u8>)
    requires
        i <= j <= s@.len(),
    ensures
        r@ == s@.subrange(i as int, j as int),
{
    let mut r: Vec<u8> = Vec::new();
    let mut k: usize = i;
    while k < j
        invariant
            i <= k <= j <= s@.len(),
            r@ == s@.subrange(i as int, k as int),
        decreases j - k,
    {
        r.push(s[k]);
        k = k + 1;
        assert(r@ =~= s@.subrange(i as int, k as int));
    }
    r
}

/// Appends all of `src` to `dst`.
pub fn push_all(dst: &mut Vec<u8>, src: &[u8])
    ensures
        final(dst)@ == old(dst)@ + src@,
{
    let n = src.len();
    let mut k: usize = 0;
    while k < n
        invariant
            0 <= k <= n == src@.len(),
            dst@ == old(dst)@ + src@.subrange(0, k as int),
        decreases n - k,
    {
        dst.push(src[k]);
        k = k + 1;
        assert(dst@ =~= old(dst)@ + src@.subrange(0, k as int));
    }
    assert(dst@ =~= old(dst)@ + src@);
}

/// A copy of `s` with leading and trailing whitespace removed.
pub fn trim(s: &[u8]) -> (r: Vec<u8>)
    ensures
        r@ == trimmed(s@),
{
    let n = s.len();
    let mut lo: usize = 0;
    while lo < n && is_space_exec(s[lo])
        invariant
            0 <= lo <= n == s@.len(),
            forall|j: int| 0 <= j < lo ==> is_space(s@[j]),
        decreases n - lo,
    {
        lo = lo + 1;
    }
    let mut hi: usize = n;
    while hi > lo && is_space_exec(s[hi - 1])
        invariant
            lo <= hi <= n == s@.len(),
            forall|j: int| hi <= j < n ==> is_space(s@[j]),
        decreases hi,
    {
        hi = hi - 1;
    }
    proof {
        lemma_trim_front_skip(s@, lo as int);
        let f = s@.subrange(lo as int, n as int);
        lemma_trim_back_take(f, hi - lo);
        assert(f.subrange(0, hi - lo) =~= s@.subrange(lo as int, hi as int));
    }
    subvec(s, lo, hi)
}

/// Whether two pieces of text are equal.
pub fn str_eq(a: &str, b: &str) -> (r: bool)
    ensures
        r == (a@ == b@),
{
    let x: String = a.to_owned();
    let y: String = b.to_owned();
    x == y
}

/// ASCII whitespace, on characters.
pub open spec fn is_cspace(c: char) -> bool {
    c == ' ' || c == '\t' || c == '\r' || c == '\n'
}

/// Leading whitespace removed, on characters.
pub open spec fn ctrim_front(s: Seq<char>) -> Seq<char>
    decreases s.len(),
{
    if s.len() > 0 && is_cspace(s[0]) {
        ctrim_front(s.drop_first())
    } else {
        s
    }
}

/// Trailing whitespace removed, on characters.
pub open spec fn ctrim_back(s: Seq<char>) -> Seq<char>
    decreases s.len(),
{
    if s.len() > 0 && is_cspace(s.last()) {
        ctrim_back(s.drop_last())
    } else {
        s
    }
}

/// Both ends trimmed, on characters.
pub open spec fn ctrimmed(s: Seq<char>) -> Seq<char> {
    ctrim_back(ctrim_front(s))
}

proof fn lemma_ctrim_front_skip(s: Seq<char>, lo: int)
    requires
        0 <= lo <= s.len(),
        forall|j: int| 0 <= j < lo ==> is_cspace(s[j]),
        lo < s.len() ==> !is_cspace(s[lo]),
    ensures
        ctrim_front(s) == s.subrange(lo, s.len() as int),
    decreases lo,
{
    if lo == 0 {
        if s.len() > 0 && is_cspace(s[0]) {
            assert(false);
        }
        assert(s =~= s.subrange(0, s.len() as int));
    } else {
        assert(is_cspace(s[0]));
        let t = s.drop_first();
        lemma_ctrim_front_skip(t, lo - 1);
        assert(t.subrange(lo - 1, t.len() as int) =~= s.subrange(lo, s.len() as int));
    }
}

proof fn lemma_ctrim_back_take(s: Seq<char>, hi: int)
    requires
        0 <= hi <= s.len(),
        forall|j: int| hi <= j < s.len() ==> is_cspace(s[j]),
        hi > 0 ==> !is_cspace(s[hi - 1]),
    ensures
        ctrim_back(s) == s.subrange(0, hi),
    decreases s.len() - hi,
{
    if hi == s.len() {
        if s.len() > 0 && is_cspace(s.last()) {
            assert(false);
        }
        assert(s =~= s.subrange(0, s.len() as int));
    } else {
        assert(is_cspace(s.last()));
        let t = s.drop_last();
        lemma_ctrim_back_take(t, hi);
        assert(t.subrange(0, hi) =~= s.subrange(0, hi));
    }
}

fn is_cspace_exec(c: char) -> (r: bool)
    ensures
        r == is_cspace(c),
{
    c == ' ' || c == '\t' || c == '\r' || c == '\n'
}

/// A copy of the text with leading and trailing whitespace removed.
pub fn trim_str(s: &str) -> (r: String)
    ensures
        r@ == ctrimmed(s@),
{
    let n = s.unicode_len();
    let mut lo: usize = 0;
    while lo < n && is_cspace_exec(s.get_char(lo))
        invariant
            0 <= lo <= n == s@.len(),
            forall|j: int| 0 <= j < lo ==> is_cspace(s@[j]),
        decreases n - lo,
    {
        lo = lo + 1;
    }
    let mut hi: usize = n;
    while hi > lo && is_cspace_exec(s.get_char(hi - 1))
        invariant
            lo <= hi <= n == s@.len(),
            forall|j: int| hi <= j < n ==> is_cspace(s@[j]),
        decreases hi,
    {
        hi = hi - 1;
    }
    proof {
        lemma_ctrim_front_skip(s@, lo as int);
        let f = s@.subrange(lo as int, n as int);
        lemma_ctrim_back_take(f, hi - lo);
        assert(f.subrange(0, hi - lo) =~= s@.subrange(lo as int, hi as int));
    }
    s.substring_char(lo, hi).to_owned()
}

/// Index of the first line break in `s`, or `s.len()` if there is none.
pub open spec fn first_nl(s: Seq<u8>) -> int
    decreases s.len(),
{
    if s.len() == 0 {
        0
    } else if s[0] == NL {
        0
    } else {
        1 + first_nl(s.drop_first())
    }
}

pub proof fn lemma_first_nl(s: Seq<u8>)
    ensures
        0 <= first_nl(s) <= s.len(),
        forall|j: int| 0 <= j < first_nl(s) ==> s[j] != NL,
        first_nl(s) < s.len() ==> s[first_nl(s)] == NL,
    decreases s.len(),
{
    if s.len() > 0 && s[0] != NL {
        let t = s.drop_first();
        lemma_first_nl(t);
        assert forall|j: int| 0 <= j < first_nl(s) implies s[j] != NL by {
            if j >= 1 {
                assert(s[j] == t[j - 1]);
            }
        }
    }
}

pub proof fn lemma_first_nl_is(s: Seq<u8>, k: int)
    requires
        0 <= k <= s.len(),
        forall|j: int| 0 <= j < k ==> s[j] != NL,
        k < s.len() ==> s[k] == NL,
    ensures
        first_nl(s) == k,
    decreases s.len(),
{
    if s.len() == 0 {
    } else if s[0] == NL {
        assert(k == 0);
    } else {
        assert(k >= 1);
        let t = s.drop_first();
        assert(forall|j: int| 0 <= j < k - 1 ==> t[j] == s[j + 1] && t[j] != NL);
        lemma_first_nl_is(t, k - 1);
    }
}

/// A single trailing carriage return removed, as `str::lines` does.
pub open spec fn strip_cr(l: Seq<u8>) -> Seq<u8> {
    if l.len() > 0 && l.last() == CR {
        l.drop_last()
    } else {
        l
    }
}

/// The lines of `s`: split on line feeds, one trailing carriage return
/// removed from each line, and no empty line after a final line feed.
pub open spec fn split_lines_spec(s: Seq<u8>) -> Seq<Seq<u8>>
    decreases s.len(),
{
    if s.len() == 0 {
        Seq::empty()
    } else {
        let i = first_nl(s);
        if 0 <= i && i < s.len() {
            seq![strip_cr(s.subrange(0, i))] + split_lines_spec(
                s.subrange(i + 1, s.len() as int),
            )
        } else {
            seq![strip_cr(s)]
        }
    }
}

proof fn lemma_split_lines_step(t: Seq<u8>, k: int)
    requires
        0 <= k < t.len(),
        t[k] == NL,
        forall|j: int| 0 <= j < k ==> t[j] != NL,
    ensures
        split_lines_spec(t) == seq![strip_cr(t.subrange(0, k))] + split_lines_spec(
            t.subrange(k + 1, t.len() as int),
        ),
{
    lemma_first_nl_is(t, k);
}

proof fn lemma_split_lines_whole(t: Seq<u8>)
    requires
        t.len() > 0,
        forall|j: int| 0 <= j < t.len() ==> t[j] != NL,
    ensures
        split_lines_spec(t) == seq![strip_cr(t)],
{
    lemma_first_nl_is(t, t.len() as int);
}

/// One line taken out of a slice: `s[start..end]` with a trailing
/// carriage return removed.
fn take_line(s: &[u8], start: usize, end: usize) -> (r: Vec<u8>)
    requires
        start <= end <= s@.len(),
    ensures
        r@ == strip_cr(s@.subrange(start as int, end as int)),
{
    let ghost seg = s@.subrange(start as int, end as int);
    if end > start && s[end - 1] == CR {
        assert(s@.subrange(start as int, end - 1 as int) =~= seg.drop_last());
        subvec(s, start, end - 1)
    } else {
        subvec(s, start, end)
    }
}

/// Splits `s` into lines, as `str::lines` does.
pub fn split_lines(s: &[u8]) -> (r: Vec<Vec<u8>>)
    ensures
        r.deep_view() == split_lines_spec(s@),
{
    let n = s.len();
    let mut lines: Vec<Vec<u8>> = Vec::new();
    proof {
        assert(s@.subrange(0, n as int) =~= s@);
        assert(lines.deep_view() + split_lines_spec(s@) =~= split_lines_spec(s@));
    }
    let mut start: usize = 0;
    let mut i: usize = 0;
    while i < n
        invariant
            0 <= start <= i <= n == s@.len(),
            forall|j: int| start <= j < i ==> s@[j] != NL,
            lines.deep_view() + split_lines_spec(s@.subrange(start as int, n as int))
                == split_lines_spec(s@),
        decreases n - i,
    {
        if s[i] == NL {
            let line = take_line(s, start, i);
            proof {
                let rest = s@.subrange(start as int, n as int);
                lemma_split_lines_step(rest, i - start);
                assert(rest.subrange(0, i - start) =~= s@.subrange(start as int, i as int));
                assert(rest.subrange(i - start + 1, rest.len() as int) =~= s@.subrange(
                    i + 1,
                    n as int,
                ));
            }
            let ghost old_lines = lines.deep_view();
            lines.push(line);
            proof {
                assert(lines.deep_view() =~~= old_lines + seq![line@]);
                assert(lines.deep_view() + split_lines_spec(s@.subrange(i + 1, n as int))
                    =~~= old_lines + (seq![line@] + split_lines_spec(s@.subrange(i + 1, n as int))));
            }
            start = i + 1;
        }
        i = i + 1;
    }
    if start < n {
        let line = take_line(s, start, n);
        proof {
            let rest = s@.subrange(start as int, n as int);
            lemma_split_lines_whole(rest);
        }
        let ghost old_lines = lines.deep_view();
        lines.push(line);
        proof {
            assert(lines.deep_view() =~~= old_lines + seq![line@]);
        }
    } else {
        proof {
            assert(s@.subrange(start as int, n as int).len() == 0);
        }
    }
    proof {
        assert(lines.deep_view() =~= lines.deep_view() + Seq::<Seq<u8>>::empty());
    }
    lines
}

/// Whether `s` equals `t` once both are ASCII-lowercased.
pub fn eq_ignore_case(s: &[u8], t: &[u8]) -> (r: bool)
    ensures
        r == (lower_seq(s@) == lower_seq(t@)),
{
    if s.len() != t.len() {
        proof {
            assert(lower_seq(s@).len() == s@.len());
            assert(lower_seq(t@).len() == t@.len());
        }
        return false;
    }
    let n = s.len();
    let mut i: usize = 0;
    while i < n
        invariant
            0 <= i <= n == s@.len() == t@.len(),
            forall|j: int| 0 <= j < i ==> lower_byte(s@[j]) == lower_byte(t@[j]),
        decreases n - i,
    {
        if lower_byte_exec(s[i]) != lower_byte_exec(t[i]) {
            proof {
                assert(lower_seq(s@)[i as int] != lower_seq(t@)[i as int]);
            }
            return false;
        }
        i = i + 1;
    }
    proof {
        assert(lower_seq(s@) =~= lower_seq(t@));
    }
    true
}

/// Whether the two byte strings are equal.
pub fn bytes_eq(s: &[u8], t: &[u8]) -> (r: bool)
    ensures
        r == (s@ == t@),
{
    if s.len() != t.len() {
        return false;
    }
    let n = s.len();
    let mut i: usize = 0;
    while i < n
        invariant
            0 <= i <= n == s@.len() == t@.len(),
            forall|j: int| 0 <= j < i ==> s@[j] == t@[j],
        decreases n - i,
    {
        if s[i] != t[i] {
            return false;
        }
        i = i + 1;
    }
    proof {
        assert(s@ =~= t@);
    }
    true
}

/// Whether `pat`, lowercased, is a prefix of `s` lowercased.
pub fn starts_with_ci(s: &[u8], pat: &[u8]) -> (r: bool)
    ensures
        r == (s@.len() >= pat@.len() && lower_seq(s@.subrange(0, pat@.len() as int)) == lower_seq(
            pat@,
        )),
{
    if s.len() < pat.len() {
        return false;
    }
    let m = pat.len();
    let mut i: usize = 0;
    while i < m
        invariant
            0 <= i <= m == pat@.len() <= s@.len(),
            forall|j: int| 0 <= j < i ==> lower_byte(s@[j]) == lower_byte(pat@[j]),
        decreases m - i,
    {
        if lower_byte_exec(s[i]) != lower_byte_exec(pat[i]) {
            proof {
                let p = s@.subrange(0, pat@.len() as int);
                assert(lower_seq(p)[i as int] == lower_byte(s@[i as int]));
                assert(lower_seq(pat@)[i as int] == lower_byte(pat@[i as int]));
            }
            return false;
        }
        i = i + 1;
    }
    proof {
        let p = s@.subrange(0, pat@.len() as int);
        assert(lower_seq(p) =~= lower_seq(pat@));
    }
    true
}

} // verus!
