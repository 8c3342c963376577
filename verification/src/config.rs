//! Tunnel-configuration sanitizer: rewrites a tunnel configuration for
//! namespace use by dropping `DNS=` lines and inserting a `Table = off`
//! directive after the first `[Interface]` header when no `table=off`
//! directive is present, and extracts the DNS servers named by the
//! dropped lines.

use vstd::prelude::*;
use crate::text::{
    is_space, lower_byte, lower_seq, trimmed, split_lines_spec, trim, split_lines, starts_with_ci, bytes_eq,
    subvec, push_all, trim_front, trim_back,
};

verus! {

/// `dns=` as bytes.
pub open spec fn dns_prefix() -> Seq<u8> {
    seq![100u8, 110u8, 115u8, 61u8]
}

/// `dns =` as bytes.
pub open spec fn dns_space_prefix() -> Seq<u8> {
    seq![100u8, 110u8, 115u8, 32u8, 61u8]
}

/// `table=off` as bytes.
pub open spec fn table_off_form() -> Seq<u8> {
    seq![116u8, 97u8, 98u8, 108u8, 101u8, 61u8, 111u8, 102u8, 102u8]
}

/// `[Interface]` as bytes.
pub open spec fn interface_header() -> Seq<u8> {
    seq![91u8, 73u8, 110u8, 116u8, 101u8, 114u8, 102u8, 97u8, 99u8, 101u8, 93u8]
}

/// `Table = off` as bytes.
pub open spec fn table_off_line() -> Seq<u8> {
    seq![84u8, 97u8, 98u8, 108u8, 101u8, 32u8, 61u8, 32u8, 111u8, 102u8, 102u8]
}

/// Whether the line, trimmed and lowercased, starts with `dns=` or `dns =`.
pub open spec fn is_dns_line(l: Seq<u8>) -> bool {
    let t = trimmed(l);
    (t.len() >= 4 && lower_seq(t.subrange(0, 4)) == dns_prefix()) || (t.len() >= 5 && lower_seq(
        t.subrange(0, 5),
    ) == dns_space_prefix())
}

/// Whether the line is an `[Interface]` section header.
pub open spec fn is_interface_line(l: Seq<u8>) -> bool {
    trimmed(l) == interface_header()
}

/// Spaces removed (only the space character, as the directive check does).
pub open spec fn drop_spaces(s: Seq<u8>) -> Seq<u8>
    decreases s.len(),
{
    if s.len() == 0 {
        Seq::empty()
    } else if s.last() == 32 {
        drop_spaces(s.drop_last())
    } else {
        drop_spaces(s.drop_last()) + seq![s.last()]
    }
}

/// The normal form in which a `table=off` directive is recognized:
/// trimmed, spaces removed, lowercased.
pub open spec fn normal_form(l: Seq<u8>) -> Seq<u8> {
    lower_seq(drop_spaces(trimmed(l)))
}

/// Whether some line already carries a `table=off` directive.
pub open spec fn has_table_off(lines: Seq<Seq<u8>>) -> bool {
    exists|i: int| 0 <= i < lines.len() && normal_form(#[trigger] lines[i]) == table_off_form()
}

/// The lines that sanitization keeps: everything but `DNS=` lines.
pub open spec fn keep_lines(lines: Seq<Seq<u8>>) -> Seq<Seq<u8>>
    decreases lines.len(),
{
    if lines.len() == 0 {
        Seq::empty()
    } else if is_dns_line(lines.last()) {
        keep_lines(lines.drop_last())
    } else {
        keep_lines(lines.drop_last()) + seq![lines.last()]
    }
}

/// Index of the first `[Interface]` header, or `lines.len()` if none.
pub open spec fn first_interface(lines: Seq<Seq<u8>>) -> int
    decreases lines.len(),
{
    if lines.len() == 0 {
        0
    } else {
        let k = first_interface(lines.drop_last());
        if k < lines.len() - 1 {
            k
        } else if is_interface_line(lines.last()) {
            lines.len() - 1
        } else {
            lines.len() as int
        }
    }
}

pub proof fn lemma_first_interface(lines: Seq<Seq<u8>>)
    ensures
        0 <= first_interface(lines) <= lines.len(),
        first_interface(lines) < lines.len() ==> is_interface_line(
            lines[first_interface(lines)],
        ),
        forall|j: int| 0 <= j < first_interface(lines) ==> !is_interface_line(#[trigger] lines[j]),
    decreases lines.len(),
{
    if lines.len() > 0 {
        let t = lines.drop_last();
        lemma_first_interface(t);
        assert forall|j: int| 0 <= j < first_interface(lines) implies !is_interface_line(
            #[trigger] lines[j],
        ) by {
            if j < lines.len() - 1 {
                assert(lines[j] == t[j]);
            }
        }
    }
}

/// The sanitized line sequence: `DNS=` lines removed and, unless a
/// `table=off` directive was already present somewhere, a `Table = off`
/// line inserted right after the first `[Interface]` header.
pub open spec fn sanitize_lines_spec(lines: Seq<Seq<u8>>) -> Seq<Seq<u8>> {
    sanitize_with(lines, has_table_off(lines))
}

/// Index of the first `=` in `s`, or `s.len()` if none.
pub open spec fn first_eq(s: Seq<u8>) -> int
    decreases s.len(),
{
    if s.len() == 0 {
        0
    } else if s[0] == 61 {
        0
    } else {
        1 + first_eq(s.drop_first())
    }
}

/// Whether a byte separates DNS server tokens: a comma or whitespace.
pub open spec fn is_sep(b: u8) -> bool {
    b == 44 || is_space(b)
}

/// Index of the first separator in `s`, or `s.len()` if none.
pub open spec fn first_sep(s: Seq<u8>) -> int
    decreases s.len(),
{
    if s.len() == 0 {
        0
    } else if is_sep(s[0]) {
        0
    } else {
        1 + first_sep(s.drop_first())
    }
}

/// The nonempty tokens of `s`, split on commas and whitespace.
pub open spec fn split_tokens_spec(s: Seq<u8>) -> Seq<Seq<u8>>
    decreases s.len(),
{
    if s.len() == 0 {
        Seq::empty()
    } else if is_sep(s[0]) {
        split_tokens_spec(s.drop_first())
    } else {
        let i = first_sep(s);
        if 1 <= i && i < s.len() {
            seq![s.subrange(0, i)] + split_tokens_spec(s.subrange(i, s.len() as int))
        } else {
            seq![s]
        }
    }
}

/// The server tokens carried by one `DNS=` line: what follows the first
/// `=` of the trimmed line, split on commas and whitespace.
pub open spec fn dns_line_tokens(l: Seq<u8>) -> Seq<Seq<u8>> {
    let t = trimmed(l);
    split_tokens_spec(t.subrange(first_eq(t) + 1, t.len() as int))
}

/// All DNS servers named by the configuration, in order of appearance.
pub open spec fn dns_servers_spec(lines: Seq<Seq<u8>>) -> Seq<Seq<u8>>
    decreases lines.len(),
{
    if lines.len() == 0 {
        Seq::empty()
    } else if is_dns_line(lines.last()) {
        dns_servers_spec(lines.drop_last()) + dns_line_tokens(lines.last())
    } else {
        dns_servers_spec(lines.drop_last())
    }
}

/// `sanitize_lines_spec` with the table-directive verdict fixed, so that a
/// prefix of the input can be spoken of while the whole is scanned.
pub open spec fn sanitize_with(lines: Seq<Seq<u8>>, table_present: bool) -> Seq<Seq<u8>> {
    let kept = keep_lines(lines);
    let k = first_interface(kept);
    if table_present || k == kept.len() {
        kept
    } else {
        kept.subrange(0, k + 1) + seq![table_off_line()] + kept.subrange(k + 1, kept.len() as int)
    }
}

/// The line, trimmed, spaces removed, lowercased.
fn normalize_line(l: &[u8]) -> (r: Vec<u8>)
    ensures
        r@ == normal_form(l@),
{
    let t = trim(l);
    let n = t.len();
    let mut r: Vec<u8> = Vec::new();
    proof {
        assert(t@.subrange(0, 0) =~= Seq::<u8>::empty());
        assert(lower_seq(drop_spaces(t@.subrange(0, 0))) =~= Seq::<u8>::empty());
    }
    let mut i: usize = 0;
    while i < n
        invariant
            0 <= i <= n == t@.len(),
            t@ == trimmed(l@),
            r@ == lower_seq(drop_spaces(t@.subrange(0, i as int))),
        decreases n - i,
    {
        let ghost pre = t@.subrange(0, i as int);
        let ghost cur = t@.subrange(0, i + 1);
        proof {
            assert(cur.drop_last() =~= pre);
            assert(cur.last() == t@[i as int]);
        }
        if t[i] != 32 {
            r.push(crate::text::lower_byte_exec(t[i]));
            proof {
                assert(drop_spaces(cur) == drop_spaces(pre) + seq![t@[i as int]]);
                assert(r@ =~= lower_seq(drop_spaces(cur)));
            }
        } else {
            proof {
                assert(drop_spaces(cur) == drop_spaces(pre));
            }
        }
        i = i + 1;
    }
    proof {
        assert(t@.subrange(0, n as int) =~= t@);
    }
    r
}

/// Whether the line carries a `table=off` directive.
fn line_is_table_off(l: &[u8]) -> (r: bool)
    ensures
        r == (normal_form(l@) == table_off_form()),
{
    let pat: Vec<u8> = vec![116u8, 97u8, 98u8, 108u8, 101u8, 61u8, 111u8, 102u8, 102u8];
    proof {
        assert(pat@ =~= table_off_form());
    }
    let norm = normalize_line(l);
    bytes_eq(norm.as_slice(), pat.as_slice())
}

/// Whether the line is a `DNS=` setting.
fn line_is_dns(l: &[u8]) -> (r: bool)
    ensures
        r == is_dns_line(l@),
{
    let t = trim(l);
    let p1: Vec<u8> = vec![100u8, 110u8, 115u8, 61u8];
    let p2: Vec<u8> = vec![100u8, 110u8, 115u8, 32u8, 61u8];
    proof {
        assert(lower_seq(p1@) =~= dns_prefix());
        assert(lower_seq(p2@) =~= dns_space_prefix());
    }
    let r1 = starts_with_ci(t.as_slice(), p1.as_slice());
    if r1 {
        true
    } else {
        starts_with_ci(t.as_slice(), p2.as_slice())
    }
}

/// Whether the line is an `[Interface]` header.
fn line_is_interface(l: &[u8]) -> (r: bool)
    ensures
        r == is_interface_line(l@),
{
    let pat: Vec<u8> = vec![91u8, 73u8, 110u8, 116u8, 101u8, 114u8, 102u8, 97u8, 99u8, 101u8, 93u8];
    proof {
        assert(pat@ =~= interface_header());
    }
    let t = trim(l);
    bytes_eq(t.as_slice(), pat.as_slice())
}

proof fn lemma_first_eq_is(s: Seq<u8>, k: int)
    requires
        0 <= k <= s.len(),
        forall|j: int| 0 <= j < k ==> s[j] != 61,
        k < s.len() ==> s[k] == 61,
    ensures
        first_eq(s) == k,
    decreases s.len(),
{
    if s.len() == 0 {
    } else if s[0] == 61 {
        assert(k == 0);
    } else {
        let t = s.drop_first();
        assert(forall|j: int| 0 <= j < k - 1 ==> t[j] == s[j + 1] && t[j] != 61);
        lemma_first_eq_is(t, k - 1);
    }
}

proof fn lemma_first_sep_is(s: Seq<u8>, k: int)
    requires
        0 <= k <= s.len(),
        forall|j: int| 0 <= j < k ==> !is_sep(s[j]),
        k < s.len() ==> is_sep(s[k]),
    ensures
        first_sep(s) == k,
    decreases s.len(),
{
    if s.len() == 0 {
    } else if is_sep(s[0]) {
        assert(k == 0);
    } else {
        let t = s.drop_first();
        assert(forall|j: int| 0 <= j < k - 1 ==> t[j] == s[j + 1] && !is_sep(t[j]));
        lemma_first_sep_is(t, k - 1);
    }
}

/// Splits on commas and whitespace, dropping empty tokens.
fn split_tokens(s: &[u8]) -> (r: Vec<Vec<u8>>)
    ensures
        r.deep_view() == split_tokens_spec(s@),
{
    let n = s.len();
    let mut toks: Vec<Vec<u8>> = Vec::new();
    proof {
        assert(s@.subrange(0, n as int) =~= s@);
        assert(toks.deep_view() + split_tokens_spec(s@) =~= split_tokens_spec(s@));
    }
    let mut i: usize = 0;
    while i < n
        invariant
            0 <= i <= n == s@.len(),
            toks.deep_view() + split_tokens_spec(s@.subrange(i as int, n as int))
                == split_tokens_spec(s@),
        decreases n - i,
    {
        let ghost rest = s@.subrange(i as int, n as int);
        if is_sep_exec(s[i]) {
            proof {
                assert(rest.drop_first() =~= s@.subrange(i + 1, n as int));
                assert(split_tokens_spec(rest) == split_tokens_spec(s@.subrange(i + 1, n as int)));
            }
            i = i + 1;
        } else {
            let start = i;
            let mut j = i + 1;
            while j < n && !is_sep_exec(s[j])
                invariant
                    start < j <= n == s@.len(),
                    forall|q: int| start <= q < j ==> !is_sep(s@[q]),
                    !is_sep(s@[start as int]),
                decreases n - j,
            {
                j = j + 1;
            }
            let tok = subvec(s, start, j);
            proof {
                assert(forall|q: int| 0 <= q < j - start ==> rest[q] == s@[start + q]);
                lemma_first_sep_is(rest, j - start);
                assert(rest.subrange(0, j - start) =~= tok@);
                if j < n {
                    assert(rest.subrange(j - start, rest.len() as int) =~= s@.subrange(
                        j as int,
                        n as int,
                    ));
                    assert(split_tokens_spec(rest) == seq![tok@] + split_tokens_spec(
                        s@.subrange(j as int, n as int),
                    ));
                } else {
                    assert(rest =~= tok@);
                    assert(split_tokens_spec(rest) == seq![tok@]);
                    assert(s@.subrange(j as int, n as int).len() == 0);
                    assert(split_tokens_spec(rest) =~= seq![tok@] + split_tokens_spec(
                        s@.subrange(j as int, n as int),
                    ));
                }
            }
            let ghost old_toks = toks.deep_view();
            toks.push(tok);
            proof {
                assert(toks.deep_view() =~~= old_toks + seq![tok@]);
                assert(toks.deep_view() + split_tokens_spec(s@.subrange(j as int, n as int))
                    =~= old_toks + (seq![tok@] + split_tokens_spec(s@.subrange(j as int, n as int))));
            }
            i = j;
        }
    }
    proof {
        assert(s@.subrange(n as int, n as int).len() == 0);
        assert(toks.deep_view() + Seq::<Seq<u8>>::empty() =~= toks.deep_view());
    }
    toks
}

fn is_sep_exec(b: u8) -> (r: bool)
    ensures
        r == is_sep(b),
{
    b == 44 || crate::text::is_space_exec(b)
}

/// The DNS server tokens of one `DNS=` line.
fn dns_tokens_of_line(l: &[u8]) -> (r: Vec<Vec<u8>>)
    requires
        is_dns_line(l@),
    ensures
        r.deep_view() == dns_line_tokens(l@),
{
    let t = trim(l);
    let n = t.len();
    proof {
        if t@.len() >= 4 && lower_seq(t@.subrange(0, 4)) == dns_prefix() {
            assert(lower_seq(t@.subrange(0, 4))[3] == lower_byte(t@[3]));
            assert(lower_byte(t@[3]) == 61);
            assert(t@[3] == 61);
        } else {
            assert(lower_seq(t@.subrange(0, 5))[4] == lower_byte(t@[4]));
            assert(lower_byte(t@[4]) == 61);
            assert(t@[4] == 61);
        }
    }
    let mut e: usize = 0;
    while t[e] != 61
        invariant
            t@ == trimmed(l@),
            0 <= e < n == t@.len(),
            forall|j: int| 0 <= j < e ==> t@[j] != 61,
            exists|w: int| e <= w < n && t@[w] == 61,
        decreases n - e,
    {
        e = e + 1;
        proof {
            let w = choose|w: int| e - 1 <= w < n && t@[w] == 61;
            assert(e <= w < n && t@[w] == 61);
        }
    }
    proof {
        lemma_first_eq_is(t@, e as int);
    }
    let tail = subvec(t.as_slice(), e + 1, n);
    split_tokens(tail.as_slice())
}

/// Whether any line of the configuration carries a `table=off` directive.
fn lines_have_table_off(lines: &Vec<Vec<u8>>) -> (r: bool)
    ensures
        r == has_table_off(lines.deep_view()),
{
    let n = lines.len();
    let mut i: usize = 0;
    while i < n
        invariant
            0 <= i <= n == lines@.len(),
            lines.deep_view().len() == n,
            forall|j: int|
                0 <= j < i ==> normal_form(#[trigger] lines.deep_view()[j]) != table_off_form(),
        decreases n - i,
    {
        if line_is_table_off(lines[i].as_slice()) {
            proof {
                assert(lines.deep_view()[i as int] == lines@[i as int]@);
            }
            return true;
        }
        proof {
            assert(lines.deep_view()[i as int] == lines@[i as int]@);
        }
        i = i + 1;
    }
    false
}

fn table_line_vec() -> (r: Vec<u8>)
    ensures
        r@ == table_off_line(),
{
    let r: Vec<u8> = vec![84u8, 97u8, 98u8, 108u8, 101u8, 32u8, 61u8, 32u8, 111u8, 102u8, 102u8];
    proof {
        assert(r@ =~= table_off_line());
    }
    r
}

/// One pass over the configuration's lines: drops `DNS=` lines into the
/// server list, keeps every other line, and inserts `Table = off` right
/// after the first `[Interface]` header unless a `table=off` directive is
/// present anywhere.
fn sanitize_lines(lines: &Vec<Vec<u8>>) -> (r: (Vec<Vec<u8>>, Vec<Vec<u8>>))
    ensures
        r.0.deep_view() == sanitize_lines_spec(lines.deep_view()),
        r.1.deep_view() == dns_servers_spec(lines.deep_view()),
{
    let table_present = lines_have_table_off(lines);
    let ghost ldv = lines.deep_view();
    let n = lines.len();
    let mut out: Vec<Vec<u8>> = Vec::new();
    let mut dns: Vec<Vec<u8>> = Vec::new();
    let mut inserted = false;
    proof {
        assert(ldv.len() == n);
        assert(ldv.subrange(0, 0) =~= Seq::<Seq<u8>>::empty());
        assert(out.deep_view() =~= sanitize_with(ldv.subrange(0, 0), table_present));
        assert(dns.deep_view() =~= dns_servers_spec(ldv.subrange(0, 0)));
    }
    let mut i: usize = 0;
    while i < n
        invariant
            0 <= i <= n == ldv.len(),
            ldv == lines.deep_view(),
            lines@.len() == n,
            out.deep_view() == sanitize_with(ldv.subrange(0, i as int), table_present),
            dns.deep_view() == dns_servers_spec(ldv.subrange(0, i as int)),
            inserted == (first_interface(keep_lines(ldv.subrange(0, i as int))) < keep_lines(
                ldv.subrange(0, i as int),
            ).len()),
        decreases n - i,
    {
        let ghost pre = ldv.subrange(0, i as int);
        let ghost cur = ldv.subrange(0, i + 1);
        let ghost l = ldv[i as int];
        let ghost kept = keep_lines(pre);
        let ghost k = first_interface(kept);
        proof {
            assert(cur.drop_last() =~= pre);
            assert(cur.last() == l);
            assert(ldv[i as int] =~= lines@[i as int]@);
        }
        let line = &lines[i];
        if line_is_dns(line.as_slice()) {
            let mut toks = dns_tokens_of_line(line.as_slice());
            let ghost old_dns = dns.deep_view();
            let ghost toksdv = toks.deep_view();
            dns.append(&mut toks);
            proof {
                assert(dns.deep_view() =~~= old_dns + toksdv);
                assert(dns_servers_spec(cur) == dns_servers_spec(pre) + dns_line_tokens(l));
                assert(keep_lines(cur) == keep_lines(pre));
                assert(out.deep_view() == sanitize_with(cur, table_present));
            }
        } else {
            let copy = subvec(line.as_slice(), 0, line.len());
            proof {
                assert(copy@ =~= l);
            }
            let ghost old_out = out.deep_view();
            out.push(copy);
            proof {
                assert(out.deep_view() =~~= old_out + seq![l]);
                assert(keep_lines(cur) == keep_lines(pre) + seq![l]);
                assert(keep_lines(cur).drop_last() =~= kept);
                assert(keep_lines(cur).last() == l);
            }
            let ghost kept2 = keep_lines(cur);
            let ghost k2 = first_interface(kept2);
            if !inserted {
                if line_is_interface(line.as_slice()) {
                    if !table_present {
                        let tl = table_line_vec();
                        let ghost mid_out = out.deep_view();
                        out.push(tl);
                        proof {
                            assert(out.deep_view() =~~= mid_out + seq![table_off_line()]);
                            // no header yet, so the new line is the first one
                            assert(k == kept.len());
                            assert(k2 == kept2.len() - 1);
                            assert(old_out == kept);
                            assert(kept2.subrange(0, k2 + 1) =~= kept2);
                            assert(kept2.subrange(k2 + 1, kept2.len() as int)
                                =~= Seq::<Seq<u8>>::empty());
                            assert(sanitize_with(cur, table_present) =~= kept + seq![l] + seq![
                                table_off_line()
                            ]);
                            assert(out.deep_view() =~= sanitize_with(cur, table_present));
                        }
                    } else {
                        proof {
                            assert(k == kept.len());
                            assert(k2 == kept2.len() - 1);
                            assert(sanitize_with(cur, table_present) == kept2);
                            assert(out.deep_view() =~= kept2);
                        }
                    }
                    inserted = true;
                } else {
                    proof {
                        assert(k == kept.len());
                        assert(k2 == kept2.len() as int);
                        assert(sanitize_with(pre, table_present) == kept);
                        assert(sanitize_with(cur, table_present) == kept2);
                        assert(out.deep_view() =~= kept2);
                    }
                }
            } else {
                proof {
                    lemma_first_interface(kept);
                    lemma_first_interface(kept2);
                    assert(k < kept.len());
                    assert(k2 == k);
                    if table_present {
                        assert(out.deep_view() =~= kept2);
                    } else {
                        assert(kept2.subrange(0, k2 + 1) =~= kept.subrange(0, k + 1));
                        assert(kept2.subrange(k2 + 1, kept2.len() as int) =~= kept.subrange(
                            k + 1,
                            kept.len() as int,
                        ) + seq![l]);
                        assert(sanitize_with(cur, table_present) =~= sanitize_with(
                            pre,
                            table_present,
                        ) + seq![l]);
                        assert(out.deep_view() =~= sanitize_with(cur, table_present));
                    }
                }
            }
        }
        i = i + 1;
    }
    proof {
        assert(ldv.subrange(0, n as int) =~= ldv);
    }
    (out, dns)
}

/// Every line followed by a line feed.
pub open spec fn join_lines_spec(lines: Seq<Seq<u8>>) -> Seq<u8>
    decreases lines.len(),
{
    if lines.len() == 0 {
        Seq::empty()
    } else {
        join_lines_spec(lines.drop_last()) + lines.last() + seq![crate::text::NL]
    }
}

fn join_lines(lines: &Vec<Vec<u8>>) -> (r: Vec<u8>)
    ensures
        r@ == join_lines_spec(lines.deep_view()),
{
    let ghost ldv = lines.deep_view();
    let n = lines.len();
    let mut r: Vec<u8> = Vec::new();
    proof {
        assert(ldv.len() == n);
        assert(ldv.subrange(0, 0) =~= Seq::<Seq<u8>>::empty());
        assert(r@ =~= join_lines_spec(ldv.subrange(0, 0)));
    }
    let mut i: usize = 0;
    while i < n
        invariant
            0 <= i <= n == ldv.len(),
            ldv == lines.deep_view(),
            lines@.len() == n,
            r@ == join_lines_spec(ldv.subrange(0, i as int)),
        decreases n - i,
    {
        let ghost pre = ldv.subrange(0, i as int);
        let ghost cur = ldv.subrange(0, i + 1);
        proof {
            assert(cur.drop_last() =~= pre);
            assert(cur.last() == ldv[i as int]);
            assert(ldv[i as int] =~= lines@[i as int]@);
        }
        let line = &lines[i];
        push_all(&mut r, line.as_slice());
        r.push(crate::text::NL);
        proof {
            assert(r@ =~= join_lines_spec(cur));
        }
        i = i + 1;
    }
    proof {
        assert(ldv.subrange(0, n as int) =~= ldv);
    }
    r
}

/// A sanitized tunnel configuration: the rewritten file content and the
/// DNS servers that were stripped out of it.
pub struct SanitizedConfig {
    pub content: Vec<u8>,
    pub dns_servers: Vec<Vec<u8>>,
}

/// Rewrites a tunnel configuration for namespace use: every `DNS=` line
/// is removed and collected, and a `Table = off` directive is inserted
/// right after the first `[Interface]` header unless one is already
/// present in some form.
pub fn sanitize_config(content: &[u8]) -> (r: SanitizedConfig)
    ensures
        r.content@ == join_lines_spec(sanitize_lines_spec(split_lines_spec(content@))),
        r.dns_servers.deep_view() == dns_servers_spec(split_lines_spec(content@)),
{
    let lines = split_lines(content);
    let (out, dns) = sanitize_lines(&lines);
    let joined = join_lines(&out);
    SanitizedConfig { content: joined, dns_servers: dns }
}

/// Extracts the DNS servers named by `DNS=` lines, in order of
/// appearance, split on commas and whitespace.
pub fn extract_dns_servers(content: &[u8]) -> (r: Vec<Vec<u8>>)
    ensures
        r.deep_view() == dns_servers_spec(split_lines_spec(content@)),
{
    let lines = split_lines(content);
    let ghost ldv = lines.deep_view();
    let n = lines.len();
    let mut dns: Vec<Vec<u8>> = Vec::new();
    proof {
        assert(ldv.len() == n);
        assert(ldv.subrange(0, 0) =~= Seq::<Seq<u8>>::empty());
        assert(dns.deep_view() =~= dns_servers_spec(ldv.subrange(0, 0)));
    }
    let mut i: usize = 0;
    while i < n
        invariant
            0 <= i <= n == ldv.len(),
            ldv == lines.deep_view(),
            lines@.len() == n,
            dns.deep_view() == dns_servers_spec(ldv.subrange(0, i as int)),
        decreases n - i,
    {
        let ghost pre = ldv.subrange(0, i as int);
        let ghost cur = ldv.subrange(0, i + 1);
        proof {
            assert(cur.drop_last() =~= pre);
            assert(cur.last() == ldv[i as int]);
            assert(ldv[i as int] =~= lines@[i as int]@);
        }
        let line = &lines[i];
        if line_is_dns(line.as_slice()) {
            let mut toks = dns_tokens_of_line(line.as_slice());
            let ghost old_dns = dns.deep_view();
            let ghost toksdv = toks.deep_view();
            dns.append(&mut toks);
            proof {
                assert(dns.deep_view() =~~= old_dns + toksdv);
            }
        }
        i = i + 1;
    }
    proof {
        assert(ldv.subrange(0, n as int) =~= ldv);
    }
    dns
}

/// `nameserver ` as bytes.
pub open spec fn nameserver_prefix() -> Seq<u8> {
    seq![110u8, 97u8, 109u8, 101u8, 115u8, 101u8, 114u8, 118u8, 101u8, 114u8, 32u8]
}

/// `1.1.1.1` as bytes: the first fixed public fallback resolver.
pub open spec fn fallback_resolver_one() -> Seq<u8> {
    seq![49u8, 46u8, 49u8, 46u8, 49u8, 46u8, 49u8]
}

/// `8.8.8.8` as bytes: the second fixed public fallback resolver.
pub open spec fn fallback_resolver_two() -> Seq<u8> {
    seq![56u8, 46u8, 56u8, 46u8, 56u8, 46u8, 56u8]
}

/// One `nameserver` line per server, in order.
pub open spec fn resolver_lines(servers: Seq<Seq<u8>>) -> Seq<u8>
    decreases servers.len(),
{
    if servers.len() == 0 {
        Seq::empty()
    } else {
        resolver_lines(servers.drop_last()) + nameserver_prefix() + servers.last() + seq![
            crate::text::NL,
        ]
    }
}

/// The namespace resolver file's content: a `nameserver` line per
/// extracted server, or the two fixed public resolvers when none was.
pub open spec fn resolver_config_spec(servers: Seq<Seq<u8>>) -> Seq<u8> {
    if servers.len() == 0 {
        nameserver_prefix() + fallback_resolver_one() + seq![crate::text::NL] + nameserver_prefix()
            + fallback_resolver_two() + seq![crate::text::NL]
    } else {
        resolver_lines(servers)
    }
}

fn nameserver_prefix_vec() -> (r: Vec<u8>)
    ensures
        r@ == nameserver_prefix(),
{
    let r: Vec<u8> = vec![110u8, 97u8, 109u8, 101u8, 115u8, 101u8, 114u8, 118u8, 101u8, 114u8, 32u8];
    proof {
        assert(r@ =~= nameserver_prefix());
    }
    r
}

/// Builds the namespace resolver file's content.
pub fn resolver_config(servers: &Vec<Vec<u8>>) -> (r: Vec<u8>)
    ensures
        r@ == resolver_config_spec(servers.deep_view()),
{
    let ghost sdv = servers.deep_view();
    let prefix = nameserver_prefix_vec();
    if servers.len() == 0 {
        let mut r: Vec<u8> = Vec::new();
        let one: Vec<u8> = vec![49u8, 46u8, 49u8, 46u8, 49u8, 46u8, 49u8];
        let two: Vec<u8> = vec![56u8, 46u8, 56u8, 46u8, 56u8, 46u8, 56u8];
        proof {
            assert(one@ =~= fallback_resolver_one());
            assert(two@ =~= fallback_resolver_two());
        }
        push_all(&mut r, prefix.as_slice());
        push_all(&mut r, one.as_slice());
        r.push(crate::text::NL);
        push_all(&mut r, prefix.as_slice());
        push_all(&mut r, two.as_slice());
        r.push(crate::text::NL);
        proof {
            assert(r@ =~= resolver_config_spec(sdv));
        }
        r
    } else {
        let n = servers.len();
        let mut r: Vec<u8> = Vec::new();
        proof {
            assert(sdv.len() == n);
            assert(sdv.subrange(0, 0) =~= Seq::<Seq<u8>>::empty());
            assert(r@ =~= resolver_lines(sdv.subrange(0, 0)));
        }
        let mut i: usize = 0;
        while i < n
            invariant
                0 <= i <= n == sdv.len(),
                sdv == servers.deep_view(),
                servers@.len() == n,
                prefix@ == nameserver_prefix(),
                r@ == resolver_lines(sdv.subrange(0, i as int)),
            decreases n - i,
        {
            let ghost pre = sdv.subrange(0, i as int);
            let ghost cur = sdv.subrange(0, i + 1);
            proof {
                assert(cur.drop_last() =~= pre);
                assert(cur.last() == sdv[i as int]);
                assert(sdv[i as int] =~= servers@[i as int]@);
            }
            push_all(&mut r, prefix.as_slice());
            push_all(&mut r, servers[i].as_slice());
            r.push(crate::text::NL);
            proof {
                assert(r@ =~= resolver_lines(cur));
            }
            i = i + 1;
        }
        proof {
            assert(sdv.subrange(0, n as int) =~= sdv);
        }
        r
    }
}

/// Index of the last dot in a file name, or `-1` if there is none.
pub open spec fn last_dot(s: Seq<u8>) -> int
    decreases s.len(),
{
    if s.len() == 0 {
        -1
    } else if s.last() == 46 {
        s.len() - 1
    } else {
        last_dot(s.drop_last())
    }
}

/// The file stem of a path: what follows the last path separator, with
/// the extension after the last dot dropped — unless the dot leads, as
/// in a hidden file's name.
pub open spec fn file_stem_spec(p: Seq<u8>) -> Seq<u8> {
    let b = crate::procs::base_name_spec(p);
    if last_dot(b) <= 0 {
        b
    } else {
        b.subrange(0, last_dot(b))
    }
}

proof fn lemma_last_dot_is(s: Seq<u8>, cut: int)
    requires
        0 <= cut <= s.len(),
        forall|j: int| cut <= j < s.len() ==> s[j] != 46,
        cut > 0 ==> s[cut - 1] == 46,
    ensures
        last_dot(s) == cut - 1,
    decreases s.len(),
{
    if s.len() == 0 {
    } else if s.last() == 46 {
        assert(cut == s.len());
    } else {
        let t = s.drop_last();
        assert(forall|j: int| cut <= j < t.len() ==> t[j] == s[j] && t[j] != 46);
        lemma_last_dot_is(t, cut);
    }
}

/// The tunnel interface name: the sanitized configuration's file stem.
pub fn derive_ifname(path: &[u8]) -> (r: Vec<u8>)
    ensures
        r@ == file_stem_spec(path@),
{
    let base = crate::procs::base_name(path);
    let n = base.len();
    let mut cut: usize = n;
    while cut > 0 && base[cut - 1] != 46
        invariant
            0 <= cut <= n == base@.len(),
            forall|j: int| cut <= j < n ==> base@[j] != 46,
        decreases cut,
    {
        cut = cut - 1;
    }
    proof {
        lemma_last_dot_is(base@, cut as int);
    }
    if cut <= 1 {
        proof {
            assert(base@.subrange(0, n as int) =~= base@);
        }
        subvec(base.as_slice(), 0, n)
    } else {
        subvec(base.as_slice(), 0, cut - 1)
    }
}

proof fn lemma_table_line_not_dns()
    ensures
        !is_dns_line(table_off_line()),
{
    let tl = table_off_line();
    assert(!is_space(tl[0]));
    assert(trim_front(tl) == tl);
    assert(tl.last() == 102 && !is_space(tl.last()));
    assert(trim_back(tl) == tl);
    assert(trimmed(tl) == tl);
    assert(lower_seq(tl.subrange(0, 4))[0] == lower_byte(tl[0]));
    assert(lower_byte(tl[0]) == 116);
    assert(dns_prefix()[0] == 100);
    assert(lower_seq(tl.subrange(0, 5))[0] == lower_byte(tl[0]));
    assert(dns_space_prefix()[0] == 100);
}

proof fn lemma_keep_lines_no_dns(lines: Seq<Seq<u8>>)
    ensures
        forall|j: int|
            0 <= j < keep_lines(lines).len() ==> !is_dns_line(#[trigger] keep_lines(lines)[j]),
    decreases lines.len(),
{
    if lines.len() > 0 {
        let t = lines.drop_last();
        lemma_keep_lines_no_dns(t);
        assert forall|j: int| 0 <= j < keep_lines(lines).len() implies !is_dns_line(
            #[trigger] keep_lines(lines)[j],
        ) by {
            if !is_dns_line(lines.last()) && j == keep_lines(lines).len() - 1 {
                assert(keep_lines(lines)[j] == lines.last());
            } else {
                assert(keep_lines(lines)[j] == keep_lines(t)[j]);
            }
        }
    }
}

/// If no line is a `DNS=` line, sanitization keeps the file as it is.
pub proof fn lemma_keep_lines_identity(lines: Seq<Seq<u8>>)
    requires
        forall|j: int| 0 <= j < lines.len() ==> !is_dns_line(#[trigger] lines[j]),
    ensures
        keep_lines(lines) == lines,
    decreases lines.len(),
{
    if lines.len() > 0 {
        let t = lines.drop_last();
        assert(forall|j: int| 0 <= j < t.len() ==> t[j] == lines[j]);
        lemma_keep_lines_identity(t);
        assert(keep_lines(lines) =~= lines);
    } else {
        assert(keep_lines(lines) =~= lines);
    }
}

/// Sanitization removes every `DNS=` line: no line of the sanitized
/// output is a `DNS=` line, whatever the input was.
pub proof fn lemma_sanitize_removes_dns(lines: Seq<Seq<u8>>)
    ensures
        forall|j: int|
            0 <= j < sanitize_lines_spec(lines).len() ==> !is_dns_line(
                #[trigger] sanitize_lines_spec(lines)[j],
            ),
{
    let kept = keep_lines(lines);
    let k = first_interface(kept);
    lemma_keep_lines_no_dns(lines);
    lemma_first_interface(kept);
    lemma_table_line_not_dns();
    let out = sanitize_lines_spec(lines);
    if !(has_table_off(lines) || k == kept.len()) {
        assert forall|j: int| 0 <= j < out.len() implies !is_dns_line(#[trigger] out[j]) by {
            if j <= k {
                assert(out[j] == kept.subrange(0, k + 1)[j]);
                assert(out[j] == kept[j]);
            } else if j == k + 1 {
                assert(out[j] == table_off_line());
            } else {
                assert(out[j] == kept.subrange(k + 1, kept.len() as int)[j - k - 2]);
                assert(out[j] == kept[j - 1]);
            }
        }
    }
}

/// Where the `Table = off` directive lands: if some line already carries
/// a `table=off` directive, the output is exactly the kept lines; if none
/// does and the kept lines have an `[Interface]` header, exactly one
/// `Table = off` line is inserted, right after the first such header.
pub proof fn lemma_table_insertion(lines: Seq<Seq<u8>>)
    ensures
        has_table_off(lines) ==> sanitize_lines_spec(lines) == keep_lines(lines),
        !has_table_off(lines) && first_interface(keep_lines(lines)) == keep_lines(lines).len()
            ==> sanitize_lines_spec(lines) == keep_lines(lines),
        !has_table_off(lines) && first_interface(keep_lines(lines)) < keep_lines(lines).len()
            ==> {
            let kept = keep_lines(lines);
            let k = first_interface(kept);
            &&& sanitize_lines_spec(lines) == kept.subrange(0, k + 1) + seq![table_off_line()]
                + kept.subrange(k + 1, kept.len() as int)
            &&& is_interface_line(kept[k])
            &&& forall|j: int| 0 <= j < k ==> !is_interface_line(#[trigger] kept[j])
            &&& sanitize_lines_spec(lines)[k + 1] == table_off_line()
        },
{
    let kept = keep_lines(lines);
    let k = first_interface(kept);
    lemma_first_interface(kept);
    if !has_table_off(lines) && k < kept.len() {
        let out = sanitize_lines_spec(lines);
        assert(out[k + 1] == (kept.subrange(0, k + 1) + seq![table_off_line()])[k + 1]);
    }
}

} // verus!
