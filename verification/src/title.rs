//! Title sanitizer and tokenizer.
//!
//! A raw window title is first sanitized: dash look-alikes (pipe, en dash,
//! em dash) become a plain hyphen and every `.epub` fragment is removed.
//! The sanitized title is then split on the literal delimiter `" -"` into
//! trimmed segments; a title without the delimiter is not recognized as an
//! "app - page - ..." shape and yields no tokens.

use vstd::prelude::*;

use crate::text::{contains_seq, from_chars, has_at, is_space, is_space_exec, match_at, to_chars};

verus! {

/// Characters the sanitizer rewrites to a plain hyphen.
pub open spec fn is_dash_like(c: char) -> bool {
    c == '|' || c == '\u{2013}' || c == '\u{2014}'
}

/// One sanitized character.
pub open spec fn dash_char(c: char) -> char {
    if is_dash_like(c) {
        '-'
    } else {
        c
    }
}

/// All dash look-alikes rewritten.
pub open spec fn dashed(s: Seq<char>) -> Seq<char> {
    s.map_values(|c: char| dash_char(c))
}

/// The fragment removed from sanitized titles.
pub open spec fn epub_pat() -> Seq<char> {
    seq!['.', 'e', 'p', 'u', 'b']
}

/// One left-to-right pass removing non-overlapping occurrences of `pat`.
pub open spec fn strip_all(s: Seq<char>, pat: Seq<char>) -> Seq<char>
    decreases s.len(),
{
    if pat.len() == 0 || s.len() < pat.len() {
        s
    } else if s.subrange(0, pat.len() as int) == pat {
        strip_all(s.skip(pat.len() as int), pat)
    } else {
        seq![s[0]] + strip_all(s.skip(1), pat)
    }
}

/// Removal passes repeated until no occurrence of `pat` is left.
pub open spec fn scrub_all(s: Seq<char>, pat: Seq<char>) -> Seq<char>
    decreases s.len(),
{
    if pat.len() == 0 {
        s
    } else {
        let t = strip_all(s, pat);
        if t.len() < s.len() {
            scrub_all(t, pat)
        } else {
            s
        }
    }
}

/// The sanitized form of a title.
pub open spec fn sanitize_seq(s: Seq<char>) -> Seq<char> {
    scrub_all(dashed(s), epub_pat())
}

/// No character of `s` is a dash look-alike.
pub open spec fn no_dash_like(s: Seq<char>) -> bool {
    forall|i: int| 0 <= i < s.len() ==> !is_dash_like(#[trigger] s[i])
}

proof fn lemma_contains_step(s: Seq<char>, pat: Seq<char>)
    requires
        pat.len() > 0,
        s.len() >= pat.len(),
    ensures
        contains_seq(s, pat) <==> (s.subrange(0, pat.len() as int) == pat || contains_seq(
            s.skip(1),
            pat,
        )),
{
    if s.subrange(0, pat.len() as int) == pat {
        assert(has_at(s, pat, 0));
    }
    if contains_seq(s.skip(1), pat) {
        let i = choose|i: int| has_at(s.skip(1), pat, i);
        assert(s.subrange(i + 1, i + 1 + pat.len()) =~= s.skip(1).subrange(i, i + pat.len()));
        assert(has_at(s, pat, i + 1));
    }
    if contains_seq(s, pat) {
        let i = choose|i: int| has_at(s, pat, i);
        if i == 0 {
            assert(s.subrange(0, pat.len() as int) == pat);
        } else {
            assert(s.skip(1).subrange(i - 1, i - 1 + pat.len()) =~= s.subrange(i, i + pat.len()));
            assert(has_at(s.skip(1), pat, i - 1));
        }
    }
}

proof fn lemma_no_occurrence_short(s: Seq<char>, pat: Seq<char>)
    requires
        s.len() < pat.len(),
    ensures
        !contains_seq(s, pat),
{
    assert(forall|i: int| !has_at(s, pat, i));
}

/// A removal pass never lengthens its input; it keeps the input unchanged
/// exactly when the pattern does not occur in it.
proof fn lemma_strip_all_facts(s: Seq<char>, pat: Seq<char>)
    requires
        pat.len() > 0,
    ensures
        strip_all(s, pat).len() <= s.len(),
        contains_seq(s, pat) ==> strip_all(s, pat).len() < s.len(),
        !contains_seq(s, pat) ==> strip_all(s, pat) == s,
    decreases s.len(),
{
    if s.len() < pat.len() {
        lemma_no_occurrence_short(s, pat);
    } else {
        lemma_contains_step(s, pat);
        if s.subrange(0, pat.len() as int) == pat {
            lemma_strip_all_facts(s.skip(pat.len() as int), pat);
        } else {
            lemma_strip_all_facts(s.skip(1), pat);
            if !contains_seq(s, pat) {
                assert(strip_all(s, pat) =~= s);
            }
        }
    }
}

/// After scrubbing, the pattern no longer occurs.
proof fn lemma_scrub_all_clean(s: Seq<char>, pat: Seq<char>)
    requires
        pat.len() > 0,
    ensures
        !contains_seq(scrub_all(s, pat), pat),
    decreases s.len(),
{
    lemma_strip_all_facts(s, pat);
    let t = strip_all(s, pat);
    if t.len() < s.len() {
        lemma_scrub_all_clean(t, pat);
    }
}

/// Scrubbing a pattern-free sequence changes nothing.
proof fn lemma_scrub_all_of_clean(s: Seq<char>, pat: Seq<char>)
    requires
        pat.len() > 0,
        !contains_seq(s, pat),
    ensures
        scrub_all(s, pat) == s,
{
    lemma_strip_all_facts(s, pat);
}

proof fn lemma_strip_all_no_dash_like(s: Seq<char>, pat: Seq<char>)
    requires
        pat.len() > 0,
        no_dash_like(s),
    ensures
        no_dash_like(strip_all(s, pat)),
    decreases s.len(),
{
    if s.len() < pat.len() {
    } else if s.subrange(0, pat.len() as int) == pat {
        lemma_strip_all_no_dash_like(s.skip(pat.len() as int), pat);
    } else {
        lemma_strip_all_no_dash_like(s.skip(1), pat);
        let r = seq![s[0]] + strip_all(s.skip(1), pat);
        assert forall|i: int| 0 <= i < r.len() implies !is_dash_like(#[trigger] r[i]) by {
            if i > 0 {
                assert(r[i] == strip_all(s.skip(1), pat)[i - 1]);
            }
        }
    }
}

proof fn lemma_scrub_all_no_dash_like(s: Seq<char>, pat: Seq<char>)
    requires
        pat.len() > 0,
        no_dash_like(s),
    ensures
        no_dash_like(scrub_all(s, pat)),
    decreases s.len(),
{
    lemma_strip_all_facts(s, pat);
    lemma_strip_all_no_dash_like(s, pat);
    let t = strip_all(s, pat);
    if t.len() < s.len() {
        lemma_scrub_all_no_dash_like(t, pat);
    }
}

proof fn lemma_dashed_no_dash_like(s: Seq<char>)
    ensures
        no_dash_like(dashed(s)),
{
    assert forall|i: int| 0 <= i < dashed(s).len() implies !is_dash_like(
        #[trigger] dashed(s)[i],
    ) by {
        assert(dashed(s)[i] == dash_char(s[i]));
    }
}

proof fn lemma_dashed_fixed(s: Seq<char>)
    requires
        no_dash_like(s),
    ensures
        dashed(s) == s,
{
    assert(dashed(s) =~= s);
}

/// Sanitizing is idempotent: a second pass over an already sanitized title
/// changes nothing.
pub proof fn lemma_sanitize_idempotent(s: Seq<char>)
    ensures
        sanitize_seq(sanitize_seq(s)) == sanitize_seq(s),
{
    let t = sanitize_seq(s);
    lemma_dashed_no_dash_like(s);
    lemma_scrub_all_no_dash_like(dashed(s), epub_pat());
    lemma_dashed_fixed(t);
    lemma_scrub_all_clean(dashed(s), epub_pat());
    lemma_scrub_all_of_clean(t, epub_pat());
}

/// The token delimiter: a space followed by a hyphen.
pub open spec fn delim_pat() -> Seq<char> {
    seq![' ', '-']
}

/// `s` without leading whitespace.
pub open spec fn trim_start_seq(s: Seq<char>) -> Seq<char>
    decreases s.len(),
{
    if s.len() > 0 && is_space(s[0]) {
        trim_start_seq(s.skip(1))
    } else {
        s
    }
}

/// `s` without trailing whitespace.
pub open spec fn trim_end_seq(s: Seq<char>) -> Seq<char>
    decreases s.len(),
{
    if s.len() > 0 && is_space(s[s.len() - 1]) {
        trim_end_seq(s.take(s.len() - 1))
    } else {
        s
    }
}

/// `s` without leading and trailing whitespace.
pub open spec fn trim_seq(s: Seq<char>) -> Seq<char> {
    trim_end_seq(trim_start_seq(s))
}

/// `s` split on each non-overlapping, leftmost occurrence of `d`.
pub open spec fn split_seq(s: Seq<char>, d: Seq<char>) -> Seq<Seq<char>>
    decreases s.len(),
{
    if d.len() == 0 || s.len() < d.len() {
        seq![s]
    } else if s.subrange(0, d.len() as int) == d {
        seq![Seq::<char>::empty()] + split_seq(s.skip(d.len() as int), d)
    } else {
        let r = split_seq(s.skip(1), d);
        seq![seq![s[0]] + r[0]] + r.skip(1)
    }
}

/// The token list of a sanitized title: `None` when the delimiter is absent,
/// otherwise the segments between delimiters, each trimmed, in title order.
pub open spec fn tokens_spec(s: Seq<char>) -> Option<Seq<Seq<char>>> {
    if contains_seq(s, delim_pat()) {
        Some(split_seq(s, delim_pat()).map_values(|t: Seq<char>| trim_seq(t)))
    } else {
        None
    }
}

/// The sequence of views of a token vector.
pub open spec fn views(ts: Seq<String>) -> Seq<Seq<char>> {
    ts.map_values(|t: String| t@)
}

proof fn lemma_split_seq_len(s: Seq<char>, d: Seq<char>)
    ensures
        split_seq(s, d).len() >= 1,
    decreases s.len(),
{
    if d.len() == 0 || s.len() < d.len() {
    } else if s.subrange(0, d.len() as int) == d {
        lemma_split_seq_len(s.skip(d.len() as int), d);
    } else {
        lemma_split_seq_len(s.skip(1), d);
    }
}

fn trim_chars(v: &Vec<char>) -> (r: Vec<char>)
    ensures
        r@ == trim_seq(v@),
{
    let mut a: usize = 0;
    let mut b: usize = v.len();
    proof {
        assert(v@.skip(0) =~= v@);
    }
    while a < b && is_space_exec(v[a])
        invariant
            a <= b <= v@.len(),
            trim_start_seq(v@) == trim_start_seq(v@.skip(a as int)),
            b == v@.len(),
        decreases b - a,
    {
        proof {
            assert(v@.skip(a as int).skip(1) =~= v@.skip(a + 1));
        }
        a += 1;
    }
    proof {
        if a < b {
            assert(trim_start_seq(v@.skip(a as int)) == v@.skip(a as int));
        } else {
            assert(v@.skip(a as int) =~= Seq::<char>::empty());
            assert(trim_start_seq(v@) =~= v@.skip(a as int));
        }
    }
    let ghost st = v@.skip(a as int);
    proof {
        assert(st.take(b - a) =~= st);
    }
    while b > a && is_space_exec(v[b - 1])
        invariant
            a <= b <= v@.len(),
            st == v@.skip(a as int),
            trim_start_seq(v@) == st,
            trim_end_seq(st) == trim_end_seq(st.take(b - a)),
        decreases b,
    {
        proof {
            assert(st.take(b - a)[b - a - 1] == v@[b - 1]);
            assert(st.take(b - a).take(b - a - 1) =~= st.take(b - 1 - a));
        }
        b -= 1;
    }
    proof {
        let cur = st.take(b - a);
        if b > a {
            assert(cur[cur.len() - 1] == v@[b - 1]);
            assert(trim_end_seq(cur) == cur);
        } else {
            assert(cur =~= Seq::<char>::empty());
            assert(trim_end_seq(cur) == cur);
        }
    }
    let mut r: Vec<char> = Vec::new();
    let mut i: usize = a;
    while i < b
        invariant
            a <= i <= b <= v@.len(),
            r@ == v@.subrange(a as int, i as int),
        decreases b - i,
    {
        r.push(v[i]);
        i += 1;
        proof {
            assert(v@.subrange(a as int, i as int) =~= v@.subrange(a as int, i - 1).push(
                v@[i - 1],
            ));
        }
    }
    proof {
        assert(r@ =~= st.take(b - a));
    }
    r
}

/// `seq![first + rest[0]] + rest[1..]`: the shape of a split whose first
/// segment is still being accumulated.
spec fn prepend_first(p: Seq<char>, rest: Seq<Seq<char>>) -> Seq<Seq<char>> {
    seq![p + rest[0]] + rest.skip(1)
}

fn split_chars(v: &Vec<char>, d: &Vec<char>) -> (r: Vec<Vec<char>>)
    requires
        d@.len() > 0,
    ensures
        r@.map_values(|t: Vec<char>| t@) == split_seq(v@, d@),
{
    let mut out: Vec<Vec<char>> = Vec::new();
    let mut cur: Vec<char> = Vec::new();
    let mut i: usize = 0;
    let n = v.len();
    let dlen = d.len();
    proof {
        assert(v@.skip(0) =~= v@);
        lemma_split_seq_len(v@, d@);
        assert(out@.map_values(|t: Vec<char>| t@) + prepend_first(cur@, split_seq(v@, d@))
            =~= prepend_first(cur@, split_seq(v@, d@)));
        assert(prepend_first(Seq::<char>::empty(), split_seq(v@, d@)) =~= split_seq(v@, d@));
    }
    while i < n
        invariant
            i <= n,
            n == v@.len(),
            dlen == d@.len(),
            dlen > 0,
            split_seq(v@, d@) == out@.map_values(|t: Vec<char>| t@) + prepend_first(
                cur@,
                split_seq(v@.skip(i as int), d@),
            ),
        decreases n - i,
    {
        let ghost rem = v@.skip(i as int);
        let ghost outv = out@.map_values(|t: Vec<char>| t@);
        if dlen <= n - i && match_at(v, d, i) {
            proof {
                assert(rem.subrange(0, dlen as int) =~= v@.subrange(i as int, i + dlen));
                assert(rem.skip(dlen as int) =~= v@.skip(i + dlen));
                let tail = split_seq(v@.skip(i + dlen), d@);
                lemma_split_seq_len(v@.skip(i + dlen), d@);
                assert(split_seq(rem, d@) =~= seq![Seq::<char>::empty()] + tail);
                assert(prepend_first(cur@, seq![Seq::<char>::empty()] + tail) =~= seq![cur@]
                    + prepend_first(Seq::<char>::empty(), tail));
                assert(prepend_first(Seq::<char>::empty(), tail) =~= tail);
                assert(outv + (seq![cur@] + tail) =~= outv.push(cur@) + tail);
                assert(outv.push(cur@) =~= (out@.push(cur)).map_values(|t: Vec<char>| t@));
                assert(tail =~= prepend_first(Seq::<char>::empty(), tail));
            }
            out.push(cur);
            cur = Vec::new();
            i += dlen;
        } else {
            proof {
                if dlen <= rem.len() {
                    assert(rem.subrange(0, dlen as int) =~= v@.subrange(i as int, i + dlen));
                    assert(rem.subrange(0, dlen as int) != d@);
                    assert(rem.skip(1) =~= v@.skip(i + 1));
                    let r2 = split_seq(v@.skip(i + 1), d@);
                    lemma_split_seq_len(v@.skip(i + 1), d@);
                    assert(split_seq(rem, d@) =~= seq![seq![rem[0]] + r2[0]] + r2.skip(1));
                    assert(prepend_first(cur@, split_seq(rem, d@)) =~= prepend_first(
                        cur@.push(rem[0]),
                        r2,
                    )) by {
                        assert((cur@ + (seq![rem[0]] + r2[0])) =~= (cur@.push(rem[0]) + r2[0]));
                        assert((seq![seq![rem[0]] + r2[0]] + r2.skip(1)).skip(1) =~= r2.skip(1));
                    }
                } else {
                    assert(split_seq(rem, d@) =~= seq![rem]);
                    assert(rem.skip(1) =~= v@.skip(i + 1));
                    assert(split_seq(v@.skip(i + 1), d@) =~= seq![v@.skip(i + 1)]);
                    assert(prepend_first(cur@, seq![rem]) =~= prepend_first(
                        cur@.push(rem[0]),
                        seq![v@.skip(i + 1)],
                    )) by {
                        assert(cur@ + rem =~= cur@.push(rem[0]) + v@.skip(i + 1));
                    }
                }
            }
            let c = v[i];
            cur.push(c);
            i += 1;
        }
    }
    proof {
        let rem = v@.skip(n as int);
        assert(rem =~= Seq::<char>::empty());
        assert(split_seq(rem, d@) =~= seq![Seq::<char>::empty()]);
        assert(prepend_first(cur@, seq![Seq::<char>::empty()]) =~= seq![cur@]) by {
            assert(cur@ + Seq::<char>::empty() =~= cur@);
        }
    }
    let ghost outv = out@.map_values(|t: Vec<char>| t@);
    out.push(cur);
    proof {
        assert(out@.map_values(|t: Vec<char>| t@) =~= split_seq(v@, d@));
    }
    out
}

/// The delimiter `" -"` as a character vector.
fn delim_chars() -> (r: Vec<char>)
    ensures
        r@ == delim_pat(),
{
    let mut r: Vec<char> = Vec::new();
    r.push(' ');
    r.push('-');
    proof {
        assert(r@ =~= delim_pat());
    }
    r
}

/// Splits a sanitized title on the literal delimiter `" -"` into trimmed
/// segments, in title order. Returns `None` when the delimiter is absent:
/// the title does not have the recognized "app - page - ..." shape.
pub fn tokenize(title: &str) -> (r: Option<Vec<String>>)
    ensures
        match r {
            Some(ts) => tokens_spec(title@) == Some(views(ts@)),
            None => tokens_spec(title@) is None,
        },
{
    let v = to_chars(title);
    let d = delim_chars();
    if !crate::text::contains_chars(&v, &d) {
        return None;
    }
    let parts = split_chars(&v, &d);
    let mut out: Vec<String> = Vec::new();
    let mut i: usize = 0;
    while i < parts.len()
        invariant
            i <= parts@.len(),
            views(out@) == parts@.map_values(|t: Vec<char>| t@).subrange(0, i as int).map_values(
                |t: Seq<char>| trim_seq(t),
            ),
        decreases parts.len() - i,
    {
        let t = trim_chars(&parts[i]);
        out.push(from_chars(&t));
        i += 1;
        proof {
            let all = parts@.map_values(|t: Vec<char>| t@);
            assert(all.subrange(0, i as int).map_values(|t: Seq<char>| trim_seq(t)) =~= all
                .subrange(0, i - 1)
                .map_values(|t: Seq<char>| trim_seq(t))
                .push(trim_seq(all[i - 1])));
            assert(views(out@) =~= all.subrange(0, i as int).map_values(
                |t: Seq<char>| trim_seq(t),
            ));
        }
    }
    proof {
        let all = parts@.map_values(|t: Vec<char>| t@);
        assert(all.subrange(0, all.len() as int) =~= all);
    }
    Some(out)
}

/// The `.epub` fragment as a character vector.
fn epub_chars() -> (r: Vec<char>)
    ensures
        r@ == epub_pat(),
{
    let mut r: Vec<char> = Vec::new();
    r.push('.');
    r.push('e');
    r.push('p');
    r.push('u');
    r.push('b');
    proof {
        assert(r@ =~= epub_pat());
    }
    r
}

fn dashed_chars(v: &Vec<char>) -> (r: Vec<char>)
    ensures
        r@ == dashed(v@),
{
    let mut r: Vec<char> = Vec::new();
    let mut i: usize = 0;
    while i < v.len()
        invariant
            i <= v.len(),
            r@ == dashed(v@.subrange(0, i as int)),
        decreases v.len() - i,
    {
        let c = v[i];
        if c == '|' || c == '\u{2013}' || c == '\u{2014}' {
            r.push('-');
        } else {
            r.push(c);
        }
        i += 1;
        proof {
            assert(dashed(v@.subrange(0, i as int)) =~= dashed(v@.subrange(0, i - 1)).push(
                dash_char(v@[i - 1]),
            ));
        }
    }
    proof {
        assert(v@.subrange(0, v@.len() as int) =~= v@);
    }
    r
}

fn strip_all_exec(v: &Vec<char>, pat: &Vec<char>) -> (r: Vec<char>)
    requires
        pat@.len() > 0,
    ensures
        r@ == strip_all(v@, pat@),
{
    let mut out: Vec<char> = Vec::new();
    let mut i: usize = 0;
    let n = v.len();
    let plen = pat.len();
    proof {
        assert(v@.skip(0) =~= v@);
        assert(Seq::<char>::empty() + strip_all(v@, pat@) =~= strip_all(v@, pat@));
    }
    while i < n
        invariant
            i <= n,
            n == v@.len(),
            plen == pat@.len(),
            plen > 0,
            strip_all(v@, pat@) == out@ + strip_all(v@.skip(i as int), pat@),
        decreases n - i,
    {
        let ghost rem = v@.skip(i as int);
        if plen <= n - i && match_at(v, pat, i) {
            proof {
                assert(rem.subrange(0, plen as int) =~= v@.subrange(i as int, i + plen));
                assert(rem.skip(plen as int) =~= v@.skip(i + plen));
            }
            i += plen;
        } else {
            proof {
                if i + plen <= n {
                    assert(rem.subrange(0, plen as int) =~= v@.subrange(i as int, i + plen));
                    assert(rem.subrange(0, plen as int) != pat@);
                } else {
                    assert(rem.len() < plen);
                }
                assert(rem.skip(1) =~= v@.skip(i + 1));
                if rem.len() >= plen {
                    assert(out@ + strip_all(rem, pat@) =~= out@.push(rem[0]) + strip_all(
                        v@.skip(i + 1),
                        pat@,
                    ));
                } else {
                    assert(strip_all(v@.skip(i + 1), pat@) =~= v@.skip(i + 1));
                    assert(out@ + rem =~= out@.push(rem[0]) + v@.skip(i + 1));
                }
            }
            out.push(v[i]);
            i += 1;
        }
    }
    proof {
        assert(v@.skip(n as int) =~= Seq::<char>::empty());
        assert(strip_all(v@, pat@) =~= out@);
    }
    out
}

fn scrub_all_exec(v: Vec<char>, pat: &Vec<char>) -> (r: Vec<char>)
    requires
        pat@.len() > 0,
    ensures
        r@ == scrub_all(v@, pat@),
{
    let mut cur = v;
    loop
        invariant
            pat@.len() > 0,
            scrub_all(cur@, pat@) == scrub_all(v@, pat@),
        decreases cur@.len(),
    {
        let next = strip_all_exec(&cur, pat);
        proof {
            lemma_strip_all_facts(cur@, pat@);
        }
        if next.len() < cur.len() {
            cur = next;
        } else {
            proof {
                assert(scrub_all(cur@, pat@) == cur@);
            }
            return cur;
        }
    }
}

/// Rewrites dash look-alike characters (pipe, en dash, em dash) in a window
/// title to a plain hyphen; `None` passes through unchanged.
pub fn clean_window_title_string(window_title: Option<String>) -> (r: Option<String>)
    ensures
        match window_title {
            Some(t) => r matches Some(c) && c@ == dashed(t@),
            None => r is None,
        },
{
    match window_title {
        Some(t) => {
            let v = to_chars(t.as_str());
            let d = dashed_chars(&v);
            Some(from_chars(&d))
        },
        None => None,
    }
}

/// Sanitizes a raw window title: dash look-alikes become hyphens and every
/// `.epub` fragment is removed, repeatedly, until none is left. `None`
/// (nothing open) passes through unchanged.
pub fn sanitize(window_title: Option<String>) -> (r: Option<String>)
    ensures
        match window_title {
            Some(t) => r matches Some(c) && c@ == sanitize_seq(t@),
            None => r is None,
        },
{
    match window_title {
        Some(t) => {
            let v = to_chars(t.as_str());
            let d = dashed_chars(&v);
            let pat = epub_chars();
            let clean = scrub_all_exec(d, &pat);
            Some(from_chars(&clean))
        },
        None => None,
    }
}

} // verus!
