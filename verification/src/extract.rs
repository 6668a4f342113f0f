//! Numeric extractor: finds volume, chapter and side-story numbers in the
//! tokens of a sanitized window title.
//!
//! Each category has a small pattern grammar, applied to the lowercased
//! token, leftmost match first:
//!
//! - volume: `v`, optional `ol`, optional `ume`, an optional punctuation mark
//!   (`. : ; - _`), an optional whitespace character, then digits;
//! - chapter: `c`, optional `h`, optional `apter`, then punctuation/space as
//!   above, then digits, optionally followed by `.` and more digits (a
//!   fractional chapter such as `12.2`);
//! - side story: `extra`, `side` or `special`, then any characters up to a
//!   separator character (punctuation or a letter of `story`/`chapter`), an
//!   optional whitespace, an optional `(`, then digits.
//!
//! For these grammars a greedy scan is equivalent to backtracking: whenever an
//! optional piece is present, skipping it leaves a character that can never
//! begin the rest of the pattern.
//!
//! Tokens are scanned in order and the first token that yields a usable
//! number decides each category; a number too large for its type is not
//! usable and the scan moves on to the next token.

use vstd::prelude::*;

use crate::text::{digit_val, has_at, is_digit, is_digit_exec, is_space, is_space_exec,
    lower_of, to_chars};

verus! {

/// Largest whole chapter number the extractor accepts.
pub const CHAPTER_WHOLE_MAX: i64 = 999_999_999;

/// Punctuation accepted between a keyword and its number.
pub open spec fn punct_ok(c: char) -> bool {
    c == '.' || c == ':' || c == ';' || c == '-' || c == '_'
}

/// Index after an optional punctuation mark at `i`.
pub open spec fn after_punct(t: Seq<char>, i: int) -> int {
    if 0 <= i < t.len() && punct_ok(t[i]) {
        i + 1
    } else {
        i
    }
}

/// Index after an optional whitespace character at `i`.
pub open spec fn after_space(t: Seq<char>, i: int) -> int {
    if 0 <= i < t.len() && is_space(t[i]) {
        i + 1
    } else {
        i
    }
}

/// A digit stands at `i`.
pub open spec fn digits_at(t: Seq<char>, i: int) -> bool {
    0 <= i < t.len() && is_digit(t[i])
}

/// End (exclusive) of the digit run starting at `i`.
pub open spec fn digit_run_end(t: Seq<char>, i: int) -> int
    decreases t.len() - i when 0 <= i <= t.len()
{
    if i < t.len() && is_digit(t[i]) {
        digit_run_end(t, i + 1)
    } else {
        i
    }
}

/// Value of a run of decimal digits.
pub open spec fn digits_value(s: Seq<char>) -> int
    decreases s.len(),
{
    if s.len() == 0 {
        0
    } else {
        digits_value(s.take(s.len() - 1)) * 10 + digit_val(s[s.len() - 1])
    }
}

/// `ol` stands at `i`.
pub open spec fn ol_at(t: Seq<char>, i: int) -> bool {
    0 <= i && i + 2 <= t.len() && t[i] == 'o' && t[i + 1] == 'l'
}

/// `ume` stands at `i`.
pub open spec fn ume_at(t: Seq<char>, i: int) -> bool {
    0 <= i && i + 3 <= t.len() && t[i] == 'u' && t[i + 1] == 'm' && t[i + 2] == 'e'
}

/// Index after the volume keyword beginning at `i` (`v`, `vol`, `vume`,
/// `volume`), greedily extended.
pub open spec fn vol_key_end(t: Seq<char>, i: int) -> int {
    let j = if ol_at(t, i + 1) {
        i + 3
    } else {
        i + 1
    };
    if ume_at(t, j) {
        j + 3
    } else {
        j
    }
}

/// Start of the digits of a volume pattern anchored at `i`.
pub open spec fn vol_digit_start(t: Seq<char>, i: int) -> int {
    after_space(t, after_punct(t, vol_key_end(t, i)))
}

/// A complete volume pattern is anchored at `i`.
pub open spec fn vol_match_at(t: Seq<char>, i: int) -> bool {
    0 <= i < t.len() && t[i] == 'v' && digits_at(t, vol_digit_start(t, i))
}

/// The digits captured by the leftmost volume pattern at or after `i`.
pub open spec fn vol_capture_from(t: Seq<char>, i: int) -> Option<Seq<char>>
    decreases t.len() - i when 0 <= i <= t.len()
{
    if i >= t.len() {
        None
    } else if vol_match_at(t, i) {
        let k = vol_digit_start(t, i);
        Some(t.subrange(k, digit_run_end(t, k)))
    } else {
        vol_capture_from(t, i + 1)
    }
}

/// `h` stands at `i`.
pub open spec fn h_at(t: Seq<char>, i: int) -> bool {
    0 <= i < t.len() && t[i] == 'h'
}

/// `apter` stands at `i`.
pub open spec fn apter_at(t: Seq<char>, i: int) -> bool {
    0 <= i && i + 5 <= t.len() && t[i] == 'a' && t[i + 1] == 'p' && t[i + 2] == 't' && t[i + 3]
        == 'e' && t[i + 4] == 'r'
}

/// Index after the chapter keyword beginning at `i` (`c`, `ch`, `capter`,
/// `chapter`), greedily extended.
pub open spec fn ch_key_end(t: Seq<char>, i: int) -> int {
    let j = if h_at(t, i + 1) {
        i + 2
    } else {
        i + 1
    };
    if apter_at(t, j) {
        j + 5
    } else {
        j
    }
}

/// Start of the digits of a chapter pattern anchored at `i`.
pub open spec fn ch_digit_start(t: Seq<char>, i: int) -> int {
    after_space(t, after_punct(t, ch_key_end(t, i)))
}

/// A complete chapter pattern is anchored at `i`.
pub open spec fn ch_match_at(t: Seq<char>, i: int) -> bool {
    0 <= i < t.len() && t[i] == 'c' && digits_at(t, ch_digit_start(t, i))
}

/// End (exclusive) of a chapter number starting at digit position `k`:
/// the digit run, extended over `.` and a second digit run when a fractional
/// part follows.
pub open spec fn ch_number_end(t: Seq<char>, k: int) -> int {
    let e = digit_run_end(t, k);
    if e < t.len() && t[e] == '.' && digits_at(t, e + 1) {
        digit_run_end(t, e + 1)
    } else {
        e
    }
}

/// The number (with any fractional part) captured by the leftmost chapter
/// pattern at or after `i`.
pub open spec fn ch_capture_from(t: Seq<char>, i: int) -> Option<Seq<char>>
    decreases t.len() - i when 0 <= i <= t.len()
{
    if i >= t.len() {
        None
    } else if ch_match_at(t, i) {
        let k = ch_digit_start(t, i);
        Some(t.subrange(k, ch_number_end(t, k)))
    } else {
        ch_capture_from(t, i + 1)
    }
}

/// A separator accepted between a side-story keyword and its number: the
/// punctuation marks or any letter of `story` / `chapter`.
pub open spec fn class_ok(c: char) -> bool {
    punct_ok(c) || c == 's' || c == 't' || c == 'o' || c == 'r' || c == 'y' || c == '|' || c == 'c'
        || c == 'h' || c == 'a' || c == 'p' || c == 'e'
}

/// Index after an optional opening parenthesis at `i`.
pub open spec fn after_paren(t: Seq<char>, i: int) -> int {
    if 0 <= i < t.len() && t[i] == '(' {
        i + 1
    } else {
        i
    }
}

/// Start of the digits of a side-story pattern whose separator stands at `m`.
pub open spec fn side_digit_start(t: Seq<char>, m: int) -> int {
    after_paren(t, after_space(t, m + 1))
}

/// A separator at `m` is followed by digits (after optional space and `(`).
pub open spec fn side_complete_at(t: Seq<char>, m: int) -> bool {
    0 <= m < t.len() && class_ok(t[m]) && digits_at(t, side_digit_start(t, m))
}

/// The first position at or after `m` where a side-story separator completes.
pub open spec fn side_m_from(t: Seq<char>, m: int) -> Option<int>
    decreases t.len() - m when 0 <= m <= t.len()
{
    if m >= t.len() {
        None
    } else if side_complete_at(t, m) {
        Some(m)
    } else {
        side_m_from(t, m + 1)
    }
}

/// The digits captured by the leftmost side-story pattern with keyword `kw`
/// at or after `i`.
pub open spec fn side_capture_from(t: Seq<char>, kw: Seq<char>, i: int) -> Option<Seq<char>>
    decreases t.len() - i when 0 <= i <= t.len() && kw.len() > 0
{
    if i >= t.len() {
        None
    } else if has_at(t, kw, i) {
        match side_m_from(t, i + kw.len()) {
            Some(m) => {
                let k = side_digit_start(t, m);
                Some(t.subrange(k, digit_run_end(t, k)))
            },
            None => side_capture_from(t, kw, i + 1),
        }
    } else {
        side_capture_from(t, kw, i + 1)
    }
}

/// The digits captured by the first side-story keyword (`extra`, `side`,
/// `special`, in that order) that matches in the token.
pub open spec fn side_capture_token(t: Seq<char>) -> Option<Seq<char>> {
    match side_capture_from(t, "extra"@, 0) {
        Some(d) => Some(d),
        None => match side_capture_from(t, "side"@, 0) {
            Some(d) => Some(d),
            None => side_capture_from(t, "special"@, 0),
        },
    }
}

/// Every character of `s` is a decimal digit.
pub open spec fn all_digits(s: Seq<char>) -> bool {
    forall|i: int| 0 <= i < s.len() ==> is_digit(#[trigger] s[i])
}

/// The value of a digit run, when it fits an `i32`.
pub open spec fn parse_i32_spec(s: Seq<char>) -> Option<i32> {
    if digits_value(s) <= i32::MAX {
        Some(digits_value(s) as i32)
    } else {
        None
    }
}

/// A chapter capture holds a fractional part.
pub open spec fn ch_fractional(s: Seq<char>) -> bool {
    digit_run_end(s, 0) < s.len()
}

/// Hundredths encoded by a fractional digit run; digits beyond the second
/// carry no weight.
pub open spec fn frac_hundredths(f: Seq<char>) -> int {
    if f.len() == 0 {
        0
    } else if f.len() == 1 {
        digit_val(f[0]) * 10
    } else {
        digit_val(f[0]) * 10 + digit_val(f[1])
    }
}

/// The chapter number captured by `s` (digits, optionally `.` and digits),
/// in hundredths of a chapter; `None` when the whole part is too large.
pub open spec fn ch_value_spec(s: Seq<char>) -> Option<i64> {
    let e = digit_run_end(s, 0);
    let whole = digits_value(s.take(e));
    let frac = if e < s.len() && s[e] == '.' {
        frac_hundredths(s.skip(e + 1))
    } else {
        0
    };
    if whole <= CHAPTER_WHOLE_MAX {
        Some((whole * 100 + frac) as i64)
    } else {
        None
    }
}

pub(crate) proof fn lemma_digit_run_end_facts(t: Seq<char>, i: int)
    requires
        0 <= i <= t.len(),
    ensures
        i <= digit_run_end(t, i) <= t.len(),
        forall|j: int| i <= j < digit_run_end(t, i) ==> is_digit(#[trigger] t[j]),
        digit_run_end(t, i) == t.len() || !is_digit(t[digit_run_end(t, i)]),
    decreases t.len() - i,
{
    if i < t.len() && is_digit(t[i]) {
        lemma_digit_run_end_facts(t, i + 1);
    }
}

pub(crate) proof fn lemma_digits_value_nonneg(s: Seq<char>)
    requires
        all_digits(s),
    ensures
        digits_value(s) >= 0,
    decreases s.len(),
{
    if s.len() > 0 {
        assert(all_digits(s.take(s.len() - 1)));
        lemma_digits_value_nonneg(s.take(s.len() - 1));
    }
}

proof fn lemma_digits_value_prefix(s: Seq<char>, m: int)
    requires
        all_digits(s),
        0 <= m <= s.len(),
    ensures
        digits_value(s.take(m)) <= digits_value(s),
    decreases s.len() - m,
{
    lemma_digits_value_nonneg(s);
    if m < s.len() {
        assert(all_digits(s.take(s.len() - 1)));
        if m == s.len() - 1 {
            lemma_digits_value_nonneg(s.take(s.len() - 1));
        } else {
            lemma_digits_value_prefix(s.take(s.len() - 1), m);
            assert(s.take(s.len() - 1).take(m) =~= s.take(m));
            lemma_digits_value_nonneg(s.take(s.len() - 1));
        }
    } else {
        assert(s.take(m) =~= s);
    }
}

/// End of the digit run starting at `k`.
pub(crate) fn digit_run_end_exec(t: &Vec<char>, k: usize) -> (r: usize)
    requires
        k <= t@.len(),
    ensures
        r == digit_run_end(t@, k as int),
        k <= r <= t@.len(),
{
    let mut e = k;
    while e < t.len() && is_digit_exec(t[e])
        invariant
            k <= e <= t@.len(),
            digit_run_end(t@, k as int) == digit_run_end(t@, e as int),
        decreases t@.len() - e,
    {
        e += 1;
    }
    proof {
        lemma_digit_run_end_facts(t@, e as int);
    }
    e
}

/// Parses the digit run `t[a..b]` as an `i32`; `None` when it does not fit.
pub(crate) fn parse_i32_digits(t: &Vec<char>, a: usize, b: usize) -> (r: Option<i32>)
    requires
        a <= b <= t@.len(),
        all_digits(t@.subrange(a as int, b as int)),
    ensures
        r == parse_i32_spec(t@.subrange(a as int, b as int)),
{
    let ghost s = t@.subrange(a as int, b as int);
    let mut acc: i64 = 0;
    let mut i = a;
    proof {
        assert(s.take(0) =~= Seq::<char>::empty());
    }
    while i < b
        invariant
            a <= i <= b <= t@.len(),
            s == t@.subrange(a as int, b as int),
            all_digits(s),
            acc == digits_value(s.take(i - a)),
            0 <= acc <= i32::MAX,
        decreases b - i,
    {
        let c = t[i];
        proof {
            assert(s[i - a] == c);
        }
        let d: i64 = (c as u32 - 48) as i64;
        acc = acc * 10 + d;
        i += 1;
        proof {
            assert(s.take(i - a).take(i - a - 1) =~= s.take(i - a - 1));
            assert(s.take(i - a)[i - a - 1] == c);
        }
        if acc > i32::MAX as i64 {
            proof {
                lemma_digits_value_prefix(s, i - a);
            }
            return None;
        }
    }
    proof {
        assert(s.take(b - a) =~= s);
    }
    Some(acc as i32)
}

/// Value in hundredths of the chapter capture `t[a..b]`; `None` when the
/// whole part is too large.
pub(crate) fn ch_value_exec(t: &Vec<char>, a: usize, b: usize) -> (r: Option<i64>)
    requires
        a <= b <= t@.len(),
        digit_run_end(t@.subrange(a as int, b as int), 0) == digit_run_end(t@, a as int) - a,
    ensures
        r == ch_value_spec(t@.subrange(a as int, b as int)),
{
    let ghost s = t@.subrange(a as int, b as int);
    let e = digit_run_end_exec(t, a);
    proof {
        lemma_digit_run_end_facts(t@, a as int);
        assert(e - a <= s.len()) by {
            assert(digit_run_end(s, 0) <= s.len()) by {
                lemma_digit_run_end_facts(s, 0);
            }
        }
    }
    let ghost whole_s = s.take(e - a);
    proof {
        assert(whole_s =~= t@.subrange(a as int, e as int));
        assert(all_digits(whole_s)) by {
            lemma_digit_run_end_facts(t@, a as int);
        }
        assert(s.take(0) =~= Seq::<char>::empty());
    }
    proof {
        assert(e <= b) by {
            lemma_digit_run_end_facts(s, 0);
        }
    }
    let mut acc: i64 = 0;
    let mut i = a;
    while i < e
        invariant
            a <= i <= e <= b <= t@.len(),
            s == t@.subrange(a as int, b as int),
            digit_run_end(s, 0) == e - a,
            whole_s == t@.subrange(a as int, e as int),
            all_digits(whole_s),
            acc == digits_value(whole_s.take(i - a)),
            0 <= acc <= CHAPTER_WHOLE_MAX,
        decreases e - i,
    {
        let c = t[i];
        proof {
            assert(whole_s[i - a] == c);
        }
        let d: i64 = (c as u32 - 48) as i64;
        acc = acc * 10 + d;
        i += 1;
        proof {
            assert(whole_s.take(i - a).take(i - a - 1) =~= whole_s.take(i - a - 1));
            assert(whole_s.take(i - a)[i - a - 1] == c);
        }
        if acc > CHAPTER_WHOLE_MAX {
            proof {
                lemma_digits_value_prefix(whole_s, i - a);
                assert(whole_s =~= s.take(e - a));
            }
            return None;
        }
    }
    proof {
        assert(e <= b) by {
            lemma_digit_run_end_facts(s, 0);
        }
        assert(whole_s.take(e - a) =~= whole_s);
        assert(whole_s =~= s.take(e - a));
    }
    let mut frac: i64 = 0;
    if e < b && b - e >= 2 {
        proof {
            assert(s[e - a] == t@[e as int]);
            assert(digit_run_end(s, 0) == e - a);
        }
        if t[e] == '.' {
            let ghost f = s.skip(e - a + 1);
            let d1: i64 = (t[e + 1] as u32) as i64 - 48;
            proof {
                assert(f[0] == t@[e + 1]);
            }
            if b - e >= 3 {
                let d2: i64 = (t[e + 2] as u32) as i64 - 48;
                proof {
                    assert(f[1] == t@[e + 2]);
                }
                frac = d1 * 10 + d2;
            } else {
                frac = d1 * 10;
            }
            proof {
                assert(frac == frac_hundredths(f));
            }
        }
    } else {
        proof {
            if e < b {
                assert(s[e - a] == t@[e as int]);
            }
        }
    }
    Some(acc * 100 + frac)
}

pub(crate) proof fn lemma_digit_run_end_from(s: Seq<char>, i: int, m: int)
    requires
        0 <= i <= m <= s.len(),
        forall|j: int| i <= j < m ==> is_digit(#[trigger] s[j]),
        m == s.len() || !is_digit(s[m]),
    ensures
        digit_run_end(s, i) == m,
    decreases m - i,
{
    if i < m {
        lemma_digit_run_end_from(s, i + 1, m);
    }
}

fn punct_exec(c: char) -> (r: bool)
    ensures
        r == punct_ok(c),
{
    c == '.' || c == ':' || c == ';' || c == '-' || c == '_'
}

/// Digit start of a volume pattern anchored at `i`, when one matches there.
fn vol_probe(t: &Vec<char>, i: usize) -> (r: Option<usize>)
    requires
        i < t@.len(),
    ensures
        match r {
            Some(k) => vol_match_at(t@, i as int) && k == vol_digit_start(t@, i as int) && k
                < t@.len(),
            None => !vol_match_at(t@, i as int),
        },
{
    if t[i] != 'v' {
        return None;
    }
    let n = t.len();
    let mut j = i + 1;
    if n - j >= 2 && t[j] == 'o' && t[j + 1] == 'l' {
        j += 2;
    }
    if n - j >= 3 && t[j] == 'u' && t[j + 1] == 'm' && t[j + 2] == 'e' {
        j += 3;
    }
    proof {
        assert(j == vol_key_end(t@, i as int));
    }
    let j2 = if j < n && punct_exec(t[j]) {
        j + 1
    } else {
        j
    };
    let j3 = if j2 < n && is_space_exec(t[j2]) {
        j2 + 1
    } else {
        j2
    };
    proof {
        assert(j3 == vol_digit_start(t@, i as int));
    }
    if j3 < n && is_digit_exec(t[j3]) {
        Some(j3)
    } else {
        None
    }
}

/// Digit start of a chapter pattern anchored at `i`, when one matches there.
fn ch_probe(t: &Vec<char>, i: usize) -> (r: Option<usize>)
    requires
        i < t@.len(),
    ensures
        match r {
            Some(k) => ch_match_at(t@, i as int) && k == ch_digit_start(t@, i as int) && k
                < t@.len(),
            None => !ch_match_at(t@, i as int),
        },
{
    if t[i] != 'c' {
        return None;
    }
    let n = t.len();
    let mut j = i + 1;
    if j < n && t[j] == 'h' {
        j += 1;
    }
    if n - j >= 5 && t[j] == 'a' && t[j + 1] == 'p' && t[j + 2] == 't' && t[j + 3] == 'e' && t[j
        + 4] == 'r' {
        j += 5;
    }
    proof {
        assert(j == ch_key_end(t@, i as int));
    }
    let j2 = if j < n && punct_exec(t[j]) {
        j + 1
    } else {
        j
    };
    let j3 = if j2 < n && is_space_exec(t[j2]) {
        j2 + 1
    } else {
        j2
    };
    proof {
        assert(j3 == ch_digit_start(t@, i as int));
    }
    if j3 < n && is_digit_exec(t[j3]) {
        Some(j3)
    } else {
        None
    }
}

/// Leftmost volume capture in the token: the digit range `[k, e)`.
fn vol_capture_exec(t: &Vec<char>) -> (r: Option<(usize, usize)>)
    ensures
        match r {
            Some(p) => {
                let k = p.0;
                let e = p.1;
                &&& k <= e <= t@.len()
                &&& vol_capture_from(t@, 0) == Some(t@.subrange(k as int, e as int))
                &&& all_digits(t@.subrange(k as int, e as int))
                &&& e - k >= 1
            },
            None => vol_capture_from(t@, 0) is None,
        },
{
    let mut i: usize = 0;
    while i < t.len()
        invariant
            i <= t@.len(),
            vol_capture_from(t@, 0) == vol_capture_from(t@, i as int),
        decreases t@.len() - i,
    {
        match vol_probe(t, i) {
            Some(k) => {
                let e = digit_run_end_exec(t, k);
                proof {
                    lemma_digit_run_end_facts(t@, k as int);
                    assert(all_digits(t@.subrange(k as int, e as int)));
                }
                return Some((k, e));
            },
            None => {
                i += 1;
            },
        }
    }
    None
}

/// Leftmost chapter capture in the token: the number range `[k, e)` and
/// whether it holds a fractional part.
fn ch_capture_exec(t: &Vec<char>) -> (r: Option<(usize, usize, bool)>)
    ensures
        match r {
            Some(p) => {
                let k = p.0;
                let e = p.1;
                let s = t@.subrange(k as int, e as int);
                &&& k <= e <= t@.len()
                &&& ch_capture_from(t@, 0) == Some(s)
                &&& digit_run_end(s, 0) == digit_run_end(t@, k as int) - k
                &&& p.2 == ch_fractional(s)
                &&& all_digits(s.take(digit_run_end(s, 0)))
                &&& (ch_fractional(s) ==> all_digits(s.skip(digit_run_end(s, 0) + 1)))
            },
            None => ch_capture_from(t@, 0) is None,
        },
{
    let mut i: usize = 0;
    while i < t.len()
        invariant
            i <= t@.len(),
            ch_capture_from(t@, 0) == ch_capture_from(t@, i as int),
        decreases t@.len() - i,
    {
        match ch_probe(t, i) {
            Some(k) => {
                let e1 = digit_run_end_exec(t, k);
                let n = t.len();
                let fractional = e1 < n && n - e1 >= 2 && t[e1] == '.' && is_digit_exec(t[e1 + 1]);
                let e = if fractional {
                    digit_run_end_exec(t, e1 + 1)
                } else {
                    e1
                };
                proof {
                    lemma_digit_run_end_facts(t@, k as int);
                    assert(e == ch_number_end(t@, k as int));
                    let s = t@.subrange(k as int, e as int);
                    lemma_digit_run_end_from(s, 0, e1 - k);
                    assert(s.take(e1 - k) =~= t@.subrange(k as int, e1 as int));
                    if fractional {
                        assert(ch_fractional(s));
                        lemma_digit_run_end_facts(t@, e1 + 1);
                        assert(s.skip(e1 - k + 1) =~= t@.subrange(e1 + 1, e as int));
                        assert(all_digits(s.skip(digit_run_end(s, 0) + 1)));
                    } else {
                        assert(!ch_fractional(s));
                    }
                }
                return Some((k, e, fractional));
            },
            None => {
                i += 1;
            },
        }
    }
    None
}

fn class_exec(c: char) -> (r: bool)
    ensures
        r == class_ok(c),
{
    punct_exec(c) || c == 's' || c == 't' || c == 'o' || c == 'r' || c == 'y' || c == '|' || c
        == 'c' || c == 'h' || c == 'a' || c == 'p' || c == 'e'
}

/// Digit start after a completing separator at `m`, when one stands there.
fn side_probe(t: &Vec<char>, m: usize) -> (r: Option<usize>)
    requires
        m < t@.len(),
    ensures
        match r {
            Some(k) => side_complete_at(t@, m as int) && k == side_digit_start(t@, m as int) && k
                < t@.len(),
            None => !side_complete_at(t@, m as int),
        },
{
    if !class_exec(t[m]) {
        return None;
    }
    let n = t.len();
    let p = m + 1;
    let p2 = if p < n && is_space_exec(t[p]) {
        p + 1
    } else {
        p
    };
    let p3 = if p2 < n && t[p2] == '(' {
        p2 + 1
    } else {
        p2
    };
    proof {
        assert(p3 == side_digit_start(t@, m as int));
    }
    if p3 < n && is_digit_exec(t[p3]) {
        Some(p3)
    } else {
        None
    }
}

/// First completing separator at or after `m0`.
fn side_m_exec(t: &Vec<char>, m0: usize) -> (r: Option<usize>)
    requires
        m0 <= t@.len(),
    ensures
        match r {
            Some(m) => side_m_from(t@, m0 as int) == Some(m as int) && m < t@.len()
                && side_complete_at(t@, m as int),
            None => side_m_from(t@, m0 as int) is None,
        },
{
    let mut m = m0;
    while m < t.len()
        invariant
            m0 <= m <= t@.len(),
            side_m_from(t@, m0 as int) == side_m_from(t@, m as int),
        decreases t@.len() - m,
    {
        match side_probe(t, m) {
            Some(_) => {
                return Some(m);
            },
            None => {
                m += 1;
            },
        }
    }
    None
}

/// `kw` occurs in `t` at position `i`.
pub fn has_at_exec(t: &Vec<char>, kw: &Vec<char>, i: usize) -> (r: bool)
    requires
        i <= t@.len(),
    ensures
        r == has_at(t@, kw@, i as int),
{
    if kw.len() <= t.len() - i {
        crate::text::match_at(t, kw, i)
    } else {
        false
    }
}

/// Leftmost side-story capture for keyword `kw`: the digit range `[k, e)`.
fn side_capture_kw_exec(t: &Vec<char>, kw: &Vec<char>) -> (r: Option<(usize, usize)>)
    requires
        kw@.len() > 0,
    ensures
        match r {
            Some(p) => {
                let k = p.0;
                let e = p.1;
                &&& k <= e <= t@.len()
                &&& side_capture_from(t@, kw@, 0) == Some(t@.subrange(k as int, e as int))
                &&& all_digits(t@.subrange(k as int, e as int))
            },
            None => side_capture_from(t@, kw@, 0) is None,
        },
{
    let mut i: usize = 0;
    while i < t.len()
        invariant
            i <= t@.len(),
            kw@.len() > 0,
            side_capture_from(t@, kw@, 0) == side_capture_from(t@, kw@, i as int),
        decreases t@.len() - i,
    {
        if has_at_exec(t, kw, i) {
            match side_m_exec(t, i + kw.len()) {
                Some(m) => {
                    match side_probe(t, m) {
                        Some(k) => {
                            let e = digit_run_end_exec(t, k);
                            proof {
                                lemma_digit_run_end_facts(t@, k as int);
                                assert(all_digits(t@.subrange(k as int, e as int)));
                            }
                            return Some((k, e));
                        },
                        None => {
                            proof {
                                assert(false);
                            }
                        },
                    }
                },
                None => {
                    i += 1;
                },
            }
        } else {
            i += 1;
        }
    }
    None
}

/// Leftmost capture of the first matching side-story keyword.
fn side_capture_exec(t: &Vec<char>) -> (r: Option<(usize, usize)>)
    ensures
        match r {
            Some(p) => {
                let k = p.0;
                let e = p.1;
                &&& k <= e <= t@.len()
                &&& side_capture_token(t@) == Some(t@.subrange(k as int, e as int))
                &&& all_digits(t@.subrange(k as int, e as int))
            },
            None => side_capture_token(t@) is None,
        },
{
    proof {
        reveal_strlit("extra");
        reveal_strlit("side");
        reveal_strlit("special");
    }
    let extra = to_chars("extra");
    match side_capture_kw_exec(t, &extra) {
        Some(p) => Some(p),
        None => {
            let side = to_chars("side");
            match side_capture_kw_exec(t, &side) {
                Some(p) => Some(p),
                None => {
                    let special = to_chars("special");
                    side_capture_kw_exec(t, &special)
                },
            }
        },
    }
}

/// Volume of a token list: the first token, at or after `i`, whose lowercased
/// text yields a usable volume number; zero when none does.
pub open spec fn vol_scan(ts: Seq<Seq<char>>, i: int) -> i32
    decreases ts.len() - i when 0 <= i <= ts.len()
{
    if i >= ts.len() {
        0
    } else {
        match vol_capture_from(lower_of(ts[i]), 0) {
            Some(ds) => match parse_i32_spec(ds) {
                Some(v) => v,
                None => vol_scan(ts, i + 1),
            },
            None => vol_scan(ts, i + 1),
        }
    }
}

/// Chapter of a token list, in hundredths, together with whether the number
/// that decided it was fractional; `(0, false)` when no token yields one.
pub open spec fn ch_scan(ts: Seq<Seq<char>>, i: int) -> (i64, bool)
    decreases ts.len() - i when 0 <= i <= ts.len()
{
    if i >= ts.len() {
        (0, false)
    } else {
        match ch_capture_from(lower_of(ts[i]), 0) {
            Some(ds) => match ch_value_spec(ds) {
                Some(v) => (v, ch_fractional(ds)),
                None => ch_scan(ts, i + 1),
            },
            None => ch_scan(ts, i + 1),
        }
    }
}

/// Side-story count of a token list; zero when no token yields one.
pub open spec fn side_scan(ts: Seq<Seq<char>>, i: int) -> i32
    decreases ts.len() - i when 0 <= i <= ts.len()
{
    if i >= ts.len() {
        0
    } else {
        match side_capture_token(lower_of(ts[i])) {
            Some(ds) => match parse_i32_spec(ds) {
                Some(v) => v,
                None => side_scan(ts, i + 1),
            },
            None => side_scan(ts, i + 1),
        }
    }
}

pub(crate) proof fn lemma_ch_value_nonneg(s: Seq<char>)
    requires
        all_digits(s.take(digit_run_end(s, 0))),
        (digit_run_end(s, 0) < s.len() && s[digit_run_end(s, 0)] == '.') ==> all_digits(
            s.skip(digit_run_end(s, 0) + 1),
        ),
    ensures
        match ch_value_spec(s) {
            Some(v) => v >= 0,
            None => true,
        },
{
    let e = digit_run_end(s, 0);
    lemma_digit_run_end_facts(s, 0);
    lemma_digits_value_nonneg(s.take(e));
    if e < s.len() && s[e] == '.' {
        let f = s.skip(e + 1);
        if f.len() > 0 {
            assert(is_digit(f[0]));
        }
        if f.len() > 1 {
            assert(is_digit(f[1]));
        }
    }
}

/// The lowercased characters of one token.
fn token_chars(s: &String) -> (r: Vec<char>)
    ensures
        r@ == lower_of(s@),
{
    crate::text::lower_chars_of(s.as_str())
}

/// First usable volume number over the tokens, in title order.
pub fn scan_volume(tokens: &Vec<String>) -> (r: i32)
    ensures
        r == vol_scan(crate::title::views(tokens@), 0),
        r >= 0,
{
    let ghost ts = crate::title::views(tokens@);
    let mut j: usize = 0;
    while j < tokens.len()
        invariant
            j <= tokens@.len(),
            ts == crate::title::views(tokens@),
            vol_scan(ts, 0) == vol_scan(ts, j as int),
        decreases tokens@.len() - j,
    {
        let tv = token_chars(&tokens[j]);
        proof {
            assert(tv@ == lower_of(ts[j as int]));
        }
        match vol_capture_exec(&tv) {
            Some(p) => {
                match parse_i32_digits(&tv, p.0, p.1) {
                    Some(v) => {
                        proof {
                            lemma_digits_value_nonneg(tv@.subrange(p.0 as int, p.1 as int));
                        }
                        return v;
                    },
                    None => {
                        j += 1;
                    },
                }
            },
            None => {
                j += 1;
            },
        }
    }
    0
}

/// First usable chapter number over the tokens, in hundredths, with its
/// fractional flag.
pub fn scan_chapter(tokens: &Vec<String>) -> (r: (i64, bool))
    ensures
        r == ch_scan(crate::title::views(tokens@), 0),
        r.0 >= 0,
{
    let ghost ts = crate::title::views(tokens@);
    let mut j: usize = 0;
    while j < tokens.len()
        invariant
            j <= tokens@.len(),
            ts == crate::title::views(tokens@),
            ch_scan(ts, 0) == ch_scan(ts, j as int),
        decreases tokens@.len() - j,
    {
        let tv = token_chars(&tokens[j]);
        proof {
            assert(tv@ == lower_of(ts[j as int]));
        }
        match ch_capture_exec(&tv) {
            Some(p) => {
                match ch_value_exec(&tv, p.0, p.1) {
                    Some(v) => {
                        proof {
                            let s = tv@.subrange(p.0 as int, p.1 as int);
                            lemma_ch_value_nonneg(s);
                        }
                        return (v, p.2);
                    },
                    None => {
                        j += 1;
                    },
                }
            },
            None => {
                j += 1;
            },
        }
    }
    (0, false)
}

/// First usable side-story count over the tokens.
pub fn scan_side_story(tokens: &Vec<String>) -> (r: i32)
    ensures
        r == side_scan(crate::title::views(tokens@), 0),
        r >= 0,
{
    let ghost ts = crate::title::views(tokens@);
    let mut j: usize = 0;
    while j < tokens.len()
        invariant
            j <= tokens@.len(),
            ts == crate::title::views(tokens@),
            side_scan(ts, 0) == side_scan(ts, j as int),
        decreases tokens@.len() - j,
    {
        let tv = token_chars(&tokens[j]);
        proof {
            assert(tv@ == lower_of(ts[j as int]));
        }
        match side_capture_exec(&tv) {
            Some(p) => {
                match parse_i32_digits(&tv, p.0, p.1) {
                    Some(v) => {
                        proof {
                            lemma_digits_value_nonneg(tv@.subrange(p.0 as int, p.1 as int));
                        }
                        return v;
                    },
                    None => {
                        j += 1;
                    },
                }
            },
            None => {
                j += 1;
            },
        }
    }
    0
}

} // verus!
