//! Small string helpers used by the matcher and the UI-facing callers.

use vstd::prelude::*;

use crate::text::{from_chars, to_chars};

verus! {

/// The Unicode uppercase expansion of one character, as
/// `char::to_uppercase` yields it: one or more characters, a function of
/// the character alone.
pub uninterp spec fn upper_expansion_of(c: char) -> Seq<char>;

/// Relies on `char::to_uppercase`: the Unicode uppercase mapping of the
/// character, which depends on the character alone and yields at least one
/// character (the character itself when no mapping exists).
#[verifier::external_body]
fn char_to_uppercase(c: char) -> (r: String)
    ensures
        r@ == upper_expansion_of(c),
        r@.len() >= 1,
{
    c.to_uppercase().collect()
}

/// Is `c` an ASCII capital letter?
pub open spec fn is_ascii_upper(c: char) -> bool {
    'A' <= c && c <= 'Z'
}

/// A string with its first character replaced by its uppercase expansion.
pub open spec fn capitalize_spec(s: Seq<char>) -> Seq<char> {
    if s.len() == 0 {
        s
    } else {
        upper_expansion_of(s[0]) + s.skip(1)
    }
}

/// The acronym a title falls back to when it has no recognition keywords:
/// its capital letters, for titles longer than seven characters; short
/// titles stand for themselves.
pub open spec fn acronym_spec(t: Seq<char>) -> Seq<char> {
    if t.len() > 7 {
        t.filter(|c: char| is_ascii_upper(c))
    } else {
        t
    }
}

/// Replaces an empty or `"0"` value with `"-"`, so a display field always
/// shows something.
pub fn nil_str(value: &str) -> (r: String)
    ensures
        (value@.len() == 0 || value@ == "0"@) ==> r@ == "-"@,
        !(value@.len() == 0 || value@ == "0"@) ==> r@ == value@,
{
    let v = to_chars(value);
    proof {
        reveal_strlit("0");
    }
    if v.len() == 0 || (v.len() == 1 && v[0] == '0') {
        proof {
            if v@.len() == 1 && v@[0] == '0' {
                assert(v@ =~= "0"@);
            }
        }
        return String::from_str("-");
    }
    proof {
        if value@ == "0"@ {
            assert(v@[0] == '0');
        }
    }
    crate::recognition::copy_string(&String::from_str(value))
}

/// Uppercases the first character of a string, keeping the rest unchanged.
pub fn capitalize_str(s: &str) -> (r: String)
    ensures
        r@ == capitalize_spec(s@),
{
    let v = to_chars(s);
    if v.len() == 0 {
        proof {
            reveal_strlit("");
            assert(""@ =~= s@);
        }
        return String::from_str("");
    }
    let up = char_to_uppercase(v[0]);
    let mut out: Vec<char> = to_chars(up.as_str());
    let ghost head = out@;
    let mut i: usize = 1;
    while i < v.len()
        invariant
            1 <= i <= v@.len(),
            v@.len() > 0,
            head == upper_expansion_of(v@[0]),
            out@ == head + v@.subrange(1, i as int),
        decreases v@.len() - i,
    {
        out.push(v[i]);
        i += 1;
        proof {
            assert(head + v@.subrange(1, i as int) =~= (head + v@.subrange(1, i - 1)).push(
                v@[i - 1],
            ));
        }
    }
    proof {
        assert(v@.subrange(1, v@.len() as int) =~= v@.skip(1));
        assert(head + v@.subrange(1, 1) =~= head);
    }
    from_chars(&out)
}

/// Derives the recognition keyword to suggest for a title: an acronym of
/// its capital letters when the title is long enough, the title itself
/// otherwise.
pub fn guess_keyword(title: &str) -> (r: String)
    ensures
        r@ == acronym_spec(title@),
{
    let v = to_chars(title);
    if v.len() <= 7 {
        return crate::recognition::copy_string(&String::from_str(title));
    }
    let mut out: Vec<char> = Vec::new();
    let mut i: usize = 0;
    proof {
        reveal(Seq::filter);
        assert(v@.take(0) =~= Seq::<char>::empty());
        assert(v@.take(0).filter(|c: char| is_ascii_upper(c)) =~= Seq::<char>::empty());
    }
    while i < v.len()
        invariant
            i <= v@.len(),
            out@ == v@.take(i as int).filter(|c: char| is_ascii_upper(c)),
        decreases v@.len() - i,
    {
        let c = v[i];
        proof {
            reveal(Seq::filter);
            assert(v@.take(i + 1).drop_last() =~= v@.take(i as int));
            assert(v@.take(i + 1).last() == v@[i as int]);
        }
        if 'A' <= c && c <= 'Z' {
            out.push(c);
        }
        i += 1;
    }
    proof {
        assert(v@.take(v@.len() as int) =~= v@);
    }
    from_chars(&out)
}

} // verus!
