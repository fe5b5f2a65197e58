//! Locale id matching for discovery filters (RFC 3066 style ids such as `en`, `en-US`).

use vstd::prelude::*;
use crate::text::{ascii_lower, chars_of, lower_char};

verus! {

/// Whether `c` has the Unicode `White_Space` property (as `char::is_whitespace`).
pub open spec fn is_white_space(c: char) -> bool {
    ||| ('\u{9}' <= c && c <= '\u{d}')
    ||| c == ' '
    ||| c == '\u{85}'
    ||| c == '\u{a0}'
    ||| c == '\u{1680}'
    ||| ('\u{2000}' <= c && c <= '\u{200a}')
    ||| c == '\u{2028}'
    ||| c == '\u{2029}'
    ||| c == '\u{202f}'
    ||| c == '\u{205f}'
    ||| c == '\u{3000}'
}

/// `s` without leading white space.
pub open spec fn trim_start(s: Seq<char>) -> Seq<char>
    decreases s.len(),
{
    if s.len() > 0 && is_white_space(s[0]) {
        trim_start(s.drop_first())
    } else {
        s
    }
}

/// `s` without trailing white space.
pub open spec fn trim_end(s: Seq<char>) -> Seq<char>
    decreases s.len(),
{
    if s.len() > 0 && is_white_space(s.last()) {
        trim_end(s.drop_last())
    } else {
        s
    }
}

/// A locale id in normal form: trimmed, `_` replaced by `-`, ASCII lower case.
pub open spec fn normalize_locale(s: Seq<char>) -> Seq<char> {
    trim_end(trim_start(s)).map_values(|c: char| ascii_lower(if c == '_' { '-' } else { c }))
}

/// Whether `s` holds a `-`.
pub open spec fn has_dash(s: Seq<char>) -> bool {
    exists|i: int| 0 <= i < s.len() && s[i] == '-'
}

/// Whether `s` starts with `prefix` followed by `-`.
pub open spec fn starts_with_dashed(s: Seq<char>, prefix: Seq<char>) -> bool {
    s.len() > prefix.len() && s.subrange(0, prefix.len() as int) == prefix && s[prefix.len() as int] == '-'
}

/// Whether a server supporting locale `supported` serves a client requesting `requested`:
/// equal ids match, and a neutral id (no region, such as `de`) matches every regional id of
/// the same language (such as `de-DE`) in either direction. When either id is empty after
/// normalization, the result is whether the request is empty.
pub open spec fn locale_matches(supported: Seq<char>, requested: Seq<char>) -> bool {
    let s = normalize_locale(supported);
    let r = normalize_locale(requested);
    if s.len() == 0 || r.len() == 0 {
        r.len() == 0
    } else {
        s == r || (!has_dash(s) && starts_with_dashed(r, s)) || (!has_dash(r) && starts_with_dashed(s, r))
    }
}

fn is_white_space_char(c: char) -> (r: bool)
    ensures
        r == is_white_space(c),
{
    ('\u{9}' <= c && c <= '\u{d}') || c == ' ' || c == '\u{85}' || c == '\u{a0}' || c == '\u{1680}' || (
    '\u{2000}' <= c && c <= '\u{200a}') || c == '\u{2028}' || c == '\u{2029}' || c == '\u{202f}' || c
        == '\u{205f}' || c == '\u{3000}'
}

proof fn lemma_trim_start_skip(s: Seq<char>, i: int)
    requires
        0 <= i <= s.len(),
        forall|j: int| 0 <= j < i ==> is_white_space(s[j]),
    ensures
        trim_start(s) == trim_start(s.subrange(i, s.len() as int)),
    decreases i,
{
    if i > 0 {
        assert(s.drop_first() =~= s.subrange(1, s.len() as int));
        lemma_trim_start_skip(s.drop_first(), i - 1);
        assert(s.drop_first().subrange(i - 1, s.drop_first().len() as int) =~= s.subrange(i, s.len() as int));
    } else {
        assert(s.subrange(0, s.len() as int) =~= s);
    }
}

proof fn lemma_trim_end_cut(s: Seq<char>, k: int)
    requires
        0 <= k <= s.len(),
        forall|j: int| k <= j < s.len() ==> is_white_space(s[j]),
    ensures
        trim_end(s) == trim_end(s.subrange(0, k)),
    decreases s.len() - k,
{
    if k < s.len() {
        assert(s.drop_last() =~= s.subrange(0, s.len() - 1));
        lemma_trim_end_cut(s.drop_last(), k);
        assert(s.drop_last().subrange(0, k) =~= s.subrange(0, k));
    } else {
        assert(s.subrange(0, k) =~= s);
    }
}

/// The normal form of a locale id.
pub fn normalize_locale_id(s: &str) -> (r: Vec<char>)
    ensures
        r@ == normalize_locale(s@),
{
    let c = chars_of(s);
    let n = c.len();
    let mut start: usize = 0;
    while start < n && is_white_space_char(c[start])
        invariant
            c@ == s@,
            n == c.len(),
            start <= n,
            forall|j: int| 0 <= j < start ==> is_white_space(s@[j]),
        decreases n - start,
    {
        start = start + 1;
    }
    proof {
        lemma_trim_start_skip(s@, start as int);
        if start < n {
            assert(s@.subrange(start as int, n as int)[0] == s@[start as int]);
        }
    }
    let ghost ts = s@.subrange(start as int, n as int);
    assert(trim_start(s@) == ts);
    let mut end: usize = n;
    while end > start && is_white_space_char(c[end - 1])
        invariant
            c@ == s@,
            n == c.len(),
            start <= end <= n,
            ts == s@.subrange(start as int, n as int),
            forall|j: int| end <= j < n ==> is_white_space(s@[j]),
        decreases end - start,
    {
        end = end - 1;
    }
    proof {
        let k = (end - start) as int;
        assert forall|j: int| k <= j < ts.len() implies is_white_space(ts[j]) by {
            assert(ts[j] == s@[start + j]);
        }
        lemma_trim_end_cut(ts, k);
        let tk = ts.subrange(0, k);
        if k > 0 {
            assert(tk.last() == s@[end - 1]);
        }
        assert(trim_end(tk) == tk);
        assert(tk =~= s@.subrange(start as int, end as int));
    }
    let ghost t = s@.subrange(start as int, end as int);
    let mut r: Vec<char> = Vec::new();
    let mut i: usize = start;
    while i < end
        invariant
            c@ == s@,
            n == c.len(),
            start <= i <= end <= n,
            t == s@.subrange(start as int, end as int),
            r@ == t.subrange(0, (i - start) as int).map_values(
                |ch: char| ascii_lower(if ch == '_' { '-' } else { ch }),
            ),
        decreases end - i,
    {
        let ch = c[i];
        let mapped = if ch == '_' { '-' } else { ch };
        r.push(lower_char(mapped));
        assert(t.subrange(0, (i + 1 - start) as int) =~= t.subrange(0, (i - start) as int).push(ch));
        i = i + 1;
    }
    assert(t.subrange(0, (end - start) as int) =~= t);
    r
}

fn seq_has_dash(s: &Vec<char>) -> (r: bool)
    ensures
        r == has_dash(s@),
{
    let mut i: usize = 0;
    while i < s.len()
        invariant
            i <= s.len(),
            forall|j: int| 0 <= j < i ==> s@[j] != '-',
        decreases s.len() - i,
    {
        if s[i] == '-' {
            return true;
        }
        i = i + 1;
    }
    false
}

fn chars_equal(a: &Vec<char>, b: &Vec<char>) -> (r: bool)
    ensures
        r == (a@ == b@),
{
    if a.len() != b.len() {
        return false;
    }
    let mut i: usize = 0;
    while i < a.len()
        invariant
            a.len() == b.len(),
            i <= a.len(),
            forall|j: int| 0 <= j < i ==> a@[j] == b@[j],
        decreases a.len() - i,
    {
        if a[i] != b[i] {
            return false;
        }
        i = i + 1;
    }
    assert(a@ =~= b@);
    true
}

fn starts_with_dashed_exec(s: &Vec<char>, prefix: &Vec<char>) -> (r: bool)
    ensures
        r == starts_with_dashed(s@, prefix@),
{
    if s.len() <= prefix.len() {
        return false;
    }
    let mut i: usize = 0;
    while i < prefix.len()
        invariant
            s.len() > prefix.len(),
            i <= prefix.len(),
            forall|j: int| 0 <= j < i ==> s@[j] == prefix@[j],
        decreases prefix.len() - i,
    {
        if s[i] != prefix[i] {
            assert(s@.subrange(0, prefix.len() as int)[i as int] != prefix@[i as int]);
            return false;
        }
        i = i + 1;
    }
    assert(s@.subrange(0, prefix.len() as int) =~= prefix@);
    s[prefix.len()] == '-'
}

/// Whether a server supporting locale `supported` serves a client requesting `requested`.
pub fn locale_id_matches(supported: &str, requested: &str) -> (r: bool)
    ensures
        r == locale_matches(supported@, requested@),
{
    let s = normalize_locale_id(supported);
    let r = normalize_locale_id(requested);
    if s.len() == 0 || r.len() == 0 {
        return r.len() == 0;
    }
    if chars_equal(&s, &r) {
        return true;
    }
    let s_neutral = !seq_has_dash(&s);
    let r_neutral = !seq_has_dash(&r);
    (s_neutral && starts_with_dashed_exec(&r, &s)) || (r_neutral && starts_with_dashed_exec(&s, &r))
}

/// Locale matching is symmetric between a neutral id and its regional forms, and reflexive
/// on non-empty ids.
pub proof fn law_locale_match_symmetric(a: Seq<char>, b: Seq<char>)
    requires
        normalize_locale(a).len() > 0,
        normalize_locale(b).len() > 0,
    ensures
        locale_matches(a, b) == locale_matches(b, a),
        locale_matches(a, a),
{
}

} // verus!
