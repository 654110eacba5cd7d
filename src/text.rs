//! Character-level string helpers with exact specifications.

use vstd::prelude::*;
use vstd::string::*;

verus! {

/// `pat` occurs in `s` starting at position `i`.
pub open spec fn occurs_at(s: Seq<char>, pat: Seq<char>, i: int) -> bool {
    0 <= i && i + pat.len() <= s.len() && s.subrange(i, i + pat.len()) == pat
}

/// `pat` occurs somewhere in `s`.
pub open spec fn has_substring(s: Seq<char>, pat: Seq<char>) -> bool {
    exists|i: int| occurs_at(s, pat, i)
}

/// `s` begins with `pat`.
pub open spec fn has_prefix(s: Seq<char>, pat: Seq<char>) -> bool {
    occurs_at(s, pat, 0)
}

/// The code of `c` with ASCII upper-case letters mapped to lower case.
pub open spec fn ascii_fold(c: char) -> u32 {
    if 'A' <= c && c <= 'Z' {
        (c as u32 + 32) as u32
    } else {
        c as u32
    }
}

/// `a` and `b` are equal when ASCII letter case is ignored.
pub open spec fn eq_ignoring_case(a: Seq<char>, b: Seq<char>) -> bool {
    a.len() == b.len() && forall|i: int| 0 <= i < a.len() ==> ascii_fold(#[trigger] a[i]) == ascii_fold(b[i])
}

/// Does `pat` occur in `s` at character position `i`?
pub fn occurs_at_pos(s: &str, pat: &str, i: usize) -> (r: bool)
    ensures
        r == occurs_at(s@, pat@, i as int),
{
    let n = s.unicode_len();
    let m = pat.unicode_len();
    if i > n || m > n - i {
        return false;
    }
    let mut j: usize = 0;
    while j < m
        invariant
            n == s@.len(),
            m == pat@.len(),
            i + m <= n,
            j <= m,
            forall|k: int| 0 <= k < j ==> s@[i + k] == pat@[k],
        decreases m - j,
    {
        if s.get_char(i + j) != pat.get_char(j) {
            assert(s@.subrange(i as int, i + m)[j as int] != pat@[j as int]);
            return false;
        }
        j = j + 1;
    }
    assert(s@.subrange(i as int, i + m) =~= pat@);
    true
}

/// Does `pat` occur anywhere in `s`?
pub fn contains_text(s: &str, pat: &str) -> (r: bool)
    ensures
        r == has_substring(s@, pat@),
{
    let n = s.unicode_len();
    let m = pat.unicode_len();
    if m > n {
        assert(forall|i: int| !occurs_at(s@, pat@, i));
        return false;
    }
    let last = n - m;
    let mut i: usize = 0;
    while i < last
        invariant
            n == s@.len(),
            m == pat@.len(),
            last == n - m,
            i <= last,
            forall|k: int| 0 <= k < i ==> !occurs_at(s@, pat@, k),
        decreases last - i,
    {
        if occurs_at_pos(s, pat, i) {
            return true;
        }
        i = i + 1;
    }
    let r = occurs_at_pos(s, pat, last);
    assert(!r ==> forall|k: int| !occurs_at(s@, pat@, k));
    r
}

/// Does `s` begin with `pat`?
pub fn starts_with_text(s: &str, pat: &str) -> (r: bool)
    ensures
        r == has_prefix(s@, pat@),
{
    occurs_at_pos(s, pat, 0)
}

/// Are `a` and `b` the same text?
pub fn eq_text(a: &str, b: &str) -> (r: bool)
    ensures
        r == (a@ == b@),
{
    let n = a.unicode_len();
    if n != b.unicode_len() {
        return false;
    }
    let mut i: usize = 0;
    while i < n
        invariant
            n == a@.len(),
            n == b@.len(),
            i <= n,
            forall|k: int| 0 <= k < i ==> a@[k] == b@[k],
        decreases n - i,
    {
        if a.get_char(i) != b.get_char(i) {
            return false;
        }
        i = i + 1;
    }
    assert(a@ =~= b@);
    true
}

fn fold_char(c: char) -> (r: u32)
    ensures
        r == ascii_fold(c),
{
    if 'A' <= c && c <= 'Z' {
        c as u32 + 32
    } else {
        c as u32
    }
}

/// Are `a` and `b` equal when ASCII letter case is ignored?
pub fn eq_ignore_case(a: &str, b: &str) -> (r: bool)
    ensures
        r == eq_ignoring_case(a@, b@),
{
    let n = a.unicode_len();
    if n != b.unicode_len() {
        return false;
    }
    let mut i: usize = 0;
    while i < n
        invariant
            n == a@.len(),
            n == b@.len(),
            i <= n,
            forall|k: int| 0 <= k < i ==> ascii_fold(#[trigger] a@[k]) == ascii_fold(b@[k]),
        decreases n - i,
    {
        if fold_char(a.get_char(i)) != fold_char(b.get_char(i)) {
            return false;
        }
        i = i + 1;
    }
    true
}

} // verus!
