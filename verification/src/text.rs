//! Character-level helpers shared by the lexers: whitespace and word
//! classification, pattern matching at a position, whitespace runs, trimming,
//! and pattern search.  Every helper has an exact specification over
//! `Seq<char>`.

use vstd::prelude::*;

verus! {

/// The whitespace characters the lexers skip between segments.
pub open spec fn is_ws(c: char) -> bool {
    c == ' ' || c == '\t' || c == '\n' || c == '\r' || c == '\u{000C}'
}

/// Executable test for [`is_ws`].
pub fn is_ws_char(c: char) -> (r: bool)
    ensures
        r == is_ws(c),
{
    c == ' ' || c == '\t' || c == '\n' || c == '\r' || c == '\u{000C}'
}

/// An ASCII letter or digit: the characters that keywords are made of.
pub open spec fn is_word(c: char) -> bool {
    ('a' <= c && c <= 'z') || ('A' <= c && c <= 'Z') || ('0' <= c && c <= '9')
}

/// Executable test for [`is_word`].
pub fn is_word_char(c: char) -> (r: bool)
    ensures
        r == is_word(c),
{
    ('a' <= c && c <= 'z') || ('A' <= c && c <= 'Z') || ('0' <= c && c <= '9')
}

/// `pat` occurs in `s` starting at position `i`.
pub open spec fn starts_at(s: Seq<char>, i: int, pat: Seq<char>) -> bool {
    0 <= i && i + pat.len() <= s.len() && s.subrange(i, i + pat.len()) == pat
}

/// Executable test for [`starts_at`] on string slices.
pub fn str_starts_at(s: &str, i: usize, pat: &str) -> (r: bool)
    ensures
        r == starts_at(s@, i as int, pat@),
{
    let n = s.unicode_len();
    let m = pat.unicode_len();
    if i > n || m > n - i {
        assert(!starts_at(s@, i as int, pat@));
        return false;
    }
    let mut j: usize = 0;
    while j < m
        invariant
            j <= m,
            i + m <= n,
            n == s@.len(),
            m == pat@.len(),
            forall|k: int| 0 <= k < j ==> s@[i + k] == pat@[k],
        decreases m - j,
    {
        if s.get_char(i + j) != pat.get_char(j) {
            proof {
                assert(s@.subrange(i as int, i + pat@.len())[j as int] == s@[i + j]);
                assert(s@.subrange(i as int, i + pat@.len()) != pat@);
            }
            return false;
        }
        j += 1;
    }
    proof {
        assert(s@.subrange(i as int, i + pat@.len()) =~= pat@);
    }
    true
}

/// Executable equality of two string slices, by their character sequences.
pub fn str_eq(a: &str, b: &str) -> (r: bool)
    ensures
        r == (a@ == b@),
{
    let n = a.unicode_len();
    if n != b.unicode_len() {
        return false;
    }
    let mut j: usize = 0;
    while j < n
        invariant
            j <= n,
            n == a@.len(),
            n == b@.len(),
            forall|k: int| 0 <= k < j ==> a@[k] == b@[k],
        decreases n - j,
    {
        if a.get_char(j) != b.get_char(j) {
            return false;
        }
        j += 1;
    }
    proof {
        assert(a@ =~= b@);
    }
    true
}

/// The end of the whitespace run beginning at `i`: the first position at or
/// after `i` holding a non-whitespace character, or the end of `s`.
pub open spec fn ws_end(s: Seq<char>, i: int) -> int
    decreases s.len() - i,
{
    if 0 <= i < s.len() && is_ws(s[i]) {
        ws_end(s, i + 1)
    } else {
        i
    }
}

pub proof fn lemma_ws_end(s: Seq<char>, i: int)
    requires
        0 <= i <= s.len(),
    ensures
        i <= ws_end(s, i) <= s.len(),
        forall|k: int| i <= k < ws_end(s, i) ==> is_ws(s[k]),
        ws_end(s, i) < s.len() ==> !is_ws(s[ws_end(s, i)]),
    decreases s.len() - i,
{
    if i < s.len() && is_ws(s[i]) {
        lemma_ws_end(s, i + 1);
    }
}

/// Executable whitespace skip: returns [`ws_end`]`(s, i)`.
pub fn skip_ws(s: &str, i: usize) -> (j: usize)
    requires
        i <= s@.len(),
    ensures
        j == ws_end(s@, i as int),
        i <= j <= s@.len(),
{
    let n = s.unicode_len();
    let mut p = i;
    while p < n && is_ws_char(s.get_char(p))
        invariant
            i <= p <= n,
            n == s@.len(),
            ws_end(s@, i as int) == ws_end(s@, p as int),
        decreases n - p,
    {
        p += 1;
    }
    proof {
        lemma_ws_end(s@, p as int);
    }
    p
}

/// The start of the whitespace run ending at `j`: the least position `k`
/// such that everything in `[k, j)` is whitespace.
pub open spec fn ws_rend(s: Seq<char>, j: int) -> int
    decreases j,
{
    if 0 < j <= s.len() && is_ws(s[j - 1]) {
        ws_rend(s, j - 1)
    } else {
        j
    }
}

pub proof fn lemma_ws_rend(s: Seq<char>, j: int)
    requires
        0 <= j <= s.len(),
    ensures
        0 <= ws_rend(s, j) <= j,
        forall|k: int| ws_rend(s, j) <= k < j ==> is_ws(s[k]),
        ws_rend(s, j) > 0 ==> !is_ws(s[ws_rend(s, j) - 1]),
    decreases j,
{
    if 0 < j && is_ws(s[j - 1]) {
        lemma_ws_rend(s, j - 1);
    }
}

/// `s` with leading and trailing whitespace removed.
pub open spec fn trim_spec(s: Seq<char>) -> Seq<char> {
    let a = ws_end(s, 0);
    let b = ws_rend(s, s.len() as int);
    if a <= b {
        s.subrange(a, b)
    } else {
        Seq::empty()
    }
}

/// Executable trim: returns a string whose view is [`trim_spec`]`(s)`.
pub fn trim_str(s: &str) -> (r: String)
    ensures
        r@ == trim_spec(s@),
{
    let n = s.unicode_len();
    let a = skip_ws(s, 0);
    let mut b = n;
    proof {
        lemma_ws_end(s@, 0);
    }
    while b > 0 && is_ws_char(s.get_char(b - 1))
        invariant
            0 <= b <= n,
            n == s@.len(),
            ws_rend(s@, n as int) == ws_rend(s@, b as int),
        decreases b,
    {
        b -= 1;
    }
    proof {
        lemma_ws_rend(s@, b as int);
    }
    if a <= b {
        String::from_str(s.substring_char(a, b))
    } else {
        String::new()
    }
}

/// Every character of `s` in `[i, j)` is whitespace.
pub open spec fn all_ws(s: Seq<char>, i: int, j: int) -> bool {
    forall|k: int| i <= k < j ==> is_ws(s[k])
}

/// The first position at or after `i` where `pat` occurs in `s`; the end of
/// `s` if it never does.
pub open spec fn find_from(s: Seq<char>, i: int, pat: Seq<char>) -> int
    decreases s.len() - i,
{
    if starts_at(s, i, pat) {
        i
    } else if i < 0 || i >= s.len() {
        s.len() as int
    } else {
        find_from(s, i + 1, pat)
    }
}

pub proof fn lemma_find_from(s: Seq<char>, i: int, pat: Seq<char>)
    requires
        0 <= i <= s.len(),
    ensures
        i <= find_from(s, i, pat) <= s.len(),
        starts_at(s, find_from(s, i, pat), pat) || find_from(s, i, pat) == s.len(),
        forall|k: int| i <= k < find_from(s, i, pat) ==> !starts_at(s, k, pat),
    decreases s.len() - i,
{
    if !starts_at(s, i, pat) && i < s.len() {
        lemma_find_from(s, i + 1, pat);
    }
}

/// Executable pattern search: returns [`find_from`]`(s, i, pat)`.
pub fn find_pattern(s: &str, i: usize, pat: &str) -> (j: usize)
    requires
        i <= s@.len(),
    ensures
        j == find_from(s@, i as int, pat@),
        i <= j <= s@.len(),
{
    let n = s.unicode_len();
    let mut p = i;
    loop
        invariant
            i <= p <= n,
            n == s@.len(),
            find_from(s@, i as int, pat@) == find_from(s@, p as int, pat@),
        decreases n - p,
    {
        if str_starts_at(s, p, pat) {
            proof {
                lemma_find_from(s@, i as int, pat@);
            }
            return p;
        }
        if p >= n {
            return n;
        }
        p += 1;
    }
}

} // verus!
