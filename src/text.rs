//! Character-level string operations with exact contracts over `Seq<char>`.

use vstd::prelude::*;
use vstd::std_specs::iter::IteratorSpec;

verus! {

/// The position of the first `x` in `s`, or `s.len()` when there is none.
pub open spec fn index_of<T>(s: Seq<T>, x: T) -> int
    decreases s.len(),
{
    if s.len() == 0 {
        0
    } else if s[0] == x {
        0
    } else {
        1 + index_of(s.drop_first(), x)
    }
}

/// The first position of `x` is `d` when `x` is at `d` (or `d` is the
/// end) and nowhere before.
pub proof fn lemma_index_of<T>(s: Seq<T>, x: T, d: int)
    requires
        0 <= d <= s.len(),
        forall|j: int| 0 <= j < d ==> s[j] != x,
        d == s.len() || s[d] == x,
    ensures
        index_of(s, x) == d,
    decreases s.len(),
{
    if s.len() > 0 && s[0] != x {
        assert forall|j: int| 0 <= j < d - 1 implies s.drop_first()[j] != x by {
            assert(s.drop_first()[j] == s[j + 1]);
        }
        lemma_index_of(s.drop_first(), x, d - 1);
    }
}

/// True when `a` and `b` hold the same characters.
pub fn str_eq(a: &str, b: &str) -> (r: bool)
    ensures
        r == (a@ == b@),
{
    let n = a.unicode_len();
    let m = b.unicode_len();
    if n != m {
        return false;
    }
    let mut i: usize = 0;
    while i < n
        invariant
            n == a@.len(),
            m == b@.len(),
            n == m,
            i <= n,
            forall|j: int| 0 <= j < i ==> a@[j] == b@[j],
        decreases n - i,
    {
        if a.get_char(i) != b.get_char(i) {
            return false;
        }
        i += 1;
    }
    assert(a@ =~= b@);
    true
}

/// The characters of `s`, in order.
pub fn chars_of(s: &str) -> (r: Vec<char>)
    ensures
        r@ == s@,
{
    broadcast use vstd::string::group_string_axioms;

    let mut it = s.chars();
    let mut out: Vec<char> = Vec::new();
    loop
        invariant
            out@ + IteratorSpec::remaining(&it) == s@,
            IteratorSpec::decrease(&it) is Some,
        ensures
            out@ == s@,
        decreases IteratorSpec::decrease(&it)->0,
    {
        match it.next() {
            Some(c) => {
                proof {
                    assert(out@.push(c) + IteratorSpec::remaining(&it) =~= s@);
                }
                out.push(c);
            },
            None => {
                assert(out@ =~= s@);
                break ;
            },
        }
    }
    out
}

/// `p` occurs in `s` starting at position `i`.
pub open spec fn occurs_at(s: Seq<char>, p: Seq<char>, i: int) -> bool {
    0 <= i && i + p.len() <= s.len() && s.subrange(i, i + p.len()) == p
}

/// `s` begins with `p`.
pub open spec fn has_prefix(s: Seq<char>, p: Seq<char>) -> bool {
    occurs_at(s, p, 0)
}

/// `s` ends with `p`.
pub open spec fn has_suffix(s: Seq<char>, p: Seq<char>) -> bool {
    p.len() <= s.len() && occurs_at(s, p, s.len() - p.len())
}

/// `p` occurs somewhere in `s`.
pub open spec fn occurs_in(s: Seq<char>, p: Seq<char>) -> bool {
    exists|i: int| occurs_at(s, p, i)
}

/// Compares `p` with the characters of `s` that start at `i`.
pub fn matches_at(s: &[char], p: &[char], i: usize) -> (r: bool)
    ensures
        r == occurs_at(s@, p@, i as int),
{
    if i > s.len() || p.len() > s.len() - i {
        return false;
    }
    let mut j: usize = 0;
    while j < p.len()
        invariant
            i + p@.len() <= s@.len(),
            s@.len() == s.len(),
            j <= p@.len(),
            forall|k: int| 0 <= k < j ==> s@[i + k] == p@[k],
        decreases p@.len() - j,
    {
        if s[i + j] != p[j] {
            assert(s@.subrange(i as int, i + p@.len())[j as int] != p@[j as int]);
            return false;
        }
        j += 1;
    }
    assert(s@.subrange(i as int, i + p@.len()) =~= p@);
    true
}

/// True when `s` begins with `p`.
pub fn starts_with(s: &str, p: &str) -> (r: bool)
    ensures
        r == has_prefix(s@, p@),
{
    let cs = chars_of(s);
    let ps = chars_of(p);
    matches_at(cs.as_slice(), ps.as_slice(), 0)
}

/// The rest of `s` after the prefix `p`, when `s` begins with `p`.
pub fn strip_prefix<'a>(s: &'a str, p: &str) -> (r: Option<&'a str>)
    ensures
        has_prefix(s@, p@) ==> r is Some && r->0@ == s@.subrange(p@.len() as int, s@.len() as int),
        !has_prefix(s@, p@) ==> r is None,
{
    let cs = chars_of(s);
    let ps = chars_of(p);
    if matches_at(cs.as_slice(), ps.as_slice(), 0) {
        Some(s.substring_char(ps.len(), cs.len()))
    } else {
        None
    }
}

/// `s` without the suffix `p`, when `s` ends with `p`.
pub fn strip_suffix<'a>(s: &'a str, p: &str) -> (r: Option<&'a str>)
    ensures
        has_suffix(s@, p@) ==> r is Some && r->0@ == s@.subrange(0, s@.len() - p@.len()),
        !has_suffix(s@, p@) ==> r is None,
{
    let cs = chars_of(s);
    let ps = chars_of(p);
    if ps.len() <= cs.len() && matches_at(cs.as_slice(), ps.as_slice(), cs.len() - ps.len()) {
        Some(s.substring_char(0, cs.len() - ps.len()))
    } else {
        None
    }
}

/// True when `p` occurs in `s`.
pub fn contains(s: &str, p: &str) -> (r: bool)
    ensures
        r == occurs_in(s@, p@),
{
    let cs = chars_of(s);
    let ps = chars_of(p);
    let mut i: usize = 0;
    loop
        invariant
            cs@ == s@,
            ps@ == p@,
            i <= cs@.len(),
            forall|k: int| 0 <= k < i ==> !occurs_at(s@, p@, k),
        ensures
            forall|k: int| 0 <= k <= cs@.len() ==> !occurs_at(s@, p@, k),
        decreases cs@.len() - i,
    {
        if matches_at(cs.as_slice(), ps.as_slice(), i) {
            return true;
        }
        if i == cs.len() {
            break ;
        }
        i += 1;
    }
    false
}

/// The Unicode `White_Space` property, which `str::trim` removes.
pub open spec fn is_white_space(c: char) -> bool {
    ('\u{9}' <= c <= '\u{d}') || c == ' ' || c == '\u{85}' || c == '\u{a0}' || c == '\u{1680}'
        || ('\u{2000}' <= c <= '\u{200a}') || c == '\u{2028}' || c == '\u{2029}' || c
        == '\u{202f}' || c == '\u{205f}' || c == '\u{3000}'
}

/// Decides the Unicode `White_Space` property.
pub fn white_space(c: char) -> (r: bool)
    ensures
        r == is_white_space(c),
{
    ('\u{9}' <= c && c <= '\u{d}') || c == ' ' || c == '\u{85}' || c == '\u{a0}' || c
        == '\u{1680}' || ('\u{2000}' <= c && c <= '\u{200a}') || c == '\u{2028}' || c
        == '\u{2029}' || c == '\u{202f}' || c == '\u{205f}' || c == '\u{3000}'
}

/// `s` without its leading white space.
pub open spec fn trim_start(s: Seq<char>) -> Seq<char>
    decreases s.len(),
{
    if s.len() > 0 && is_white_space(s[0]) {
        trim_start(s.drop_first())
    } else {
        s
    }
}

/// `s` without its trailing white space.
pub open spec fn trim_end(s: Seq<char>) -> Seq<char>
    decreases s.len(),
{
    if s.len() > 0 && is_white_space(s.last()) {
        trim_end(s.drop_last())
    } else {
        s
    }
}

/// `s` without leading and trailing white space.
pub open spec fn trimmed(s: Seq<char>) -> Seq<char> {
    trim_end(trim_start(s))
}

/// `s` without leading and trailing white space, as `str::trim` gives it.
pub fn trim(s: &str) -> (r: &str)
    ensures
        r@ == trimmed(s@),
{
    let cs = chars_of(s);
    let n = cs.len();
    let mut lo: usize = 0;
    assert(s@.subrange(0, n as int) =~= s@);
    while lo < n && white_space(cs[lo])
        invariant
            cs@ == s@,
            n == s@.len(),
            lo <= n,
            trim_start(s@.subrange(lo as int, n as int)) == trim_start(s@),
        decreases n - lo,
    {
        assert(s@.subrange(lo as int, n as int).drop_first() =~= s@.subrange(lo + 1, n as int));
        lo += 1;
    }
    assert(trim_start(s@.subrange(lo as int, n as int)) == s@.subrange(lo as int, n as int));
    let mut hi: usize = n;
    while hi > lo && white_space(cs[hi - 1])
        invariant
            cs@ == s@,
            n == s@.len(),
            lo <= hi <= n,
            trim_end(s@.subrange(lo as int, hi as int)) == trimmed(s@),
        decreases hi,
    {
        assert(s@.subrange(lo as int, hi as int).drop_last() =~= s@.subrange(lo as int, hi - 1));
        hi -= 1;
    }
    assert(trim_end(s@.subrange(lo as int, hi as int)) == s@.subrange(lo as int, hi as int));
    s.substring_char(lo, hi)
}

/// The first `n` characters of `s`, or all of it when it is shorter.
pub open spec fn take_chars(s: Seq<char>, n: nat) -> Seq<char> {
    if s.len() <= n {
        s
    } else {
        s.take(n as int)
    }
}

/// A new string of the first `n` characters of `s` (counted in Unicode
/// scalar values, never splitting one).
pub fn truncate_chars(s: &str, n: usize) -> (r: String)
    ensures
        r@ == take_chars(s@, n as nat),
{
    let len = s.unicode_len();
    let end = if len <= n {
        len
    } else {
        n
    };
    let t = s.substring_char(0, end);
    assert(t@ =~= take_chars(s@, n as nat));
    String::from_str(t)
}

} // verus!
