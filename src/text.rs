//! Small verified operations on character sequences.

use vstd::prelude::*;

verus! {

/// Whether `p` is a prefix of `s`.
pub open spec fn is_prefix(p: Seq<char>, s: Seq<char>) -> bool {
    p.len() <= s.len() && s.subrange(0, p.len() as int) == p
}

/// Character-wise equality of two strings.
pub fn str_eq(a: &str, b: &str) -> (r: bool)
    ensures
        r == (a@ == b@),
{
    let n = a.unicode_len();
    if n != b.unicode_len() {
        return false;
    }
    let mut i: usize = 0;
    while i < n
        invariant
            n == a@.len(),
            n == b@.len(),
            i <= n,
            a@.subrange(0, i as int) == b@.subrange(0, i as int),
        decreases n - i,
    {
        if a.get_char(i) != b.get_char(i) {
            assert(a@[i as int] != b@[i as int]);
            return false;
        }
        assert(a@.subrange(0, i + 1) == a@.subrange(0, i as int).push(a@[i as int]));
        assert(b@.subrange(0, i + 1) == b@.subrange(0, i as int).push(b@[i as int]));
        i = i + 1;
    }
    assert(a@ == a@.subrange(0, n as int));
    assert(b@ == b@.subrange(0, n as int));
    true
}

/// Whether `s` starts with `p`.
pub fn starts_with(s: &str, p: &str) -> (r: bool)
    ensures
        r == is_prefix(p@, s@),
{
    let n = p.unicode_len();
    if n > s.unicode_len() {
        return false;
    }
    let head = s.substring_char(0, n);
    str_eq(head, p)
}

/// `s` without the run of `c` at its start.
pub open spec fn drop_leading(s: Seq<char>, c: char) -> Seq<char>
    decreases s.len(),
{
    if s.len() > 0 && s[0] == c {
        drop_leading(s.subrange(1, s.len() as int), c)
    } else {
        s
    }
}

/// `s` without the run of `c` at its end.
pub open spec fn drop_trailing(s: Seq<char>, c: char) -> Seq<char>
    decreases s.len(),
{
    if s.len() > 0 && s.last() == c {
        drop_trailing(s.drop_last(), c)
    } else {
        s
    }
}

/// Removes every leading `c`.
pub fn trim_start_char(s: &str, c: char) -> (r: &str)
    ensures
        r@ == drop_leading(s@, c),
{
    let n = s.unicode_len();
    let mut i: usize = 0;
    assert(s@.subrange(0, n as int) == s@);
    while i < n && s.get_char(i) == c
        invariant
            n == s@.len(),
            i <= n,
            drop_leading(s@, c) == drop_leading(s@.subrange(i as int, n as int), c),
        decreases n - i,
    {
        let ghost t = s@.subrange(i as int, n as int);
        assert(t.subrange(1, t.len() as int) == s@.subrange(i + 1, n as int));
        i = i + 1;
    }
    s.substring_char(i, n)
}

/// Removes every trailing `c`.
pub fn trim_end_char(s: &str, c: char) -> (r: &str)
    ensures
        r@ == drop_trailing(s@, c),
{
    let mut j: usize = s.unicode_len();
    assert(s@.subrange(0, j as int) == s@);
    while j > 0 && s.get_char(j - 1) == c
        invariant
            j <= s@.len(),
            drop_trailing(s@, c) == drop_trailing(s@.subrange(0, j as int), c),
        decreases j,
    {
        let ghost t = s@.subrange(0, j as int);
        assert(t.drop_last() == s@.subrange(0, j - 1));
        j = j - 1;
    }
    s.substring_char(0, j)
}

/// Removes every `c` at either end.
pub fn trim_char(s: &str, c: char) -> (r: &str)
    ensures
        r@ == drop_trailing(drop_leading(s@, c), c),
{
    trim_end_char(trim_start_char(s, c), c)
}

/// What one character becomes when `a` is replaced by `ra` and `b` by `rb`.
pub open spec fn substitute_char(c: char, a: char, ra: Seq<char>, b: char, rb: Seq<char>) -> Seq<char> {
    if c == a { ra } else if c == b { rb } else { seq![c] }
}

/// `s` with every `a` replaced by `ra` and every `b` by `rb`.
pub open spec fn substituted(s: Seq<char>, a: char, ra: Seq<char>, b: char, rb: Seq<char>) -> Seq<char>
    decreases s.len(),
{
    if s.len() == 0 {
        Seq::empty()
    } else {
        substituted(s.drop_last(), a, ra, b, rb) + substitute_char(s.last(), a, ra, b, rb)
    }
}

/// Replaces every `a` in `s` by `ra` and every `b` by `rb`.
pub fn substitute(s: &str, a: char, ra: &str, b: char, rb: &str) -> (r: String)
    ensures
        r@ == substituted(s@, a, ra@, b, rb@),
{
    let n = s.unicode_len();
    let mut out = String::new();
    let mut start: usize = 0;
    let mut i: usize = 0;
    while i < n
        invariant
            n == s@.len(),
            start <= i <= n,
            out@ + s@.subrange(start as int, i as int) == substituted(s@.subrange(0, i as int), a, ra@, b, rb@),
        decreases n - i,
    {
        let c = s.get_char(i);
        let ghost prefix = s@.subrange(0, i + 1);
        assert(prefix.drop_last() == s@.subrange(0, i as int));
        assert(prefix.last() == c);
        if c == a || c == b {
            let run = s.substring_char(start, i);
            out.append(run);
            if c == a {
                out.append(ra);
            } else {
                out.append(rb);
            }
            start = i + 1;
            assert(s@.subrange(start as int, i + 1) == Seq::<char>::empty());
        } else {
            assert(s@.subrange(start as int, i + 1) == s@.subrange(start as int, i as int).push(c));
        }
        i = i + 1;
    }
    let rest = s.substring_char(start, n);
    out.append(rest);
    assert(s@.subrange(0, n as int) == s@);
    out
}

} // verus!
