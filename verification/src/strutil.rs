//! Verified character-level string helpers.
//!
//! Zone and machine-type fields arrive as URL-like paths; the records keep
//! only the trailing path segment, and a region is the prefix of a zone up to
//! its second dash. Both notions are defined here as spec functions over
//! `Seq<char>`, together with executable functions proved against them.

use vstd::prelude::*;
use vstd::string::StrSliceExecFns;

verus! {

/// Index of the last `'/'` in `s`, or `-1` if there is none.
pub open spec fn last_slash(s: Seq<char>) -> int
    decreases s.len(),
{
    if s.len() == 0 {
        -1
    } else if s[s.len() - 1] == '/' {
        s.len() - 1
    } else {
        last_slash(s.drop_last())
    }
}

/// The part of `s` after its last `'/'`; all of `s` if it has no `'/'`.
pub open spec fn last_segment(s: Seq<char>) -> Seq<char> {
    s.subrange(last_slash(s) + 1, s.len() as int)
}

pub proof fn lemma_last_slash_bounds(s: Seq<char>)
    ensures
        -1 <= last_slash(s) <= s.len() - 1,
    decreases s.len(),
{
    if s.len() > 0 && s[s.len() - 1] != '/' {
        lemma_last_slash_bounds(s.drop_last());
    }
}

/// The smallest index `>= i` where `c` occurs in `s`, or `s.len()` if `c`
/// does not occur at or after `i`.
pub open spec fn char_from(s: Seq<char>, c: char, i: int) -> int
    decreases s.len() - i,
{
    if i < 0 || i >= s.len() {
        s.len() as int
    } else if s[i] == c {
        i
    } else {
        char_from(s, c, i + 1)
    }
}

pub proof fn lemma_char_from_found(s: Seq<char>, c: char, a: int, r: int)
    requires
        0 <= a <= r <= s.len(),
        forall|j: int| a <= j < r ==> s[j] != c,
        r < s.len() ==> s[r] == c,
    ensures
        char_from(s, c, a) == r,
    decreases r - a,
{
    if a < r {
        lemma_char_from_found(s, c, a + 1, r);
    }
}

pub proof fn lemma_char_from_bounds(s: Seq<char>, c: char, i: int)
    requires
        0 <= i <= s.len(),
    ensures
        i <= char_from(s, c, i) <= s.len(),
    decreases s.len() - i,
{
    if i < s.len() && s[i] != c {
        lemma_char_from_bounds(s, c, i + 1);
    }
}

/// Number of leading characters of `s` that make up its first two
/// dash-separated tokens: the index of the second dash, or `s.len()` if
/// there is no second dash.
pub open spec fn region_cut(s: Seq<char>) -> int {
    let d1 = char_from(s, '-', 0);
    if d1 >= s.len() {
        s.len() as int
    } else {
        char_from(s, '-', d1 + 1)
    }
}

/// The first two dash-separated tokens of `s`, joined by a dash: the prefix
/// of `s` up to (excluding) its second dash.
pub open spec fn region_of(s: Seq<char>) -> Seq<char> {
    s.subrange(0, region_cut(s))
}

/// Region derivation: for a zone of the shape `a-b-c`, where the tokens `a`
/// and `b` hold no dash, the region is exactly `a-b`, whatever `c` holds.
pub proof fn lemma_region_of_three_tokens(a: Seq<char>, b: Seq<char>, c: Seq<char>)
    requires
        !a.contains('-'),
        !b.contains('-'),
    ensures
        region_of(a + seq!['-'] + b + seq!['-'] + c) == a + seq!['-'] + b,
{
    let s = a + seq!['-'] + b + seq!['-'] + c;
    assert forall|j: int| 0 <= j < a.len() implies s[j] != '-' by {
        assert(s[j] == a[j]);
        if a[j] == '-' {
            assert(a.contains('-'));
        }
    }
    assert(s[a.len() as int] == '-');
    lemma_char_from_found(s, '-', 0, a.len() as int);
    let d2 = a.len() + 1 + b.len();
    assert forall|j: int| a.len() + 1 <= j < d2 implies s[j] != '-' by {
        assert(s[j] == b[j - a.len() - 1]);
        if b[j - a.len() - 1] == '-' {
            assert(b.contains('-'));
        }
    }
    assert(s[d2 as int] == '-');
    lemma_char_from_found(s, '-', a.len() as int + 1, d2 as int);
    assert(region_of(s) =~= a + seq!['-'] + b);
}

/// Character-by-character string comparison, proved to decide view equality.
pub fn str_eq(a: &str, b: &str) -> (r: bool)
    ensures
        r == (a@ == b@),
{
    let na = a.unicode_len();
    let nb = b.unicode_len();
    if na != nb {
        return false;
    }
    let mut i: usize = 0;
    while i < na
        invariant
            i <= na,
            na == a@.len(),
            nb == b@.len(),
            na == nb,
            forall|j: int| 0 <= j < i ==> a@[j] == b@[j],
        decreases na - i,
    {
        if a.get_char(i) != b.get_char(i) {
            return false;
        }
        i = i + 1;
    }
    proof {
        assert(a@ =~= b@);
    }
    true
}

/// The trailing path segment of `s`: everything after the last `'/'`.
pub fn trailing_segment(s: &str) -> (r: String)
    ensures
        r@ == last_segment(s@),
{
    let n: usize = s.unicode_len();
    let mut start: usize = 0;
    let mut i: usize = 0;
    while i < n
        invariant
            i <= n,
            start <= i,
            n == s@.len(),
            start == last_slash(s@.take(i as int)) + 1,
        decreases n - i,
    {
        proof {
            assert(s@.take(i + 1).drop_last() =~= s@.take(i as int));
            assert(s@.take(i + 1).last() == s@[i as int]);
        }
        if s.get_char(i) == '/' {
            start = i + 1;
        }
        i = i + 1;
    }
    proof {
        assert(s@.take(n as int) =~= s@);
    }
    s.substring_char(start, n).to_owned()
}

/// The smallest index `>= from` holding `c`, or `n` (the length of `s`)
/// if there is none.
fn find_char_from(s: &str, n: usize, c: char, from: usize) -> (r: usize)
    requires
        n == s@.len(),
        from <= n,
    ensures
        from <= r <= n,
        r == char_from(s@, c, from as int),
    decreases n - from,
{
    let mut i: usize = from;
    while i < n
        invariant
            from <= i <= n,
            n == s@.len(),
            forall|j: int| from <= j < i ==> s@[j] != c,
        decreases n - i,
    {
        if s.get_char(i) == c {
            proof {
                lemma_char_from_found(s@, c, from as int, i as int);
            }
            return i;
        }
        i = i + 1;
    }
    proof {
        lemma_char_from_found(s@, c, from as int, n as int);
    }
    n
}

/// The prefix of `s` up to (excluding) its second dash: the region that a
/// zone name belongs to.
pub fn region_prefix(s: &str) -> (r: String)
    ensures
        r@ == region_of(s@),
{
    let n: usize = s.unicode_len();
    let d1 = find_char_from(s, n, '-', 0);
    let cut = if d1 >= n {
        n
    } else {
        find_char_from(s, n, '-', d1 + 1)
    };
    s.substring_char(0, cut).to_owned()
}

} // verus!
