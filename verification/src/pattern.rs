//! The pattern language of the rules: plain text, or text around one `*`.

use vstd::prelude::*;
use crate::text::chars_of;

verus! {

/// How many `*` a pattern holds.
pub open spec fn star_count(p: Seq<char>) -> nat
    decreases p.len(),
{
    if p.len() == 0 {
        0
    } else {
        star_count(p.drop_last()) + if p.last() == '*' { 1nat } else { 0nat }
    }
}

/// The position of the first `*` from `i` on, or the length if there is none.
pub open spec fn first_star(p: Seq<char>, i: int) -> int
    decreases p.len() - i,
{
    if 0 <= i < p.len() && p[i] != '*' {
        first_star(p, i + 1)
    } else {
        i
    }
}

/// The name begins with the given characters.
pub open spec fn starts_with(name: Seq<char>, prefix: Seq<char>) -> bool {
    prefix.len() <= name.len() && name.subrange(0, prefix.len() as int) == prefix
}

/// The name ends with the given characters.
pub open spec fn ends_with(name: Seq<char>, suffix: Seq<char>) -> bool {
    suffix.len() <= name.len() && name.subrange(name.len() - suffix.len(), name.len() as int)
        == suffix
}

/// The given characters stand in the name from position `i` on.
pub open spec fn occurs_at(name: Seq<char>, part: Seq<char>, i: int) -> bool {
    0 <= i && i + part.len() <= name.len() && name.subrange(i, i + part.len()) == part
}

/// The given characters stand somewhere in the name, one after the other.
pub open spec fn contains(name: Seq<char>, part: Seq<char>) -> bool {
    exists|i: int| occurs_at(name, part, i)
}

/// Whether a name matches a pattern. A pattern without `*` matches the names
/// that contain it; one with a single `*` matches the names that start with
/// what stands before the `*` and end with what stands after it, overlapping
/// or not; one with more matches nothing.
pub open spec fn pattern_matches(name: Seq<char>, pattern: Seq<char>) -> bool {
    if star_count(pattern) == 0 {
        contains(name, pattern)
    } else if star_count(pattern) == 1 {
        let k = first_star(pattern, 0);
        starts_with(name, pattern.take(k)) && ends_with(name, pattern.skip(k + 1))
    } else {
        false
    }
}

/// Whether `pat[lo..hi]` stands in `hay` at position `at`.
fn run_at(hay: &Vec<char>, at: usize, pat: &Vec<char>, lo: usize, hi: usize) -> (r: bool)
    requires
        lo <= hi <= pat@.len(),
        at + (hi - lo) <= hay@.len(),
    ensures
        r == occurs_at(hay@, pat@.subrange(lo as int, hi as int), at as int),
{
    let len = hi - lo;
    let total = hay.len();
    let ghost part = pat@.subrange(lo as int, hi as int);
    let mut j: usize = 0;
    while j < len
        invariant
            j <= len,
            len == hi - lo,
            lo <= hi <= pat@.len(),
            at + len <= total,
            total == hay@.len(),
            part == pat@.subrange(lo as int, hi as int),
            forall|t: int| 0 <= t < j ==> hay@[at + t] == part[t],
        decreases len - j,
    {
        if hay[at + j] != pat[lo + j] {
            proof {
                assert(hay@.subrange(at as int, at + part.len())[j as int] != part[j as int]);
            }
            return false;
        }
        j = j + 1;
    }
    assert(hay@.subrange(at as int, at + part.len()) =~= part);
    true
}

/// Whether `pat[lo..hi]` stands anywhere in `hay`.
fn contains_run(hay: &Vec<char>, pat: &Vec<char>, lo: usize, hi: usize) -> (r: bool)
    requires
        lo <= hi <= pat@.len(),
    ensures
        r == contains(hay@, pat@.subrange(lo as int, hi as int)),
{
    let len = hi - lo;
    if len > hay.len() {
        return false;
    }
    let last = hay.len() - len;
    let ghost part = pat@.subrange(lo as int, hi as int);
    let mut i: usize = 0;
    while i < last
        invariant
            i <= last,
            last + len == hay@.len(),
            len == hi - lo,
            lo <= hi <= pat@.len(),
            part == pat@.subrange(lo as int, hi as int),
            forall|t: int| 0 <= t < i ==> !occurs_at(hay@, part, t),
        decreases last - i,
    {
        if run_at(hay, i, pat, lo, hi) {
            return true;
        }
        i = i + 1;
    }
    run_at(hay, last, pat, lo, hi)
}

/// Decides whether a name matches a pattern.
pub fn matches_pattern(name: &str, pattern: &str) -> (r: bool)
    ensures
        r == pattern_matches(name@, pattern@),
{
    let hay = chars_of(name);
    let pat = chars_of(pattern);
    let n = pat.len();
    let mut stars: usize = 0;
    let mut first: usize = 0;
    let mut i: usize = 0;
    while i < n
        invariant
            i <= n,
            n == pat@.len(),
            stars <= i,
            stars == star_count(pat@.take(i as int)),
            stars == 0 ==> first_star(pat@, 0) == first_star(pat@, i as int),
            stars > 0 ==> first == first_star(pat@, 0) && first < n,
        decreases n - i,
    {
        proof {
            assert(pat@.take(i + 1).drop_last() =~= pat@.take(i as int));
        }
        if pat[i] == '*' {
            if stars == 0 {
                first = i;
            }
            stars = stars + 1;
        }
        i = i + 1;
    }
    proof {
        assert(pat@.take(n as int) =~= pat@);
    }
    if stars == 0 {
        assert(pat@.subrange(0, n as int) =~= pat@);
        contains_run(&hay, &pat, 0, n)
    } else if stars == 1 {
        proof {
            assert(pat@.take(first as int) =~= pat@.subrange(0, first as int));
            assert(pat@.skip(first + 1) =~= pat@.subrange(first + 1, n as int));
        }
        let head = first;
        let tail = n - first - 1;
        if head > hay.len() || tail > hay.len() {
            return false;
        }
        run_at(&hay, 0, &pat, 0, first) && run_at(&hay, hay.len() - tail, &pat, first + 1, n)
    } else {
        false
    }
}

} // verus!
