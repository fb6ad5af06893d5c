//! The scanner: which lines of a file become match lines.

use crate::lines::lines_view;
use crate::pattern::{LineMatcher, MatcherModel};
use vstd::prelude::*;

verus! {

/// A sequence of line indices as mathematical integers.
pub open spec fn as_ints(indices: Seq<usize>) -> Seq<int> {
    Seq::new(indices.len(), |k: int| indices[k] as int)
}

/// Whether each element is smaller than every later one.
pub open spec fn ascending(indices: Seq<int>) -> bool {
    forall|a: int, b: int| 0 <= a < b < indices.len() ==> indices[a] < indices[b]
}

/// The indices, in ascending order, of those among the first `k` lines that
/// hold a match.
pub open spec fn matching_upto(matcher: MatcherModel, lines: Seq<Seq<u8>>, k: int) -> Seq<int>
    decreases k,
{
    if k <= 0 {
        Seq::empty()
    } else if matcher.matches(lines[k - 1]) {
        matching_upto(matcher, lines, k - 1).push(k - 1)
    } else {
        matching_upto(matcher, lines, k - 1)
    }
}

/// Whether a scan that has counted `count` match lines may go on.
pub open spec fn ceiling_open(count: int, max_count: Option<usize>) -> bool {
    match max_count {
        Some(ceiling) => count < ceiling,
        None => true,
    }
}

/// The match lines of a file: the indices of its matching lines in ascending
/// order, cut off after the first `max_count` of them where a ceiling is set.
pub open spec fn match_lines(matcher: MatcherModel, lines: Seq<Seq<u8>>, max_count: Option<usize>) -> Seq<
    int,
> {
    let all = matching_upto(matcher, lines, lines.len() as int);
    match max_count {
        Some(ceiling) => if ceiling < all.len() {
            all.subrange(0, ceiling as int)
        } else {
            all
        },
        None => all,
    }
}

/// The matching lines among the first `i` lines open the sequence of those
/// among the first `n`.
pub proof fn lemma_matching_prefix(matcher: MatcherModel, lines: Seq<Seq<u8>>, i: int, n: int)
    requires
        0 <= i <= n,
    ensures
        matching_upto(matcher, lines, i).len() <= matching_upto(matcher, lines, n).len(),
        matching_upto(matcher, lines, n).subrange(
            0,
            matching_upto(matcher, lines, i).len() as int,
        ) == matching_upto(matcher, lines, i),
    decreases n - i,
{
    if i < n {
        lemma_matching_prefix(matcher, lines, i, n - 1);
        let shorter = matching_upto(matcher, lines, n - 1);
        let head = matching_upto(matcher, lines, i);
        assert(matching_upto(matcher, lines, n).subrange(0, head.len() as int)
            == shorter.subrange(0, head.len() as int));
    } else {
        let head = matching_upto(matcher, lines, i);
        assert(head.subrange(0, head.len() as int) == head);
    }
}

/// The matching lines among the first `k` are line indices below `k`, appear
/// in ascending order, and each of them holds a match.
pub proof fn lemma_matching_upto_sound(matcher: MatcherModel, lines: Seq<Seq<u8>>, k: int)
    requires
        0 <= k <= lines.len(),
    ensures
        ascending(matching_upto(matcher, lines, k)),
        matching_upto(matcher, lines, k).len() <= k,
        forall|a: int|
            0 <= a < matching_upto(matcher, lines, k).len() ==> {
                let index = #[trigger] matching_upto(matcher, lines, k)[a];
                0 <= index < k && matcher.matches(lines[index])
            },
    decreases k,
{
    if k > 0 {
        lemma_matching_upto_sound(matcher, lines, k - 1);
    }
}

/// Every match line is a line of the file that holds a match; the match lines
/// are in ascending order; and where a ceiling is set there are no more of them
/// than it allows.
pub proof fn lemma_match_lines_sound(
    matcher: MatcherModel,
    lines: Seq<Seq<u8>>,
    max_count: Option<usize>,
)
    ensures
        ascending(match_lines(matcher, lines, max_count)),
        forall|a: int|
            0 <= a < match_lines(matcher, lines, max_count).len() ==> {
                let index = #[trigger] match_lines(matcher, lines, max_count)[a];
                0 <= index < lines.len() && matcher.matches(lines[index])
            },
        max_count matches Some(ceiling) ==> match_lines(matcher, lines, max_count).len() <= ceiling,
{
    lemma_matching_upto_sound(matcher, lines, lines.len() as int);
}

/// Whether a scan that has counted `count` match lines may go on.
pub fn below_ceiling(count: usize, max_count: Option<usize>) -> (open: bool)
    ensures
        open == ceiling_open(count as int, max_count),
{
    match max_count {
        Some(ceiling) => count < ceiling,
        None => true,
    }
}

/// Walks the lines in ascending order and collects the indices of those that
/// hold a match, stopping as soon as `max_count` of them have been found.
pub fn scan_matches(matcher: &LineMatcher, lines: &Vec<Vec<u8>>, max_count: Option<usize>) -> (found:
    Vec<usize>)
    ensures
        as_ints(found@) == match_lines(matcher@, lines_view(lines@), max_count),
{
    let n = lines.len();
    let mut found: Vec<usize> = Vec::new();
    let mut i: usize = 0;
    let ghost model = matcher@;
    let ghost text = lines_view(lines@);
    assert(as_ints(found@) == matching_upto(model, text, 0));
    while i < n && below_ceiling(found.len(), max_count)
        invariant
            i <= n,
            n == lines@.len(),
            text == lines_view(lines@),
            model == matcher@,
            as_ints(found@) == matching_upto(model, text, i as int),
            max_count matches Some(ceiling) ==> found@.len() <= ceiling,
        decreases n - i,
    {
        let hit = matcher.find(i, lines[i].as_slice());
        assert(text[i as int] == lines@[i as int]@);
        if hit.is_some() {
            assert(as_ints(found@.push(i)) == as_ints(found@).push(i as int));
            found.push(i);
        }
        i += 1;
    }
    proof {
        lemma_matching_prefix(model, text, i as int, n as int);
        let all = matching_upto(model, text, n as int);
        let have = as_ints(found@);
        if i == n {
            assert(have == all);
        } else {
            assert(all.subrange(0, have.len() as int) == have);
            if have.len() == all.len() {
                assert(all.subrange(0, all.len() as int) == all);
            }
        }
    }
    found
}

} // verus!
