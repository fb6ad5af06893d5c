//! Turning a file's bytes into lines, and telling text from binary content.

use vstd::prelude::*;
use vstd::slice::{slice_subrange, slice_to_vec};

verus! {

/// The line feed byte, which ends a line.
pub const LINE_FEED: u8 = 10;

/// The carriage return byte, dropped where it stands before a line feed.
pub const CARRIAGE_RETURN: u8 = 13;

/// Whether `content` holds a NUL byte.
pub open spec fn has_nul(content: Seq<u8>) -> bool {
    exists|i: int| 0 <= i < content.len() && content[i] == 0u8
}

/// The lines held in `lines`, each as its bytes.
pub open spec fn lines_view(lines: Seq<Vec<u8>>) -> Seq<Seq<u8>> {
    Seq::new(lines.len(), |i: int| lines[i]@)
}

/// The offset of the first line feed in `content`, or its length where it
/// holds none.
pub open spec fn line_break(content: Seq<u8>) -> int
    decreases content.len(),
{
    if content.len() == 0 || content[0] == LINE_FEED {
        0
    } else {
        1 + line_break(content.drop_first())
    }
}

/// `line` without a carriage return at its end.
pub open spec fn without_cr(line: Seq<u8>) -> Seq<u8> {
    if line.len() > 0 && line.last() == CARRIAGE_RETURN {
        line.drop_last()
    } else {
        line
    }
}

/// The lines of `content`.
///
/// A line ends at a line feed, which is not part of it, nor is a carriage
/// return directly before that line feed. What follows the last line feed is
/// a line of its own unless it is empty.
pub open spec fn lines_of(content: Seq<u8>) -> Seq<Seq<u8>>
    decreases content.len(),
{
    let k = line_break(content);
    if content.len() == 0 {
        Seq::empty()
    } else if k < 0 || k >= content.len() {
        seq![content]
    } else {
        seq![without_cr(content.subrange(0, k))] + lines_of(
            content.subrange(k + 1, content.len() as int),
        )
    }
}

/// Where the first line feed is, given that it is at `k` and not before.
pub proof fn lemma_line_break_at(content: Seq<u8>, k: int)
    requires
        0 <= k <= content.len(),
        forall|j: int| 0 <= j < k ==> content[j] != LINE_FEED,
        k < content.len() ==> content[k] == LINE_FEED,
    ensures
        line_break(content) == k,
    decreases k,
{
    if k == 0 {
    } else {
        let rest = content.drop_first();
        assert forall|j: int| 0 <= j < k - 1 implies rest[j] != LINE_FEED by {
            assert(rest[j] == content[j + 1]);
        }
        lemma_line_break_at(rest, k - 1);
    }
}

/// Whether `content` is binary, that is, holds a NUL byte.
pub fn is_binary(content: &[u8]) -> (binary: bool)
    ensures
        binary == has_nul(content@),
{
    let n = content.len();
    let mut i: usize = 0;
    while i < n
        invariant
            i <= n,
            n == content@.len(),
            forall|j: int| 0 <= j < i ==> content@[j] != 0u8,
        decreases n - i,
    {
        if content[i] == 0u8 {
            return true;
        }
        i += 1;
    }
    false
}

/// Splits `content` into its lines.
pub fn split_lines(content: &[u8]) -> (lines: Vec<Vec<u8>>)
    ensures
        lines_view(lines@) == lines_of(content@),
{
    let n = content.len();
    let mut lines: Vec<Vec<u8>> = Vec::new();
    let mut start: usize = 0;
    let mut i: usize = 0;
    assert(content@.subrange(0, n as int) == content@);
    assert(lines_view(lines@) + lines_of(content@) == lines_of(content@));
    while i < n
        invariant
            start <= i <= n,
            n == content@.len(),
            forall|j: int| start <= j < i ==> content@[j] != LINE_FEED,
            lines_of(content@) == lines_view(lines@) + lines_of(
                content@.subrange(start as int, n as int),
            ),
        decreases n - i,
    {
        if content[i] == LINE_FEED {
            let end = if i > start && content[i - 1] == CARRIAGE_RETURN {
                i - 1
            } else {
                i
            };
            let line = slice_to_vec(slice_subrange(content, start, end));
            proof {
                let rest = content@.subrange(start as int, n as int);
                let k = i - start;
                lemma_line_break_at(rest, k);
                assert(rest.subrange(0, k) == content@.subrange(start as int, i as int));
                assert(rest.subrange(k + 1, rest.len() as int) == content@.subrange(
                    i + 1,
                    n as int,
                ));
                assert(without_cr(content@.subrange(start as int, i as int)) == line@);
                assert(lines_of(rest) == seq![line@] + lines_of(content@.subrange(i + 1, n as int)));
                assert(lines_view(lines@.push(line)) == lines_view(lines@) + seq![line@]);
            }
            lines.push(line);
            start = i + 1;
        }
        i += 1;
    }
    if start < n {
        let line = slice_to_vec(slice_subrange(content, start, n));
        proof {
            let rest = content@.subrange(start as int, n as int);
            lemma_line_break_at(rest, rest.len() as int);
            assert(lines_of(rest) == seq![line@]);
            assert(lines_view(lines@.push(line)) == lines_view(lines@) + seq![line@]);
        }
        lines.push(line);
    } else {
        assert(lines_of(content@.subrange(start as int, n as int)) == Seq::<Seq<u8>>::empty());
        assert(lines_view(lines@) + Seq::<Seq<u8>>::empty() == lines_view(lines@));
    }
    lines
}

} // verus!
