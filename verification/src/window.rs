//! Context windows: the lines around the match lines, merged into disjoint
//! ranges.

use crate::scan::{as_ints, ascending};
use vstd::prelude::*;

verus! {

/// A contiguous range of lines to emit, with the match lines it holds.
#[derive(Debug)]
pub struct ContextWindow {
    /// Index of the first line of the window.
    pub start: usize,
    /// Index after the last line of the window.
    pub end: usize,
    /// The match lines inside the window, ascending.
    pub match_indices: Vec<usize>,
}

/// A window over mathematical integers.
pub struct WindowModel {
    pub start: int,
    pub end: int,
    pub match_indices: Seq<int>,
}

impl View for ContextWindow {
    type V = WindowModel;

    open spec fn view(&self) -> WindowModel {
        WindowModel {
            start: self.start as int,
            end: self.end as int,
            match_indices: as_ints(self.match_indices@),
        }
    }
}

/// The windows held in `windows`, each as its model.
pub open spec fn windows_view(windows: Seq<ContextWindow>) -> Seq<WindowModel> {
    Seq::new(windows.len(), |k: int| windows[k]@)
}

/// First line of the raw window around match line `index`.
pub open spec fn raw_start(index: int, radius: int) -> int {
    if index >= radius {
        index - radius
    } else {
        0
    }
}

/// Line after the last of the raw window around match line `index`.
pub open spec fn raw_end(index: int, radius: int, line_count: int) -> int {
    if index + radius + 1 <= line_count {
        index + radius + 1
    } else {
        line_count
    }
}

/// Whether line `i` lies in the raw window around match line `index`.
pub open spec fn within_raw(index: int, radius: int, line_count: int, i: int) -> bool {
    raw_start(index, radius) <= i < raw_end(index, radius, line_count)
}

/// Whether line `i` lies in the raw window of one of the first `j` match lines.
pub open spec fn covered_by_first(
    matched: Seq<int>,
    radius: int,
    line_count: int,
    j: int,
    i: int,
) -> bool {
    exists|k: int|
        0 <= k < j && k < matched.len() && within_raw(#[trigger] matched[k], radius, line_count, i)
}

/// Whether line `i` is to be shown: it lies within `radius` lines of a match
/// line.
pub open spec fn covered(matched: Seq<int>, radius: int, line_count: int, i: int) -> bool {
    covered_by_first(matched, radius, line_count, matched.len() as int, i)
}

/// Whether `i` is one of the first `j` match lines.
pub open spec fn among_first(matched: Seq<int>, j: int, i: int) -> bool {
    exists|q: int| 0 <= q < j && q < matched.len() && #[trigger] matched[q] == i
}

/// Whether line `i` lies in window `w`.
pub open spec fn in_window(w: WindowModel, i: int) -> bool {
    w.start <= i < w.end
}

/// Whether line `i` lies in one of the windows.
pub open spec fn in_some_window(windows: Seq<WindowModel>, i: int) -> bool {
    exists|k: int| 0 <= k < windows.len() && in_window(#[trigger] windows[k], i)
}

/// Whether window `w` lists, in ascending order, exactly those of the first `j`
/// match lines that lie inside it.
pub open spec fn holds_matches(w: WindowModel, matched: Seq<int>, j: int) -> bool {
    &&& ascending(w.match_indices)
    &&& forall|i: int|
        #![trigger w.match_indices.contains(i)]
        #![trigger among_first(matched, j, i)]
        w.match_indices.contains(i) <==> (in_window(w, i) && among_first(matched, j, i))
}

/// Whether the windows lie inside the file, in ascending order and apart from
/// each other by at least one line.
pub open spec fn windows_apart(windows: Seq<WindowModel>, line_count: int) -> bool {
    &&& forall|k: int|
        0 <= k < windows.len() ==> 0 <= (#[trigger] windows[k]).start < windows[k].end
            <= line_count
    &&& forall|a: int, b: int|
        0 <= a < b < windows.len() ==> (#[trigger] windows[a]).end < (#[trigger] windows[b]).start
}

/// Whether `windows` are the context windows of the match lines `matched` in a
/// file of `line_count` lines.
///
/// The windows are disjoint, ascending and no two of them touch; a line lies
/// in a window exactly when it lies within `radius` lines of a match line; and
/// each window lists the match lines inside it. So the windows are the maximal
/// runs of lines to be shown.
pub open spec fn windows_cover(
    windows: Seq<WindowModel>,
    matched: Seq<int>,
    radius: int,
    line_count: int,
) -> bool {
    &&& windows_apart(windows, line_count)
    &&& forall|i: int|
        0 <= i < line_count ==> (#[trigger] covered(matched, radius, line_count, i)
            <==> in_some_window(windows, i))
    &&& forall|k: int|
        0 <= k < windows.len() ==> holds_matches(
            #[trigger] windows[k],
            matched,
            matched.len() as int,
        )
}

/// A line lies in one of the windows with `w` added exactly when it lies in one
/// of the windows or in `w`.
pub proof fn lemma_in_some_window_push(windows: Seq<WindowModel>, w: WindowModel, i: int)
    ensures
        in_some_window(windows.push(w), i) <==> (in_some_window(windows, i) || in_window(w, i)),
{
    let more = windows.push(w);
    if in_some_window(windows, i) {
        let k = choose|k: int| 0 <= k < windows.len() && in_window(#[trigger] windows[k], i);
        assert(in_window(more[k], i));
    }
    if in_window(w, i) {
        assert(in_window(more[windows.len() as int], i));
    }
    if in_some_window(more, i) {
        let k = choose|k: int| 0 <= k < more.len() && in_window(#[trigger] more[k], i);
        if k < windows.len() {
            assert(in_window(windows[k], i));
        }
    }
}

/// A window that lists the first `j` match lines inside it lists the first
/// `j + 1` as well, when the next match line lies outside it.
pub proof fn lemma_holds_matches_next(w: WindowModel, matched: Seq<int>, j: int)
    requires
        0 <= j < matched.len(),
        holds_matches(w, matched, j),
        !in_window(w, matched[j]),
    ensures
        holds_matches(w, matched, j + 1),
{
    assert forall|i: int|
        #![trigger w.match_indices.contains(i)]
        #![trigger among_first(matched, j + 1, i)]
        w.match_indices.contains(i) <==> (in_window(w, i) && among_first(
            matched,
            j + 1,
            i,
        )) by {
        if in_window(w, i) && among_first(matched, j + 1, i) {
            let q = choose|q: int| 0 <= q < j + 1 && q < matched.len() && #[trigger] matched[q] == i;
            assert(q < j);
            assert(among_first(matched, j, i));
        }
        if w.match_indices.contains(i) {
            assert(among_first(matched, j, i));
            let q = choose|q: int| 0 <= q < j && q < matched.len() && #[trigger] matched[q] == i;
            assert(matched[q] == i);
        }
    }
}

/// Two ascending sequences with the same elements are the same sequence.
pub proof fn lemma_ascending_unique(x: Seq<int>, y: Seq<int>)
    requires
        ascending(x),
        ascending(y),
        forall|v: int| x.contains(v) <==> y.contains(v),
    ensures
        x == y,
    decreases x.len(),
{
    if x.len() == 0 {
        if y.len() > 0 {
            assert(y.contains(y[0]));
        }
        assert(x =~= y);
    } else {
        assert(x.contains(x.last()));
        assert(y.contains(x.last()));
        assert(y.contains(y.last()));
        assert(x.contains(y.last()));
        let p = choose|p: int| 0 <= p < y.len() && y[p] == x.last();
        let q = choose|q: int| 0 <= q < x.len() && x[q] == y.last();
        assert(x.last() == y.last()) by {
            if p < y.len() - 1 {
                assert(y[p] < y[y.len() - 1]);
            }
            if q < x.len() - 1 {
                assert(x[q] < x[x.len() - 1]);
            }
        }
        let shorter_x = x.drop_last();
        let shorter_y = y.drop_last();
        assert forall|v: int| shorter_x.contains(v) <==> shorter_y.contains(v) by {
            if shorter_x.contains(v) {
                let i = choose|i: int| 0 <= i < shorter_x.len() && shorter_x[i] == v;
                assert(x[i] == v);
                assert(x[i] < x[x.len() - 1]);
                assert(x.contains(v));
                let j = choose|j: int| 0 <= j < y.len() && y[j] == v;
                assert(shorter_y[j] == v);
            }
            if shorter_y.contains(v) {
                let j = choose|j: int| 0 <= j < shorter_y.len() && shorter_y[j] == v;
                assert(y[j] == v);
                assert(y[j] < y[y.len() - 1]);
                assert(y.contains(v));
                let i = choose|i: int| 0 <= i < x.len() && x[i] == v;
                assert(shorter_x[i] == v);
            }
        }
        lemma_ascending_unique(shorter_x, shorter_y);
        assert(x =~= shorter_x.push(x.last()));
        assert(y =~= shorter_y.push(y.last()));
    }
}

/// The line before a window and the line after it lie in no window.
pub proof fn lemma_window_is_a_whole_run(windows: Seq<WindowModel>, line_count: int, k: int)
    requires
        windows_apart(windows, line_count),
        0 <= k < windows.len(),
    ensures
        !in_some_window(windows, windows[k].start - 1),
        !in_some_window(windows, windows[k].end),
{
    let w = windows[k];
    assert(w.start < w.end);
    if in_some_window(windows, w.start - 1) {
        let j = choose|j: int| 0 <= j < windows.len() && in_window(#[trigger] windows[j], w.start - 1);
        if j < k {
            assert(windows[j].end < windows[k].start);
        }
        if k < j {
            assert(windows[k].end < windows[j].start);
        }
    }
    if in_some_window(windows, w.end) {
        let j = choose|j: int| 0 <= j < windows.len() && in_window(#[trigger] windows[j], w.end);
        if j < k {
            assert(windows[j].end < windows[k].start);
        }
        if k < j {
            assert(windows[k].end < windows[j].start);
        }
    }
}

/// Whether two sequences of windows hold the same lines of a file.
pub open spec fn same_lines(a: Seq<WindowModel>, b: Seq<WindowModel>, line_count: int) -> bool {
    forall|i: int| 0 <= i < line_count ==> (in_some_window(a, i) <==> in_some_window(b, i))
}

/// Where two sequences of windows hold the same lines, a window of the second
/// that holds the first line of a window of the first holds that window's
/// lines up to `upto`.
pub proof fn lemma_run_stays_in_window(
    a: Seq<WindowModel>,
    b: Seq<WindowModel>,
    line_count: int,
    k: int,
    j: int,
    upto: int,
)
    requires
        windows_apart(a, line_count),
        windows_apart(b, line_count),
        same_lines(a, b, line_count),
        0 <= k < a.len(),
        0 <= j < b.len(),
        in_window(b[j], a[k].start),
        a[k].start <= upto < a[k].end,
    ensures
        in_window(b[j], upto),
    decreases upto - a[k].start,
{
    if upto > a[k].start {
        lemma_run_stays_in_window(a, b, line_count, k, j, upto - 1);
        assert(in_window(a[k], upto));
        assert(in_some_window(a, upto));
        assert(in_some_window(b, upto));
        let at = choose|at: int| 0 <= at < b.len() && in_window(#[trigger] b[at], upto);
        if j < at {
            assert(b[j].end < b[at].start);
        }
        if at < j {
            assert(b[at].end < b[j].start);
        }
    }
}

/// Where two sequences of windows hold the same lines, each window of the
/// first has its like in the second: a window with the same first line and
/// the same end.
pub proof fn lemma_window_has_its_like(
    a: Seq<WindowModel>,
    b: Seq<WindowModel>,
    line_count: int,
    k: int,
) -> (j: int)
    requires
        windows_apart(a, line_count),
        windows_apart(b, line_count),
        same_lines(a, b, line_count),
        same_lines(b, a, line_count),
        0 <= k < a.len(),
    ensures
        0 <= j < b.len(),
        b[j].start == a[k].start,
        b[j].end == a[k].end,
{
    let w = a[k];
    assert(in_window(w, w.start));
    assert(in_some_window(a, w.start));
    assert(in_some_window(b, w.start));
    let j = choose|j: int| 0 <= j < b.len() && in_window(#[trigger] b[j], w.start);
    lemma_window_is_a_whole_run(a, line_count, k);
    if b[j].start < w.start {
        assert(in_window(b[j], w.start - 1));
        assert(in_some_window(b, w.start - 1));
    }
    lemma_run_stays_in_window(a, b, line_count, k, j, w.end - 1);
    if b[j].end > w.end {
        assert(in_window(b[j], w.end));
        assert(in_some_window(b, w.end));
    }
    j
}

/// The first lines of the windows, window after window.
pub open spec fn window_starts(windows: Seq<WindowModel>) -> Seq<int> {
    Seq::new(windows.len(), |k: int| windows[k].start)
}

/// A file has one sequence of context windows: two sequences of windows that
/// both cover the same match lines under the same radius are equal.
pub proof fn lemma_windows_unique(
    a: Seq<WindowModel>,
    b: Seq<WindowModel>,
    matched: Seq<int>,
    radius: int,
    line_count: int,
)
    requires
        windows_cover(a, matched, radius, line_count),
        windows_cover(b, matched, radius, line_count),
    ensures
        a == b,
{
    assert(same_lines(a, b, line_count)) by {
        assert forall|i: int| 0 <= i < line_count implies (in_some_window(a, i) <==> in_some_window(
            b,
            i,
        )) by {
            assert(covered(matched, radius, line_count, i) <==> in_some_window(a, i));
            assert(covered(matched, radius, line_count, i) <==> in_some_window(b, i));
        }
    }
    assert(same_lines(b, a, line_count));
    let starts_a = window_starts(a);
    let starts_b = window_starts(b);
    assert(ascending(starts_a)) by {
        assert forall|x: int, y: int| 0 <= x < y < starts_a.len() implies starts_a[x]
            < starts_a[y] by {
            assert(a[x].start < a[x].end);
            assert(a[x].end < a[y].start);
        }
    }
    assert(ascending(starts_b)) by {
        assert forall|x: int, y: int| 0 <= x < y < starts_b.len() implies starts_b[x]
            < starts_b[y] by {
            assert(b[x].start < b[x].end);
            assert(b[x].end < b[y].start);
        }
    }
    assert forall|v: int| starts_a.contains(v) <==> starts_b.contains(v) by {
        if starts_a.contains(v) {
            let k = choose|k: int| 0 <= k < starts_a.len() && starts_a[k] == v;
            let j = lemma_window_has_its_like(a, b, line_count, k);
            assert(starts_b[j] == v);
        }
        if starts_b.contains(v) {
            let k = choose|k: int| 0 <= k < starts_b.len() && starts_b[k] == v;
            let j = lemma_window_has_its_like(b, a, line_count, k);
            assert(starts_a[j] == v);
        }
    }
    lemma_ascending_unique(starts_a, starts_b);
    assert(a.len() == b.len()) by {
        assert(starts_a.len() == starts_b.len());
    }
    assert forall|k: int| 0 <= k < a.len() implies a[k] == b[k] by {
        let j = lemma_window_has_its_like(a, b, line_count, k);
        assert(starts_a[k] == starts_b[k]);
        assert(starts_b[j] == starts_b[k]);
        if j < k {
            assert(starts_b[j] < starts_b[k]);
        }
        if k < j {
            assert(starts_b[k] < starts_b[j]);
        }
        assert(j == k);
        let x = a[k];
        let y = b[k];
        assert(holds_matches(x, matched, matched.len() as int));
        assert(holds_matches(y, matched, matched.len() as int));
        assert forall|v: int| x.match_indices.contains(v) <==> y.match_indices.contains(v) by {
            assert(in_window(x, v) == in_window(y, v));
        }
        lemma_ascending_unique(x.match_indices, y.match_indices);
    }
    assert(a =~= b);
}

/// The raw window around a match line.
pub fn raw_window(index: usize, radius: usize, line_count: usize) -> (bounds: (usize, usize))
    requires
        index < line_count,
    ensures
        bounds.0 == raw_start(index as int, radius as int),
        bounds.1 == raw_end(index as int, radius as int, line_count as int),
        bounds.0 <= index < bounds.1 <= line_count,
{
    let start = if index >= radius {
        index - radius
    } else {
        0
    };
    let room = line_count - index - 1;
    let end = if radius <= room {
        index + radius + 1
    } else {
        line_count
    };
    (start, end)
}

/// Builds the context windows of a file from its match lines.
///
/// Each match line gets the raw window of `radius` lines on either side,
/// cut at the ends of the file. Going from left to right, a raw window that
/// begins at or before the end of the window built so far is merged into it.
pub fn build_windows(matches: &Vec<usize>, radius: usize, line_count: usize) -> (windows: Vec<
    ContextWindow,
>)
    requires
        ascending(as_ints(matches@)),
        forall|k: int| 0 <= k < matches@.len() ==> matches@[k] < line_count,
    ensures
        windows_cover(
            windows_view(windows@),
            as_ints(matches@),
            radius as int,
            line_count as int,
        ),
{
    let mut windows: Vec<ContextWindow> = Vec::new();
    let ghost matched = as_ints(matches@);
    let ghost r = radius as int;
    let ghost n = line_count as int;
    if matches.len() == 0 {
        assert(windows_view(windows@).len() == 0);
        return windows;
    }
    let first = raw_window(matches[0], radius, line_count);
    let mut current_start: usize = first.0;
    let mut current_end: usize = first.1;
    let mut current: Vec<usize> = Vec::new();
    current.push(matches[0]);
    let mut j: usize = 1;
    proof {
        assert(matched[0] == matches@[0]);
        assert(as_ints(current@) == seq![matched[0]]);
        assert forall|i: int|
            #![trigger as_ints(current@).contains(i)]
            #![trigger among_first(matched, 1, i)]
            as_ints(current@).contains(i) <==> (current_start <= i < current_end && among_first(
                matched,
                1,
                i,
            )) by {
            if as_ints(current@).contains(i) {
                assert(i == matched[0]);
                assert(among_first(matched, 1, i));
            }
            if among_first(matched, 1, i) {
                assert(as_ints(current@)[0] == i);
            }
        }
        assert forall|i: int| 0 <= i < n implies (covered_by_first(matched, r, n, 1, i) <==> (
        in_some_window(windows_view(windows@), i) || current_start <= i < current_end)) by {
            if current_start <= i < current_end {
                assert(within_raw(matched[0], r, n, i));
            }
        }
    }
    while j < matches.len()
        invariant
            1 <= j <= matches@.len(),
            matched == as_ints(matches@),
            r == radius as int,
            n == line_count as int,
            ascending(matched),
            forall|k: int| 0 <= k < matches@.len() ==> matches@[k] < line_count,
            0 <= current_start <= raw_start(matched[j - 1], r),
            matched[j - 1] < current_end <= n,
            holds_matches(
                WindowModel {
                    start: current_start as int,
                    end: current_end as int,
                    match_indices: as_ints(current@),
                },
                matched,
                j as int,
            ),
            windows_apart(windows_view(windows@), n),
            forall|k: int|
                0 <= k < windows@.len() ==> (#[trigger] windows_view(windows@)[k]).end
                    < current_start,
            forall|k: int|
                0 <= k < windows@.len() ==> holds_matches(
                    #[trigger] windows_view(windows@)[k],
                    matched,
                    j as int,
                ),
            forall|i: int|
                0 <= i < n ==> (#[trigger] covered_by_first(matched, r, n, j as int, i) <==> (
                in_some_window(windows_view(windows@), i) || current_start <= i < current_end)),
        decreases matches@.len() - j,
    {
        let index = matches[j];
        let raw = raw_window(index, radius, line_count);
        let ghost done = windows_view(windows@);
        let ghost open = WindowModel {
            start: current_start as int,
            end: current_end as int,
            match_indices: as_ints(current@),
        };
        proof {
            assert(matched[j as int] == index);
            assert(matched[j - 1] < matched[j as int]);
            assert forall|k: int| 0 <= k < done.len() implies holds_matches(
                #[trigger] done[k],
                matched,
                j + 1,
            ) by {
                lemma_holds_matches_next(done[k], matched, j as int);
            }
        }
        if raw.0 <= current_end {
            let merged_end = if raw.1 > current_end {
                raw.1
            } else {
                current_end
            };
            proof {
                let grown = WindowModel {
                    start: current_start as int,
                    end: merged_end as int,
                    match_indices: as_ints(current@.push(index)),
                };
                assert(grown.match_indices == open.match_indices.push(index as int));
                assert forall|a: int, b: int|
                    0 <= a < b < grown.match_indices.len() implies grown.match_indices[a]
                    < grown.match_indices[b] by {
                    if b == open.match_indices.len() {
                        assert(open.match_indices.contains(open.match_indices[a]));
                        assert(among_first(matched, j as int, open.match_indices[a]));
                    }
                }
                assert forall|i: int|
                    #![trigger grown.match_indices.contains(i)]
                    #![trigger among_first(matched, j + 1, i)]
                    grown.match_indices.contains(i) <==> (in_window(grown, i) && among_first(
                        matched,
                        j + 1,
                        i,
                    )) by {
                    if grown.match_indices.contains(i) {
                        let p = choose|p: int|
                            0 <= p < grown.match_indices.len() && grown.match_indices[p] == i;
                        if p < open.match_indices.len() {
                            assert(open.match_indices.contains(i));
                            assert(among_first(matched, j as int, i));
                            let q = choose|q: int|
                                0 <= q < j && q < matched.len() && #[trigger] matched[q] == i;
                            assert(matched[q] == i);
                        } else {
                            assert(matched[j as int] == i);
                        }
                    }
                    if in_window(grown, i) && among_first(matched, j + 1, i) {
                        let q = choose|q: int|
                            0 <= q < j + 1 && q < matched.len() && #[trigger] matched[q] == i;
                        if q < j {
                            assert(among_first(matched, j as int, i));
                            assert(q < j - 1 ==> matched[q] < matched[j - 1]);
                            assert(in_window(open, i));
                            assert(open.match_indices.contains(i));
                            let p = choose|p: int|
                                0 <= p < open.match_indices.len() && open.match_indices[p] == i;
                            assert(grown.match_indices[p] == i);
                        } else {
                            assert(grown.match_indices[open.match_indices.len() as int] == i);
                        }
                    }
                }
                assert forall|i: int| 0 <= i < n implies (#[trigger] covered_by_first(
                    matched,
                    r,
                    n,
                    j + 1,
                    i,
                ) <==> (in_some_window(done, i) || current_start <= i < merged_end)) by {
                    if covered_by_first(matched, r, n, j + 1, i) {
                        let k = choose|k: int|
                            0 <= k < j + 1 && k < matched.len() && within_raw(
                                #[trigger] matched[k],
                                r,
                                n,
                                i,
                            );
                        if k < j {
                            assert(covered_by_first(matched, r, n, j as int, i));
                        }
                    }
                    if covered_by_first(matched, r, n, j as int, i) {
                        let k = choose|k: int|
                            0 <= k < j && k < matched.len() && within_raw(
                                #[trigger] matched[k],
                                r,
                                n,
                                i,
                            );
                        assert(within_raw(matched[k], r, n, i));
                    }
                    if current_start <= i < merged_end && !(current_start <= i < current_end) {
                        assert(within_raw(matched[j as int], r, n, i));
                    }
                    if current_start <= i < current_end {
                        assert(covered_by_first(matched, r, n, j as int, i));
                    }
                }
            }
            current_end = merged_end;
            current.push(index);
        } else {
            let finished = ContextWindow {
                start: current_start,
                end: current_end,
                match_indices: current,
            };
            proof {
                assert(finished@ == open);
                assert(windows_view(windows@.push(finished)) == done.push(open));
                lemma_holds_matches_next(open, matched, j as int);
                let fresh = WindowModel {
                    start: raw.0 as int,
                    end: raw.1 as int,
                    match_indices: seq![index as int],
                };
                assert forall|i: int|
                    #![trigger fresh.match_indices.contains(i)]
                    #![trigger among_first(matched, j + 1, i)]
                    fresh.match_indices.contains(i) <==> (in_window(fresh, i) && among_first(
                        matched,
                        j + 1,
                        i,
                    )) by {
                    if fresh.match_indices.contains(i) {
                        assert(matched[j as int] == i);
                    }
                    if in_window(fresh, i) && among_first(matched, j + 1, i) {
                        let q = choose|q: int|
                            0 <= q < j + 1 && q < matched.len() && #[trigger] matched[q] == i;
                        assert(q < j - 1 ==> matched[q] < matched[j - 1]);
                        assert(q == j);
                        assert(fresh.match_indices[0] == i);
                    }
                }
                assert forall|i: int| 0 <= i < n implies (#[trigger] covered_by_first(
                    matched,
                    r,
                    n,
                    j + 1,
                    i,
                ) <==> (in_some_window(done.push(open), i) || raw.0 <= i < raw.1)) by {
                    lemma_in_some_window_push(done, open, i);
                    if covered_by_first(matched, r, n, j + 1, i) {
                        let k = choose|k: int|
                            0 <= k < j + 1 && k < matched.len() && within_raw(
                                #[trigger] matched[k],
                                r,
                                n,
                                i,
                            );
                        if k < j {
                            assert(covered_by_first(matched, r, n, j as int, i));
                        }
                    }
                    if covered_by_first(matched, r, n, j as int, i) {
                        let k = choose|k: int|
                            0 <= k < j && k < matched.len() && within_raw(
                                #[trigger] matched[k],
                                r,
                                n,
                                i,
                            );
                        assert(within_raw(matched[k], r, n, i));
                    }
                    if raw.0 <= i < raw.1 {
                        assert(within_raw(matched[j as int], r, n, i));
                    }
                }
                assert forall|k: int| 0 <= k < done.push(open).len() implies holds_matches(
                    #[trigger] done.push(open)[k],
                    matched,
                    j + 1,
                ) by {
                    if k < done.len() {
                        assert(done.push(open)[k] == done[k]);
                    }
                }
                assert(windows_apart(done.push(open), n)) by {
                    assert forall|a: int, b: int| 0 <= a < b < done.push(open).len() implies (
                    #[trigger] done.push(open)[a]).end < (#[trigger] done.push(open)[b]).start by {
                        assert(done.push(open)[a] == done[a]);
                        if b < done.len() {
                            assert(done.push(open)[b] == done[b]);
                        }
                    }
                }
            }
            windows.push(finished);
            current_start = raw.0;
            current_end = raw.1;
            current = Vec::new();
            current.push(index);
            assert(as_ints(current@) == seq![index as int]);
        }
        j += 1;
    }
    let last = ContextWindow { start: current_start, end: current_end, match_indices: current };
    proof {
        let done = windows_view(windows@);
        let all = done.push(last@);
        assert(windows_view(windows@.push(last)) == all);
        assert(windows_apart(all, n)) by {
            assert forall|a: int, b: int| 0 <= a < b < all.len() implies (#[trigger] all[a]).end < (
            #[trigger] all[b]).start by {
                assert(all[a] == done[a]);
                if b < done.len() {
                    assert(all[b] == done[b]);
                }
            }
        }
        assert forall|i: int| 0 <= i < n implies (#[trigger] covered(matched, r, n, i)
            <==> in_some_window(all, i)) by {
            lemma_in_some_window_push(done, last@, i);
        }
        assert forall|k: int| 0 <= k < all.len() implies holds_matches(
            #[trigger] all[k],
            matched,
            matched.len() as int,
        ) by {
            if k < done.len() {
                assert(all[k] == done[k]);
            }
        }
    }
    windows.push(last);
    windows
}

} // verus!
