//! The emitter: from the windows of a file to its records.

use crate::options::{OptionsModel, SearchOptions};
use crate::pattern::{LineMatcher, MatcherModel};
use crate::lines::lines_view;
use crate::record::{
    context_record, line_number_of, match_record, records_view, RecordModel, RgJsonContext,
    RgJsonMatch, SearchResultType,
};
use crate::render::{clip_span, clipped, render_line, rendered};
use crate::scan::ascending;
use crate::window::{
    among_first, covered, holds_matches, in_some_window, in_window, windows_apart, windows_cover,
    windows_view, ContextWindow, WindowModel,
};
use vstd::prelude::*;
use vstd::slice::{slice_subrange, slice_to_vec};

verus! {

/// A file being searched: what it is matched with, its path, its lines, and
/// the options in force.
pub struct FileModel {
    pub matcher: MatcherModel,
    pub path: Seq<char>,
    pub lines: Seq<Seq<u8>>,
    pub options: OptionsModel,
}

/// What is emitted for line `index` of a file once the line is known to lie in
/// a window: nothing, or one record.
///
/// A line that the truncation policy drops yields nothing. A match line yields
/// a match record with the span of the first match in its untruncated text,
/// clipped as the policy says, unless that match is not visible. Any other
/// line yields a context record, and only when context was asked for. Line
/// numbers count from one.
pub open spec fn line_record(file: FileModel, index: int, is_match: bool) -> Option<RecordModel> {
    let line = file.lines[index];
    let width = file.options.max_columns;
    match rendered(line, width, file.options.max_columns_preview) {
        None => None,
        Some(text) => if is_match {
            match file.matcher.span_in(line) {
                None => None,
                Some((start, end)) => match clipped(line.len() as int, start, end, width) {
                    None => None,
                    Some((from, to)) => Some(
                        match_record(file.path, text, index + 1, line.subrange(from, to), from, to),
                    ),
                },
            }
        } else if file.options.include_context > 0 {
            Some(context_record(file.path, text, index + 1))
        } else {
            None
        },
    }
}

/// An optional record as a sequence of at most one record.
pub open spec fn emitted(record: Option<RecordModel>) -> Seq<RecordModel> {
    match record {
        Some(r) => seq![r],
        None => Seq::empty(),
    }
}

/// The records of the lines of window `w` before line `upto`, in ascending
/// order of their lines.
pub open spec fn window_records(file: FileModel, w: WindowModel, upto: int) -> Seq<RecordModel>
    decreases upto - w.start,
{
    if upto <= w.start {
        Seq::empty()
    } else {
        window_records(file, w, upto - 1) + emitted(
            line_record(file, upto - 1, w.match_indices.contains(upto - 1)),
        )
    }
}

/// The records of the first `count` windows, window after window.
pub open spec fn windows_records(file: FileModel, windows: Seq<WindowModel>, count: int) -> Seq<
    RecordModel,
>
    decreases count,
{
    if count <= 0 {
        Seq::empty()
    } else {
        windows_records(file, windows, count - 1) + window_records(
            file,
            windows[count - 1],
            windows[count - 1].end,
        )
    }
}

/// The records of the first `upto` lines of a file whose match lines are
/// `matched`: for each line within reach of a match line, in ascending order,
/// what that line yields.
pub open spec fn records_upto(file: FileModel, matched: Seq<int>, upto: int) -> Seq<RecordModel>
    decreases upto,
{
    if upto <= 0 {
        Seq::empty()
    } else if covered(
        matched,
        file.options.include_context as int,
        file.lines.len() as int,
        upto - 1,
    ) {
        records_upto(file, matched, upto - 1) + emitted(
            line_record(file, upto - 1, matched.contains(upto - 1)),
        )
    } else {
        records_upto(file, matched, upto - 1)
    }
}

/// The records of a file come in ascending order of their line numbers, which
/// count from one: no line yields more than one record.
pub proof fn lemma_records_ascending(file: FileModel, matched: Seq<int>, upto: int)
    requires
        0 <= upto,
    ensures
        forall|a: int|
            0 <= a < records_upto(file, matched, upto).len() ==> 1 <= line_number_of(
                #[trigger] records_upto(file, matched, upto)[a],
            ) <= upto,
        forall|a: int, b: int|
            0 <= a < b < records_upto(file, matched, upto).len() ==> line_number_of(
                records_upto(file, matched, upto)[a],
            ) < line_number_of(records_upto(file, matched, upto)[b]),
    decreases upto,
{
    if upto > 0 {
        lemma_records_ascending(file, matched, upto - 1);
        let all = records_upto(file, matched, upto);
        let before = records_upto(file, matched, upto - 1);
        let last = line_record(file, upto - 1, matched.contains(upto - 1));
        assert(last matches Some(r) ==> line_number_of(r) == upto);
        assert(all == before || (last is Some && all == before + seq![last->0]));
        assert forall|a: int| 0 <= a < all.len() implies 1 <= line_number_of(#[trigger] all[a])
            <= upto by {
            if a < before.len() {
                assert(all[a] == before[a]);
            }
        }
        assert forall|a: int, b: int| 0 <= a < b < all.len() implies line_number_of(all[a])
            < line_number_of(all[b]) by {
            assert(all[a] == before[a]);
            if b < before.len() {
                assert(all[b] == before[b]);
            }
        }
    }
}

/// Lines outside every window add no record.
pub proof fn lemma_records_skip(file: FileModel, matched: Seq<int>, from: int, to: int)
    requires
        0 <= from <= to <= file.lines.len(),
        forall|i: int|
            from <= i < to ==> !covered(
                matched,
                file.options.include_context as int,
                file.lines.len() as int,
                i,
            ),
    ensures
        records_upto(file, matched, to) == records_upto(file, matched, from),
    decreases to - from,
{
    if from < to {
        lemma_records_skip(file, matched, from, to - 1);
    }
}

/// Inside a window of the file, the records of the file grow by the records of
/// the window.
pub proof fn lemma_records_inside(
    file: FileModel,
    matched: Seq<int>,
    windows: Seq<WindowModel>,
    k: int,
    upto: int,
)
    requires
        windows_cover(
            windows,
            matched,
            file.options.include_context as int,
            file.lines.len() as int,
        ),
        0 <= k < windows.len(),
        windows[k].start <= upto <= windows[k].end,
    ensures
        records_upto(file, matched, upto) == records_upto(file, matched, windows[k].start)
            + window_records(file, windows[k], upto),
    decreases upto - windows[k].start,
{
    let w = windows[k];
    if upto > w.start {
        lemma_records_inside(file, matched, windows, k, upto - 1);
        let i = upto - 1;
        assert(in_window(w, i));
        assert(in_some_window(windows, i));
        assert(covered(
            matched,
            file.options.include_context as int,
            file.lines.len() as int,
            i,
        ));
        assert(w.match_indices.contains(i) == matched.contains(i)) by {
            lemma_window_lists_matches(w, matched, i);
        }
        assert(records_upto(file, matched, w.start) + (window_records(file, w, upto - 1) + emitted(
            line_record(file, i, matched.contains(i)),
        )) == (records_upto(file, matched, w.start) + window_records(file, w, upto - 1)) + emitted(
            line_record(file, i, matched.contains(i)),
        ));
    } else {
        assert(records_upto(file, matched, w.start) + Seq::<RecordModel>::empty() == records_upto(
            file,
            matched,
            w.start,
        ));
    }
}

/// A window that lists the match lines inside it lists line `i` exactly when
/// `i` is a match line, for every line `i` of the window.
pub proof fn lemma_window_lists_matches(w: WindowModel, matched: Seq<int>, i: int)
    requires
        holds_matches(w, matched, matched.len() as int),
        in_window(w, i),
    ensures
        w.match_indices.contains(i) == matched.contains(i),
{
    if matched.contains(i) {
        let q = choose|q: int| 0 <= q < matched.len() && matched[q] == i;
        assert(among_first(matched, matched.len() as int, i));
    }
    if w.match_indices.contains(i) {
        assert(among_first(matched, matched.len() as int, i));
        let q = choose|q: int|
            0 <= q < matched.len() && q < matched.len() && #[trigger] matched[q] == i;
        assert(matched[q] == i);
    }
}

/// The end of the window before window `k`, or the start of the file.
pub open spec fn end_before(windows: Seq<WindowModel>, k: int) -> int {
    if k <= 0 {
        0
    } else {
        windows[k - 1].end
    }
}

/// Through the first `count` windows, the records of the windows are the
/// records of the file.
pub proof fn lemma_windows_prefix(
    file: FileModel,
    matched: Seq<int>,
    windows: Seq<WindowModel>,
    count: int,
)
    requires
        windows_cover(
            windows,
            matched,
            file.options.include_context as int,
            file.lines.len() as int,
        ),
        0 <= count <= windows.len(),
    ensures
        windows_records(file, windows, count) == records_upto(
            file,
            matched,
            end_before(windows, count),
        ),
    decreases count,
{
    if count > 0 {
        lemma_windows_prefix(file, matched, windows, count - 1);
        let w = windows[count - 1];
        let before = end_before(windows, count - 1);
        assert(before <= w.start) by {
            if count - 1 > 0 {
                assert(windows[count - 2].end < windows[count - 1].start);
            }
        }
        assert forall|i: int| before <= i < w.start implies !covered(
            matched,
            file.options.include_context as int,
            file.lines.len() as int,
            i,
        ) by {
            lemma_gap_is_bare(windows, file.lines.len() as int, count - 1, i);
        }
        lemma_records_skip(file, matched, before, w.start);
        lemma_records_inside(file, matched, windows, count - 1, w.end);
    }
}

/// A line between the window before window `k` and window `k` lies in no
/// window at all.
pub proof fn lemma_gap_is_bare(windows: Seq<WindowModel>, line_count: int, k: int, i: int)
    requires
        windows_apart(windows, line_count),
        0 <= k <= windows.len(),
        end_before(windows, k) <= i,
        k < windows.len() ==> i < windows[k].start,
    ensures
        !in_some_window(windows, i),
{
    if in_some_window(windows, i) {
        let at = choose|at: int| 0 <= at < windows.len() && in_window(#[trigger] windows[at], i);
        if at < k {
            if at < k - 1 {
                assert(windows[at].end < windows[k - 1].start);
            }
            assert(windows[k - 1].start < windows[k - 1].end);
        } else {
            if k < at {
                assert(windows[k].end < windows[at].start);
            }
            assert(windows[k].start < windows[k].end);
        }
    }
}

/// The records of the context windows of a file are the records of the file:
/// every line within reach of a match line is looked at once, in ascending
/// order, and no other line is.
pub proof fn lemma_windows_yield_file_records(
    file: FileModel,
    matched: Seq<int>,
    windows: Seq<WindowModel>,
)
    requires
        windows_cover(
            windows,
            matched,
            file.options.include_context as int,
            file.lines.len() as int,
        ),
    ensures
        windows_records(file, windows, windows.len() as int) == records_upto(
            file,
            matched,
            file.lines.len() as int,
        ),
{
    let n = file.lines.len() as int;
    let count = windows.len() as int;
    lemma_windows_prefix(file, matched, windows, count);
    let before = end_before(windows, count);
    assert(0 <= before <= n) by {
        if count > 0 {
            assert(windows[count - 1].end <= n);
        }
    }
    assert forall|i: int| before <= i < n implies !covered(
        matched,
        file.options.include_context as int,
        n,
        i,
    ) by {
        lemma_gap_is_bare(windows, n, count, i);
    }
    lemma_records_skip(file, matched, before, n);
}

/// Whether a window can be walked over a file of `line_count` lines: it lies
/// inside the file and lists its match lines in ascending order.
pub open spec fn window_fits(w: WindowModel, line_count: int) -> bool {
    &&& 0 <= w.start <= w.end <= line_count
    &&& ascending(w.match_indices)
    &&& forall|q: int| 0 <= q < w.match_indices.len() ==> w.start <= #[trigger] w.match_indices[q]
}

/// Emits what line `index` yields, if anything, at the end of `results`.
pub fn emit_line(
    matcher: &LineMatcher,
    path: &str,
    lines: &Vec<Vec<u8>>,
    index: usize,
    is_match: bool,
    options: &SearchOptions,
    results: &mut Vec<SearchResultType>,
)
    requires
        index < lines@.len(),
    ensures
        records_view(final(results)@) == records_view(old(results)@) + emitted(
            line_record(
                FileModel {
                    matcher: matcher@,
                    path: path@,
                    lines: lines_view(lines@),
                    options: options@,
                },
                index as int,
                is_match,
            ),
        ),
{
    let ghost file = FileModel {
        matcher: matcher@,
        path: path@,
        lines: lines_view(lines@),
        options: options@,
    };
    let ghost before = records_view(results@);
    let line = lines[index].as_slice();
    assert(file.lines[index as int] == line@);
    assert(before + Seq::<RecordModel>::empty() == before);
    assert(index < lines.len());
    let number: u64 = (index + 1) as u64;
    match render_line(line, options.max_columns, options.max_columns_preview) {
        None => {},
        Some(text) => {
            if is_match {
                match matcher.find(index, line) {
                    None => {},
                    Some(span) => {
                        match clip_span(line.len(), span.start, span.end, options.max_columns) {
                            None => {},
                            Some((from, to)) => {
                                let matched = slice_to_vec(slice_subrange(line, from, to));
                                let record = SearchResultType::Match(
                                    RgJsonMatch::new(path, text, number, matched, from, to),
                                );
                                assert(records_view(results@.push(record)) == before + seq![
                                    record@,
                                ]);
                                results.push(record);
                            },
                        }
                    },
                }
            } else if options.include_context > 0 {
                let record = SearchResultType::Context(RgJsonContext::new(path, text, number));
                assert(records_view(results@.push(record)) == before + seq![record@]);
                results.push(record);
            }
        },
    }
}

/// Emits the records of the windows, window after window and line after line,
/// at the end of `results`.
pub fn emit_records(
    matcher: &LineMatcher,
    path: &str,
    lines: &Vec<Vec<u8>>,
    windows: &Vec<ContextWindow>,
    options: &SearchOptions,
    results: &mut Vec<SearchResultType>,
)
    requires
        forall|k: int|
            0 <= k < windows@.len() ==> window_fits(
                #[trigger] windows_view(windows@)[k],
                lines@.len() as int,
            ),
    ensures
        records_view(final(results)@) == records_view(old(results)@) + windows_records(
            FileModel {
                matcher: matcher@,
                path: path@,
                lines: lines_view(lines@),
                options: options@,
            },
            windows_view(windows@),
            windows@.len() as int,
        ),
{
    let ghost file = FileModel {
        matcher: matcher@,
        path: path@,
        lines: lines_view(lines@),
        options: options@,
    };
    let ghost before = records_view(results@);
    let ghost models = windows_view(windows@);
    let mut k: usize = 0;
    assert(before + windows_records(file, models, 0) == before);
    while k < windows.len()
        invariant
            k <= windows@.len(),
            models == windows_view(windows@),
            file == (FileModel {
                matcher: matcher@,
                path: path@,
                lines: lines_view(lines@),
                options: options@,
            }),
            forall|k: int|
                0 <= k < windows@.len() ==> window_fits(#[trigger] models[k], lines@.len() as int),
            records_view(results@) == before + windows_records(file, models, k as int),
        decreases windows@.len() - k,
    {
        let window = &windows[k];
        let ghost w = models[k as int];
        let ghost so_far = records_view(results@);
        let mut i: usize = window.start;
        let mut next: usize = 0;
        assert(w == window@);
        assert(window_fits(w, lines@.len() as int));
        assert(so_far + window_records(file, w, i as int) == so_far);
        while i < window.end
            invariant
                w == window@,
                window_fits(w, lines@.len() as int),
                window.start <= i <= window.end,
                next <= window.match_indices@.len(),
                forall|q: int| 0 <= q < next ==> #[trigger] w.match_indices[q] < i,
                forall|q: int| next <= q < w.match_indices.len() ==> #[trigger] w.match_indices[q] >= i,
                file == (FileModel {
                    matcher: matcher@,
                    path: path@,
                    lines: lines_view(lines@),
                    options: options@,
                }),
                records_view(results@) == so_far + window_records(file, w, i as int),
            decreases window.end - i,
        {
            let is_match = next < window.match_indices.len() && window.match_indices[next] == i;
            proof {
                if is_match {
                    assert(w.match_indices[next as int] == i);
                } else if w.match_indices.contains(i as int) {
                    let q = choose|q: int|
                        0 <= q < w.match_indices.len() && w.match_indices[q] == i as int;
                    if q >= next {
                        if q > next {
                            assert(w.match_indices[next as int] < w.match_indices[q]);
                        }
                    }
                }
                assert(is_match == w.match_indices.contains(i as int));
                assert(so_far + (window_records(file, w, i as int) + emitted(
                    line_record(file, i as int, is_match),
                )) == (so_far + window_records(file, w, i as int)) + emitted(
                    line_record(file, i as int, is_match),
                ));
            }
            emit_line(matcher, path, lines, i, is_match, options, results);
            if is_match {
                proof {
                    assert forall|q: int| next + 1 <= q < w.match_indices.len() implies
                        #[trigger] w.match_indices[q] >= i + 1 by {
                        assert(w.match_indices[next as int] < w.match_indices[q]);
                    }
                }
                next += 1;
            }
            i += 1;
        }
        proof {
            assert(before + (windows_records(file, models, k as int) + window_records(
                file,
                w,
                w.end,
            )) == (before + windows_records(file, models, k as int)) + window_records(
                file,
                w,
                w.end,
            ));
        }
        k += 1;
    }
}

} // verus!
