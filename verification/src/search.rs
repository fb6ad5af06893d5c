//! The search of one file: from its bytes to its records.

use crate::emit::{
    emit_records, lemma_records_ascending, lemma_windows_yield_file_records, records_upto,
    window_fits, FileModel,
};
use crate::error::SearchError;
use crate::lines::{has_nul, is_binary, lines_of, lines_view, split_lines};
use crate::options::{plain_options, OptionsModel, SearchOptions};
use crate::pattern::{LineMatcher, MatcherModel};
use crate::record::{line_number_of, records_view, RecordModel, RgJsonMatch, SearchResultType};
use crate::scan::{as_ints, lemma_match_lines_sound, match_lines, scan_matches};
use crate::window::{build_windows, windows_cover, windows_view, WindowModel};
use vstd::prelude::*;

verus! {

/// The records of one file: for each line within reach of a match line, in
/// ascending order, what that line yields under the options.
pub open spec fn file_records(
    matcher: MatcherModel,
    path: Seq<char>,
    content: Seq<u8>,
    options: OptionsModel,
) -> Seq<RecordModel> {
    let file = FileModel { matcher, path, lines: lines_of(content), options };
    records_upto(
        file,
        match_lines(matcher, file.lines, options.max_count),
        file.lines.len() as int,
    )
}

/// Windows that cover the match lines of a file can be walked over it.
pub proof fn lemma_cover_fits(
    windows: Seq<WindowModel>,
    matched: Seq<int>,
    radius: int,
    line_count: int,
)
    requires
        windows_cover(windows, matched, radius, line_count),
    ensures
        forall|k: int| 0 <= k < windows.len() ==> window_fits(#[trigger] windows[k], line_count),
{
    assert forall|k: int| 0 <= k < windows.len() implies window_fits(
        #[trigger] windows[k],
        line_count,
    ) by {
        let w = windows[k];
        assert forall|q: int| 0 <= q < w.match_indices.len() implies w.start
            <= #[trigger] w.match_indices[q] by {
            assert(w.match_indices.contains(w.match_indices[q]));
        }
    }
}

/// Searches one file and appends its records to `results`.
///
/// A file that holds a NUL byte is binary: it is refused as a whole and
/// `results` stays as it was. Otherwise the file is split into lines, its match
/// lines are found, the context windows around them are built and merged, and
/// the records of the windows are appended in ascending order of their lines.
pub fn search_file_with_context(
    matcher: &LineMatcher,
    path: &str,
    content: &[u8],
    results: &mut Vec<SearchResultType>,
    options: &SearchOptions,
) -> (outcome: Result<(), SearchError>)
    ensures
        match outcome {
            Ok(_) => {
                &&& !has_nul(content@)
                &&& records_view(final(results)@) == records_view(old(results)@) + file_records(
                    matcher@,
                    path@,
                    content@,
                    options@,
                )
            },
            Err(e) => {
                &&& has_nul(content@)
                &&& e is BinaryContent
                &&& final(results)@ == old(results)@
            },
        },
{
    if is_binary(content) {
        return Err(SearchError::BinaryContent);
    }
    let lines = split_lines(content);
    let matches = scan_matches(matcher, &lines, options.max_count);
    let ghost file = FileModel {
        matcher: matcher@,
        path: path@,
        lines: lines_view(lines@),
        options: options@,
    };
    let ghost matched = as_ints(matches@);
    proof {
        lemma_match_lines_sound(matcher@, file.lines, options.max_count);
        assert forall|k: int| 0 <= k < matches@.len() implies matches@[k] < lines@.len() by {
            assert(matched[k] == matches@[k]);
        }
    }
    let windows = build_windows(&matches, options.include_context, lines.len());
    proof {
        lemma_cover_fits(
            windows_view(windows@),
            matched,
            options.include_context as int,
            lines@.len() as int,
        );
        lemma_windows_yield_file_records(file, matched, windows_view(windows@));
    }
    emit_records(matcher, path, &lines, &windows, options, results);
    Ok(())
}

/// The records of one file come in ascending order of their line numbers,
/// and no line has more than one record.
pub proof fn lemma_file_records_ascending(
    matcher: MatcherModel,
    path: Seq<char>,
    content: Seq<u8>,
    options: OptionsModel,
)
    ensures
        forall|a: int, b: int|
            0 <= a < b < file_records(matcher, path, content, options).len() ==> line_number_of(
                file_records(matcher, path, content, options)[a],
            ) < line_number_of(file_records(matcher, path, content, options)[b]),
{
    let file = FileModel { matcher, path, lines: lines_of(content), options };
    lemma_records_ascending(
        file,
        match_lines(matcher, file.lines, options.max_count),
        file.lines.len() as int,
    );
}

/// The match records among `records`, in their order.
pub open spec fn matches_only(records: Seq<RecordModel>, count: int) -> Seq<RecordModel>
    decreases count,
{
    if count <= 0 {
        Seq::empty()
    } else if records[count - 1] is Match {
        matches_only(records, count - 1).push(records[count - 1])
    } else {
        matches_only(records, count - 1)
    }
}

/// The match records held in `records`, each as its model.
pub open spec fn match_records_view(records: Seq<RgJsonMatch>) -> Seq<RecordModel> {
    Seq::new(records.len(), |k: int| records[k]@)
}

/// Searches one file under the plain options and appends its match records,
/// and only those, to `results`.
pub fn search_file_compatible(
    matcher: &LineMatcher,
    path: &str,
    content: &[u8],
    results: &mut Vec<RgJsonMatch>,
) -> (outcome: Result<(), SearchError>)
    ensures
        match outcome {
            Ok(_) => {
                &&& !has_nul(content@)
                &&& match_records_view(final(results)@) == match_records_view(old(results)@)
                    + matches_only(
                    file_records(matcher@, path@, content@, plain_options()),
                    file_records(matcher@, path@, content@, plain_options()).len() as int,
                )
            },
            Err(e) => {
                &&& has_nul(content@)
                &&& e is BinaryContent
                &&& final(results)@ == old(results)@
            },
        },
{
    let plain = SearchOptions::plain();
    let mut found: Vec<SearchResultType> = Vec::new();
    match search_file_with_context(matcher, path, content, &mut found, &plain) {
        Err(e) => Err(e),
        Ok(_) => {
            let ghost before = match_records_view(results@);
            let ghost all = records_view(found@);
            assert(records_view(Seq::<SearchResultType>::empty()) + all == all);
            assert(before + matches_only(all, 0) == before);
            for record in it: found
                invariant
                    all == records_view(it.seq()),
                    match_records_view(results@) == before + matches_only(all, it.index() as int),
            {
                assert(all[it.index() as int] == record@);
                match record {
                    SearchResultType::Match(m) => {
                        assert(match_records_view(results@.push(m)) == match_records_view(
                            results@,
                        ).push(m@));
                        assert(before + matches_only(all, it.index() as int).push(m@) == (before
                            + matches_only(all, it.index() as int)).push(m@));
                        results.push(m);
                    },
                    SearchResultType::Context(_) => {},
                }
            }
            Ok(())
        },
    }
}

} // verus!
