//! The plain search: every line that holds a match, with no context and no
//! options.

use crate::error::SearchError;
use crate::pattern::{numbered_view, regex_fault, LineMatcher, MatcherModel};
use crate::run::{count_one, counted, Visit};
use vstd::prelude::*;
use vstd::string::StringExecFns;
use vstd::utf8::encode_utf8;

verus! {

/// A line that holds a match, with the span of its first match.
#[derive(Debug)]
pub struct SearchMatch {
    pub file_path: String,
    pub line_number: u64,
    pub line_content: String,
    pub match_start: usize,
    pub match_end: usize,
}

/// What a plain search hands back.
#[derive(Debug)]
pub struct SearchResult {
    pub matches: Vec<SearchMatch>,
    pub files_searched: usize,
    pub error: Option<String>,
}

/// A matching line over mathematical values.
pub struct MatchModel {
    pub file_path: Seq<char>,
    pub line_number: int,
    pub line_content: Seq<char>,
    pub match_start: int,
    pub match_end: int,
}

/// The result of a plain search over mathematical values.
pub struct ResultModel {
    pub matches: Seq<MatchModel>,
    pub files_searched: nat,
    pub error: Option<Seq<char>>,
}

impl View for SearchMatch {
    type V = MatchModel;

    open spec fn view(&self) -> MatchModel {
        MatchModel {
            file_path: self.file_path@,
            line_number: self.line_number as int,
            line_content: self.line_content@,
            match_start: self.match_start as int,
            match_end: self.match_end as int,
        }
    }
}

/// The matches held in `matches`, each as its model.
pub open spec fn matches_view(matches: Seq<SearchMatch>) -> Seq<MatchModel> {
    Seq::new(matches.len(), |k: int| matches[k]@)
}

/// An optional string as its characters.
pub open spec fn text_view(text: Option<String>) -> Option<Seq<char>> {
    match text {
        Some(t) => Some(t@),
        None => None,
    }
}

impl View for SearchResult {
    type V = ResultModel;

    open spec fn view(&self) -> ResultModel {
        ResultModel {
            matches: matches_view(self.matches@),
            files_searched: self.files_searched as nat,
            error: text_view(self.error),
        }
    }
}

/// The matches of the first `count` reported lines: one for each line in which
/// the matcher finds a match, with the span of the first one.
pub open spec fn line_matches(
    matcher: MatcherModel,
    path: Seq<char>,
    lines: Seq<(u64, Seq<char>)>,
    count: int,
) -> Seq<MatchModel>
    decreases count,
{
    if count <= 0 {
        Seq::empty()
    } else {
        let (number, text) = lines[count - 1];
        match matcher.span_in(encode_utf8(text)) {
            Some((start, end)) => line_matches(matcher, path, lines, count - 1).push(
                MatchModel {
                    file_path: path,
                    line_number: number as int,
                    line_content: text,
                    match_start: start,
                    match_end: end,
                },
            ),
            None => line_matches(matcher, path, lines, count - 1),
        }
    }
}

/// The matches of one file, or `None` where the search of the file fails.
pub open spec fn file_matches(matcher: MatcherModel, path: Seq<char>, content: Seq<u8>) -> Option<
    Seq<MatchModel>,
> {
    match matcher.reported(content) {
        Some(lines) => Some(line_matches(matcher, path, lines, lines.len() as int)),
        None => None,
    }
}

/// Appends to `matches` the match of each reported line in which the matcher
/// finds one.
pub fn collect_matches(
    matcher: &LineMatcher,
    path: &str,
    lines: &Vec<(u64, String)>,
    matches: &mut Vec<SearchMatch>,
)
    ensures
        matches_view(final(matches)@) == matches_view(old(matches)@) + line_matches(
            matcher@,
            path@,
            numbered_view(lines@),
            lines@.len() as int,
        ),
{
    let ghost before = matches_view(matches@);
    let ghost numbered = numbered_view(lines@);
    let mut i: usize = 0;
    assert(before + line_matches(matcher@, path@, numbered, 0) == before);
    while i < lines.len()
        invariant
            i <= lines@.len(),
            numbered == numbered_view(lines@),
            matches_view(matches@) == before + line_matches(matcher@, path@, numbered, i as int),
        decreases lines@.len() - i,
    {
        let number = lines[i].0;
        let text = lines[i].1.as_str();
        assert(numbered[i as int] == (number, text@));
        match matcher.find(i, text.as_bytes()) {
            Some(span) => {
                let found = SearchMatch {
                    file_path: path.to_owned(),
                    line_number: number,
                    line_content: text.to_owned(),
                    match_start: span.start,
                    match_end: span.end,
                };
                assert(matches_view(matches@.push(found)) == matches_view(matches@).push(found@));
                assert(before + line_matches(matcher@, path@, numbered, i as int).push(found@) == (
                before + line_matches(matcher@, path@, numbered, i as int)).push(found@));
                matches.push(found);
            },
            None => {},
        }
        i += 1;
    }
}

/// Searches one file line by line and appends its matches to `matches`.
///
/// Where the search of the file fails the file counts as unreadable and
/// `matches` stays as it was.
pub fn search_in_file(
    matcher: &LineMatcher,
    path: &str,
    content: &[u8],
    matches: &mut Vec<SearchMatch>,
) -> (outcome: Result<(), SearchError>)
    ensures
        match outcome {
            Ok(_) => {
                &&& file_matches(matcher@, path@, content@) matches Some(found)
                &&& matches_view(final(matches)@) == matches_view(old(matches)@) + found
            },
            Err(e) => {
                &&& file_matches(matcher@, path@, content@) is None
                &&& e is FileUnreadable
                &&& final(matches)@ == old(matches)@
            },
        },
{
    match matcher.matching_lines(content) {
        Some(lines) => {
            collect_matches(matcher, path, &lines, matches);
            Ok(())
        },
        None => Err(SearchError::FileUnreadable),
    }
}

/// What a plain search has gathered after the first `count` visits: the
/// matches, and the number of regular files it came to.
///
/// Every regular file counts. A file that could not be read, or whose search
/// fails, adds no match; a failure of the traversal adds nothing.
pub open spec fn gathered(matcher: MatcherModel, visits: Seq<Visit>, count: int) -> (
    Seq<MatchModel>,
    nat,
)
    decreases count,
{
    if count <= 0 {
        (Seq::empty(), 0)
    } else {
        let (matches, files) = gathered(matcher, visits, count - 1);
        match visits[count - 1] {
            Visit::Failed => (matches, files),
            Visit::Reached { entry, content } => if !entry.is_file {
                (matches, files)
            } else {
                match content {
                    None => (matches, counted(files)),
                    Some(bytes) => match file_matches(matcher, entry.path@, bytes@) {
                        Some(found) => (matches + found, counted(files)),
                        None => (matches, counted(files)),
                    },
                }
            },
        }
    }
}

/// The text that reports a pattern that did not compile.
pub open spec fn invalid_pattern_text(reason: Seq<char>) -> Seq<char> {
    "Invalid regex pattern: "@ + reason
}

/// The result of a plain search for `pattern` over what a traversal handed in.
pub open spec fn plain_search_model(pattern: Seq<char>, visits: Seq<Visit>) -> ResultModel {
    match regex_fault(pattern, false, false) {
        Some(reason) => ResultModel {
            matches: Seq::empty(),
            files_searched: 0,
            error: Some(invalid_pattern_text(reason)),
        },
        None => {
            let matcher = MatcherModel { source: pattern, ignore_case: false, whole_word: false };
            let (matches, files) = gathered(matcher, visits, visits.len() as int);
            ResultModel { matches, files_searched: files, error: None }
        },
    }
}

/// Searches for the regular expression `pattern` in what a traversal handed
/// in: every line that holds a match, file after file.
///
/// A pattern that does not compile is reported in `error` and nothing is
/// searched. Entries that cannot be searched are passed over.
pub fn search_files(pattern: &str, visits: &Vec<Visit>) -> (result: SearchResult)
    ensures
        result@ == plain_search_model(pattern@, visits@),
{
    match LineMatcher::new(pattern, false, false, false) {
        Err(e) => {
            let mut message = "Invalid regex pattern: ".to_owned();
            match e {
                SearchError::InvalidPattern(reason) => {
                    message.append(reason.as_str());
                },
                _ => {},
            }
            let result = SearchResult { matches: Vec::new(), files_searched: 0, error: Some(message) };
            assert(result@.matches == Seq::<MatchModel>::empty());
            result
        },
        Ok(matcher) => {
            let mut matches: Vec<SearchMatch> = Vec::new();
            let mut files_searched: usize = 0;
            let mut i: usize = 0;
            assert(matches_view(matches@) == Seq::<MatchModel>::empty());
            while i < visits.len()
                invariant
                    i <= visits@.len(),
                    (matches_view(matches@), files_searched as nat) == gathered(
                        matcher@,
                        visits@,
                        i as int,
                    ),
                decreases visits@.len() - i,
            {
                match &visits[i] {
                    Visit::Failed => {},
                    Visit::Reached { entry, content } => {
                        if entry.is_file {
                            files_searched = count_one(files_searched);
                            match content {
                                None => {},
                                Some(bytes) => {
                                    let _ = search_in_file(
                                        &matcher,
                                        entry.path.as_str(),
                                        bytes.as_slice(),
                                        &mut matches,
                                    );
                                },
                            }
                        }
                    },
                }
                i += 1;
            }
            SearchResult { matches, files_searched, error: None }
        },
    }
}

} // verus!
