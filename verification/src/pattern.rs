//! The matcher: a compiled pattern as a predicate over a line's bytes.

use crate::error::SearchError;
use grep_matcher::Matcher;
use grep_regex::{RegexMatcher, RegexMatcherBuilder};
use grep_searcher::sinks::UTF8;
use grep_searcher::SearcherBuilder;
use vstd::prelude::*;

verus! {

/// The compiled regex of the `grep-regex` crate, carried as an opaque value.
#[verifier::external_type_specification]
#[verifier::external_body]
pub struct ExRegexMatcher(grep_regex::RegexMatcher);

/// The characters that have a meaning of their own in a regular expression.
pub open spec fn is_meta_character(c: char) -> bool {
    c == '\\' || c == '.' || c == '+' || c == '*' || c == '?' || c == '(' || c == ')' || c == '|'
        || c == '[' || c == ']' || c == '{' || c == '}' || c == '^' || c == '$' || c == '#'
        || c == '&' || c == '-' || c == '~'
}

/// `text` with a backslash in front of every meta character.
pub open spec fn escaped(text: Seq<char>) -> Seq<char>
    decreases text.len(),
{
    if text.len() == 0 {
        Seq::empty()
    } else if is_meta_character(text.last()) {
        escaped(text.drop_last()).push('\\').push(text.last())
    } else {
        escaped(text.drop_last()).push(text.last())
    }
}

/// `regex::escape` walks the characters of its argument in order and copies
/// each one, putting a backslash before those of the fixed meta-character
/// set; nothing else is added or removed.
pub assume_specification[ regex::escape ](pattern: &str) -> (quoted: String)
    ensures
        quoted@ == escaped(pattern@),
;

/// The message with which the regex engine refuses to compile `source` under
/// the two flags; `None` where it compiles.
pub uninterp spec fn regex_fault(source: Seq<char>, ignore_case: bool, whole_word: bool) -> Option<
    Seq<char>,
>;

/// The byte offsets of the first match that the engine, compiled from `source`
/// under the two flags, finds in `haystack`.
pub uninterp spec fn regex_first_match(
    source: Seq<char>,
    ignore_case: bool,
    whole_word: bool,
    haystack: Seq<u8>,
) -> Option<(usize, usize)>;

/// The lines of `content` that a line-by-line searcher with its default
/// settings reports for the engine compiled from `source` under the two flags:
/// each with its number, counted from one, and its text. `None` where the
/// search fails, as it does on a reported line that is not UTF-8.
pub uninterp spec fn searcher_lines(
    source: Seq<char>,
    ignore_case: bool,
    whole_word: bool,
    content: Seq<u8>,
) -> Option<Seq<(u64, Seq<char>)>>;

/// Numbered lines, each text as its characters.
pub open spec fn numbered_view(lines: Seq<(u64, String)>) -> Seq<(u64, Seq<char>)> {
    Seq::new(lines.len(), |k: int| (lines[k].0, lines[k].1@))
}

/// The regex source that a pattern stands for: itself, or its escaped form
/// when it is to be taken literally.
pub open spec fn pattern_source(pattern: Seq<char>, fixed_strings: bool) -> Seq<char> {
    if fixed_strings {
        escaped(pattern)
    } else {
        pattern
    }
}

/// What a compiled matcher was made from.
pub struct MatcherModel {
    pub source: Seq<char>,
    pub ignore_case: bool,
    pub whole_word: bool,
}

impl MatcherModel {
    /// The first match in `line`, as a non-empty span inside the line.
    pub open spec fn span_in(self, line: Seq<u8>) -> Option<(int, int)> {
        match regex_first_match(self.source, self.ignore_case, self.whole_word, line) {
            Some((start, end)) => if start < end && end <= line.len() {
                Some((start as int, end as int))
            } else {
                None
            },
            None => None,
        }
    }

    /// Whether `line` holds a match.
    pub open spec fn matches(self, line: Seq<u8>) -> bool {
        self.span_in(line) is Some
    }
}

/// The span of a match inside one line: half-open byte offsets into the
/// line's untruncated text.
#[derive(Clone, Copy, Debug, PartialEq, Eq, Structural)]
pub struct MatchSpan {
    pub line_index: usize,
    pub start: usize,
    pub end: usize,
}

/// A compiled pattern together with the source and flags it was compiled from.
pub struct LineMatcher {
    engine: RegexMatcher,
    source: String,
    ignore_case: bool,
    whole_word: bool,
}

impl View for LineMatcher {
    type V = MatcherModel;

    closed spec fn view(&self) -> MatcherModel {
        MatcherModel {
            source: self.source@,
            ignore_case: self.ignore_case,
            whole_word: self.whole_word,
        }
    }
}

/// `RegexMatcherBuilder::build`, with the builder's `case_insensitive` and
/// `word` switches set from the two flags and everything else left at its
/// default. The outcome depends on the source and the flags alone: either a
/// matcher, returned together with what it was built from, or the build
/// error, returned as its message.
#[verifier::external_body]
fn compile(source: &str, ignore_case: bool, whole_word: bool) -> (built: Result<LineMatcher, String>)
    ensures
        match built {
            Ok(m) => regex_fault(source@, ignore_case, whole_word) is None && m.source@ == source@
                && m.ignore_case == ignore_case && m.whole_word == whole_word,
            Err(reason) => regex_fault(source@, ignore_case, whole_word) == Some(reason@),
        },
{
    let mut builder = RegexMatcherBuilder::new();
    builder.case_insensitive(ignore_case).word(whole_word);
    match builder.build(source) {
        Ok(engine) => Ok(LineMatcher { engine, source: source.to_string(), ignore_case, whole_word }),
        Err(e) => Err(e.to_string()),
    }
}

/// `Matcher::find` of the compiled regex: the offsets of the first match in
/// `haystack`, a function of the haystack and of what the matcher was built
/// from. The regex matcher's error type has no values, so `find` does not
/// fail.
#[verifier::external_body]
fn first_match(matcher: &LineMatcher, haystack: &[u8]) -> (found: Option<(usize, usize)>)
    ensures
        found == regex_first_match(
            matcher.source@,
            matcher.ignore_case,
            matcher.whole_word,
            haystack@,
        ),
{
    match matcher.engine.find(haystack) {
        Ok(Some(m)) => Some((m.start(), m.end())),
        _ => None,
    }
}

/// Keeps a reported line and asks for the search to go on.
pub fn keep_line(kept: &mut Vec<(u64, String)>, number: u64, line: &str) -> (go_on: bool)
    ensures
        go_on,
        numbered_view(final(kept)@) == numbered_view(old(kept)@).push((number, line@)),
{
    let entry = (number, line.to_owned());
    assert(numbered_view(kept@.push(entry)) == numbered_view(kept@).push((number, line@)));
    kept.push(entry);
    true
}

/// `Searcher::search_slice` of a searcher built with default settings, run
/// with the compiled regex over `content` and a `UTF8` sink that keeps every
/// reported line with its number. What is reported depends on the content and
/// on what the matcher was built from; a failure of the search is `None`.
#[verifier::external_body]
fn reported_lines(matcher: &LineMatcher, content: &[u8]) -> (lines: Option<Vec<(u64, String)>>)
    ensures
        match lines {
            Some(kept) => searcher_lines(
                matcher.source@,
                matcher.ignore_case,
                matcher.whole_word,
                content@,
            ) == Some(numbered_view(kept@)),
            None => searcher_lines(
                matcher.source@,
                matcher.ignore_case,
                matcher.whole_word,
                content@,
            ) is None,
        },
{
    let mut kept: Vec<(u64, String)> = Vec::new();
    let sink = UTF8(|number, line| Ok(keep_line(&mut kept, number, line)));
    match SearcherBuilder::new().build().search_slice(&matcher.engine, content, sink) {
        Ok(()) => Some(kept),
        Err(_) => None,
    }
}

impl MatcherModel {
    /// The lines of `content` that the line-by-line searcher reports.
    pub open spec fn reported(self, content: Seq<u8>) -> Option<Seq<(u64, Seq<char>)>> {
        searcher_lines(self.source, self.ignore_case, self.whole_word, content)
    }
}

impl LineMatcher {
    /// The lines of `content` that hold a match, as the line-by-line searcher
    /// reports them, or `None` where that search fails.
    pub fn matching_lines(&self, content: &[u8]) -> (lines: Option<Vec<(u64, String)>>)
        ensures
            match lines {
                Some(kept) => self@.reported(content@) == Some(numbered_view(kept@)),
                None => self@.reported(content@) is None,
            },
    {
        reported_lines(self, content)
    }

    /// Compiles `pattern` under the given flags.
    ///
    /// With `fixed_strings` the pattern is escaped first, so that every
    /// character stands for itself. Compilation fails exactly when the engine
    /// refuses the resulting source, and the error carries the engine's reason.
    pub fn new(pattern: &str, ignore_case: bool, whole_word: bool, fixed_strings: bool) -> (made:
        Result<LineMatcher, SearchError>)
        ensures
            match made {
                Ok(m) => {
                    &&& regex_fault(pattern_source(pattern@, fixed_strings), ignore_case, whole_word)
                        is None
                    &&& m@ == (MatcherModel {
                        source: pattern_source(pattern@, fixed_strings),
                        ignore_case,
                        whole_word,
                    })
                },
                Err(e) => {
                    &&& e matches SearchError::InvalidPattern(reason)
                    &&& regex_fault(pattern_source(pattern@, fixed_strings), ignore_case, whole_word)
                        == Some(reason@)
                },
            },
    {
        let built = if fixed_strings {
            let literal = regex::escape(pattern);
            compile(literal.as_str(), ignore_case, whole_word)
        } else {
            compile(pattern, ignore_case, whole_word)
        };
        match built {
            Ok(m) => Ok(m),
            Err(reason) => Err(SearchError::InvalidPattern(reason)),
        }
    }

    /// The first match in `line`, if the line holds one.
    ///
    /// A match is reported as a span with `start < end <= line.len()`; an empty
    /// match is no match.
    pub fn find(&self, line_index: usize, line: &[u8]) -> (found: Option<MatchSpan>)
        ensures
            match found {
                Some(span) => span.line_index == line_index && self@.span_in(line@) == Some(
                    (span.start as int, span.end as int),
                ),
                None => self@.span_in(line@) is None,
            },
    {
        match first_match(self, line) {
            Some((start, end)) => {
                if start < end && end <= line.len() {
                    Some(MatchSpan { line_index, start, end })
                } else {
                    None
                }
            },
            None => None,
        }
    }
}

} // verus!
