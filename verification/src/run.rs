//! A run of the search over the candidates that a traversal hands in.

use crate::error::{ErrorModel, SearchError, SearchStatus, StatusModel};
use crate::glob::{filter_of, FilterModel, GlobFilter};
use crate::lines::has_nul;
use crate::options::{simple_options, OptionsModel, SearchOptions};
use crate::pattern::{pattern_source, regex_fault, LineMatcher, MatcherModel};
use crate::record::{any_match, has_match, records_view, RecordModel, SearchResultType};
use crate::search::{file_records, search_file_with_context};
use crate::walk::FileEntry;
use vstd::prelude::*;

verus! {

/// What a traversal hands to a search for one entry of the tree.
#[derive(Debug)]
pub enum Visit {
    /// The traversal failed on an entry.
    Failed,
    /// The traversal reached an entry. `content` holds the bytes of a file that
    /// was opened and read, and is `None` where that was not possible.
    Reached { entry: FileEntry, content: Option<Vec<u8>> },
}

/// What a finished search hands back.
#[derive(Debug)]
pub struct SearchOutcome {
    /// The records, file after file in the order of the traversal.
    pub records: Vec<SearchResultType>,
    /// How many files were opened and looked at.
    pub files_searched: usize,
    /// How many entries were passed over: unreachable, unreadable or binary.
    pub files_skipped: usize,
    /// Whether there were matches.
    pub status: SearchStatus,
}

/// An outcome over mathematical values.
pub struct OutcomeModel {
    pub records: Seq<RecordModel>,
    pub files_searched: nat,
    pub files_skipped: nat,
    pub status: StatusModel,
}

impl View for SearchOutcome {
    type V = OutcomeModel;

    open spec fn view(&self) -> OutcomeModel {
        OutcomeModel {
            records: records_view(self.records@),
            files_searched: self.files_searched as nat,
            files_skipped: self.files_skipped as nat,
            status: self.status@,
        }
    }
}

/// The state of a search under way, over mathematical values.
pub struct RunModel {
    pub matcher: MatcherModel,
    pub filter: FilterModel,
    pub options: OptionsModel,
    pub records: Seq<RecordModel>,
    pub files_searched: nat,
    pub files_skipped: nat,
}

/// A counter after one more was counted. Counting stops at the largest value
/// the counter can hold.
pub open spec fn counted(count: nat) -> nat {
    if count < usize::MAX {
        count + 1
    } else {
        count
    }
}

impl RunModel {
    /// Whether the search wants to see the content of `entry`: it is a regular
    /// file whose path the glob filter admits.
    pub open spec fn wants(self, entry: FileEntry) -> bool {
        entry.is_file && self.filter.admits(entry.path@)
    }

    /// The state with one more entry passed over.
    pub open spec fn skip(self) -> RunModel {
        RunModel { files_skipped: counted(self.files_skipped), ..self }
    }

    /// The state after `visit`.
    ///
    /// A failure of the traversal is passed over. An entry that the search does
    /// not want changes nothing. A wanted file that could not be read is
    /// passed over; one that was read counts as searched, and adds its records
    /// unless it is binary, in which case it is passed over as well.
    pub open spec fn step(self, visit: Visit) -> RunModel {
        match visit {
            Visit::Failed => self.skip(),
            Visit::Reached { entry, content } => if !self.wants(entry) {
                self
            } else {
                match content {
                    None => self.skip(),
                    Some(bytes) => {
                        let opened = RunModel {
                            files_searched: counted(self.files_searched),
                            ..self
                        };
                        if has_nul(bytes@) {
                            opened.skip()
                        } else {
                            RunModel {
                                records: self.records + file_records(
                                    self.matcher,
                                    entry.path@,
                                    bytes@,
                                    self.options,
                                ),
                                ..opened
                            }
                        }
                    },
                }
            },
        }
    }

    /// Why `visit` is passed over, or `None` where it is not: the traversal
    /// failed on it, the file could not be read, or the file is binary.
    pub open spec fn passes_over(self, visit: Visit) -> Option<ErrorModel> {
        match visit {
            Visit::Failed => Some(ErrorModel::TraversalError),
            Visit::Reached { entry, content } => if !self.wants(entry) {
                None
            } else {
                match content {
                    None => Some(ErrorModel::FileUnreadable),
                    Some(bytes) => if has_nul(bytes@) {
                        Some(ErrorModel::BinaryContent)
                    } else {
                        None
                    },
                }
            },
        }
    }

    /// The state after the first `count` of `visits`, taken in order.
    pub open spec fn run_through(self, visits: Seq<Visit>, count: int) -> RunModel
        decreases count,
    {
        if count <= 0 {
            self
        } else {
            self.run_through(visits, count - 1).step(visits[count - 1])
        }
    }

    /// The outcome of a search that ends in this state: it has matches when one
    /// of its records is a match.
    pub open spec fn outcome(self) -> OutcomeModel {
        OutcomeModel {
            records: self.records,
            files_searched: self.files_searched,
            files_skipped: self.files_skipped,
            status: if has_match(self.records) {
                StatusModel::HasMatches
            } else {
                StatusModel::NoMatches
            },
        }
    }
}

/// The source that the search compiles for `pattern` under `options`.
pub open spec fn source_of(pattern: Seq<char>, options: OptionsModel) -> Seq<char> {
    pattern_source(pattern, options.fixed_strings)
}

/// The state in which a search for `pattern` under `options` begins.
pub open spec fn initial_run(pattern: Seq<char>, options: OptionsModel) -> RunModel {
    RunModel {
        matcher: MatcherModel {
            source: source_of(pattern, options),
            ignore_case: options.ignore_case,
            whole_word: options.whole_word,
        },
        filter: filter_of(options.file_globs),
        options,
        records: Seq::empty(),
        files_searched: 0,
        files_skipped: 0,
    }
}

/// The outcome of a search for `pattern` under `options` over what a
/// traversal handed in.
///
/// A pattern that does not compile is fatal: nothing is searched and the
/// status carries the reason. Otherwise the visits are taken in order.
pub open spec fn search_model(pattern: Seq<char>, visits: Seq<Visit>, options: OptionsModel) -> OutcomeModel {
    match regex_fault(source_of(pattern, options), options.ignore_case, options.whole_word) {
        Some(reason) => OutcomeModel {
            records: Seq::empty(),
            files_searched: 0,
            files_skipped: 0,
            status: StatusModel::Error(ErrorModel::InvalidPattern(reason)),
        },
        None => initial_run(pattern, options).run_through(visits, visits.len() as int).outcome(),
    }
}

/// Counts one more, stopping at the largest value.
pub fn count_one(count: usize) -> (next: usize)
    ensures
        next == counted(count as nat),
{
    if count < usize::MAX {
        count + 1
    } else {
        count
    }
}

/// A search under way: the compiled pattern, the glob filter, the options,
/// and what has been gathered so far.
pub struct SearchRun<'a> {
    matcher: LineMatcher,
    filter: GlobFilter,
    options: &'a SearchOptions,
    records: Vec<SearchResultType>,
    files_searched: usize,
    files_skipped: usize,
}

impl<'a> View for SearchRun<'a> {
    type V = RunModel;

    closed spec fn view(&self) -> RunModel {
        RunModel {
            matcher: self.matcher@,
            filter: self.filter@,
            options: self.options@,
            records: records_view(self.records@),
            files_searched: self.files_searched as nat,
            files_skipped: self.files_skipped as nat,
        }
    }
}

impl<'a> SearchRun<'a> {
    /// Begins a search: compiles the pattern and makes the glob filter.
    ///
    /// This fails exactly when the pattern does not compile, before anything
    /// is searched.
    pub fn start(pattern: &str, options: &'a SearchOptions) -> (begun: Result<
        SearchRun<'a>,
        SearchError,
    >)
        ensures
            match begun {
                Ok(run) => {
                    &&& regex_fault(
                        source_of(pattern@, options@),
                        options.ignore_case,
                        options.whole_word,
                    ) is None
                    &&& run@ == initial_run(pattern@, options@)
                },
                Err(e) => {
                    &&& e@ matches ErrorModel::InvalidPattern(reason)
                    &&& regex_fault(
                        source_of(pattern@, options@),
                        options.ignore_case,
                        options.whole_word,
                    ) == Some(reason)
                },
            },
    {
        match LineMatcher::new(
            pattern,
            options.ignore_case,
            options.whole_word,
            options.fixed_strings,
        ) {
            Err(e) => Err(e),
            Ok(matcher) => {
                let filter = GlobFilter::new(&options.file_globs);
                let run = SearchRun {
                    matcher,
                    filter,
                    options,
                    records: Vec::new(),
                    files_searched: 0,
                    files_skipped: 0,
                };
                assert(run@.records == Seq::<RecordModel>::empty());
                Ok(run)
            },
        }
    }

    /// Whether the search wants to see the content of `entry`.
    pub fn wants(&self, entry: &FileEntry) -> (wanted: bool)
        ensures
            wanted == self@.wants(*entry),
    {
        entry.is_file && self.filter.admits(entry.path.as_str())
    }

    /// Takes in one visit, and says why it was passed over if it was. No
    /// failure on one entry stops the search.
    pub fn absorb(&mut self, visit: &Visit) -> (passed_over: Option<SearchError>)
        ensures
            final(self)@ == old(self)@.step(*visit),
            match passed_over {
                Some(e) => old(self)@.passes_over(*visit) == Some(e@),
                None => old(self)@.passes_over(*visit) is None,
            },
    {
        match visit {
            Visit::Failed => {
                self.files_skipped = count_one(self.files_skipped);
                Some(SearchError::TraversalError)
            },
            Visit::Reached { entry, content } => {
                if self.wants(entry) {
                    match content {
                        None => {
                            self.files_skipped = count_one(self.files_skipped);
                            Some(SearchError::FileUnreadable)
                        },
                        Some(bytes) => {
                            self.files_searched = count_one(self.files_searched);
                            match search_file_with_context(
                                &self.matcher,
                                entry.path.as_str(),
                                bytes.as_slice(),
                                &mut self.records,
                                self.options,
                            ) {
                                Ok(_) => None,
                                Err(e) => {
                                    self.files_skipped = count_one(self.files_skipped);
                                    Some(e)
                                },
                            }
                        },
                    }
                } else {
                    None
                }
            },
        }
    }

    /// Ends the search and classifies it.
    pub fn finish(self) -> (outcome: SearchOutcome)
        ensures
            outcome@ == self@.outcome(),
    {
        let status = if any_match(&self.records) {
            SearchStatus::HasMatches
        } else {
            SearchStatus::NoMatches
        };
        SearchOutcome {
            records: self.records,
            files_searched: self.files_searched,
            files_skipped: self.files_skipped,
            status,
        }
    }
}

/// Searches for `pattern` under `options` in what a traversal handed in, one
/// visit after the other in the order given.
pub fn search_files_compatible(pattern: &str, visits: &Vec<Visit>, options: &SearchOptions) -> (outcome:
    SearchOutcome)
    ensures
        outcome@ == search_model(pattern@, visits@, options@),
{
    match SearchRun::start(pattern, options) {
        Err(e) => {
            let outcome = SearchOutcome {
                records: Vec::new(),
                files_searched: 0,
                files_skipped: 0,
                status: SearchStatus::Error(e),
            };
            assert(outcome@.records == Seq::<RecordModel>::empty());
            outcome
        },
        Ok(run) => {
            let mut run = run;
            let ghost begun = run@;
            let mut i: usize = 0;
            while i < visits.len()
                invariant
                    i <= visits@.len(),
                    run@ == begun.run_through(visits@, i as int),
                decreases visits@.len() - i,
            {
                let _ = run.absorb(&visits[i]);
                i += 1;
            }
            run.finish()
        },
    }
}

/// A search repeated on the same pattern, visits and options gives the same
/// outcome: the same records in the same order, the same counts and the same
/// status.
pub proof fn lemma_search_repeatable(
    pattern: Seq<char>,
    visits: Seq<Visit>,
    options: OptionsModel,
    first: SearchOutcome,
    second: SearchOutcome,
)
    requires
        first@ == search_model(pattern, visits, options),
        second@ == search_model(pattern, visits, options),
    ensures
        first@ == second@,
        first.files_searched == second.files_searched,
        first.records@.len() == second.records@.len(),
        forall|k: int| 0 <= k < first.records@.len() ==> first.records@[k]@ == second.records@[k]@,
{
    assert(records_view(first.records@).len() == records_view(second.records@).len());
    assert forall|k: int| 0 <= k < first.records@.len() implies first.records@[k]@
        == second.records@[k]@ by {
        assert(records_view(first.records@)[k] == records_view(second.records@)[k]);
    }
}

/// The state after some visits has the matcher, the filter and the options it
/// began with.
pub proof fn lemma_run_keeps_settings(run: RunModel, visits: Seq<Visit>, count: int)
    ensures
        run.run_through(visits, count).matcher == run.matcher,
        run.run_through(visits, count).filter == run.filter,
        run.run_through(visits, count).options == run.options,
    decreases count,
{
    if count > 0 {
        lemma_run_keeps_settings(run, visits, count - 1);
    }
}

/// The state after the first `count` visits depends on those visits alone.
pub proof fn lemma_run_reads_prefix(run: RunModel, one: Seq<Visit>, other: Seq<Visit>, count: int)
    requires
        forall|i: int| 0 <= i < count ==> one[i] == other[i],
    ensures
        run.run_through(one, count) == run.run_through(other, count),
    decreases count,
{
    if count > 0 {
        lemma_run_reads_prefix(run, one, other, count - 1);
    }
}

/// An entry that the search does not want adds nothing: with it or without it
/// among the visits, the search ends in the same state.
pub proof fn lemma_unwanted_entry_adds_nothing(
    run: RunModel,
    visits: Seq<Visit>,
    k: int,
    count: int,
)
    requires
        0 <= k < count <= visits.len(),
        visits[k] matches Visit::Reached { entry, .. } && !run.wants(entry),
    ensures
        run.run_through(visits, count) == run.run_through(visits.remove(k), count - 1),
    decreases count,
{
    let fewer = visits.remove(k);
    if count == k + 1 {
        lemma_run_keeps_settings(run, visits, k);
        lemma_run_reads_prefix(run, visits, fewer, k);
    } else {
        lemma_unwanted_entry_adds_nothing(run, visits, k, count - 1);
        assert(fewer[count - 2] == visits[count - 1]);
    }
}

/// Only the files that the glob filter admits contribute to a search: an
/// entry that is no regular file, or whose path the filter made from the
/// options does not admit, can be taken out of the visits without changing
/// the outcome, be it the records, the counts or the status.
pub proof fn lemma_only_admitted_files_count(
    pattern: Seq<char>,
    visits: Seq<Visit>,
    options: OptionsModel,
    k: int,
)
    requires
        0 <= k < visits.len(),
        visits[k] matches Visit::Reached { entry, .. } && !(entry.is_file && filter_of(
            options.file_globs,
        ).admits(entry.path@)),
    ensures
        search_model(pattern, visits, options) == search_model(pattern, visits.remove(k), options),
{
    lemma_unwanted_entry_adds_nothing(
        initial_run(pattern, options),
        visits,
        k,
        visits.len() as int,
    );
}

/// Searches with options given as single values, the globs as the JSON of a
/// list of strings.
pub fn wasm_search_files_simple(
    pattern: &str,
    visits: &Vec<Visit>,
    ignore_case: bool,
    whole_word: bool,
    fixed_strings: bool,
    context: usize,
    file_globs_json: &str,
    max_columns: Option<usize>,
    max_columns_preview: bool,
    max_count: Option<usize>,
) -> (outcome: SearchOutcome)
    ensures
        outcome@ == search_model(
            pattern@,
            visits@,
            simple_options(
                ignore_case,
                whole_word,
                fixed_strings,
                context,
                file_globs_json@,
                max_columns,
                max_columns_preview,
                max_count,
            ),
        ),
{
    let options = SearchOptions::simple(
        ignore_case,
        whole_word,
        fixed_strings,
        context,
        file_globs_json,
        max_columns,
        max_columns_preview,
        max_count,
    );
    search_files_compatible(pattern, visits, &options)
}

} // verus!
