//! The glob filter: which paths a search looks at.

use globset::{Glob, GlobSet, GlobSetBuilder};
use vstd::prelude::*;

verus! {

/// The builder of the `globset` crate: the globs gathered for a set.
#[verifier::external_type_specification]
#[verifier::external_body]
pub struct ExGlobSetBuilder(globset::GlobSetBuilder);

/// The glob set of the `globset` crate: globs that are matched together.
#[verifier::external_type_specification]
#[verifier::external_body]
pub struct ExGlobSet(globset::GlobSet);

/// Whether `pattern` parses as a glob.
pub uninterp spec fn glob_is_valid(pattern: Seq<char>) -> bool;

/// Whether the glob written as `pattern` matches `path`.
pub uninterp spec fn glob_accepts(pattern: Seq<char>, path: Seq<char>) -> bool;

/// Whether a set of the globs written as `patterns` can be built.
pub uninterp spec fn glob_set_builds(patterns: Seq<Seq<char>>) -> bool;

/// The patterns of the globs that were added to a builder, in the order in
/// which they were added.
pub uninterp spec fn builder_globs(builder: GlobSetBuilder) -> Seq<Seq<char>>;

/// The patterns of the globs that a set was built from.
pub uninterp spec fn set_globs(set: GlobSet) -> Seq<Seq<char>>;

/// Whether one of the globs written as `patterns` matches `path`.
pub open spec fn any_accepts(patterns: Seq<Seq<char>>, path: Seq<char>) -> bool {
    exists|k: int| 0 <= k < patterns.len() && glob_accepts(#[trigger] patterns[k], path)
}

/// The strings held in `strings`, each as its characters.
pub open spec fn strings_view(strings: Seq<String>) -> Seq<Seq<char>> {
    Seq::new(strings.len(), |k: int| strings[k]@)
}

/// Those of `patterns` that parse as globs, in their order.
pub open spec fn valid_globs(patterns: Seq<Seq<char>>) -> Seq<Seq<char>>
    decreases patterns.len(),
{
    if patterns.len() == 0 {
        Seq::empty()
    } else if glob_is_valid(patterns.last()) {
        valid_globs(patterns.drop_last()).push(patterns.last())
    } else {
        valid_globs(patterns.drop_last())
    }
}

/// What a filter made from `patterns` lets through.
pub enum FilterModel {
    /// No glob was given: every path is admitted.
    Open,
    /// Globs were given: a path is admitted when one of these matches it.
    AnyOf(Seq<Seq<char>>),
    /// Globs were given but no set could be built of them: nothing is admitted.
    Closed,
}

impl FilterModel {
    /// Whether the filter admits `path`.
    pub open spec fn admits(self, path: Seq<char>) -> bool {
        match self {
            FilterModel::Open => true,
            FilterModel::AnyOf(patterns) => any_accepts(patterns, path),
            FilterModel::Closed => false,
        }
    }
}

/// The filter that the glob strings `patterns` stand for. Strings that do not
/// parse as globs are left out one by one.
pub open spec fn filter_of(patterns: Seq<Seq<char>>) -> FilterModel {
    if patterns.len() == 0 {
        FilterModel::Open
    } else if glob_set_builds(valid_globs(patterns)) {
        FilterModel::AnyOf(valid_globs(patterns))
    } else {
        FilterModel::Closed
    }
}

/// `GlobSetBuilder::new`: a builder to which no glob has been added.
#[verifier::external_body]
fn new_builder() -> (builder: GlobSetBuilder)
    ensures
        builder_globs(builder) == Seq::<Seq<char>>::empty(),
{
    GlobSetBuilder::new()
}

/// `Glob::new` and, where it succeeds, `GlobSetBuilder::add`: a pattern that
/// parses is appended to the builder's globs, one that does not leaves the
/// builder as it was. Whether a pattern parses depends on the pattern alone.
#[verifier::external_body]
fn add_glob(builder: &mut GlobSetBuilder, pattern: &str) -> (added: bool)
    ensures
        added == glob_is_valid(pattern@),
        builder_globs(*final(builder)) == if added {
            builder_globs(*old(builder)).push(pattern@)
        } else {
            builder_globs(*old(builder))
        },
{
    match Glob::new(pattern) {
        Ok(glob) => {
            builder.add(glob);
            true
        },
        Err(_) => false,
    }
}

/// `GlobSetBuilder::build`: a set of the globs added so far. Whether the set
/// can be built depends on those globs alone.
#[verifier::external_body]
fn build_set(builder: &GlobSetBuilder) -> (set: Option<GlobSet>)
    ensures
        set is Some <==> glob_set_builds(builder_globs(*builder)),
        set matches Some(s) ==> set_globs(s) == builder_globs(*builder),
{
    match builder.build() {
        Ok(set) => Some(set),
        Err(_) => None,
    }
}

/// `GlobSet::is_match`: whether any glob of the set matches the path.
#[verifier::external_body]
fn set_is_match(set: &GlobSet, path: &str) -> (accepted: bool)
    ensures
        accepted == (exists|k: int|
            0 <= k < set_globs(*set).len() && glob_accepts(#[trigger] set_globs(*set)[k], path@)),
{
    set.is_match(path)
}

/// A filter on paths, made from glob strings.
pub struct GlobFilter {
    open: bool,
    set: Option<GlobSet>,
}

impl View for GlobFilter {
    type V = FilterModel;

    closed spec fn view(&self) -> FilterModel {
        if self.open {
            FilterModel::Open
        } else {
            match self.set {
                Some(set) => FilterModel::AnyOf(set_globs(set)),
                None => FilterModel::Closed,
            }
        }
    }
}

impl GlobFilter {
    /// Makes the filter that `patterns` stand for.
    ///
    /// With no pattern the filter admits every path. Otherwise the patterns
    /// that parse as globs are gathered into a set, the others are ignored,
    /// and the filter admits the paths that a glob of the set matches.
    pub fn new(patterns: &Vec<String>) -> (filter: GlobFilter)
        ensures
            filter@ == filter_of(strings_view(patterns@)),
    {
        if patterns.len() == 0 {
            return GlobFilter { open: true, set: None };
        }
        let ghost all = strings_view(patterns@);
        let mut builder = new_builder();
        let mut i: usize = 0;
        assert(all.take(0) == Seq::<Seq<char>>::empty());
        while i < patterns.len()
            invariant
                i <= patterns@.len(),
                all == strings_view(patterns@),
                builder_globs(builder) == valid_globs(all.take(i as int)),
            decreases patterns@.len() - i,
        {
            proof {
                let next = all.take(i + 1);
                assert(next.drop_last() == all.take(i as int));
                assert(next.last() == patterns@[i as int]@);
            }
            let _ = add_glob(&mut builder, patterns[i].as_str());
            i += 1;
        }
        assert(all.take(i as int) == all);
        GlobFilter { open: false, set: build_set(&builder) }
    }

    /// Whether the filter admits `path`.
    pub fn admits(&self, path: &str) -> (admitted: bool)
        ensures
            admitted == self@.admits(path@),
    {
        if self.open {
            true
        } else {
            match &self.set {
                Some(set) => set_is_match(set, path),
                None => false,
            }
        }
    }
}

} // verus!
