//! The options of one search.

use crate::glob::strings_view;
use vstd::prelude::*;

verus! {

/// The list of strings that `text` holds as JSON, or `None` where `text` is
/// not the JSON of a list of strings.
pub uninterp spec fn json_string_list(text: Seq<char>) -> Option<Seq<Seq<char>>>;

/// `serde_json::from_str` at the type of a list of strings: the list that the
/// text holds, a function of the text alone, or `None` where parsing fails.
#[verifier::external_body]
fn parse_string_list(text: &str) -> (list: Option<Vec<String>>)
    ensures
        match list {
            Some(items) => json_string_list(text@) == Some(strings_view(items@)),
            None => json_string_list(text@) is None,
        },
{
    match serde_json::from_str::<Vec<String>>(text) {
        Ok(items) => Some(items),
        Err(_) => None,
    }
}

/// The globs that the JSON text `text` stands for: none where the text is
/// empty or is not the JSON of a list of strings.
pub open spec fn globs_of_json(text: Seq<char>) -> Seq<Seq<char>> {
    if text.len() == 0 {
        Seq::empty()
    } else {
        match json_string_list(text) {
            Some(items) => items,
            None => Seq::empty(),
        }
    }
}

/// What a search is asked to do. The options stay as they are for the whole
/// search.
#[derive(Clone, Debug)]
pub struct SearchOptions {
    /// Letters match in either case.
    pub ignore_case: bool,
    /// Matches must lie on word boundaries.
    pub whole_word: bool,
    /// The pattern is literal text, not a regular expression.
    pub fixed_strings: bool,
    /// Lines of context shown before and after each match line.
    pub include_context: usize,
    /// Whether the caller wants structured output.
    pub json_output: bool,
    /// Whether the caller wants line numbers shown.
    pub line_numbers: bool,
    /// Globs that a file's path must match to be searched; none admits all.
    pub file_globs: Vec<String>,
    /// Width in bytes above which a line is cut or dropped.
    pub max_columns: Option<usize>,
    /// Whether a line above the width is cut and shown, or dropped.
    pub max_columns_preview: bool,
    /// Ceiling on the number of match lines per file.
    pub max_count: Option<usize>,
}

/// Options over mathematical values.
pub struct OptionsModel {
    pub ignore_case: bool,
    pub whole_word: bool,
    pub fixed_strings: bool,
    pub include_context: usize,
    pub json_output: bool,
    pub line_numbers: bool,
    pub file_globs: Seq<Seq<char>>,
    pub max_columns: Option<usize>,
    pub max_columns_preview: bool,
    pub max_count: Option<usize>,
}

impl View for SearchOptions {
    type V = OptionsModel;

    open spec fn view(&self) -> OptionsModel {
        OptionsModel {
            ignore_case: self.ignore_case,
            whole_word: self.whole_word,
            fixed_strings: self.fixed_strings,
            include_context: self.include_context,
            json_output: self.json_output,
            line_numbers: self.line_numbers,
            file_globs: strings_view(self.file_globs@),
            max_columns: self.max_columns,
            max_columns_preview: self.max_columns_preview,
            max_count: self.max_count,
        }
    }
}

/// The plain options: a case-sensitive regular expression, no context, no
/// glob, no width limit and no ceiling.
pub open spec fn plain_options() -> OptionsModel {
    OptionsModel {
        ignore_case: false,
        whole_word: false,
        fixed_strings: false,
        include_context: 0,
        json_output: true,
        line_numbers: true,
        file_globs: Seq::empty(),
        max_columns: None,
        max_columns_preview: false,
        max_count: None,
    }
}

/// The options made from single values, with the globs given as JSON text.
pub open spec fn simple_options(
    ignore_case: bool,
    whole_word: bool,
    fixed_strings: bool,
    context: usize,
    file_globs_json: Seq<char>,
    max_columns: Option<usize>,
    max_columns_preview: bool,
    max_count: Option<usize>,
) -> OptionsModel {
    OptionsModel {
        ignore_case,
        whole_word,
        fixed_strings,
        include_context: context,
        json_output: true,
        line_numbers: true,
        file_globs: globs_of_json(file_globs_json),
        max_columns,
        max_columns_preview,
        max_count,
    }
}

impl SearchOptions {

    /// Makes options from single values, with the globs given as the JSON of
    /// a list of strings. Text that is empty or does not parse gives no globs.
    pub fn simple(
        ignore_case: bool,
        whole_word: bool,
        fixed_strings: bool,
        context: usize,
        file_globs_json: &str,
        max_columns: Option<usize>,
        max_columns_preview: bool,
        max_count: Option<usize>,
    ) -> (options: SearchOptions)
        ensures
            options@ == simple_options(
                ignore_case,
                whole_word,
                fixed_strings,
                context,
                file_globs_json@,
                max_columns,
                max_columns_preview,
                max_count,
            ),
    {
        let file_globs: Vec<String> = if file_globs_json.is_empty() {
            let none: Vec<String> = Vec::new();
            assert(strings_view(none@) == Seq::<Seq<char>>::empty());
            none
        } else {
            match parse_string_list(file_globs_json) {
                Some(items) => items,
                None => {
                    let none: Vec<String> = Vec::new();
                    assert(strings_view(none@) == Seq::<Seq<char>>::empty());
                    none
                },
            }
        };
        SearchOptions {
            ignore_case,
            whole_word,
            fixed_strings,
            include_context: context,
            json_output: true,
            line_numbers: true,
            file_globs,
            max_columns,
            max_columns_preview,
            max_count,
        }
    }

    /// The plain options.
    pub fn plain() -> (options: SearchOptions)
        ensures
            options@ == plain_options(),
    {
        let none: Vec<String> = Vec::new();
        assert(strings_view(none@) == Seq::<Seq<char>>::empty());
        SearchOptions {
            ignore_case: false,
            whole_word: false,
            fixed_strings: false,
            include_context: 0,
            json_output: true,
            line_numbers: true,
            file_globs: none,
            max_columns: None,
            max_columns_preview: false,
            max_count: None,
        }
    }
}

} // verus!
