use file_walker::options::SearchOptions as Options;
use file_walker::{
    search_files, search_files_compatible, search_in_file, walk_directory,
    wasm_search_files_simple, FileEntry, GlobFilter, LineMatcher, SearchError, SearchOutcome,
    SearchResultType, SearchRun, SearchStatus, Visit,
};

fn file(path: &str, content: &[u8]) -> Visit {
    Visit::Reached {
        entry: FileEntry::new(path, false, true, Some(content.len() as u64)),
        content: Some(content.to_vec()),
    }
}

fn unreadable(path: &str) -> Visit {
    Visit::Reached { entry: FileEntry::new(path, false, true, None), content: None }
}

fn dir(path: &str) -> Visit {
    Visit::Reached { entry: FileEntry::new(path, true, false, None), content: None }
}

fn tree() -> Vec<Visit> {
    vec![
        dir("."),
        file("./a.txt", b"alpha\nfoo bar\ngamma\n"),
        file("./b.rs", b"fn foo() {}\n"),
        Visit::Failed,
        unreadable("./locked.txt"),
        file("./blob.txt", b"foo\0bar\n"),
        file("./c.txt", b"nothing here\n"),
        file("./sub/d.txt", b"x\nfoo\n"),
    ]
}

fn lines_of(outcome: &SearchOutcome) -> Vec<(String, u64)> {
    outcome
        .records
        .iter()
        .map(|r| match r {
            SearchResultType::Match(m) => (m.data.path.text.clone(), m.data.line_number),
            SearchResultType::Context(c) => (c.data.path.text.clone(), c.data.line_number),
        })
        .collect()
}

#[test]
fn search_goes_through_the_files_in_order() {
    let outcome = search_files_compatible("foo", &tree(), &Options::plain());
    assert_eq!(
        lines_of(&outcome),
        vec![
            ("./a.txt".to_string(), 2),
            ("./b.rs".to_string(), 1),
            ("./sub/d.txt".to_string(), 2)
        ]
    );
    assert_eq!(outcome.files_searched, 5);
    assert_eq!(outcome.files_skipped, 3);
    assert!(matches!(outcome.status, SearchStatus::HasMatches));
    assert_eq!(outcome.status.exit_code(), 0);
}

#[test]
fn glob_restricts_the_files_searched() {
    let mut options = Options::plain();
    options.file_globs = vec!["*.rs".to_string()];
    let outcome = search_files_compatible("foo", &tree(), &options);
    assert_eq!(lines_of(&outcome), vec![("./b.rs".to_string(), 1)]);
    assert_eq!(outcome.files_searched, 1);
    assert_eq!(outcome.files_skipped, 1);
}

#[test]
fn txt_glob_on_a_mixed_tree() {
    let mut options = Options::plain();
    options.file_globs = vec!["*.txt".to_string()];
    let visits = vec![
        file("a.txt", b"foo\n"),
        file("b.rs", b"foo\n"),
        file("c.md", b"foo\n"),
        file("d/e.txt", b"bar\n"),
    ];
    let outcome = search_files_compatible("foo", &visits, &options);
    assert_eq!(lines_of(&outcome), vec![("a.txt".to_string(), 1)]);
    assert_eq!(outcome.files_searched, 2);
    assert_eq!(outcome.files_skipped, 0);
}

#[test]
fn taking_out_a_file_the_glob_rejects_changes_nothing() {
    let mut options = Options::plain();
    options.file_globs = vec!["*.txt".to_string()];
    let with = vec![file("a.txt", b"foo\n"), file("b.rs", b"foo\n"), file("c.txt", b"x\nfoo\n")];
    let without = vec![file("a.txt", b"foo\n"), file("c.txt", b"x\nfoo\n")];
    let one = search_files_compatible("foo", &with, &options);
    let other = search_files_compatible("foo", &without, &options);
    assert_eq!(format!("{:?}", one), format!("{:?}", other));
}

#[test]
fn malformed_globs_are_ignored_one_by_one() {
    let filter = GlobFilter::new(&vec!["[".to_string(), "*.txt".to_string()]);
    assert!(filter.admits("a.txt"));
    assert!(!filter.admits("a.rs"));
    let none_valid = GlobFilter::new(&vec!["[".to_string()]);
    assert!(!none_valid.admits("a.txt"));
    let open = GlobFilter::new(&vec![]);
    assert!(open.admits("a.txt"));
    assert!(open.admits("anything at all"));
}

#[test]
fn several_globs_admit_what_any_of_them_matches() {
    let filter = GlobFilter::new(&vec!["*.txt".to_string(), "src/**/*.rs".to_string()]);
    assert!(filter.admits("notes.txt"));
    assert!(filter.admits("src/a/b.rs"));
    assert!(!filter.admits("lib/b.rs"));
}

#[test]
fn repeated_search_gives_identical_output() {
    let mut options = Options::plain();
    options.include_context = 1;
    options.max_columns = Some(6);
    options.max_columns_preview = true;
    let one = search_files_compatible("foo", &tree(), &options);
    let two = search_files_compatible("foo", &tree(), &options);
    assert_eq!(format!("{:?}", one), format!("{:?}", two));
    assert!(!one.records.is_empty());
}

#[test]
fn no_match_gives_status_no_matches() {
    let outcome = search_files_compatible("zebra", &tree(), &Options::plain());
    assert!(outcome.records.is_empty());
    assert_eq!(outcome.files_searched, 5);
    assert!(matches!(outcome.status, SearchStatus::NoMatches));
    assert_eq!(outcome.status.exit_code(), 1);
}

#[test]
fn context_alone_is_no_match() {
    let outcome = search_files_compatible("zebra", &vec![], &Options::plain());
    assert!(matches!(outcome.status, SearchStatus::NoMatches));
    assert_eq!(outcome.files_searched, 0);
}

#[test]
fn invalid_pattern_is_fatal() {
    let outcome = search_files_compatible("(", &tree(), &Options::plain());
    assert!(outcome.records.is_empty());
    assert_eq!(outcome.files_searched, 0);
    assert_eq!(outcome.files_skipped, 0);
    match &outcome.status {
        SearchStatus::Error(SearchError::InvalidPattern(reason)) => assert!(!reason.is_empty()),
        _ => panic!("the pattern must be refused"),
    }
    assert_eq!(outcome.status.exit_code(), 2);
    assert_eq!(SearchStatus::Error(SearchError::SerializationFailure).exit_code(), 2);
}

#[test]
fn a_run_takes_visits_one_by_one() {
    let options = Options::plain();
    let mut run = SearchRun::start("foo", &options).unwrap();
    let entry = FileEntry::new("a.txt", false, true, Some(4));
    assert!(run.wants(&entry));
    assert!(!run.wants(&FileEntry::new("d", true, false, None)));
    let mut reasons = Vec::new();
    for visit in tree() {
        reasons.push(run.absorb(&visit).map(|e| format!("{:?}", e)));
    }
    assert_eq!(
        reasons,
        vec![
            None,
            None,
            None,
            Some("TraversalError".to_string()),
            Some("FileUnreadable".to_string()),
            Some("BinaryContent".to_string()),
            None,
            None,
        ]
    );
    let outcome = run.finish();
    assert_eq!(outcome.records.len(), 3);
    assert_eq!(outcome.files_searched, 5);
    assert!(SearchRun::start("(", &options).is_err());
}

#[test]
fn simple_options_read_the_globs_from_json() {
    let visits = vec![file("a.txt", b"Foo\n"), file("b.rs", b"foo\n")];
    let outcome = wasm_search_files_simple(
        "foo", &visits, true, false, false, 0, r#"["*.txt"]"#, None, false, None,
    );
    assert_eq!(lines_of(&outcome), vec![("a.txt".to_string(), 1)]);
    assert_eq!(outcome.files_searched, 1);
    let all = wasm_search_files_simple("foo", &visits, true, false, false, 0, "", None, false, None);
    assert_eq!(all.files_searched, 2);
    assert_eq!(all.records.len(), 2);
    let broken =
        wasm_search_files_simple("foo", &visits, false, false, false, 0, "not json", None, false, None);
    assert_eq!(broken.files_searched, 2);
    assert_eq!(lines_of(&broken), vec![("b.rs".to_string(), 1)]);
}

#[test]
fn simple_options_carry_every_value() {
    let options = Options::simple(true, true, true, 2, r#"["a", "b"]"#, Some(9), true, Some(3));
    assert!(options.ignore_case && options.whole_word && options.fixed_strings);
    assert_eq!(options.include_context, 2);
    assert!(options.json_output && options.line_numbers);
    assert_eq!(options.file_globs, vec!["a".to_string(), "b".to_string()]);
    assert_eq!(options.max_columns, Some(9));
    assert!(options.max_columns_preview);
    assert_eq!(options.max_count, Some(3));
    let plain = Options::plain();
    assert!(!plain.ignore_case && !plain.whole_word && !plain.fixed_strings);
    assert_eq!(plain.include_context, 0);
    assert!(plain.file_globs.is_empty());
    assert_eq!(plain.max_columns, None);
    assert_eq!(plain.max_count, None);
}

#[test]
fn plain_search_lists_every_matching_line() {
    let result = search_files("fo+", &tree());
    assert!(result.error.is_none());
    assert_eq!(result.files_searched, 6);
    let found: Vec<(String, u64, String, usize, usize)> = result
        .matches
        .iter()
        .map(|m| {
            (m.file_path.clone(), m.line_number, m.line_content.clone(), m.match_start, m.match_end)
        })
        .collect();
    assert_eq!(
        found,
        vec![
            ("./a.txt".to_string(), 2, "foo bar\n".to_string(), 0, 3),
            ("./b.rs".to_string(), 1, "fn foo() {}\n".to_string(), 3, 6),
            ("./blob.txt".to_string(), 1, "foo\0bar\n".to_string(), 0, 3),
            ("./sub/d.txt".to_string(), 2, "foo\n".to_string(), 0, 3),
        ]
    );
}

#[test]
fn plain_search_reports_an_invalid_pattern() {
    let result = search_files("(", &tree());
    assert!(result.matches.is_empty());
    assert_eq!(result.files_searched, 0);
    let message = result.error.expect("an error text");
    assert!(message.starts_with("Invalid regex pattern: "));
    assert!(message.len() > "Invalid regex pattern: ".len());
}

#[test]
fn plain_search_passes_over_a_file_that_is_not_text() {
    let matcher = LineMatcher::new("foo", false, false, false).unwrap();
    let mut matches = Vec::new();
    let outcome = search_in_file(&matcher, "bad", b"foo \xff\n", &mut matches);
    assert!(matches!(outcome, Err(SearchError::FileUnreadable)));
    assert!(matches.is_empty());
    search_in_file(&matcher, "good", b"a foo\n", &mut matches).unwrap();
    assert_eq!(matches.len(), 1);
    assert_eq!(matches[0].match_start, 2);
    assert_eq!(matches[0].match_end, 5);
}

#[test]
fn listing_keeps_every_entry_that_was_reached() {
    let found = vec![
        Some(FileEntry::new(".", true, false, Some(4096))),
        None,
        Some(FileEntry::new("./a.txt", false, true, Some(12))),
        Some(FileEntry::new("./gone", false, true, None)),
    ];
    let result = walk_directory(&found);
    assert!(result.error.is_none());
    let listed: Vec<(String, bool, bool, Option<u64>)> = result
        .entries
        .iter()
        .map(|e| (e.path.clone(), e.is_dir, e.is_file, e.size))
        .collect();
    assert_eq!(
        listed,
        vec![
            (".".to_string(), true, false, None),
            ("./a.txt".to_string(), false, true, Some(12)),
            ("./gone".to_string(), false, true, None),
        ]
    );
}

#[test]
fn listing_of_nothing_is_empty() {
    let result = walk_directory(&vec![]);
    assert!(result.entries.is_empty());
    assert!(result.error.is_none());
}
