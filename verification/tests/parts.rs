use file_walker::emit::{emit_line, emit_records};
use file_walker::lines::split_lines;
use file_walker::pattern::keep_line;
use file_walker::record::any_match;
use file_walker::run::count_one;
use file_walker::scan::below_ceiling;
use file_walker::{
    build_windows, LineMatcher, MatchSpan, RgJsonContext, RgJsonMatch, SearchOptions,
    SearchResultType,
};

#[test]
fn counting_stops_at_the_largest_value() {
    assert_eq!(count_one(0), 1);
    assert_eq!(count_one(41), 42);
    assert_eq!(count_one(usize::MAX - 1), usize::MAX);
    assert_eq!(count_one(usize::MAX), usize::MAX);
}

#[test]
fn ceiling_is_open_below_the_limit() {
    assert!(below_ceiling(0, None));
    assert!(below_ceiling(usize::MAX, None));
    assert!(below_ceiling(0, Some(1)));
    assert!(!below_ceiling(1, Some(1)));
    assert!(!below_ceiling(0, Some(0)));
}

#[test]
fn keep_line_appends_and_goes_on() {
    let mut kept = vec![(1, "a".to_string())];
    assert!(keep_line(&mut kept, 7, "seven\n"));
    assert_eq!(kept, vec![(1, "a".to_string()), (7, "seven\n".to_string())]);
}

#[test]
fn find_gives_the_first_span_and_the_line_index() {
    let matcher = LineMatcher::new("o+", false, false, false).unwrap();
    assert_eq!(
        matcher.find(9, b"foo boo"),
        Some(MatchSpan { line_index: 9, start: 1, end: 3 })
    );
    assert_eq!(matcher.find(0, b"bar"), None);
    assert_eq!(matcher.find(0, b""), None);
}

#[test]
fn records_are_built_with_their_tags() {
    let m = RgJsonMatch::new("p", b"line".to_vec(), 3, b"in".to_vec(), 1, 3);
    assert_eq!(m.entry_type, "match");
    assert_eq!(m.data.path.text, "p");
    assert_eq!(m.data.lines.text, b"line".to_vec());
    assert_eq!(m.data.line_number, 3);
    assert_eq!(m.data.absolute_offset, 0);
    assert_eq!(m.data.submatches.len(), 1);
    assert_eq!(m.data.submatches[0].match_data.text, b"in".to_vec());
    assert_eq!((m.data.submatches[0].start, m.data.submatches[0].end), (1, 3));
    let c = RgJsonContext::new("q", b"near".to_vec(), 4);
    assert_eq!(c.entry_type, "context");
    assert_eq!(c.data.path.text, "q");
    assert_eq!(c.data.lines.text, b"near".to_vec());
    assert_eq!(c.data.line_number, 4);
    assert_eq!(c.data.absolute_offset, 0);
    let records = vec![SearchResultType::Context(c)];
    assert!(!any_match(&records));
    assert!(!records[0].is_match());
    let records = vec![records.into_iter().next().unwrap(), SearchResultType::Match(m)];
    assert!(any_match(&records));
    assert!(records[1].is_match());
    assert!(!any_match(&vec![]));
}

#[test]
fn emitting_a_window_walks_its_lines_in_order() {
    let mut options = SearchOptions::plain();
    options.include_context = 1;
    let matcher = LineMatcher::new("two", false, false, false).unwrap();
    let lines = split_lines(b"one\ntwo\nthree\nfour\nfive\n");
    let windows = build_windows(&vec![1], 1, lines.len());
    let mut results = Vec::new();
    emit_records(&matcher, "f", &lines, &windows, &options, &mut results);
    let numbers: Vec<(bool, u64)> = results
        .iter()
        .map(|r| match r {
            SearchResultType::Match(m) => (true, m.data.line_number),
            SearchResultType::Context(c) => (false, c.data.line_number),
        })
        .collect();
    assert_eq!(numbers, vec![(false, 1), (true, 2), (false, 3)]);
}

#[test]
fn emitting_a_line_depends_on_its_kind() {
    let mut options = SearchOptions::plain();
    let matcher = LineMatcher::new("two", false, false, false).unwrap();
    let lines = split_lines(b"one\ntwo\n");
    let mut results = Vec::new();
    emit_line(&matcher, "f", &lines, 0, false, &options, &mut results);
    assert!(results.is_empty());
    emit_line(&matcher, "f", &lines, 0, true, &options, &mut results);
    assert!(results.is_empty());
    options.include_context = 2;
    emit_line(&matcher, "f", &lines, 0, false, &options, &mut results);
    emit_line(&matcher, "f", &lines, 1, true, &options, &mut results);
    assert_eq!(results.len(), 2);
    assert!(!results[0].is_match());
    assert!(results[1].is_match());
}
