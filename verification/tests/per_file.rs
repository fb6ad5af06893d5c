use file_walker::lines::{is_binary, split_lines};
use file_walker::render::{clip_span, render_line};
use file_walker::scan::scan_matches;
use file_walker::{
    search_file_compatible, search_file_with_context, LineMatcher, RgJsonMatch, SearchError,
    SearchOptions, SearchResultType,
};

fn options() -> SearchOptions {
    SearchOptions::plain()
}

fn matcher(pattern: &str, options: &SearchOptions) -> LineMatcher {
    LineMatcher::new(pattern, options.ignore_case, options.whole_word, options.fixed_strings)
        .expect("the pattern compiles")
}

fn run(pattern: &str, content: &[u8], options: &SearchOptions) -> Vec<SearchResultType> {
    let m = matcher(pattern, options);
    let mut results = Vec::new();
    search_file_with_context(&m, "f.txt", content, &mut results, options).expect("text file");
    results
}

/// (kind, line number, text, submatch)
fn flat(records: &[SearchResultType]) -> Vec<(String, u64, String, Option<(String, usize, usize)>)> {
    records
        .iter()
        .map(|r| match r {
            SearchResultType::Match(m) => {
                assert_eq!(m.data.submatches.len(), 1);
                assert_eq!(m.data.absolute_offset, 0);
                let s = &m.data.submatches[0];
                (
                    m.entry_type.clone(),
                    m.data.line_number,
                    String::from_utf8_lossy(&m.data.lines.text).into_owned(),
                    Some((
                        String::from_utf8_lossy(&s.match_data.text).into_owned(),
                        s.start,
                        s.end,
                    )),
                )
            }
            SearchResultType::Context(c) => {
                assert_eq!(c.data.absolute_offset, 0);
                (
                    c.entry_type.clone(),
                    c.data.line_number,
                    String::from_utf8_lossy(&c.data.lines.text).into_owned(),
                    None,
                )
            }
        })
        .collect()
}

fn m(line: u64, text: &str, sub: &str, start: usize, end: usize) -> (String, u64, String, Option<(String, usize, usize)>) {
    ("match".to_string(), line, text.to_string(), Some((sub.to_string(), start, end)))
}

fn c(line: u64, text: &str) -> (String, u64, String, Option<(String, usize, usize)>) {
    ("context".to_string(), line, text.to_string(), None)
}

#[test]
fn split_lines_drops_terminators() {
    let lines = split_lines(b"alpha\r\nfoo bar\ngamma");
    assert_eq!(lines, vec![b"alpha".to_vec(), b"foo bar".to_vec(), b"gamma".to_vec()]);
}

#[test]
fn split_lines_of_nothing_is_nothing() {
    assert_eq!(split_lines(b""), Vec::<Vec<u8>>::new());
}

#[test]
fn split_lines_keeps_empty_lines_but_no_empty_tail() {
    assert_eq!(split_lines(b"\n\na\n"), vec![b"".to_vec(), b"".to_vec(), b"a".to_vec()]);
    assert_eq!(split_lines(b"a\n\n"), vec![b"a".to_vec(), b"".to_vec()]);
}

#[test]
fn split_lines_keeps_a_carriage_return_without_line_feed() {
    assert_eq!(split_lines(b"a\rb\nc\r"), vec![b"a\rb".to_vec(), b"c\r".to_vec()]);
    assert_eq!(split_lines(b"\r\n"), vec![b"".to_vec()]);
}

#[test]
fn is_binary_looks_for_nul() {
    assert!(!is_binary(b""));
    assert!(!is_binary(b"plain text\n"));
    assert!(is_binary(b"abc\0def"));
    assert!(is_binary(b"\0"));
}

#[test]
fn single_match_without_context() {
    let records = run("foo", b"alpha\nfoo bar\ngamma\n", &options());
    assert_eq!(flat(&records), vec![m(2, "foo bar", "foo", 0, 3)]);
    match &records[0] {
        SearchResultType::Match(r) => assert_eq!(r.data.path.text, "f.txt"),
        SearchResultType::Context(_) => panic!("a match was expected"),
    }
}

#[test]
fn radius_one_shows_the_neighbours_only() {
    let mut o = options();
    o.include_context = 1;
    let records = run("two", b"one\ntwo\nthree\nfour\nfive\n", &o);
    assert_eq!(flat(&records), vec![c(1, "one"), m(2, "two", "two", 0, 3), c(3, "three")]);
}

#[test]
fn overlapping_windows_emit_each_line_once() {
    let mut o = options();
    o.include_context = 1;
    let records = run("x", b"l0\nl1\nx2\nl3\nx4\nl5\nl6\n", &o);
    assert_eq!(
        flat(&records),
        vec![c(2, "l1"), m(3, "x2", "x", 0, 1), c(4, "l3"), m(5, "x4", "x", 0, 1), c(6, "l5")]
    );
}

#[test]
fn separate_windows_leave_the_gap_out() {
    let mut o = options();
    o.include_context = 1;
    let records = run("x", b"x0\nl1\nl2\nl3\nx4\n", &o);
    assert_eq!(
        flat(&records),
        vec![m(1, "x0", "x", 0, 1), c(2, "l1"), c(4, "l3"), m(5, "x4", "x", 0, 1)]
    );
}

#[test]
fn ceiling_of_one_keeps_later_matches_as_context() {
    let content = b"a\nhit 2\nc\nd\nhit 5\nf\n";
    let mut o = options();
    o.max_count = Some(1);
    assert_eq!(flat(&run("hit", content, &o)), vec![m(2, "hit 2", "hit", 0, 3)]);
    o.include_context = 3;
    assert_eq!(
        flat(&run("hit", content, &o)),
        vec![c(1, "a"), m(2, "hit 2", "hit", 0, 3), c(3, "c"), c(4, "d"), c(5, "hit 5")]
    );
}

#[test]
fn ceiling_of_zero_finds_nothing() {
    let mut o = options();
    o.max_count = Some(0);
    assert!(run("hit", b"hit\nhit\n", &o).is_empty());
}

#[test]
fn scan_matches_stops_at_the_ceiling() {
    let o = options();
    let lines = split_lines(b"hit\nno\nhit\nhit\n");
    let mt = matcher("hit", &o);
    assert_eq!(scan_matches(&mt, &lines, None), vec![0, 2, 3]);
    assert_eq!(scan_matches(&mt, &lines, Some(2)), vec![0, 2]);
    assert_eq!(scan_matches(&mt, &lines, Some(7)), vec![0, 2, 3]);
}

#[test]
fn fixed_strings_takes_the_dot_literally() {
    let mut o = options();
    o.fixed_strings = true;
    let records = run("a.b", b"a.b\naxb\n", &o);
    assert_eq!(flat(&records), vec![m(1, "a.b", "a.b", 0, 3)]);
    let as_regex = run("a.b", b"a.b\naxb\n", &options());
    assert_eq!(flat(&as_regex), vec![m(1, "a.b", "a.b", 0, 3), m(2, "axb", "axb", 0, 3)]);
}

#[test]
fn fixed_strings_escapes_every_meta_character() {
    let mut o = options();
    o.fixed_strings = true;
    let text = r"\.+*?()|[]{}^$#&-~";
    let mut content = text.as_bytes().to_vec();
    content.push(b'\n');
    let records = run(text, &content, &o);
    assert_eq!(flat(&records), vec![m(1, text, text, 0, text.len())]);
}

#[test]
fn ignore_case_folds_letters() {
    let mut o = options();
    assert!(run("FOO", b"foo bar\n", &o).is_empty());
    o.ignore_case = true;
    assert_eq!(flat(&run("FOO", b"foo bar\n", &o)), vec![m(1, "foo bar", "foo", 0, 3)]);
}

#[test]
fn whole_word_needs_word_boundaries() {
    let mut o = options();
    o.whole_word = true;
    let records = run("foo", b"foobar\na foo b\n", &o);
    assert_eq!(flat(&records), vec![m(2, "a foo b", "foo", 2, 5)]);
}

#[test]
fn only_the_first_match_of_a_line_is_reported() {
    let records = run("ab", b"xxabyyab\n", &options());
    assert_eq!(flat(&records), vec![m(1, "xxabyyab", "ab", 2, 4)]);
}

#[test]
fn an_empty_match_is_no_match() {
    assert!(run("x*", b"abc\n", &options()).is_empty());
    assert_eq!(flat(&run("x*", b"xxa\n", &options())), vec![m(1, "xxa", "xx", 0, 2)]);
}

#[test]
fn preview_cuts_the_line_and_clips_the_match() {
    let mut o = options();
    o.max_columns = Some(5);
    o.max_columns_preview = true;
    let records = run("hello", b"hello world\n", &o);
    assert_eq!(flat(&records), vec![m(1, "hello...", "hello", 0, 5)]);
    let clipped = run("lo wo", b"hello world\n", &o);
    assert_eq!(flat(&clipped), vec![m(1, "hello...", "lo", 3, 5)]);
}

#[test]
fn preview_drops_a_match_that_starts_beyond_the_limit() {
    let mut o = options();
    o.max_columns = Some(5);
    o.max_columns_preview = true;
    assert!(run("rld", b"hello world\n", &o).is_empty());
    assert!(run(" world", b"hello world\n", &o).is_empty());
}

#[test]
fn preview_shows_cut_context_lines() {
    let mut o = options();
    o.max_columns = Some(5);
    o.max_columns_preview = true;
    o.include_context = 1;
    let records = run("hit", b"a long line before\nhit\nshort\n", &o);
    assert_eq!(flat(&records), vec![c(1, "a lon..."), m(2, "hit", "hit", 0, 3), c(3, "short")]);
}

#[test]
fn without_preview_wide_lines_are_dropped() {
    let mut o = options();
    o.max_columns = Some(5);
    o.include_context = 1;
    let records = run("hi", b"a long line before\nhi\nhi there, wide\nshort\n", &o);
    assert_eq!(flat(&records), vec![m(2, "hi", "hi", 0, 2), c(4, "short")]);
}

#[test]
fn a_line_as_wide_as_the_limit_is_shown_whole() {
    let mut o = options();
    o.max_columns = Some(5);
    assert_eq!(flat(&run("lo", b"hello\n", &o)), vec![m(1, "hello", "lo", 3, 5)]);
}

#[test]
fn render_line_follows_the_policy() {
    assert_eq!(render_line(b"hello world", None, false), Some(b"hello world".to_vec()));
    assert_eq!(render_line(b"hello world", Some(11), false), Some(b"hello world".to_vec()));
    assert_eq!(render_line(b"hello world", Some(5), true), Some(b"hello...".to_vec()));
    assert_eq!(render_line(b"hello world", Some(0), true), Some(b"...".to_vec()));
    assert_eq!(render_line(b"hello world", Some(5), false), None);
}

#[test]
fn clip_span_follows_the_policy() {
    assert_eq!(clip_span(11, 0, 5, Some(5)), Some((0, 5)));
    assert_eq!(clip_span(11, 2, 9, Some(5)), Some((2, 5)));
    assert_eq!(clip_span(11, 5, 9, Some(5)), None);
    assert_eq!(clip_span(11, 8, 11, Some(5)), None);
    assert_eq!(clip_span(11, 8, 11, Some(11)), Some((8, 11)));
    assert_eq!(clip_span(11, 8, 11, None), Some((8, 11)));
}

#[test]
fn a_binary_file_is_refused_as_a_whole() {
    let o = options();
    let mt = matcher("foo", &o);
    let mut results = Vec::new();
    let outcome = search_file_with_context(&mt, "f.bin", b"foo\nbar\0\nfoo\n", &mut results, &o);
    assert!(matches!(outcome, Err(SearchError::BinaryContent)));
    assert!(results.is_empty());
}

#[test]
fn records_are_appended_after_what_is_there() {
    let o = options();
    let mt = matcher("foo", &o);
    let mut results = Vec::new();
    search_file_with_context(&mt, "a", b"foo\n", &mut results, &o).unwrap();
    search_file_with_context(&mt, "b", b"x\nfoo\n", &mut results, &o).unwrap();
    assert_eq!(flat(&results), vec![m(1, "foo", "foo", 0, 3), m(2, "foo", "foo", 0, 3)]);
}

#[test]
fn invalid_pattern_is_reported_with_a_reason() {
    match LineMatcher::new("(unclosed", false, false, false) {
        Err(SearchError::InvalidPattern(reason)) => assert!(!reason.is_empty()),
        _ => panic!("the pattern must be refused"),
    }
    assert!(LineMatcher::new("(unclosed", false, false, true).is_ok());
}

#[test]
fn matching_lines_come_numbered_and_with_their_terminator() {
    let mt = matcher("foo", &options());
    let lines = mt.matching_lines(b"alpha\nfoo bar\ngamma\nfoo").unwrap();
    assert_eq!(lines, vec![(2, "foo bar\n".to_string()), (4, "foo".to_string())]);
}

#[test]
fn search_file_compatible_keeps_matches_only() {
    let mt = matcher("foo", &options());
    let mut results: Vec<RgJsonMatch> = Vec::new();
    search_file_compatible(&mt, "f.txt", b"alpha\nfoo bar\ngamma\nfoo\n", &mut results).unwrap();
    assert_eq!(results.len(), 2);
    assert_eq!(results[0].data.line_number, 2);
    assert_eq!(results[0].data.lines.text, b"foo bar".to_vec());
    assert_eq!(results[1].data.line_number, 4);
    assert_eq!(results[1].data.submatches[0].start, 0);
    assert_eq!(results[1].data.submatches[0].end, 3);
    let refused = search_file_compatible(&mt, "f.bin", b"foo\0", &mut results);
    assert!(matches!(refused, Err(SearchError::BinaryContent)));
    assert_eq!(results.len(), 2);
}
