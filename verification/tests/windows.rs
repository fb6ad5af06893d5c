use file_walker::window::raw_window;
use file_walker::{build_windows, ContextWindow};

fn shape(windows: &[ContextWindow]) -> Vec<(usize, usize, Vec<usize>)> {
    windows.iter().map(|w| (w.start, w.end, w.match_indices.clone())).collect()
}

#[test]
fn raw_window_is_cut_at_the_ends_of_the_file() {
    assert_eq!(raw_window(1, 1, 5), (0, 3));
    assert_eq!(raw_window(0, 2, 5), (0, 3));
    assert_eq!(raw_window(4, 2, 5), (2, 5));
    assert_eq!(raw_window(2, 0, 5), (2, 3));
    assert_eq!(raw_window(2, usize::MAX, 5), (0, 5));
}

#[test]
fn window_around_one_match() {
    assert_eq!(shape(&build_windows(&vec![1], 1, 5)), vec![(0, 3, vec![1])]);
}

#[test]
fn overlapping_windows_merge() {
    assert_eq!(shape(&build_windows(&vec![2, 4], 1, 7)), vec![(1, 6, vec![2, 4])]);
}

#[test]
fn touching_windows_merge() {
    assert_eq!(shape(&build_windows(&vec![1, 4], 1, 10)), vec![(0, 6, vec![1, 4])]);
}

#[test]
fn windows_one_line_apart_stay_apart() {
    assert_eq!(
        shape(&build_windows(&vec![1, 5], 1, 10)),
        vec![(0, 3, vec![1]), (4, 7, vec![5])]
    );
}

#[test]
fn radius_zero_joins_neighbouring_match_lines_only() {
    assert_eq!(
        shape(&build_windows(&vec![0, 2, 3], 0, 4)),
        vec![(0, 1, vec![0]), (2, 4, vec![2, 3])]
    );
}

#[test]
fn no_match_gives_no_window() {
    assert!(build_windows(&vec![], 3, 10).is_empty());
}

#[test]
fn a_large_radius_covers_the_file() {
    assert_eq!(
        shape(&build_windows(&vec![0, 9], usize::MAX, 10)),
        vec![(0, 10, vec![0, 9])]
    );
}
