use remendo::buffer::Buffer;
use remendo::pane::{Cursor, DocumentPane, gutter_num_width, scroll_to_show};
use remendo::search::{Search, find_matches, nearest_at_or_after};

fn setup(text: &str) -> (DocumentPane, Buffer) {
    (DocumentPane::new(), Buffer::from_text(text))
}

#[test]
fn cursor_inside_viewport_does_not_scroll() {
    assert_eq!(scroll_to_show(10, 12, 20), 10);
}

#[test]
fn cursor_above_viewport_scrolls_up_to_cursor() {
    assert_eq!(scroll_to_show(10, 4, 20), 4);
}

#[test]
fn cursor_below_viewport_scrolls_just_enough() {
    assert_eq!(scroll_to_show(10, 35, 20), 16);
}

#[test]
fn zero_viewport_is_a_noop() {
    assert_eq!(scroll_to_show(7, 100, 0), 7);
}

#[test]
fn gutter_has_a_minimum_width() {
    assert_eq!(gutter_num_width(5), 3);
    assert_eq!(gutter_num_width(12345), 5);
}

#[test]
fn vertical_move_preserves_target_column() {
    let (mut p, b) = setup("abcde\nxy\nlongerline");
    for _ in 0..4 {
        p.move_right(&b);
    }
    assert_eq!(p.cursor_line_col(), (0, 4));
    p.move_down(&b);
    assert_eq!(p.cursor_line_col(), (1, 2));
    assert_eq!(p.cursor.target_col, 4);
    p.move_down(&b);
    assert_eq!(p.cursor_line_col(), (2, 4));
}

#[test]
fn move_left_wraps_to_previous_line_end() {
    let (mut p, b) = setup("ab\ncd");
    p.move_down(&b);
    assert_eq!(p.cursor_line_col(), (1, 0));
    p.move_left(&b);
    assert_eq!(p.cursor_line_col(), (0, 2));
}

#[test]
fn motion_clamps_at_both_ends() {
    let (mut p, b) = setup("ab\ncd");
    p.move_up(&b);
    assert_eq!(p.cursor_line_col(), (0, 0));
    p.move_left(&b);
    assert_eq!(p.cursor_line_col(), (0, 0));
    p.page_down(&b);
    p.move_down(&b);
    assert_eq!(p.cursor.line, 1);
}

#[test]
fn goto_line_is_one_based_and_clamps() {
    let (mut p, b) = setup("one\ntwo\nthree\n");
    p.goto_line(&b, 2);
    assert_eq!(p.cursor_line_col(), (1, 0));
    p.goto_line(&b, 9999);
    assert_eq!(p.cursor.line, b.line_count() - 1);
    p.goto_line(&b, 0);
    assert_eq!(p.cursor.line, 0);
}

#[test]
fn search_selects_the_first_match_at_or_after_the_origin() {
    let (mut p, b) = setup("alpha\nbeta\nalpha\n");
    p.goto_line(&b, 2);
    p.search_begin();
    p.search_update(&b, "alpha");
    assert_eq!(p.cursor.line, 2);
    assert!(p.has_selection());
}

#[test]
fn search_is_case_insensitive_and_wraps() {
    let (mut p, b) = setup("Alpha\nbeta\nALPHA\n");
    p.search_begin();
    p.search_update(&b, "alpha");
    assert_eq!(p.cursor.line, 0);
    p.search_next();
    assert_eq!(p.cursor.line, 2);
    p.search_next();
    assert_eq!(p.cursor.line, 0);
    p.search_prev();
    assert_eq!(p.cursor.line, 2);
}

#[test]
fn search_cancel_restores_the_origin_cursor() {
    let (mut p, b) = setup("alpha\nbeta\nalpha\n");
    p.goto_line(&b, 2);
    let origin = p.cursor_line_col();
    p.search_begin();
    p.search_update(&b, "alpha");
    assert_ne!(p.cursor_line_col(), origin);
    p.search_cancel();
    assert_eq!(p.cursor_line_col(), origin);
    assert!(!p.has_selection());
}

#[test]
fn search_commit_keeps_the_match_selected() {
    let (mut p, b) = setup("alpha\nbeta\n");
    p.search_begin();
    p.search_update(&b, "beta");
    p.search_commit();
    assert_eq!(p.cursor.line, 1);
    assert!(p.has_selection());
}

#[test]
fn a_query_with_no_match_returns_to_the_origin() {
    let (mut p, b) = setup("alpha\nbeta\n");
    p.goto_line(&b, 2);
    let origin = p.cursor_line_col();
    p.search_begin();
    p.search_update(&b, "zzz");
    assert_eq!(p.cursor_line_col(), origin);
    assert!(!p.has_selection());
}

#[test]
fn search_update_without_begin_is_inert() {
    let (mut p, b) = setup("alpha\n");
    p.search_update(&b, "alpha");
    assert_eq!(p.cursor_line_col(), (0, 0));
    assert!(!p.has_selection());
}

#[test]
fn a_match_spans_the_selection_from_its_start_to_the_cursor() {
    let (mut p, b) = setup("xx needle\n");
    p.search_begin();
    p.search_update(&b, "needle");
    assert_eq!(p.ordered_selection(), Some(((0, 3), (0, 9))));
    assert_eq!(p.cursor.target_col, 9);
}

#[test]
fn set_cursor_clamps_into_the_buffer() {
    let (mut p, b) = setup("ab\ncdef");
    p.set_cursor(&b, 9, 9);
    assert_eq!(p.cursor_line_col(), (1, 4));
    p.set_cursor(&b, 0, 1);
    assert_eq!(p.cursor_line_col(), (0, 1));
}

#[test]
fn line_end_and_start_move_within_the_line() {
    let (mut p, b) = setup("abc\nd");
    p.move_line_end(&b);
    assert_eq!(p.cursor_line_col(), (0, 3));
    p.move_line_start();
    assert_eq!(p.cursor_line_col(), (0, 0));
}

#[test]
fn the_viewport_follows_the_cursor() {
    let (mut p, b) = setup("a\nb\nc\nd\ne\nf\n");
    p.goto_line(&b, 6);
    p.fit_viewport(2, 10);
    assert_eq!(p.scroll_row(), 4);
    p.page_up(&b);
    assert_eq!(p.cursor.line, 3);
}

#[test]
fn a_buffer_splits_at_every_newline() {
    let b = Buffer::from_text("one\ntwo\nthree\n");
    assert_eq!(b.line_count(), 4);
    assert_eq!(b.line_text(2), "three");
    assert_eq!(b.line_text(3), "");
    assert_eq!(Buffer::from_text("").line_count(), 1);
}

fn search_from(line: usize, col: usize) -> Search {
    Search::begin(Cursor { line, col, target_col: col })
}

#[test]
fn matching_is_case_insensitive() {
    let b = Buffer::from_text("Alpha\nbeta\nALPHA\n");
    assert_eq!(find_matches(&b, "alpha"), vec![(0, 0), (2, 0)]);
}

#[test]
fn a_match_shorter_than_the_line_is_found_at_its_column() {
    let b = Buffer::from_text("xx needle xx\n");
    assert_eq!(find_matches(&b, "needle"), vec![(0, 3)]);
}

#[test]
fn an_empty_query_matches_nothing() {
    let b = Buffer::from_text("alpha\n");
    assert!(find_matches(&b, "").is_empty());
}

#[test]
fn nearest_picks_the_first_match_at_or_after() {
    let matches = vec![(0, 0), (2, 0), (4, 0)];
    assert_eq!(nearest_at_or_after(&matches, (1, 0)), Some(1));
    assert_eq!(nearest_at_or_after(&matches, (2, 0)), Some(1));
    assert_eq!(nearest_at_or_after(&matches, (9, 0)), None);
}

#[test]
fn update_selects_the_match_at_or_after_the_origin() {
    let b = Buffer::from_text("alpha\nbeta\nalpha\n");
    let mut s = search_from(1, 0);
    s.update(&b, "alpha");
    assert_eq!(s.current_match(), Some(((2, 0), 5)));
}

#[test]
fn next_and_prev_wrap_in_both_directions() {
    let b = Buffer::from_text("alpha\nbeta\nalpha\n");
    let mut s = search_from(0, 0);
    s.update(&b, "alpha");
    assert_eq!(s.current_match(), Some(((0, 0), 5)));
    s.next();
    assert_eq!(s.current_match(), Some(((2, 0), 5)));
    s.next();
    assert_eq!(s.current_match(), Some(((0, 0), 5)));
    s.prev();
    assert_eq!(s.current_match(), Some(((2, 0), 5)));
}

#[test]
fn navigation_with_no_matches_is_inert() {
    let b = Buffer::from_text("alpha\n");
    let mut s = search_from(0, 0);
    s.update(&b, "zzz");
    s.next();
    s.prev();
    assert_eq!(s.current_match(), None);
}

#[test]
fn re_updating_to_an_empty_query_clears_the_matches() {
    let b = Buffer::from_text("alpha\n");
    let mut s = search_from(0, 0);
    s.update(&b, "alpha");
    assert!(s.current_match().is_some());
    s.update(&b, "");
    assert_eq!(s.current_match(), None);
}

#[test]
fn overlapping_matches_are_all_found() {
    let b = Buffer::from_text("aaaa\n");
    assert_eq!(find_matches(&b, "aa"), vec![(0, 0), (0, 1), (0, 2)]);
}
