use dd_emailforge::tui::form_textarea::{
    delete_char_before, insert_char, render_textarea_display_window, textarea_cursor_col,
    textarea_cursor_from_click, textarea_cursor_row, textarea_display_rows, textarea_end,
    textarea_home, textarea_max_rows_for_window, textarea_move_cursor_vertical,
    textarea_visual_line_count, textarea_wrap_for_rect, visual_lines, VisualLine,
};
use dd_emailforge::tui::form_textarea::{
    contains_rect, textarea_scrollbar_thumb, textarea_wrap_width, TextareaHit,
};
use dd_emailforge::tui::editform::Rect;

#[test]
fn wrap_splits_long_line() {
    let lines = visual_lines("abcdefghij", Some(4));
    assert_eq!(
        lines,
        vec![
            VisualLine { start: 0, len: 4 },
            VisualLine { start: 4, len: 4 },
            VisualLine { start: 8, len: 2 },
        ]
    );
    assert_eq!(visual_lines("abcd", Some(4)).len(), 1);
    assert_eq!(visual_lines("ab\ncd", Some(4)).len(), 2);
    assert_eq!(visual_lines("ab\n", None).len(), 2);
}

#[test]
fn home_end_logical_line() {
    let v = "hello\nworld";
    assert_eq!(textarea_home(v, 8, None), 6);
    assert_eq!(textarea_end(v, 8, None), 11);
    assert_eq!(textarea_home(v, 2, None), 0);
    assert_eq!(textarea_end(v, 2, None), 5);
}

#[test]
fn home_end_wrapped_line() {
    let v = "abcdefghij";
    assert_eq!(textarea_home(v, 5, Some(4)), 4);
    assert_eq!(textarea_end(v, 5, Some(4)), 7);
    assert_eq!(textarea_home(v, 9, Some(4)), 8);
    assert_eq!(textarea_end(v, 9, Some(4)), 10);
}

#[test]
fn click_sets_cursor() {
    let v = "abcdefghij";
    assert_eq!(textarea_cursor_from_click(v, Some(4), 0, 2, 0), 2);
    assert_eq!(textarea_cursor_from_click(v, Some(4), 0, 1, 1), 5);
    assert_eq!(textarea_cursor_from_click(v, Some(4), 0, 9, 2), 10);
}

#[test]
fn vertical_move_follows_wrap() {
    let v = "abcdefghij";
    assert_eq!(textarea_move_cursor_vertical(v, 1, 1, Some(4)), 5);
    assert_eq!(textarea_move_cursor_vertical(v, 5, -1, Some(4)), 1);
    assert_eq!(textarea_move_cursor_vertical("a\nb\nc", 0, 1, None), 2);
}

#[test]
fn display_window_wraps() {
    let (display, first, total) = render_textarea_display_window("abcdefghij", 0, true, 2, Some(4));
    assert_eq!(total, 3);
    assert_eq!(first, 0);
    assert_eq!(display, "abcd\nefgh");
}

#[test]
fn empty_value_has_one_empty_row() {
    assert_eq!(visual_lines("", Some(4)), vec![VisualLine { start: 0, len: 0 }]);
    assert_eq!(textarea_visual_line_count("", None), 1);
}

#[test]
fn zero_width_wraps_every_character() {
    assert_eq!(visual_lines("abc", Some(0)).len(), 3);
}

#[test]
fn exact_width_line_then_newline_makes_no_empty_row() {
    let lines = visual_lines("abcd\nx", Some(4));
    assert_eq!(lines, vec![VisualLine { start: 0, len: 4 }, VisualLine { start: 5, len: 1 }]);
}

#[test]
fn cursor_row_and_col() {
    assert_eq!(textarea_cursor_row("abcdefghij", 9, Some(4)), 2);
    assert_eq!(textarea_cursor_col("abcdefghij", 9, Some(4)), 1);
    assert_eq!(textarea_cursor_row("ab\ncd", 4, None), 1);
}

#[test]
fn vertical_move_clamps_at_both_ends() {
    assert_eq!(textarea_move_cursor_vertical("ab\ncd", 1, -5, None), 1);
    assert_eq!(textarea_move_cursor_vertical("ab\ncd", 1, 5, None), 4);
    assert_eq!(textarea_move_cursor_vertical("abcd\nx", 3, 1, None), 6);
}

#[test]
fn display_rows_grow_and_cap() {
    assert_eq!(textarea_display_rows("a\nb\nc", 1, None, 12), 3);
    assert_eq!(textarea_display_rows("a", 6, None, 12), 6);
    assert_eq!(textarea_display_rows("a\nb\nc", 1, None, 2), 2);
    assert_eq!(textarea_display_rows("", 0, None, 0), 1);
    assert_eq!(textarea_max_rows_for_window(40), 12);
    assert_eq!(textarea_max_rows_for_window(2), 1);
    assert_eq!(textarea_max_rows_for_window(10), 7);
}

#[test]
fn wrap_for_rect_keeps_a_scrollbar_column_when_needed() {
    let r = Rect { x: 0, y: 0, width: 4, height: 2 };
    assert_eq!(textarea_wrap_for_rect("abcdefghij", r), (3, true));
    assert_eq!(textarea_wrap_for_rect("abc", r), (4, false));
}

#[test]
fn display_window_follows_focused_cursor_and_pads() {
    let (display, first, total) = render_textarea_display_window("abcdefghij", 9, true, 2, Some(4));
    assert_eq!((display.as_str(), first, total), ("efgh\nij", 1, 3));
    let (display, first, _) = render_textarea_display_window("ab", 0, false, 3, None);
    assert_eq!((display.as_str(), first), ("ab\n\n", 0));
}

#[test]
fn insert_and_delete_chars() {
    assert_eq!(insert_char("ac", 1, 'b'), ("abc".to_string(), 2));
    assert_eq!(insert_char("ab", 9, 'c'), ("abc".to_string(), 3));
    assert_eq!(delete_char_before("abc", 2), ("ac".to_string(), 1));
    assert_eq!(delete_char_before("abc", 0), ("abc".to_string(), 0));
    assert_eq!(delete_char_before("abc", 9), ("ab".to_string(), 2));
}

#[test]
fn scrollbar_thumb_follows_the_window() {
    assert_eq!(textarea_scrollbar_thumb(10, 0, 5, 20), Some((0, 2)));
    assert_eq!(textarea_scrollbar_thumb(10, 15, 5, 20), Some((8, 2)));
    assert_eq!(textarea_scrollbar_thumb(10, 99, 5, 20), Some((8, 2)));
    assert_eq!(textarea_scrollbar_thumb(10, 0, 20, 20), None);
    assert_eq!(textarea_scrollbar_thumb(0, 0, 1, 20), None);
    assert_eq!(textarea_scrollbar_thumb(4, 0, 0, 1000), Some((0, 1)));
}

#[test]
fn contains_rect_is_half_open() {
    let r = Rect { x: 2, y: 3, width: 4, height: 2 };
    assert!(contains_rect(r, 2, 3));
    assert!(contains_rect(r, 5, 4));
    assert!(!contains_rect(r, 6, 3));
    assert!(!contains_rect(r, 5, 5));
    assert!(!contains_rect(r, 1, 3));
}

#[test]
fn wrap_width_comes_from_the_first_hit() {
    let hit = |field_idx: usize, wrap_width: u16| TextareaHit {
        rect: Rect { x: 0, y: 0, width: 10, height: 3 },
        field_idx,
        first_visible_row: 0,
        wrap_width,
    };
    let hits = vec![hit(1, 0), hit(1, 20), hit(2, 30)];
    assert_eq!(textarea_wrap_width(&hits, 1), None);
    assert_eq!(textarea_wrap_width(&hits, 2), Some(30));
    assert_eq!(textarea_wrap_width(&hits, 3), None);
}
