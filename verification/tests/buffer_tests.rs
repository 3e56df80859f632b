use onyx_core::buffer::{Buffer, Cursor};

#[test]
fn insert_and_read() {
    let mut buf = Buffer::new("hello");
    assert_eq!(buf.text(), "hello");
    buf.insert("");
    assert_eq!(buf.text(), "hello");
}

#[test]
fn cursor_starts_at_zero() {
    let buf = Buffer::new("hello");
    assert_eq!(buf.cursor(), Cursor { line: 0, col: 0 });
}

#[test]
fn scroll_clamps_down() {
    let text: String = (0..20).map(|i| format!("line{}\n", i)).collect();
    let mut buf = Buffer::new(&text);
    for _ in 0..10 {
        buf.move_down();
    }
    buf.clamp_scroll(5);
    // cursor=10, margin=3, viewport=5: scroll_offset = 10 + 3 + 1 - 5 = 9
    assert_eq!(buf.scroll_offset(), 9);
}

#[test]
fn scroll_clamps_up() {
    let text: String = (0..20).map(|i| format!("line{}\n", i)).collect();
    let mut buf = Buffer::new(&text);
    for _ in 0..10 {
        buf.move_down();
    }
    buf.clamp_scroll(5);
    for _ in 0..9 {
        buf.move_up();
    }
    buf.clamp_scroll(5);
    assert_eq!(buf.scroll_offset(), 0);
}

#[test]
fn insert_advances_cursor_past_text() {
    let mut buf = Buffer::new("hello");
    buf.insert("!");
    assert_eq!(buf.text(), "!hello");
    assert_eq!(buf.cursor(), Cursor { line: 0, col: 1 });
}

#[test]
fn insert_with_newline_moves_to_next_line() {
    let mut buf = Buffer::new("ab");
    buf.insert("x\ny");
    assert_eq!(buf.text(), "x\nyab");
    assert_eq!(buf.cursor(), Cursor { line: 1, col: 1 });
}

#[test]
fn line_count_counts_trailing_newline_line() {
    let buf = Buffer::new("a\nb\n");
    assert_eq!(buf.line_count(), 3);
    assert_eq!(buf.line(0), "a\n");
    assert_eq!(buf.line(1), "b\n");
    assert_eq!(buf.line(2), "");
}

#[test]
fn move_right_stops_at_last_character() {
    let mut buf = Buffer::new("ab\ncd");
    buf.move_right();
    buf.move_right();
    buf.move_right();
    // line "ab\n" has 3 chars, the last valid column is 2
    assert_eq!(buf.cursor(), Cursor { line: 0, col: 2 });
}

#[test]
fn buffer_move_down_clamps_column() {
    let mut buf = Buffer::new("abcdef\nxy");
    for _ in 0..5 {
        buf.move_right();
    }
    buf.move_down();
    assert_eq!(buf.cursor(), Cursor { line: 1, col: 1 });
}

#[test]
fn move_line_end_excludes_newline() {
    let mut buf = Buffer::new("abc\ndef");
    buf.move_line_end();
    assert_eq!(buf.cursor(), Cursor { line: 0, col: 3 });
}

#[test]
fn delete_before_joins_lines() {
    let mut buf = Buffer::new("ab\ncd");
    buf.move_down();
    buf.delete_before();
    assert_eq!(buf.text(), "abcd");
    assert_eq!(buf.cursor(), Cursor { line: 0, col: 3 });
}

#[test]
fn delete_before_is_noop_at_origin() {
    let mut buf = Buffer::new("ab");
    buf.delete_before();
    assert_eq!(buf.text(), "ab");
    assert_eq!(buf.cursor(), Cursor { line: 0, col: 0 });
}

#[test]
fn delete_char_at_cursor_removes_and_clamps() {
    let mut buf = Buffer::new("ab");
    buf.move_right();
    buf.delete_char_at_cursor();
    assert_eq!(buf.text(), "a");
    assert_eq!(buf.cursor(), Cursor { line: 0, col: 0 });
}

#[test]
fn delete_char_on_empty_line_is_noop() {
    let mut buf = Buffer::new("");
    buf.delete_char_at_cursor();
    assert_eq!(buf.text(), "");
}

#[test]
fn word_forward_lands_on_next_word() {
    let mut buf = Buffer::new("foo bar baz");
    buf.move_word_forward();
    assert_eq!(buf.cursor(), Cursor { line: 0, col: 4 });
    buf.move_word_forward();
    assert_eq!(buf.cursor(), Cursor { line: 0, col: 8 });
}

#[test]
fn word_back_lands_on_word_start() {
    let mut buf = Buffer::new("foo bar baz");
    buf.move_word_forward();
    buf.move_word_forward();
    buf.move_word_back();
    assert_eq!(buf.cursor(), Cursor { line: 0, col: 4 });
}

#[test]
fn paragraph_motions_find_blank_lines() {
    let mut buf = Buffer::new("one\ntwo\n\nthree\nfour");
    buf.move_paragraph_forward();
    assert_eq!(buf.cursor(), Cursor { line: 2, col: 0 });
    buf.move_paragraph_forward();
    assert_eq!(buf.cursor(), Cursor { line: 4, col: 0 });
    buf.move_paragraph_back();
    assert_eq!(buf.cursor(), Cursor { line: 2, col: 0 });
}

#[test]
fn first_and_last_line_jumps() {
    let mut buf = Buffer::new("a\nb\nc");
    buf.move_last_line();
    assert_eq!(buf.cursor(), Cursor { line: 2, col: 0 });
    buf.move_first_line();
    assert_eq!(buf.cursor(), Cursor { line: 0, col: 0 });
}

#[test]
fn selection_yank_is_inclusive() {
    let mut buf = Buffer::new("abcdef");
    buf.move_right();
    buf.start_visual();
    buf.move_right();
    buf.move_right();
    buf.update_visual_head();
    assert_eq!(buf.cursor(), Cursor { line: 0, col: 3 });
    assert_eq!(buf.yank_selection(), "bcd");
}

#[test]
fn reversed_selection_yanks_same_range() {
    let mut buf = Buffer::new("abcdef");
    for _ in 0..3 {
        buf.move_right();
    }
    buf.start_visual();
    buf.move_left();
    buf.move_left();
    buf.update_visual_head();
    assert_eq!(buf.yank_selection(), "bcd");
}

#[test]
fn delete_selection_removes_and_places_cursor() {
    let mut buf = Buffer::new("abcdef");
    buf.move_right();
    buf.start_visual();
    buf.move_right();
    buf.move_right();
    buf.update_visual_head();
    let yanked = buf.delete_selection();
    assert_eq!(yanked, "bcd");
    assert_eq!(buf.text(), "aef");
    assert_eq!(buf.cursor(), Cursor { line: 0, col: 1 });
    assert!(buf.selection().is_none());
}

#[test]
fn yank_without_selection_is_empty() {
    let buf = Buffer::new("abc");
    assert_eq!(buf.yank_selection(), "");
}

#[test]
fn clear_selection_keeps_text() {
    let mut buf = Buffer::new("abc");
    buf.start_visual();
    buf.clear_selection();
    assert!(buf.selection().is_none());
    assert_eq!(buf.text(), "abc");
}

#[test]
fn yank_on_empty_buffer_selection_is_empty() {
    // the selection's inclusive end is pulled back to the end of the text
    let mut buf = Buffer::new("");
    buf.start_visual();
    assert_eq!(buf.yank_selection(), "");
    assert_eq!(buf.delete_selection(), "");
    assert_eq!(buf.text(), "");
}

#[test]
fn paste_inserts_at_cursor() {
    let mut buf = Buffer::new("ad");
    buf.move_right();
    buf.paste("bc");
    assert_eq!(buf.text(), "abcd");
    assert_eq!(buf.cursor(), Cursor { line: 0, col: 3 });
}
