use onyx_core::linedoc::{
    backspace, delete_char, insert_char, insert_newline, move_down, move_left, move_right,
    move_up, LineDoc,
};

fn make_tab(lines: &[&str], cursor_line: usize, cursor_column: usize) -> LineDoc {
    let content_lines: Vec<String> = lines.iter().map(|s| s.to_string()).collect();
    LineDoc::new(content_lines, cursor_line, cursor_column)
}

#[test]
fn insert_char_at_start() {
    let mut tab = make_tab(&["hello"], 0, 0);
    insert_char(&mut tab, 'X');
    assert_eq!(tab.content_lines[0], "Xhello");
    assert_eq!(tab.cursor_column, 1);
}

#[test]
fn insert_char_at_middle() {
    let mut tab = make_tab(&["hello"], 0, 2);
    insert_char(&mut tab, 'X');
    assert_eq!(tab.content_lines[0], "heXllo");
    assert_eq!(tab.cursor_column, 3);
}

#[test]
fn insert_char_at_end() {
    let mut tab = make_tab(&["hello"], 0, 5);
    insert_char(&mut tab, '!');
    assert_eq!(tab.content_lines[0], "hello!");
    assert_eq!(tab.cursor_column, 6);
}

#[test]
fn insert_char_empty_doc() {
    let mut tab = make_tab(&[], 0, 0);
    insert_char(&mut tab, 'A');
    assert_eq!(tab.content_lines, vec!["A"]);
    assert_eq!(tab.cursor_column, 1);
}

#[test]
fn backspace_middle_of_line() {
    let mut tab = make_tab(&["hello"], 0, 3);
    backspace(&mut tab);
    assert_eq!(tab.content_lines[0], "helo");
    assert_eq!(tab.cursor_column, 2);
}

#[test]
fn backspace_merges_lines() {
    let mut tab = make_tab(&["first", "second"], 1, 0);
    backspace(&mut tab);
    assert_eq!(tab.content_lines, vec!["firstsecond"]);
    assert_eq!(tab.cursor_line, 0);
    assert_eq!(tab.cursor_column, 5);
}

#[test]
fn backspace_at_start_of_doc_is_noop() {
    let mut tab = make_tab(&["hello"], 0, 0);
    backspace(&mut tab);
    assert_eq!(tab.content_lines, vec!["hello"]);
    assert_eq!(tab.cursor_column, 0);
}

#[test]
fn backspace_empty_doc_is_noop() {
    let mut tab = make_tab(&[], 0, 0);
    backspace(&mut tab);
    assert!(tab.content_lines.is_empty());
}

#[test]
fn delete_char_middle_of_line() {
    let mut tab = make_tab(&["hello"], 0, 1);
    delete_char(&mut tab);
    assert_eq!(tab.content_lines[0], "hllo");
    assert_eq!(tab.cursor_column, 1);
}

#[test]
fn delete_char_merges_next_line() {
    let mut tab = make_tab(&["first", "second"], 0, 5);
    delete_char(&mut tab);
    assert_eq!(tab.content_lines, vec!["firstsecond"]);
    assert_eq!(tab.cursor_line, 0);
}

#[test]
fn insert_newline_splits_line() {
    let mut tab = make_tab(&["hello world"], 0, 5);
    insert_newline(&mut tab);
    assert_eq!(tab.content_lines, vec!["hello", " world"]);
    assert_eq!(tab.cursor_line, 1);
    assert_eq!(tab.cursor_column, 0);
}

#[test]
fn insert_newline_at_end_of_line() {
    let mut tab = make_tab(&["hello"], 0, 5);
    insert_newline(&mut tab);
    assert_eq!(tab.content_lines, vec!["hello", ""]);
    assert_eq!(tab.cursor_line, 1);
    assert_eq!(tab.cursor_column, 0);
}

#[test]
fn move_left_wraps_to_previous_line() {
    let mut tab = make_tab(&["abc", "def"], 1, 0);
    move_left(&mut tab);
    assert_eq!(tab.cursor_line, 0);
    assert_eq!(tab.cursor_column, 3);
}

#[test]
fn move_right_wraps_to_next_line() {
    let mut tab = make_tab(&["abc", "def"], 0, 3);
    move_right(&mut tab);
    assert_eq!(tab.cursor_line, 1);
    assert_eq!(tab.cursor_column, 0);
}

#[test]
fn move_up_clamps_column() {
    let mut tab = make_tab(&["ab", "longline"], 1, 7);
    move_up(&mut tab);
    assert_eq!(tab.cursor_line, 0);
    assert_eq!(tab.cursor_column, 2);
}

#[test]
fn move_down_clamps_column() {
    let mut tab = make_tab(&["longline", "ab"], 0, 7);
    move_down(&mut tab);
    assert_eq!(tab.cursor_line, 1);
    assert_eq!(tab.cursor_column, 2);
}

#[test]
fn is_dirty_after_edit() {
    let mut tab = make_tab(&["hello"], 0, 0);
    assert!(!tab.is_dirty());
    insert_char(&mut tab, 'X');
    assert!(tab.is_dirty());
    tab.mark_saved();
    assert!(!tab.is_dirty());
}

#[test]
fn insert_char_utf8_multibyte() {
    let mut tab = make_tab(&["caf\u{00e9}"], 0, 4);
    insert_char(&mut tab, '!');
    assert_eq!(tab.content_lines[0], "caf\u{00e9}!");
    assert_eq!(tab.cursor_column, 5);
}

#[test]
fn backspace_utf8_multibyte() {
    let mut tab = make_tab(&["caf\u{00e9}"], 0, 4);
    backspace(&mut tab);
    assert_eq!(tab.content_lines[0], "caf");
    assert_eq!(tab.cursor_column, 3);
}

#[test]
fn char_to_byte_index_counts_utf8_bytes() {
    assert_eq!(onyx_core::chars::char_to_byte_index("caf\u{00e9}x", 0), 0);
    assert_eq!(onyx_core::chars::char_to_byte_index("caf\u{00e9}x", 3), 3);
    assert_eq!(onyx_core::chars::char_to_byte_index("caf\u{00e9}x", 4), 5);
    assert_eq!(onyx_core::chars::char_to_byte_index("caf\u{00e9}x", 99), 6);
}
