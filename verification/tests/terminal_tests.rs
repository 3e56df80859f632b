use onyx_core::terminal::{Colour, TerminalGrid};

#[test]
fn new_grid_is_blank() {
    let grid = TerminalGrid::new(24, 80);
    assert_eq!(grid.rows, 24);
    assert_eq!(grid.cols, 80);
    assert_eq!(grid.cell(0, 0).ch, ' ');
}

#[test]
fn write_text_fills_cells() {
    let mut grid = TerminalGrid::new(24, 80);
    grid.write_str("hello");
    assert_eq!(grid.cell(0, 0).ch, 'h');
    assert_eq!(grid.cell(0, 4).ch, 'o');
}

#[test]
fn newline_moves_cursor_down() {
    let mut grid = TerminalGrid::new(24, 80);
    grid.write_str("line1\nline2");
    assert_eq!(grid.cell(1, 0).ch, 'l');
}

#[test]
fn carriage_return_rewinds_the_column() {
    let mut grid = TerminalGrid::new(4, 10);
    grid.write_str("abc\rX");
    assert_eq!(grid.cell(0, 0).ch, 'X');
    assert_eq!(grid.cell(0, 1).ch, 'b');
}

#[test]
fn long_line_wraps_to_next_row() {
    let mut grid = TerminalGrid::new(4, 3);
    grid.write_str("abcd");
    assert_eq!(grid.cell(0, 2).ch, 'c');
    assert_eq!(grid.cell(1, 0).ch, 'd');
    assert_eq!(grid.cursor_row, 1);
    assert_eq!(grid.cursor_col, 1);
}

#[test]
fn bottom_newline_scrolls_content_up() {
    let mut grid = TerminalGrid::new(2, 4);
    grid.write_str("aa\nbb\ncc");
    assert_eq!(grid.cell(0, 0).ch, 'b');
    assert_eq!(grid.cell(1, 0).ch, 'c');
}

#[test]
fn sgr_bold_and_colour_apply_to_new_cells() {
    let mut grid = TerminalGrid::new(2, 10);
    grid.apply_sgr(&[1, 31]);
    grid.write_str("x");
    let cell = grid.cell(0, 0);
    assert!(cell.bold);
    assert_eq!(cell.fg, Colour { r: 224, g: 108, b: 117 });
}

#[test]
fn sgr_reset_restores_defaults() {
    let mut grid = TerminalGrid::new(2, 10);
    grid.apply_sgr(&[1, 32]);
    grid.apply_sgr(&[0]);
    grid.write_str("x");
    let cell = grid.cell(0, 0);
    assert!(!cell.bold);
    assert_eq!(cell.fg, Colour { r: 204, g: 204, b: 204 });
}

#[test]
fn unknown_sgr_parameters_are_ignored() {
    let mut grid = TerminalGrid::new(2, 10);
    grid.apply_sgr(&[99, 1]);
    grid.write_str("x");
    assert!(grid.cell(0, 0).bold);
}

#[test]
fn set_cursor_clamps_into_the_grid() {
    let mut grid = TerminalGrid::new(4, 6);
    grid.set_cursor(2, 3);
    assert_eq!(grid.cursor_row, 2);
    assert_eq!(grid.cursor_col, 3);
    grid.set_cursor(100, 100);
    assert_eq!(grid.cursor_row, 3);
    assert_eq!(grid.cursor_col, 5);
}
