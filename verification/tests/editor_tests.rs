use onyx_core::buffer::Cursor;
use onyx_core::editor::{Editor, SpanStyle, Tab, ViewMode};
use onyx_core::markdown::Document;
use onyx_core::vim::Key;

#[test]
fn typing_in_insert_mode_modifies_buffer() {
    let mut ed = Editor::new("hello");
    ed.handle_key(Key::Char('i'));
    ed.handle_key(Key::Char('!'));
    assert!(ed.buffer_text().starts_with("!hello"));
}

#[test]
fn dd_deletes_line() {
    let mut ed = Editor::new("line1\nline2\n");
    ed.handle_key(Key::Char('d'));
    ed.handle_key(Key::Char('d'));
    assert!(!ed.buffer_text().contains("line1"));
}

#[test]
fn dd_deletes_exactly_one_line() {
    let mut ed = Editor::new("line1\nline2\n");
    ed.handle_key(Key::Char('d'));
    ed.handle_key(Key::Char('d'));
    assert!(!ed.buffer_text().contains("line1"));
    // the cursor sits at the start of the former second line
    assert_eq!(ed.buffer.cursor(), Cursor { line: 0, col: 0 });
}

#[test]
fn dd_on_single_line_clears_it() {
    let mut ed = Editor::new("only");
    ed.handle_key(Key::Char('d'));
    ed.handle_key(Key::Char('d'));
    assert_eq!(ed.buffer_text(), "");
    assert_eq!(ed.buffer.cursor(), Cursor { line: 0, col: 0 });
}

#[test]
fn dd_fills_the_register_with_the_line() {
    let mut ed = Editor::new("line1\nline2\n");
    ed.handle_key(Key::Char('d'));
    ed.handle_key(Key::Char('d'));
    ed.handle_key(Key::Char('p'));
    assert!(ed.buffer_text().contains("line1"));
}

#[test]
fn visual_yank_then_paste_duplicates_text() {
    let mut ed = Editor::new("abc");
    ed.handle_key(Key::Char('v'));
    ed.handle_key(Key::Char('l'));
    ed.handle_key(Key::Char('y'));
    ed.handle_key(Key::Char('p'));
    // "ab" was yanked and re-inserted at the cursor, which sits on 'b'
    assert_eq!(ed.buffer_text(), "aabbc");
}

#[test]
fn raw_mode_renders_one_line_per_buffer_line() {
    let ed = Editor::new("# Title\nplain\n");
    let doc = Document::parse("# Title\nplain\n");
    let lines = ed.build_render_lines(&doc, ViewMode::Raw);
    assert_eq!(lines.len(), 3);
    assert_eq!(lines[0].spans.len(), 1);
    assert!(lines[0].spans[0].is_raw);
    assert_eq!(lines[0].spans[0].style, SpanStyle::Normal);
    assert_eq!(lines[0].spans[0].text, "# Title\n");
    assert_eq!(lines[1].spans[0].text, "plain\n");
    assert_eq!(lines[2].spans[0].text, "");
}

#[test]
fn live_preview_flattens_heading_text() {
    let ed = Editor::new("");
    let doc = Document::parse("# Hello **world**");
    let lines = ed.build_render_lines(&doc, ViewMode::LivePreview);
    assert_eq!(lines.len(), 1);
    assert_eq!(lines[0].spans.len(), 1);
    assert_eq!(lines[0].spans[0].style, SpanStyle::Heading(1));
    assert_eq!(lines[0].spans[0].text, "Hello world");
}

#[test]
fn live_preview_list_lines_start_with_bullets() {
    let ed = Editor::new("");
    let doc = Document::parse("- item one\n- item two");
    let lines = ed.build_render_lines(&doc, ViewMode::LivePreview);
    assert_eq!(lines.len(), 2);
    for line in &lines {
        assert_eq!(line.spans[0].style, SpanStyle::BulletMarker);
        assert_eq!(line.spans[0].text, "\u{2022} ");
    }
    assert_eq!(lines[0].spans[1].text, "item one");
    assert_eq!(lines[1].spans[1].text, "item two");
}

#[test]
fn live_preview_styles_paragraph_inlines() {
    let ed = Editor::new("");
    let doc = Document::parse("a **b** *c* `d`");
    let lines = ed.build_render_lines(&doc, ViewMode::LivePreview);
    assert_eq!(lines.len(), 1);
    let styles: Vec<SpanStyle> = lines[0].spans.iter().map(|s| s.style).collect();
    assert!(styles.contains(&SpanStyle::Bold));
    assert!(styles.contains(&SpanStyle::Italic));
    assert!(styles.contains(&SpanStyle::Code));
}

#[test]
fn live_preview_code_block_renders_each_source_line() {
    let ed = Editor::new("");
    let doc = Document::parse("```\nfn one() {}\nfn two() {}\n```");
    let lines = ed.build_render_lines(&doc, ViewMode::LivePreview);
    assert_eq!(lines.len(), 2);
    assert_eq!(lines[0].spans[0].style, SpanStyle::CodeBlockText);
    assert_eq!(lines[0].spans[0].text, "fn one() {}");
    assert_eq!(lines[1].spans[0].text, "fn two() {}");
}

#[test]
fn live_preview_thematic_break_renders_rule() {
    let ed = Editor::new("");
    let doc = Document::parse("---");
    let lines = ed.build_render_lines(&doc, ViewMode::LivePreview);
    assert_eq!(lines.len(), 1);
    assert_eq!(lines[0].spans[0].text, "\u{2500}".repeat(19));
}

#[test]
fn tab_starts_in_live_preview_with_parsed_document() {
    let tab = Tab::new("# Hi");
    assert_eq!(tab.view_mode, ViewMode::LivePreview);
    assert_eq!(tab.document.blocks().len(), 1);
}

#[test]
fn tab_resyncs_document_only_after_mark_dirty() {
    let mut tab = Tab::new("old");
    tab.editor.handle_key(Key::Char('i'));
    tab.editor.handle_key(Key::Char('x'));
    tab.mark_dirty();
    tab.sync_document();
    let lines = tab.editor.build_render_lines(&tab.document, ViewMode::LivePreview);
    assert_eq!(lines[0].spans[0].text, "xold");
}

#[test]
fn tab_toggle_view_mode_flips() {
    let mut tab = Tab::new("");
    tab.toggle_view_mode();
    assert_eq!(tab.view_mode, ViewMode::Raw);
    tab.toggle_view_mode();
    assert_eq!(tab.view_mode, ViewMode::LivePreview);
}
