use onyx_core::markdown::{Block, Document, Inline};

#[test]
fn heading_parsed() {
    let doc = Document::parse("# Hello");
    assert!(matches!(doc.blocks()[0], Block::Heading { level: 1, .. }));
}

#[test]
fn paragraph_with_bold_parsed() {
    let doc = Document::parse("This is **bold** text.");
    let Block::Paragraph { inlines } = &doc.blocks()[0] else {
        panic!("not a paragraph")
    };
    assert!(inlines.iter().any(|inline| matches!(inline, Inline::Bold(_))));
}

#[test]
fn code_block_parsed() {
    let doc = Document::parse("```\nfn main() {}\n```");
    assert!(matches!(doc.blocks()[0], Block::CodeBlock { .. }));
}

#[test]
fn bullet_list_parsed() {
    let doc = Document::parse("- item one\n- item two");
    assert!(matches!(doc.blocks()[0], Block::List(_)));
}

#[test]
fn heading_is_the_only_block() {
    let doc = Document::parse("# Hello");
    assert_eq!(doc.blocks().len(), 1);
    let Block::Heading { level, inlines } = &doc.blocks()[0] else {
        panic!("not a heading")
    };
    assert_eq!(*level, 1);
    assert!(matches!(&inlines[0], Inline::Text(t) if t == "Hello"));
}

#[test]
fn heading_levels_carry_through() {
    let doc = Document::parse("### Deep");
    assert!(matches!(doc.blocks()[0], Block::Heading { level: 3, .. }));
}

#[test]
fn fenced_code_block_keeps_language_and_body() {
    let doc = Document::parse("```rust\nlet x = 1;\n```");
    let Block::CodeBlock { language, code } = &doc.blocks()[0] else {
        panic!("not a code block")
    };
    assert_eq!(language, "rust");
    assert_eq!(code, "let x = 1;\n");
}

#[test]
fn list_collects_one_inline_sequence_per_item() {
    let doc = Document::parse("- one\n- two\n- three");
    let Block::List(items) = &doc.blocks()[0] else {
        panic!("not a list")
    };
    assert_eq!(items.len(), 3);
    assert!(matches!(&items[1][0], Inline::Text(t) if t == "two"));
}

#[test]
fn link_flattens_plain_text_only() {
    let doc = Document::parse("see [the **docs** here](https://example.org)");
    let Block::Paragraph { inlines } = &doc.blocks()[0] else {
        panic!("not a paragraph")
    };
    let link = inlines
        .iter()
        .find(|i| matches!(i, Inline::Link { .. }))
        .expect("no link parsed");
    let Inline::Link { text, url } = link else { unreachable!() };
    // styled content inside the link contributes nothing to its text
    assert_eq!(text, "the  here");
    assert_eq!(url, "https://example.org");
}

#[test]
fn thematic_break_parsed() {
    let doc = Document::parse("a\n\n---\n\nb");
    assert!(doc.blocks().iter().any(|b| matches!(b, Block::ThematicBreak)));
}

#[test]
fn inline_code_span_parsed() {
    let doc = Document::parse("run `make` now");
    let Block::Paragraph { inlines } = &doc.blocks()[0] else {
        panic!("not a paragraph")
    };
    assert!(inlines.iter().any(|i| matches!(i, Inline::Code(c) if c == "make")));
}

#[test]
fn empty_input_yields_empty_document() {
    let doc = Document::parse("");
    assert_eq!(doc.blocks().len(), 0);
}
