//! The markdown document model: a block/inline AST built by a single linear
//! pass over a CommonMark event stream. The event stream comes from
//! `pulldown_cmark` behind a trusted boundary; the pass itself is verified
//! against [`md_step`], the mathematical fold.

use vstd::prelude::*;
use vstd::string::StringExecFns;

verus! {

/// A styled inline run of a heading, paragraph or list item.
#[derive(Debug, Clone, PartialEq)]
pub enum Inline {
    Text(String),
    Bold(String),
    Italic(String),
    Code(String),
    Link { text: String, url: String },
}

/// A block-level element of a document.
#[derive(Debug, Clone, PartialEq)]
pub enum Block {
    Heading { level: u8, inlines: Vec<Inline> },
    Paragraph { inlines: Vec<Inline> },
    CodeBlock { language: String, code: String },
    List(Vec<Vec<Inline>>),
    ThematicBreak,
}

/// The mathematical image of an [`Inline`].
pub enum InlineV {
    Text(Seq<char>),
    Bold(Seq<char>),
    Italic(Seq<char>),
    Code(Seq<char>),
    Link { text: Seq<char>, url: Seq<char> },
}

/// The mathematical image of a [`Block`].
pub enum BlockV {
    Heading { level: u8, inlines: Seq<InlineV> },
    Paragraph { inlines: Seq<InlineV> },
    CodeBlock { language: Seq<char>, code: Seq<char> },
    List(Seq<Seq<InlineV>>),
    ThematicBreak,
}

impl View for Inline {
    type V = InlineV;

    open spec fn view(&self) -> InlineV {
        match self {
            Inline::Text(t) => InlineV::Text(t@),
            Inline::Bold(t) => InlineV::Bold(t@),
            Inline::Italic(t) => InlineV::Italic(t@),
            Inline::Code(t) => InlineV::Code(t@),
            Inline::Link { text, url } => InlineV::Link { text: text@, url: url@ },
        }
    }
}

/// The views of a sequence of inlines.
pub open spec fn inlines_view(s: Seq<Inline>) -> Seq<InlineV> {
    s.map_values(|i: Inline| i@)
}

/// The views of a sequence of inline sequences.
pub open spec fn items_view(s: Seq<Vec<Inline>>) -> Seq<Seq<InlineV>> {
    s.map_values(|v: Vec<Inline>| inlines_view(v@))
}

impl View for Block {
    type V = BlockV;

    open spec fn view(&self) -> BlockV {
        match self {
            Block::Heading { level, inlines } => BlockV::Heading {
                level: *level,
                inlines: inlines_view(inlines@),
            },
            Block::Paragraph { inlines } => BlockV::Paragraph { inlines: inlines_view(inlines@) },
            Block::CodeBlock { language, code } => BlockV::CodeBlock {
                language: language@,
                code: code@,
            },
            Block::List(items) => BlockV::List(items_view(items@)),
            Block::ThematicBreak => BlockV::ThematicBreak,
        }
    }
}

/// The views of a sequence of blocks.
pub open spec fn blocks_view(s: Seq<Block>) -> Seq<BlockV> {
    s.map_values(|b: Block| b@)
}

/// One event of the markdown parse, reduced to what the document model
/// reads.
#[derive(Debug, Clone, PartialEq)]
pub enum MdEvent {
    HeadingStart(u8),
    HeadingEnd,
    ParagraphStart,
    ParagraphEnd,
    CodeBlockStart(String),
    CodeBlockEnd,
    ListStart,
    ListEnd,
    ItemStart,
    ItemEnd,
    BoldStart,
    BoldEnd,
    ItalicStart,
    ItalicEnd,
    LinkStart(String),
    LinkEnd,
    Text(String),
    Code(String),
    Rule,
    Other,
}

/// The CommonMark event stream of a text (with the strikethrough and table
/// extensions enabled), as `pulldown_cmark` produces it; a function of the
/// text alone.
pub uninterp spec fn md_events(s: Seq<char>) -> Seq<MdEvent>;

#[verifier::external_type_specification]
#[verifier::external_body]
pub struct ExEvent<'a>(pulldown_cmark::Event<'a>);

#[verifier::external_type_specification]
#[verifier::external_body]
pub struct ExTag<'a>(pulldown_cmark::Tag<'a>);

#[verifier::external_type_specification]
#[verifier::external_body]
pub struct ExTagEnd(pulldown_cmark::TagEnd);

#[verifier::external_type_specification]
#[verifier::external_body]
pub struct ExCodeBlockKind<'a>(pulldown_cmark::CodeBlockKind<'a>);

/// Relies on `pulldown_cmark::CodeBlockKind`: the fence's declared language,
/// empty for an indented block.
#[verifier::external_body]
fn conv_code_lang(k: &pulldown_cmark::CodeBlockKind) -> (r: String) {
    match k {
        pulldown_cmark::CodeBlockKind::Fenced(lang) => lang.to_string(),
        _ => String::new(),
    }
}

/// Relies on `pulldown_cmark::Tag`: tells the opening tags apart, moving out
/// the heading level, fence language and link destination.
#[verifier::external_body]
fn conv_tag_start(t: &pulldown_cmark::Tag) -> (r: MdEvent) {
    match t {
        pulldown_cmark::Tag::Paragraph => MdEvent::ParagraphStart,
        pulldown_cmark::Tag::Heading { level, .. } => MdEvent::HeadingStart(*level as u8),
        pulldown_cmark::Tag::CodeBlock(kind) => MdEvent::CodeBlockStart(conv_code_lang(kind)),
        pulldown_cmark::Tag::List(_) => MdEvent::ListStart,
        pulldown_cmark::Tag::Item => MdEvent::ItemStart,
        pulldown_cmark::Tag::Strong => MdEvent::BoldStart,
        pulldown_cmark::Tag::Emphasis => MdEvent::ItalicStart,
        pulldown_cmark::Tag::Link { dest_url, .. } => MdEvent::LinkStart(dest_url.to_string()),
        _ => MdEvent::Other,
    }
}

/// Relies on `pulldown_cmark::TagEnd`: tells the closing tags apart.
#[verifier::external_body]
fn conv_tag_end(t: &pulldown_cmark::TagEnd) -> (r: MdEvent) {
    match t {
        pulldown_cmark::TagEnd::Paragraph => MdEvent::ParagraphEnd,
        pulldown_cmark::TagEnd::Heading(_) => MdEvent::HeadingEnd,
        pulldown_cmark::TagEnd::CodeBlock => MdEvent::CodeBlockEnd,
        pulldown_cmark::TagEnd::List(_) => MdEvent::ListEnd,
        pulldown_cmark::TagEnd::Item => MdEvent::ItemEnd,
        pulldown_cmark::TagEnd::Strong => MdEvent::BoldEnd,
        pulldown_cmark::TagEnd::Emphasis => MdEvent::ItalicEnd,
        pulldown_cmark::TagEnd::Link => MdEvent::LinkEnd,
        _ => MdEvent::Other,
    }
}

/// Relies on `pulldown_cmark::Event`: reduces one event to what the
/// document model reads.
#[verifier::external_body]
fn conv_event(e: pulldown_cmark::Event<'_>) -> (r: MdEvent) {
    match e {
        pulldown_cmark::Event::Start(tag) => conv_tag_start(&tag),
        pulldown_cmark::Event::End(tag) => conv_tag_end(&tag),
        pulldown_cmark::Event::Text(t) => MdEvent::Text(t.to_string()),
        pulldown_cmark::Event::Code(t) => MdEvent::Code(t.to_string()),
        pulldown_cmark::Event::Rule => MdEvent::Rule,
        _ => MdEvent::Other,
    }
}

/// Relies on `pulldown_cmark::Parser::new_ext` with the strikethrough and
/// table extensions: parses the text into its event stream, which depends
/// on the text alone.
#[verifier::external_body]
fn md_event_stream(s: &str) -> (r: Vec<MdEvent>)
    ensures
        r@ == md_events(s@),
{
    let mut opts = pulldown_cmark::Options::empty();
    opts.insert(pulldown_cmark::Options::ENABLE_STRIKETHROUGH);
    opts.insert(pulldown_cmark::Options::ENABLE_TABLES);
    let mut out = Vec::new();
    for ev in pulldown_cmark::Parser::new_ext(s, opts) {
        out.push(conv_event(ev));
    }
    out
}

/// The fold's transient state: finished blocks, the stack of open inline
/// sequences, and the current block bookkeeping.
pub struct MdState {
    pub blocks: Seq<BlockV>,
    pub stack: Seq<Seq<InlineV>>,
    pub heading_level: u8,
    pub in_code: bool,
    pub code_lang: Seq<char>,
    pub code_body: Seq<char>,
    pub items: Seq<Seq<InlineV>>,
    pub in_list: bool,
    pub bold: bool,
    pub italic: bool,
    pub link_url: Seq<char>,
}

/// The state before any event.
pub open spec fn md_init() -> MdState {
    MdState {
        blocks: Seq::empty(),
        stack: Seq::empty(),
        heading_level: 0,
        in_code: false,
        code_lang: Seq::empty(),
        code_body: Seq::empty(),
        items: Seq::empty(),
        in_list: false,
        bold: false,
        italic: false,
        link_url: Seq::empty(),
    }
}

/// The display text of a link: the concatenation of its plain `Text`
/// inlines only (styled content inside a link contributes nothing).
pub open spec fn link_text(s: Seq<InlineV>) -> Seq<char>
    decreases s.len(),
{
    if s.len() == 0 {
        Seq::empty()
    } else {
        link_text(s.drop_last()) + (match s.last() {
            InlineV::Text(t) => t,
            _ => Seq::empty(),
        })
    }
}

/// How one event transforms the fold's state.
pub open spec fn md_step(st: MdState, e: MdEvent) -> MdState {
    match e {
        MdEvent::HeadingStart(level) => MdState {
            heading_level: level,
            stack: st.stack.push(Seq::empty()),
            ..st
        },
        MdEvent::HeadingEnd => {
            let inlines = if st.stack.len() > 0 {
                st.stack.last()
            } else {
                Seq::empty()
            };
            let stack2 = if st.stack.len() > 0 {
                st.stack.drop_last()
            } else {
                st.stack
            };
            MdState {
                blocks: st.blocks.push(
                    BlockV::Heading { level: st.heading_level, inlines },
                ),
                stack: stack2,
                ..st
            }
        },
        MdEvent::ParagraphStart => MdState { stack: st.stack.push(Seq::empty()), ..st },
        MdEvent::ParagraphEnd => {
            let inlines = if st.stack.len() > 0 {
                st.stack.last()
            } else {
                Seq::empty()
            };
            let stack2 = if st.stack.len() > 0 {
                st.stack.drop_last()
            } else {
                st.stack
            };
            if st.in_list {
                MdState { items: st.items.push(inlines), stack: stack2, ..st }
            } else {
                MdState {
                    blocks: st.blocks.push(BlockV::Paragraph { inlines }),
                    stack: stack2,
                    ..st
                }
            }
        },
        MdEvent::CodeBlockStart(lang) => MdState {
            in_code: true,
            code_lang: lang@,
            code_body: Seq::empty(),
            ..st
        },
        MdEvent::CodeBlockEnd => MdState {
            in_code: false,
            blocks: st.blocks.push(
                BlockV::CodeBlock { language: st.code_lang, code: st.code_body },
            ),
            ..st
        },
        MdEvent::ListStart => MdState { in_list: true, ..st },
        MdEvent::ListEnd => MdState {
            in_list: false,
            blocks: st.blocks.push(BlockV::List(st.items)),
            items: Seq::empty(),
            ..st
        },
        MdEvent::ItemStart => MdState { stack: st.stack.push(Seq::empty()), ..st },
        MdEvent::ItemEnd => {
            let inlines = if st.stack.len() > 0 {
                st.stack.last()
            } else {
                Seq::empty()
            };
            let stack2 = if st.stack.len() > 0 {
                st.stack.drop_last()
            } else {
                st.stack
            };
            MdState { items: st.items.push(inlines), stack: stack2, ..st }
        },
        MdEvent::BoldStart => MdState { bold: true, ..st },
        MdEvent::BoldEnd => MdState { bold: false, ..st },
        MdEvent::ItalicStart => MdState { italic: true, ..st },
        MdEvent::ItalicEnd => MdState { italic: false, ..st },
        MdEvent::LinkStart(url) => MdState {
            link_url: url@,
            stack: st.stack.push(Seq::empty()),
            ..st
        },
        MdEvent::LinkEnd => {
            let inlines = if st.stack.len() > 0 {
                st.stack.last()
            } else {
                Seq::empty()
            };
            let stack2 = if st.stack.len() > 0 {
                st.stack.drop_last()
            } else {
                st.stack
            };
            if stack2.len() > 0 {
                let link = InlineV::Link { text: link_text(inlines), url: st.link_url };
                MdState {
                    stack: stack2.update(stack2.len() - 1, stack2.last().push(link)),
                    ..st
                }
            } else {
                MdState { stack: stack2, ..st }
            }
        },
        MdEvent::Text(t) => {
            if st.in_code {
                MdState { code_body: st.code_body + t@, ..st }
            } else if st.stack.len() > 0 {
                let inline = if st.bold {
                    InlineV::Bold(t@)
                } else if st.italic {
                    InlineV::Italic(t@)
                } else {
                    InlineV::Text(t@)
                };
                MdState {
                    stack: st.stack.update(st.stack.len() - 1, st.stack.last().push(inline)),
                    ..st
                }
            } else {
                st
            }
        },
        MdEvent::Code(t) => {
            if st.stack.len() > 0 {
                MdState {
                    stack: st.stack.update(
                        st.stack.len() - 1,
                        st.stack.last().push(InlineV::Code(t@)),
                    ),
                    ..st
                }
            } else {
                st
            }
        },
        MdEvent::Rule => MdState { blocks: st.blocks.push(BlockV::ThematicBreak), ..st },
        MdEvent::Other => st,
    }
}

/// The fold of a whole event sequence.
pub open spec fn md_fold(st: MdState, evs: Seq<MdEvent>) -> MdState
    decreases evs.len(),
{
    if evs.len() == 0 {
        st
    } else {
        md_fold(md_step(st, evs[0]), evs.drop_first())
    }
}

/// The blocks a whole event sequence produces.
pub open spec fn doc_of_events(evs: Seq<MdEvent>) -> Seq<BlockV> {
    md_fold(md_init(), evs).blocks
}

/// The document of a text: the fold of its CommonMark event stream.
pub open spec fn parse_spec(text: Seq<char>) -> Seq<BlockV> {
    doc_of_events(md_events(text))
}

/// Folding one more event is one more step.
pub proof fn lemma_md_fold_snoc(st: MdState, evs: Seq<MdEvent>, e: MdEvent)
    ensures
        md_fold(st, evs.push(e)) == md_step(md_fold(st, evs), e),
    decreases evs.len(),
{
    assert(evs.push(e).len() == evs.len() + 1);
    if evs.len() == 0 {
        assert(evs.push(e)[0] == e);
        assert(evs.push(e).drop_first() =~= Seq::<MdEvent>::empty());
        assert(md_fold(st, evs.push(e)) == md_fold(md_step(st, e), Seq::<MdEvent>::empty()));
        assert(md_fold(md_step(st, e), Seq::<MdEvent>::empty()) == md_step(st, e));
        assert(md_fold(st, evs) == st);
    } else {
        assert(evs.push(e)[0] == evs[0]);
        assert(evs.push(e).drop_first() =~= evs.drop_first().push(e));
        lemma_md_fold_snoc(md_step(st, evs[0]), evs.drop_first(), e);
        assert(md_fold(st, evs.push(e)) == md_fold(md_step(st, evs[0]), evs.drop_first().push(e)));
        assert(md_fold(st, evs) == md_fold(md_step(st, evs[0]), evs.drop_first()));
    }
}

/// The executable fold state, mirroring [`MdState`].
struct ParseState {
    blocks: Vec<Block>,
    stack: Vec<Vec<Inline>>,
    heading_level: u8,
    in_code: bool,
    code_lang: String,
    code_body: String,
    items: Vec<Vec<Inline>>,
    in_list: bool,
    bold: bool,
    italic: bool,
    link_url: String,
}

impl View for ParseState {
    type V = MdState;

    closed spec fn view(&self) -> MdState {
        MdState {
            blocks: blocks_view(self.blocks@),
            stack: items_view(self.stack@),
            heading_level: self.heading_level,
            in_code: self.in_code,
            code_lang: self.code_lang@,
            code_body: self.code_body@,
            items: items_view(self.items@),
            in_list: self.in_list,
            bold: self.bold,
            italic: self.italic,
            link_url: self.link_url@,
        }
    }
}

/// Pops the top open inline sequence, or yields an empty one.
fn pop_frame(stack: &mut Vec<Vec<Inline>>) -> (r: Vec<Inline>)
    ensures
        old(stack)@.len() > 0 ==> inlines_view(r@) == items_view(old(stack)@).last() && items_view(
            final(stack)@,
        ) == items_view(old(stack)@).drop_last(),
        old(stack)@.len() == 0 ==> inlines_view(r@) == Seq::<InlineV>::empty() && final(stack)@
            == old(stack)@,
{
    let r = match stack.pop() {
        Some(v) => v,
        None => Vec::new(),
    };
    proof {
        if old(stack)@.len() > 0 {
            assert(items_view(final(stack)@) =~= items_view(old(stack)@).drop_last());
        } else {
            assert(inlines_view(r@) =~= Seq::<InlineV>::empty());
        }
    }
    r
}

/// Appends an inline to the top open sequence; does nothing when none is
/// open.
fn push_top(stack: &mut Vec<Vec<Inline>>, inline: Inline)
    ensures
        old(stack)@.len() > 0 ==> items_view(final(stack)@) == items_view(old(stack)@).update(
            old(stack)@.len() - 1,
            items_view(old(stack)@).last().push(inline@),
        ),
        old(stack)@.len() == 0 ==> final(stack)@ == old(stack)@,
{
    let ghost inlv = inline@;
    if stack.len() > 0 {
        let mut top = match stack.pop() {
            Some(v) => v,
            None => Vec::new(),
        };
        top.push(inline);
        proof {
            assert(inlines_view(top@) =~= items_view(old(stack)@).last().push(inlv));
        }
        stack.push(top);
        proof {
            assert(items_view(stack@) =~= items_view(old(stack)@).update(
                old(stack)@.len() - 1,
                items_view(old(stack)@).last().push(inlv),
            ));
        }
    }
}

/// The display text of a link's collected inlines.
fn link_display_text(inlines: &Vec<Inline>) -> (s: String)
    ensures
        s@ == link_text(inlines_view(inlines@)),
{
    let mut s = String::new();
    let mut i: usize = 0;
    proof {
        assert(inlines_view(inlines@.take(0)) =~= Seq::<InlineV>::empty());
    }
    while i < inlines.len()
        invariant
            i <= inlines@.len(),
            s@ == link_text(inlines_view(inlines@.take(i as int))),
        decreases inlines@.len() - i,
    {
        match &inlines[i] {
            Inline::Text(t) => {
                s.append(t.as_str());
            },
            _ => {},
        }
        i = i + 1;
        proof {
            let pre = inlines_view(inlines@.take(i - 1));
            let elem = inlines@[i - 1]@;
            assert(inlines_view(inlines@.take(i as int)) =~= pre.push(elem));
            assert(pre.push(elem).drop_last() =~= pre);
            assert(pre.push(elem).last() == elem);
            assert(link_text(pre) + Seq::<char>::empty() =~= link_text(pre));
        }
    }
    proof {
        assert(inlines@.take(inlines@.len() as int) =~= inlines@);
    }
    s
}

/// Applies one event to the executable state, as [`md_step`] prescribes.
fn md_apply(st: &mut ParseState, e: &MdEvent)
    ensures
        final(st)@ == md_step(old(st)@, *e),
{
    match e {
        MdEvent::HeadingStart(level) => {
            st.heading_level = *level;
            st.stack.push(Vec::new());
            proof {
                assert(items_view(st.stack@) =~~= items_view(old(st).stack@).push(
                    Seq::<InlineV>::empty(),
                ));
            }
        },
        MdEvent::HeadingEnd => {
            let inlines = pop_frame(&mut st.stack);
            let level = st.heading_level;
            st.blocks.push(Block::Heading { level, inlines });
            proof {
                assert(blocks_view(st.blocks@) =~= blocks_view(old(st).blocks@).push(
                    st.blocks@.last()@,
                ));
            }
        },
        MdEvent::ParagraphStart => {
            st.stack.push(Vec::new());
            proof {
                assert(items_view(st.stack@) =~~= items_view(old(st).stack@).push(
                    Seq::<InlineV>::empty(),
                ));
            }
        },
        MdEvent::ParagraphEnd => {
            let inlines = pop_frame(&mut st.stack);
            if st.in_list {
                st.items.push(inlines);
                proof {
                    assert(items_view(st.items@) =~= items_view(old(st).items@).push(
                        inlines_view(st.items@.last()@),
                    ));
                }
            } else {
                st.blocks.push(Block::Paragraph { inlines });
                proof {
                    assert(blocks_view(st.blocks@) =~= blocks_view(old(st).blocks@).push(
                        st.blocks@.last()@,
                    ));
                }
            }
        },
        MdEvent::CodeBlockStart(lang) => {
            st.in_code = true;
            st.code_lang = lang.clone();
            st.code_body = String::new();
        },
        MdEvent::CodeBlockEnd => {
            st.in_code = false;
            let language = st.code_lang.clone();
            let code = st.code_body.clone();
            st.blocks.push(Block::CodeBlock { language, code });
            proof {
                assert(blocks_view(st.blocks@) =~= blocks_view(old(st).blocks@).push(
                    st.blocks@.last()@,
                ));
            }
        },
        MdEvent::ListStart => {
            st.in_list = true;
        },
        MdEvent::ListEnd => {
            st.in_list = false;
            let mut items: Vec<Vec<Inline>> = Vec::new();
            std::mem::swap(&mut st.items, &mut items);
            st.blocks.push(Block::List(items));
            proof {
                assert(blocks_view(st.blocks@) =~= blocks_view(old(st).blocks@).push(
                    st.blocks@.last()@,
                ));
                assert(items_view(st.items@) =~= Seq::<Seq<InlineV>>::empty());
            }
        },
        MdEvent::ItemStart => {
            st.stack.push(Vec::new());
            proof {
                assert(items_view(st.stack@) =~~= items_view(old(st).stack@).push(
                    Seq::<InlineV>::empty(),
                ));
            }
        },
        MdEvent::ItemEnd => {
            let inlines = pop_frame(&mut st.stack);
            st.items.push(inlines);
            proof {
                assert(items_view(st.items@) =~= items_view(old(st).items@).push(
                    inlines_view(st.items@.last()@),
                ));
            }
        },
        MdEvent::BoldStart => {
            st.bold = true;
        },
        MdEvent::BoldEnd => {
            st.bold = false;
        },
        MdEvent::ItalicStart => {
            st.italic = true;
        },
        MdEvent::ItalicEnd => {
            st.italic = false;
        },
        MdEvent::LinkStart(url) => {
            st.link_url = url.clone();
            st.stack.push(Vec::new());
            proof {
                assert(items_view(st.stack@) =~~= items_view(old(st).stack@).push(
                    Seq::<InlineV>::empty(),
                ));
            }
        },
        MdEvent::LinkEnd => {
            let inlines = pop_frame(&mut st.stack);
            let text = link_display_text(&inlines);
            let url = st.link_url.clone();
            push_top(&mut st.stack, Inline::Link { text, url });
        },
        MdEvent::Text(t) => {
            if st.in_code {
                st.code_body.append(t.as_str());
            } else {
                let inline = if st.bold {
                    Inline::Bold(t.clone())
                } else if st.italic {
                    Inline::Italic(t.clone())
                } else {
                    Inline::Text(t.clone())
                };
                push_top(&mut st.stack, inline);
            }
        },
        MdEvent::Code(t) => {
            push_top(&mut st.stack, Inline::Code(t.clone()));
        },
        MdEvent::Rule => {
            st.blocks.push(Block::ThematicBreak);
            proof {
                assert(blocks_view(st.blocks@) =~= blocks_view(old(st).blocks@).push(
                    BlockV::ThematicBreak,
                ));
            }
        },
        MdEvent::Other => {},
    }
}

/// A parsed markdown document: an ordered sequence of blocks, rebuilt
/// wholesale on each parse.
pub struct Document {
    blocks: Vec<Block>,
}

impl View for Document {
    type V = Seq<BlockV>;

    closed spec fn view(&self) -> Seq<BlockV> {
        blocks_view(self.blocks@)
    }
}

impl Document {
    /// Parses the full text into a typed AST: one verified linear pass over
    /// the CommonMark event stream. An empty input yields an empty document.
    pub fn parse(text: &str) -> (d: Document)
        ensures
            d@ == parse_spec(text@),
    {
        let evs = md_event_stream(text);
        let mut st = ParseState {
            blocks: Vec::new(),
            stack: Vec::new(),
            heading_level: 0,
            in_code: false,
            code_lang: String::new(),
            code_body: String::new(),
            items: Vec::new(),
            in_list: false,
            bold: false,
            italic: false,
            link_url: String::new(),
        };
        proof {
            assert(blocks_view(st.blocks@) =~= Seq::<BlockV>::empty());
            assert(items_view(st.stack@) =~= Seq::<Seq<InlineV>>::empty());
            assert(items_view(st.items@) =~= Seq::<Seq<InlineV>>::empty());
            assert(st@ == md_init());
            assert(evs@.take(0) =~= Seq::<MdEvent>::empty());
        }
        let n = evs.len();
        let mut i: usize = 0;
        while i < n
            invariant
                i <= n,
                n == evs@.len(),
                evs@ == md_events(text@),
                st@ == md_fold(md_init(), evs@.take(i as int)),
            decreases n - i,
        {
            md_apply(&mut st, &evs[i]);
            i = i + 1;
            proof {
                lemma_md_fold_snoc(md_init(), evs@.take(i - 1), evs@[i - 1]);
                assert(evs@.take(i as int) =~= evs@.take(i - 1).push(evs@[i - 1]));
            }
        }
        proof {
            assert(evs@.take(n as int) =~= evs@);
        }
        Document { blocks: st.blocks }
    }

    /// Returns the parsed block sequence.
    pub fn blocks(&self) -> (r: &Vec<Block>)
        ensures
            blocks_view(r@) == self@,
    {
        &self.blocks
    }
}

} // verus!
