//! The editor layer: one buffer plus one Vim engine. It forwards keys to
//! the engine, applies the resulting commands to the buffer (feeding yanked
//! or deleted text back into the engine's register), and projects the
//! buffer into styled render lines, either raw or through the markdown
//! document.

use vstd::prelude::*;
use vstd::string::StringExecFns;
use crate::buffer::{
    BufView, Buffer, spec_clear_selection, spec_delete_before, spec_delete_char_at_cursor,
    spec_delete_selection, spec_insert, spec_move_down, spec_move_first_line, spec_move_last_line,
    spec_move_left, spec_move_line_end, spec_move_line_start, spec_move_paragraph_back,
    spec_move_paragraph_forward, spec_move_right, spec_move_up, spec_move_word_back,
    spec_move_word_forward, spec_new, spec_start_visual, spec_update_visual_head, spec_yank_text,
};
use crate::chars::{push_char, str_chars, string_from_chars};
use crate::lines::{
    line_at, line_count, lemma_line_geometry, lemma_nl_count_bounds, lemma_nl_count_take_step,
    lemma_nth_nl_inverse, nl_count, nth_nl,
};
use crate::markdown::{
    Block, BlockV, Document, Inline, InlineV, blocks_view, inlines_view, parse_spec,
};
use crate::vim::{BufferCommand, CmdV, Key, Mode, VimEngine, VimState, cmd_view, vim_step,
    spec_vim_new};

verus! {

/// How a tab presents its buffer: styled markdown or the raw source text.
#[derive(Debug, Clone, Copy, PartialEq, Eq, Structural)]
pub enum ViewMode {
    LivePreview,
    Raw,
}

/// The style of one rendered span.
#[derive(Debug, Clone, Copy, PartialEq, Eq, Structural)]
pub enum SpanStyle {
    Normal,
    /// Heading level 1 to 6.
    Heading(u8),
    Bold,
    Italic,
    Code,
    Link,
    BulletMarker,
    CodeBlockText,
}

/// One styled run of text within a rendered line.
#[derive(Debug, Clone, PartialEq)]
pub struct RenderSpan {
    pub text: String,
    pub style: SpanStyle,
    /// When true, render as plain source text rather than styled output.
    pub is_raw: bool,
}

/// One display line: a list of styled spans.
#[derive(Debug, Clone, PartialEq)]
pub struct RenderLine {
    pub spans: Vec<RenderSpan>,
}

/// The mathematical image of a [`RenderSpan`].
pub struct SpanV {
    pub text: Seq<char>,
    pub style: SpanStyle,
    pub is_raw: bool,
}

impl View for RenderSpan {
    type V = SpanV;

    open spec fn view(&self) -> SpanV {
        SpanV { text: self.text@, style: self.style, is_raw: self.is_raw }
    }
}

/// The views of a sequence of spans.
pub open spec fn spans_view(s: Seq<RenderSpan>) -> Seq<SpanV> {
    s.map_values(|sp: RenderSpan| sp@)
}

impl View for RenderLine {
    type V = Seq<SpanV>;

    open spec fn view(&self) -> Seq<SpanV> {
        spans_view(self.spans@)
    }
}

/// The views of a sequence of render lines.
pub open spec fn rlines_view(s: Seq<RenderLine>) -> Seq<Seq<SpanV>> {
    s.map_values(|l: RenderLine| l@)
}

/// The plain text an inline carries (a link shows its display text).
pub open spec fn spec_inline_text(i: InlineV) -> Seq<char> {
    match i {
        InlineV::Text(t) => t,
        InlineV::Bold(t) => t,
        InlineV::Italic(t) => t,
        InlineV::Code(t) => t,
        InlineV::Link { text, .. } => text,
    }
}

/// The span style an inline maps to.
pub open spec fn spec_inline_style(i: InlineV) -> SpanStyle {
    match i {
        InlineV::Text(_) => SpanStyle::Normal,
        InlineV::Bold(_) => SpanStyle::Bold,
        InlineV::Italic(_) => SpanStyle::Italic,
        InlineV::Code(_) => SpanStyle::Code,
        InlineV::Link { .. } => SpanStyle::Link,
    }
}

/// The one span an inline renders to.
pub open spec fn spec_inline_span(i: InlineV) -> SpanV {
    SpanV { text: spec_inline_text(i), style: spec_inline_style(i), is_raw: false }
}

/// The concatenated plain text of a sequence of inlines.
pub open spec fn concat_inline_text(s: Seq<InlineV>) -> Seq<char>
    decreases s.len(),
{
    if s.len() == 0 {
        Seq::empty()
    } else {
        concat_inline_text(s.drop_last()) + spec_inline_text(s.last())
    }
}

/// The plain text of an inline.
pub fn inline_text(inline: &Inline) -> (r: String)
    ensures
        r@ == spec_inline_text(inline@),
{
    match inline {
        Inline::Text(t) => t.clone(),
        Inline::Bold(t) => t.clone(),
        Inline::Italic(t) => t.clone(),
        Inline::Code(t) => t.clone(),
        Inline::Link { text, .. } => text.clone(),
    }
}

/// The plain text and span style of an inline.
pub fn inline_style(inline: &Inline) -> (r: (String, SpanStyle))
    ensures
        r.0@ == spec_inline_text(inline@),
        r.1 == spec_inline_style(inline@),
{
    match inline {
        Inline::Text(t) => (t.clone(), SpanStyle::Normal),
        Inline::Bold(t) => (t.clone(), SpanStyle::Bold),
        Inline::Italic(t) => (t.clone(), SpanStyle::Italic),
        Inline::Code(t) => (t.clone(), SpanStyle::Code),
        Inline::Link { text, .. } => (text.clone(), SpanStyle::Link),
    }
}

/// How many display lines a code block's text yields, as `str::lines` would
/// split it: one per source line, with no extra line for a trailing newline.
pub open spec fn code_line_count(code: Seq<char>) -> int {
    if code.len() == 0 {
        0
    } else if code.last() == '\n' {
        line_count(code) - 1
    } else {
        line_count(code)
    }
}

/// Display line `i` of a code block: the source line without its line
/// terminator (`'\n'`, or a final `"\r\n"` pair).
pub open spec fn code_line_at(code: Seq<char>, i: int) -> Seq<char> {
    let raw = line_at(code, i);
    if raw.len() > 0 && raw.last() == '\n' {
        let a = raw.drop_last();
        if a.len() > 0 && a.last() == '\r' {
            a.drop_last()
        } else {
            a
        }
    } else {
        raw
    }
}

/// The bullet marker span that prefixes each rendered list item.
pub open spec fn bullet_span() -> SpanV {
    SpanV { text: ("• ")@, style: SpanStyle::BulletMarker, is_raw: false }
}

/// The glyphs a thematic break renders to.
pub open spec fn rule_glyphs() -> Seq<char> {
    ("───────────────────")@
}

/// The display lines of one block.
pub open spec fn render_block(b: BlockV) -> Seq<Seq<SpanV>> {
    match b {
        BlockV::Heading { level, inlines } => seq![
            seq![
                SpanV {
                    text: concat_inline_text(inlines),
                    style: SpanStyle::Heading(level),
                    is_raw: false,
                },
            ],
        ],
        BlockV::Paragraph { inlines } => seq![
            inlines.map_values(|i: InlineV| spec_inline_span(i)),
        ],
        BlockV::CodeBlock { language, code } => Seq::new(
            code_line_count(code) as nat,
            |i: int|
                seq![
                    SpanV { text: code_line_at(code, i), style: SpanStyle::CodeBlockText, is_raw: false },
                ],
        ),
        BlockV::List(items) => items.map_values(
            |item: Seq<InlineV>| seq![bullet_span()] + item.map_values(
                |i: InlineV| spec_inline_span(i),
            ),
        ),
        BlockV::ThematicBreak => seq![
            seq![SpanV { text: rule_glyphs(), style: SpanStyle::Normal, is_raw: false }],
        ],
    }
}

/// The display lines of a document: each block's lines, in order.
pub open spec fn render_blocks(bs: Seq<BlockV>) -> Seq<Seq<SpanV>>
    decreases bs.len(),
{
    if bs.len() == 0 {
        Seq::empty()
    } else {
        render_blocks(bs.drop_last()) + render_block(bs.last())
    }
}

/// The raw projection: one line per buffer line, one plain span each,
/// marked raw.
pub open spec fn render_raw(text: Seq<char>) -> Seq<Seq<SpanV>> {
    Seq::new(
        line_count(text) as nat,
        |i: int| seq![SpanV { text: line_at(text, i), style: SpanStyle::Normal, is_raw: true }],
    )
}

/// What applying one command does to the buffer and the register.
pub open spec fn spec_apply(b: BufView, reg: Seq<char>, cmd: CmdV) -> (BufView, Seq<char>) {
    match cmd {
        CmdV::MoveLeft => (spec_update_visual_head(spec_move_left(b)), reg),
        CmdV::MoveRight => (spec_update_visual_head(spec_move_right(b)), reg),
        CmdV::MoveUp => (spec_update_visual_head(spec_move_up(b)), reg),
        CmdV::MoveDown => (spec_update_visual_head(spec_move_down(b)), reg),
        CmdV::MoveWordForward => (spec_update_visual_head(spec_move_word_forward(b)), reg),
        CmdV::MoveWordBack => (spec_update_visual_head(spec_move_word_back(b)), reg),
        CmdV::MoveWordEnd => (spec_update_visual_head(spec_move_word_forward(b)), reg),
        CmdV::MoveLineStart => (spec_update_visual_head(spec_move_line_start(b)), reg),
        CmdV::MoveLineEnd => (spec_update_visual_head(spec_move_line_end(b)), reg),
        CmdV::MoveFirstLine => (spec_update_visual_head(spec_move_first_line(b)), reg),
        CmdV::MoveLastLine => (spec_update_visual_head(spec_move_last_line(b)), reg),
        CmdV::MoveParagraphForward => (spec_update_visual_head(spec_move_paragraph_forward(b)), reg),
        CmdV::MoveParagraphBack => (spec_update_visual_head(spec_move_paragraph_back(b)), reg),
        CmdV::Insert(c) => (spec_insert(b, seq![c]), reg),
        CmdV::InsertNewline => (spec_insert(b, seq!['\n']), reg),
        CmdV::DeleteBefore => (spec_delete_before(b), reg),
        CmdV::DeleteCharAtCursor => (spec_delete_char_at_cursor(b), reg),
        CmdV::DeleteLine => spec_delete_line(b),
        CmdV::Yank => (spec_clear_selection(b), spec_yank_text(b)),
        CmdV::Delete => (spec_delete_selection(b), spec_yank_text(b)),
        CmdV::Change => (spec_delete_selection(b), spec_yank_text(b)),
        CmdV::Paste(t) => (spec_insert(b, t), reg),
        CmdV::Undo => (b, reg),
        CmdV::Redo => (b, reg),
        CmdV::StartVisual => (spec_start_visual(b), reg),
        CmdV::StartVisualLine => (
            spec_update_visual_head(spec_move_line_end(spec_start_visual(spec_move_line_start(b)))),
            reg,
        ),
        CmdV::ClearSelection => (spec_clear_selection(b), reg),
    }
}

/// Deleting a line: select it from start to end, delete the selection
/// (yanking it), then delete the now-bare line terminator.
pub open spec fn spec_delete_line(b: BufView) -> (BufView, Seq<char>) {
    let b1 = spec_update_visual_head(spec_move_line_end(spec_start_visual(spec_move_line_start(b))));
    (spec_delete_char_at_cursor(spec_delete_selection(b1)), spec_yank_text(b1))
}

/// What one key does to the whole editor: the engine steps, and any
/// resulting command is applied to the buffer, the register taking up
/// yanked or deleted text.
pub open spec fn spec_editor_step(b: BufView, v: VimState, key: Key) -> (BufView, VimState) {
    let (v2, cmd) = vim_step(v, key);
    match cmd {
        None => (b, v2),
        Some(c) => {
            let (b2, reg2) = spec_apply(b, v2.register, c);
            (b2, VimState { register: reg2, ..v2 })
        },
    }
}

/// Viewing a span sequence commutes with appending one span.
proof fn lemma_spans_view_push(s: Seq<RenderSpan>, x: RenderSpan)
    ensures
        spans_view(s.push(x)) == spans_view(s).push(x@),
{
    assert forall|m: int| 0 <= m < s.len() + 1 implies #[trigger] spans_view(s.push(x))[m]
        == spans_view(s).push(x@)[m] by {
        if m < s.len() {
            assert(s.push(x)[m] == s[m]);
        } else {
            assert(s.push(x)[m] == x);
        }
    }
    assert(spans_view(s.push(x)) =~= spans_view(s).push(x@));
}

/// Viewing a line sequence commutes with appending one line.
proof fn lemma_rlines_view_push(s: Seq<RenderLine>, x: RenderLine)
    ensures
        rlines_view(s.push(x)) == rlines_view(s).push(x@),
{
    assert forall|m: int| 0 <= m < s.len() + 1 implies #[trigger] rlines_view(s.push(x))[m]
        == rlines_view(s).push(x@)[m] by {
        if m < s.len() {
            assert(s.push(x)[m] == s[m]);
        } else {
            assert(s.push(x)[m] == x);
        }
    }
    assert(rlines_view(s.push(x)) =~= rlines_view(s).push(x@));
}

/// The one-span line holding a given span.
fn single_span_line(span: RenderSpan) -> (r: RenderLine)
    ensures
        r@ == seq![span@],
{
    let ghost sv = span@;
    let mut spans: Vec<RenderSpan> = Vec::new();
    spans.push(span);
    proof {
        assert(spans_view(spans@) =~= seq![sv]);
    }
    RenderLine { spans }
}

/// The concatenated plain text of a heading's inlines (their styles are
/// flattened away: the heading span carries the plain concatenation).
fn heading_text(inlines: &Vec<Inline>) -> (s: String)
    ensures
        s@ == concat_inline_text(inlines_view(inlines@)),
{
    let mut s = String::new();
    let mut i: usize = 0;
    proof {
        assert(inlines_view(inlines@.take(0)) =~= Seq::<InlineV>::empty());
    }
    while i < inlines.len()
        invariant
            i <= inlines@.len(),
            s@ == concat_inline_text(inlines_view(inlines@.take(i as int))),
        decreases inlines@.len() - i,
    {
        let piece = inline_text(&inlines[i]);
        s.append(piece.as_str());
        i = i + 1;
        proof {
            let pre = inlines_view(inlines@.take(i - 1));
            let elem = inlines@[i - 1]@;
            assert(inlines_view(inlines@.take(i as int)) =~= pre.push(elem));
            assert(pre.push(elem).drop_last() =~= pre);
        }
    }
    proof {
        assert(inlines@.take(inlines@.len() as int) =~= inlines@);
    }
    s
}

/// One span per inline, each carrying its own style.
fn inline_spans(inlines: &Vec<Inline>) -> (r: Vec<RenderSpan>)
    ensures
        spans_view(r@) == inlines_view(inlines@).map_values(|iv: InlineV| spec_inline_span(iv)),
{
    let ghost target = inlines_view(inlines@).map_values(|iv: InlineV| spec_inline_span(iv));
    let mut r: Vec<RenderSpan> = Vec::new();
    let mut i: usize = 0;
    proof {
        assert(spans_view(r@) =~= target.take(0));
    }
    while i < inlines.len()
        invariant
            i <= inlines@.len(),
            target == inlines_view(inlines@).map_values(|iv: InlineV| spec_inline_span(iv)),
            spans_view(r@) =~= target.take(i as int),
        decreases inlines@.len() - i,
    {
        let styled = inline_style(&inlines[i]);
        let ghost pre = r@;
        r.push(RenderSpan { text: styled.0, style: styled.1, is_raw: false });
        i = i + 1;
        proof {
            lemma_spans_view_push(pre, r@.last());
            assert(r@.last()@ == spec_inline_span(inlines@[i - 1]@));
            assert(inlines_view(inlines@)[i - 1] == inlines@[i - 1]@);
            assert(target[i - 1] == spec_inline_span(inlines_view(inlines@)[i - 1]));
            assert(target.take(i as int) =~= target.take(i - 1).push(target[i - 1]));
            assert(spans_view(r@) =~= target.take(i as int));
        }
    }
    proof {
        assert(target.take(inlines@.len() as int) =~= target);
    }
    r
}

/// Splits a code block's text into its display lines, as `str::lines`
/// splits it.
fn split_code_lines(code: &str) -> (v: Vec<String>)
    ensures
        v@.len() == code_line_count(code@),
        forall|i: int| 0 <= i < v@.len() ==> (#[trigger] v@[i])@ == code_line_at(code@, i),
{
    let cv = str_chars(code);
    let n = cv.len();
    let mut pos: Vec<usize> = Vec::new();
    let mut i: usize = 0;
    proof {
        assert(code@.take(0) =~= Seq::<char>::empty());
    }
    while i < n
        invariant
            i <= n,
            n == code@.len(),
            cv@ == code@,
            pos@.len() == nl_count(code@.take(i as int)),
            forall|j: int|
                0 <= j < pos@.len() ==> #[trigger] pos@[j] as int == nth_nl(code@, j) && pos@[j]
                    < i,
        decreases n - i,
    {
        proof {
            lemma_nl_count_take_step(code@, i as int);
        }
        if cv[i] == '\n' {
            proof {
                lemma_nth_nl_inverse(code@, i as int);
            }
            pos.push(i);
        }
        i = i + 1;
    }
    proof {
        assert(code@.take(n as int) =~= code@);
        lemma_nl_count_bounds(code@);
    }
    let k = pos.len();
    let shown = if n == 0 {
        0
    } else if cv[n - 1] == '\n' {
        k
    } else {
        // the last line has no terminator, so fewer newlines than chars
        proof {
            lemma_nl_count_take_step(code@, n - 1);
            lemma_nl_count_bounds(code@.take(n - 1));
        }
        k + 1
    };
    let mut out: Vec<String> = Vec::new();
    let mut li: usize = 0;
    while li < shown
        invariant
            li <= shown,
            shown == code_line_count(code@),
            shown <= line_count(code@),
            n == code@.len(),
            cv@ == code@,
            k == nl_count(code@),
            pos@.len() == k,
            forall|j: int| 0 <= j < k ==> #[trigger] pos@[j] as int == nth_nl(code@, j),
            out@.len() == li,
            forall|j: int| 0 <= j < li ==> (#[trigger] out@[j])@ == code_line_at(code@, j),
        decreases shown - li,
    {
        proof {
            lemma_line_geometry(code@, li as int);
        }
        let start = if li == 0 {
            0
        } else {
            pos[li - 1] + 1
        };
        let end = if li < k {
            pos[li] + 1
        } else {
            n
        };
        let mut e = end;
        if e > start && cv[e - 1] == '\n' {
            e = e - 1;
            if e > start && cv[e - 1] == '\r' {
                e = e - 1;
            }
        }
        proof {
            let raw = line_at(code@, li as int);
            assert(raw =~= code@.subrange(start as int, end as int));
            assert(code_line_at(code@, li as int) =~= code@.subrange(start as int, e as int));
        }
        let mut piece: Vec<char> = Vec::new();
        let mut p = start;
        proof {
            assert(piece@ =~= code@.subrange(start as int, start as int));
        }
        while p < e
            invariant
                start <= p <= e,
                e <= n,
                n == code@.len(),
                cv@ == code@,
                piece@ =~= code@.subrange(start as int, p as int),
            decreases e - p,
        {
            piece.push(cv[p]);
            p = p + 1;
            proof {
                assert(code@.subrange(start as int, p as int) =~= code@.subrange(
                    start as int,
                    p - 1,
                ).push(code@[p - 1]));
            }
        }
        out.push(string_from_chars(&piece));
        li = li + 1;
    }
    out
}

/// One buffer paired with one Vim engine.
pub struct Editor {
    pub buffer: Buffer,
    pub vim: VimEngine,
}

impl Editor {
    /// Creates an editor pre-loaded with the given text, starting in Normal
    /// mode.
    pub fn new(text: &str) -> (e: Editor)
        ensures
            e.buffer@ == spec_new(text@),
            e.vim@ == spec_vim_new(),
            e.buffer@.wf(),
    {
        Editor { buffer: Buffer::new(text), vim: VimEngine::new() }
    }

    /// Returns the current Vim mode.
    pub fn mode(&self) -> (m: Mode)
        ensures
            m == self.vim@.mode,
    {
        self.vim.mode()
    }

    /// Returns the full buffer contents as a string.
    pub fn buffer_text(&self) -> (s: String)
        ensures
            s@ == self.buffer@.text,
    {
        self.buffer.text()
    }

    /// Forwards a key to the Vim engine and applies any resulting command
    /// to the buffer.
    pub fn handle_key(&mut self, key: Key)
        requires
            old(self).buffer@.wf(),
        ensures
            (final(self).buffer@, final(self).vim@) == spec_editor_step(
                old(self).buffer@,
                old(self).vim@,
                key,
            ),
            final(self).buffer@.wf(),
    {
        let cmd = self.vim.handle_key(key);
        if let Some(c) = cmd {
            self.apply(c);
        }
    }

    /// Applies one abstract command to the buffer, feeding yanked or
    /// deleted text back into the engine's register. After every motion the
    /// selection's head follows the cursor, so visual selections track
    /// movement.
    fn apply(&mut self, cmd: BufferCommand)
        requires
            old(self).buffer@.wf(),
        ensures
            ({
                let (b2, reg2) = spec_apply(old(self).buffer@, old(self).vim@.register, cmd_view(cmd));
                final(self).buffer@ == b2 && final(self).vim@ == (VimState {
                    register: reg2,
                    ..old(self).vim@
                })
            }),
            final(self).buffer@.wf(),
    {
        match cmd {
            BufferCommand::MoveLeft => {
                self.buffer.move_left();
                self.buffer.update_visual_head();
            },
            BufferCommand::MoveRight => {
                self.buffer.move_right();
                self.buffer.update_visual_head();
            },
            BufferCommand::MoveUp => {
                self.buffer.move_up();
                self.buffer.update_visual_head();
            },
            BufferCommand::MoveDown => {
                self.buffer.move_down();
                self.buffer.update_visual_head();
            },
            BufferCommand::MoveWordForward => {
                self.buffer.move_word_forward();
                self.buffer.update_visual_head();
            },
            BufferCommand::MoveWordBack => {
                self.buffer.move_word_back();
                self.buffer.update_visual_head();
            },
            BufferCommand::MoveWordEnd => {
                self.buffer.move_word_forward();
                self.buffer.update_visual_head();
            },
            BufferCommand::MoveLineStart => {
                self.buffer.move_line_start();
                self.buffer.update_visual_head();
            },
            BufferCommand::MoveLineEnd => {
                self.buffer.move_line_end();
                self.buffer.update_visual_head();
            },
            BufferCommand::MoveFirstLine => {
                self.buffer.move_first_line();
                self.buffer.update_visual_head();
            },
            BufferCommand::MoveLastLine => {
                self.buffer.move_last_line();
                self.buffer.update_visual_head();
            },
            BufferCommand::MoveParagraphForward => {
                self.buffer.move_paragraph_forward();
                self.buffer.update_visual_head();
            },
            BufferCommand::MoveParagraphBack => {
                self.buffer.move_paragraph_back();
                self.buffer.update_visual_head();
            },
            BufferCommand::Insert(c) => {
                let mut s = String::new();
                push_char(&mut s, c);
                proof {
                    assert(s@ =~= seq![c]);
                }
                self.buffer.insert(s.as_str());
            },
            BufferCommand::InsertNewline => {
                let mut s = String::new();
                push_char(&mut s, '\n');
                proof {
                    assert(s@ =~= seq!['\n']);
                }
                self.buffer.insert(s.as_str());
            },
            BufferCommand::DeleteBefore => self.buffer.delete_before(),
            BufferCommand::DeleteCharAtCursor => self.buffer.delete_char_at_cursor(),
            BufferCommand::DeleteLine => self.delete_line(),
            BufferCommand::Yank => {
                let text = self.buffer.yank_selection();
                self.buffer.clear_selection();
                self.vim.set_register(text);
            },
            BufferCommand::Delete => {
                let text = self.buffer.delete_selection();
                self.vim.set_register(text);
            },
            BufferCommand::Change => {
                let text = self.buffer.delete_selection();
                self.vim.set_register(text);
            },
            BufferCommand::Paste(text) => self.buffer.paste(text.as_str()),
            BufferCommand::StartVisual => self.buffer.start_visual(),
            BufferCommand::StartVisualLine => {
                self.buffer.move_line_start();
                self.buffer.start_visual();
                self.buffer.move_line_end();
                self.buffer.update_visual_head();
            },
            BufferCommand::ClearSelection => self.buffer.clear_selection(),
            BufferCommand::Undo => {},
            BufferCommand::Redo => {},
        }
    }

    /// Converts a document AST into a flat list of styled lines for the
    /// renderer: in Raw mode one raw line per buffer line, otherwise each
    /// block's display lines in order.
    pub fn build_render_lines(&self, doc: &Document, mode: ViewMode) -> (r: Vec<RenderLine>)
        ensures
            mode == ViewMode::Raw ==> rlines_view(r@) == render_raw(self.buffer@.text),
            mode != ViewMode::Raw ==> rlines_view(r@) == render_blocks(doc@),
    {
        if mode == ViewMode::Raw {
            let ghost text = self.buffer@.text;
            let total = self.buffer.line_count();
            let mut lines: Vec<RenderLine> = Vec::new();
            let mut idx: usize = 0;
            while idx < total
                invariant
                    idx <= total,
                    total == line_count(self.buffer@.text),
                    text == self.buffer@.text,
                    rlines_view(lines@) =~= render_raw(text).take(idx as int),
                decreases total - idx,
            {
                let span = RenderSpan {
                    text: self.buffer.line(idx),
                    style: SpanStyle::Normal,
                    is_raw: true,
                };
                let line = single_span_line(span);
                let ghost pre = lines@;
                lines.push(line);
                idx = idx + 1;
                proof {
                    lemma_rlines_view_push(pre, lines@.last());
                    assert(lines@.last()@ =~= render_raw(text)[idx - 1]);
                    assert(render_raw(text).take(idx as int) =~= render_raw(text).take(
                        idx - 1,
                    ).push(render_raw(text)[idx - 1]));
                    assert(rlines_view(lines@) =~= render_raw(text).take(idx as int));
                }
            }
            proof {
                assert(render_raw(text).take(line_count(text)) =~= render_raw(text));
            }
            return lines;
        }
        let blocks = doc.blocks();
        let ghost bv = doc@;
        let mut lines: Vec<RenderLine> = Vec::new();
        let mut i: usize = 0;
        proof {
            assert(bv.take(0) =~= Seq::<BlockV>::empty());
        }
        while i < blocks.len()
            invariant
                i <= blocks@.len(),
                blocks_view(blocks@) == bv,
                bv == doc@,
                rlines_view(lines@) == render_blocks(bv.take(i as int)),
            decreases blocks@.len() - i,
        {
            let ghost pre = rlines_view(lines@);
            match &blocks[i] {
                Block::Heading { level, inlines } => {
                    let text = heading_text(inlines);
                    let span = RenderSpan { text, style: SpanStyle::Heading(*level), is_raw: false };
                    let ghost spv = span@;
                    let line = single_span_line(span);
                    let ghost prelines = lines@;
                    lines.push(line);
                    proof {
                        assert(bv[i as int] == blocks@[i as int]@);
                        lemma_rlines_view_push(prelines, lines@.last());
                        assert(lines@.last()@ == seq![spv]);
                        assert(spv == (SpanV {
                            text: concat_inline_text(inlines_view(inlines@)),
                            style: SpanStyle::Heading(*level),
                            is_raw: false,
                        }));
                        assert(rlines_view(lines@) =~= pre + render_block(bv[i as int]));
                    }
                },
                Block::Paragraph { inlines } => {
                    let spans = inline_spans(inlines);
                    let ghost lv = spans_view(spans@);
                    let ghost prelines = lines@;
                    lines.push(RenderLine { spans });
                    proof {
                        assert(bv[i as int] == blocks@[i as int]@);
                        lemma_rlines_view_push(prelines, lines@.last());
                        assert(lines@.last()@ == lv);
                        assert(rlines_view(lines@) =~= pre + render_block(bv[i as int]));
                    }
                },
                Block::CodeBlock { code, language } => {
                    let code_lines = split_code_lines(code.as_str());
                    let mut j: usize = 0;
                    while j < code_lines.len()
                        invariant
                            j <= code_lines@.len(),
                            code_lines@.len() == code_line_count(code@),
                            forall|q: int|
                                0 <= q < code_lines@.len() ==> (#[trigger] code_lines@[q])@
                                    == code_line_at(code@, q),
                            blocks_view(blocks@) == bv,
                            bv[i as int] == (BlockV::CodeBlock { language: language@, code: code@ }),
                            i < blocks@.len(),
                            rlines_view(lines@) =~= pre + render_block(bv[i as int]).take(j as int),
                        decreases code_lines@.len() - j,
                    {
                        let span = RenderSpan {
                            text: code_lines[j].clone(),
                            style: SpanStyle::CodeBlockText,
                            is_raw: false,
                        };
                        let ghost spv = span@;
                        let line = single_span_line(span);
                        let ghost prelines = lines@;
                        lines.push(line);
                        j = j + 1;
                        proof {
                            lemma_rlines_view_push(prelines, lines@.last());
                            assert(lines@.last()@ == seq![spv]);
                            assert(render_block(bv[i as int])[j - 1] == seq![
                                SpanV {
                                    text: code_line_at(code@, j - 1),
                                    style: SpanStyle::CodeBlockText,
                                    is_raw: false,
                                },
                            ]);
                            assert(spv.text == code_line_at(code@, j - 1));
                            assert(render_block(bv[i as int]).take(j as int) =~= render_block(
                                bv[i as int],
                            ).take(j - 1).push(render_block(bv[i as int])[j - 1]));
                            assert(rlines_view(lines@) =~= pre + render_block(bv[i as int]).take(
                                j as int,
                            ));
                        }
                    }
                    proof {
                        assert(render_block(bv[i as int]).take(code_line_count(code@)) =~= render_block(
                            bv[i as int],
                        ));
                    }
                },
                Block::List(items) => {
                    let mut j: usize = 0;
                    while j < items.len()
                        invariant
                            j <= items@.len(),
                            blocks_view(blocks@) == bv,
                            bv[i as int] == BlockV::List(crate::markdown::items_view(items@)),
                            i < blocks@.len(),
                            rlines_view(lines@) =~= pre + render_block(bv[i as int]).take(j as int),
                        decreases items@.len() - j,
                    {
                        let mut spans: Vec<RenderSpan> = Vec::new();
                        spans.push(
                            RenderSpan {
                                text: String::from_str("• "),
                                style: SpanStyle::BulletMarker,
                                is_raw: false,
                            },
                        );
                        let item = &items[j];
                        let ghost itemv = inlines_view(item@).map_values(
                            |iv: InlineV| spec_inline_span(iv),
                        );
                        proof {
                            assert(spans_view(spans@) =~= seq![bullet_span()]);
                            assert(seq![bullet_span()] + itemv.take(0) =~= seq![bullet_span()]);
                        }
                        let mut q: usize = 0;
                        while q < item.len()
                            invariant
                                q <= item@.len(),
                                itemv == inlines_view(item@).map_values(
                                    |iv: InlineV| spec_inline_span(iv),
                                ),
                                spans_view(spans@) =~= seq![bullet_span()] + itemv.take(q as int),
                            decreases item@.len() - q,
                        {
                            let styled = inline_style(&item[q]);
                            let ghost prespans = spans@;
                            spans.push(
                                RenderSpan { text: styled.0, style: styled.1, is_raw: false },
                            );
                            q = q + 1;
                            proof {
                                lemma_spans_view_push(prespans, spans@.last());
                                assert(spans@.last()@ == spec_inline_span(item@[q - 1]@));
                                assert(inlines_view(item@)[q - 1] == item@[q - 1]@);
                                assert(itemv[q - 1] == spec_inline_span(inlines_view(item@)[q - 1]));
                                assert(itemv.take(q as int) =~= itemv.take(q - 1).push(
                                    itemv[q - 1],
                                ));
                                assert(spans_view(spans@) =~= seq![bullet_span()] + itemv.take(
                                    q as int,
                                ));
                            }
                        }
                        proof {
                            assert(itemv.take(itemv.len() as int) =~= itemv);
                        }
                        let ghost lv = spans_view(spans@);
                        let ghost prelines = lines@;
                        lines.push(RenderLine { spans });
                        j = j + 1;
                        proof {
                            lemma_rlines_view_push(prelines, lines@.last());
                            assert(lines@.last()@ == lv);
                            assert(crate::markdown::items_view(items@)[j - 1] == inlines_view(
                                item@,
                            ));
                            assert(render_block(bv[i as int])[j - 1] == seq![bullet_span()]
                                + inlines_view(item@).map_values(|iv: InlineV| spec_inline_span(iv)));
                            assert(render_block(bv[i as int]).take(j as int) =~= render_block(
                                bv[i as int],
                            ).take(j - 1).push(render_block(bv[i as int])[j - 1]));
                            assert(rlines_view(lines@) =~= pre + render_block(bv[i as int]).take(
                                j as int,
                            ));
                        }
                    }
                    proof {
                        assert(render_block(bv[i as int]).take(items@.len() as int) =~= render_block(
                            bv[i as int],
                        ));
                    }
                },
                Block::ThematicBreak => {
                    let span = RenderSpan {
                        text: String::from_str("───────────────────"),
                        style: SpanStyle::Normal,
                        is_raw: false,
                    };
                    let ghost spv = span@;
                    let line = single_span_line(span);
                    let ghost prelines = lines@;
                    lines.push(line);
                    proof {
                        assert(bv[i as int] == blocks@[i as int]@);
                        lemma_rlines_view_push(prelines, lines@.last());
                        assert(lines@.last()@ == seq![spv]);
                        assert(spv == (SpanV {
                            text: rule_glyphs(),
                            style: SpanStyle::Normal,
                            is_raw: false,
                        }));
                        assert(rlines_view(lines@) =~= pre + render_block(bv[i as int]));
                    }
                },
            }
            i = i + 1;
            proof {
                assert(bv.take(i as int) =~= bv.take(i - 1).push(bv[i - 1]));
                assert(bv.take(i - 1).push(bv[i - 1]).drop_last() =~= bv.take(i - 1));
                assert(rlines_view(lines@) == render_blocks(bv.take(i as int)));
            }
        }
        proof {
            assert(bv.take(blocks@.len() as int) =~= bv);
        }
        lines
    }

    /// Selects and removes the entire current line, then deletes the
    /// trailing newline.
    fn delete_line(&mut self)
        requires
            old(self).buffer@.wf(),
        ensures
            ({
                let (b2, reg2) = spec_delete_line(old(self).buffer@);
                final(self).buffer@ == b2 && final(self).vim@ == (VimState {
                    register: reg2,
                    ..old(self).vim@
                })
            }),
            final(self).buffer@.wf(),
    {
        self.buffer.move_line_start();
        self.buffer.start_visual();
        self.buffer.move_line_end();
        self.buffer.update_visual_head();
        let text = self.buffer.delete_selection();
        self.vim.set_register(text);
        self.buffer.delete_char_at_cursor();
    }
}

/// One open document: an editor, the parsed document it projects, the view
/// mode, and a dirty flag gating re-parses.
pub struct Tab {
    pub editor: Editor,
    pub view_mode: ViewMode,
    pub file_path: Option<String>,
    pub document: Document,
    dirty: bool,
}

/// The mathematical image of a [`Tab`].
pub struct TabView {
    pub buffer: BufView,
    pub vim: VimState,
    pub view_mode: ViewMode,
    pub file_path: Option<Seq<char>>,
    pub document: Seq<BlockV>,
    pub dirty: bool,
}

impl View for Tab {
    type V = TabView;

    closed spec fn view(&self) -> TabView {
        TabView {
            buffer: self.editor.buffer@,
            vim: self.editor.vim@,
            view_mode: self.view_mode,
            file_path: match &self.file_path {
                Some(p) => Some(p@),
                None => None,
            },
            document: self.document@,
            dirty: self.dirty,
        }
    }
}

/// The tab's invariant: unless marked dirty, the document reflects the
/// buffer text.
pub open spec fn tab_in_sync(v: TabView) -> bool {
    !v.dirty ==> v.document == parse_spec(v.buffer.text)
}

impl Tab {
    /// Creates a tab pre-loaded with the given text, starting in Live
    /// Preview mode.
    pub fn new(text: &str) -> (t: Tab)
        ensures
            t@.buffer == spec_new(text@),
            t@.vim == spec_vim_new(),
            t@.buffer.wf(),
            t@.view_mode == ViewMode::LivePreview,
            t@.file_path == None::<Seq<char>>,
            t@.document == parse_spec(text@),
            !t@.dirty,
            tab_in_sync(t@),
    {
        Tab {
            document: Document::parse(text),
            editor: Editor::new(text),
            view_mode: ViewMode::LivePreview,
            file_path: None,
            dirty: false,
        }
    }

    /// Marks the document as needing a re-parse on the next sync.
    pub fn mark_dirty(&mut self)
        ensures
            final(self)@ == (TabView { dirty: true, ..old(self)@ }),
    {
        self.dirty = true;
    }

    /// Re-parses the document from the buffer, but only when the buffer has
    /// changed since the last sync; a clean tab is left untouched, which is
    /// sound whenever its document already reflects the buffer.
    pub fn sync_document(&mut self)
        ensures
            final(self)@ == (if old(self)@.dirty {
                TabView {
                    document: parse_spec(old(self)@.buffer.text),
                    dirty: false,
                    ..old(self)@
                }
            } else {
                old(self)@
            }),
            tab_in_sync(old(self)@) ==> tab_in_sync(final(self)@) && final(self)@.document
                == parse_spec(old(self)@.buffer.text),
    {
        if self.dirty {
            let text = self.editor.buffer_text();
            self.document = Document::parse(text.as_str());
            self.dirty = false;
        }
    }

    /// Toggles between Live Preview and Raw mode.
    pub fn toggle_view_mode(&mut self)
        ensures
            final(self)@ == (TabView {
                view_mode: if old(self)@.view_mode == ViewMode::LivePreview {
                    ViewMode::Raw
                } else {
                    ViewMode::LivePreview
                },
                ..old(self)@
            }),
    {
        self.view_mode = if self.view_mode == ViewMode::LivePreview {
            ViewMode::Raw
        } else {
            ViewMode::LivePreview
        };
    }
}

} // verus!
