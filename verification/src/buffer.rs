//! The text buffer: rope-backed storage with a cursor, an optional visual
//! selection and a scroll offset, edited through total line/column-indexed
//! operations (out-of-range requests clamp or do nothing, they never fail).

use vstd::prelude::*;
use crate::lines::{
    line_at, line_count, line_end, line_len, line_start, nl_count, nth_nl,
    lemma_line_geometry, lemma_line_of_offset, lemma_line_start_mono, lemma_nl_count_bounds,
    lemma_nl_count_concat, lemma_nl_count_constant_range, lemma_nl_count_take_mono,
    lemma_nl_count_take_step, lemma_nl_count_whole, lemma_nth_nl, lemma_nth_nl_inverse,
    lemma_nth_nl_prefix,
};
use crate::rope::{
    rope_chars, rope_char_to_line, rope_from_str, rope_insert, rope_len_chars, rope_len_lines,
    rope_line, rope_line_to_char, rope_remove, rope_slice_string, rope_to_string,
};

verus! {

/// A zero-based text position: `line` indexes the buffer's line sequence and
/// `col` indexes the characters of that line.
#[derive(Debug, Clone, Copy, PartialEq, Eq, Structural)]
pub struct Cursor {
    pub line: usize,
    pub col: usize,
}

/// A visual selection: `anchor` is where it began, `head` follows the
/// cursor. Either end may come first in the text.
#[derive(Debug, Clone, Copy, PartialEq, Eq, Structural)]
pub struct Selection {
    pub anchor: Cursor,
    pub head: Cursor,
}

/// What a buffer is mathematically: its text, cursor, selection and scroll
/// offset.
pub struct BufView {
    pub text: Seq<char>,
    pub cursor: Cursor,
    pub selection: Option<Selection>,
    pub scroll: usize,
}

/// The linear character offset of a cursor position.
pub open spec fn cursor_offset(text: Seq<char>, c: Cursor) -> int {
    line_start(text, c.line as int) + c.col
}

/// A cursor position is consistent with the text when its line exists and
/// exactly `line` newlines precede its offset (so the column lies within the
/// line, past its `'\n'` only at the very end of the text).
pub open spec fn cursor_ok(text: Seq<char>, c: Cursor) -> bool {
    &&& c.line as int <= nl_count(text)
    &&& cursor_offset(text, c) <= text.len()
    &&& nl_count(text.take(cursor_offset(text, c))) == c.line as int
}

impl BufView {
    /// The buffer's invariant: the cursor always addresses a real position.
    pub open spec fn wf(self) -> bool {
        cursor_ok(self.text, self.cursor)
    }
}

/// A fresh buffer over the given text.
pub open spec fn spec_new(text: Seq<char>) -> BufView {
    BufView {
        text,
        cursor: Cursor { line: 0, col: 0 },
        selection: None,
        scroll: 0,
    }
}

/// The last column a block cursor may rest on in line `l`: the position of
/// the line's final character, or 0 for an empty line.
pub open spec fn last_col(s: Seq<char>, l: int) -> int {
    if line_len(s, l) > 0 {
        line_len(s, l) - 1
    } else {
        0
    }
}

/// Moves left within the line, stopping at column 0.
pub open spec fn spec_move_left(v: BufView) -> BufView {
    let c = v.cursor;
    BufView {
        cursor: Cursor {
            line: c.line,
            col: if c.col > 0 {
                (c.col - 1) as usize
            } else {
                0
            },
        },
        ..v
    }
}

/// Moves right within the line, never past the line's final character.
pub open spec fn spec_move_right(v: BufView) -> BufView {
    let c = v.cursor;
    let mx = last_col(v.text, c.line as int);
    if (c.col as int) < mx {
        BufView { cursor: Cursor { line: c.line, col: (c.col + 1) as usize }, ..v }
    } else {
        v
    }
}

/// Moves up one line, clamping the column to the new line.
pub open spec fn spec_move_up(v: BufView) -> BufView {
    let c = v.cursor;
    if c.line > 0 {
        let l2 = (c.line - 1) as usize;
        let mx = last_col(v.text, l2 as int);
        BufView {
            cursor: Cursor {
                line: l2,
                col: if (c.col as int) <= mx {
                    c.col
                } else {
                    mx as usize
                },
            },
            ..v
        }
    } else {
        v
    }
}

/// Moves down one line, clamping the column to the new line.
pub open spec fn spec_move_down(v: BufView) -> BufView {
    let c = v.cursor;
    if (c.line as int) + 1 < line_count(v.text) {
        let l2 = (c.line + 1) as usize;
        let mx = last_col(v.text, l2 as int);
        BufView {
            cursor: Cursor {
                line: l2,
                col: if (c.col as int) <= mx {
                    c.col
                } else {
                    mx as usize
                },
            },
            ..v
        }
    } else {
        v
    }
}

/// Moves to column 0 of the current line.
pub open spec fn spec_move_line_start(v: BufView) -> BufView {
    BufView { cursor: Cursor { line: v.cursor.line, col: 0 }, ..v }
}

/// Moves to the current line's final character.
pub open spec fn spec_move_line_end(v: BufView) -> BufView {
    BufView {
        cursor: Cursor {
            line: v.cursor.line,
            col: last_col(v.text, v.cursor.line as int) as usize,
        },
        ..v
    }
}

/// Jumps to the very first position of the buffer.
pub open spec fn spec_move_first_line(v: BufView) -> BufView {
    BufView { cursor: Cursor { line: 0, col: 0 }, ..v }
}

/// Jumps to column 0 of the last line.
pub open spec fn spec_move_last_line(v: BufView) -> BufView {
    BufView { cursor: Cursor { line: (line_count(v.text) - 1) as usize, col: 0 }, ..v }
}

/// Begins a visual selection anchored at the cursor.
pub open spec fn spec_start_visual(v: BufView) -> BufView {
    BufView { selection: Some(Selection { anchor: v.cursor, head: v.cursor }), ..v }
}

/// Lets the selection's head follow the cursor, if a selection is active.
pub open spec fn spec_update_visual_head(v: BufView) -> BufView {
    match v.selection {
        Some(sel) => BufView {
            selection: Some(Selection { anchor: sel.anchor, head: v.cursor }),
            ..v
        },
        None => v,
    }
}

/// Drops the selection without touching the text.
pub open spec fn spec_clear_selection(v: BufView) -> BufView {
    BufView { selection: None, ..v }
}

/// Where the cursor ends up after walking over inserted text: each `'\n'`
/// moves it to the start of the next line, any other character advances the
/// column.
pub open spec fn advance_cursor(c: Cursor, t: Seq<char>) -> Cursor
    decreases t.len(),
{
    if t.len() == 0 {
        c
    } else if t[0] == '\n' {
        advance_cursor(Cursor { line: (c.line + 1) as usize, col: 0 }, t.drop_first())
    } else {
        advance_cursor(Cursor { line: c.line, col: (c.col + 1) as usize }, t.drop_first())
    }
}

/// Splices text in at the cursor's offset and advances the cursor past it.
pub open spec fn spec_insert(v: BufView, t: Seq<char>) -> BufView {
    let off = cursor_offset(v.text, v.cursor);
    BufView {
        text: v.text.take(off) + t + v.text.skip(off),
        cursor: advance_cursor(v.cursor, t),
        ..v
    }
}

/// The cursor walk in closed form: the line advances by the number of
/// newlines; the column is past the old position, or counts the characters
/// after the last newline.
pub proof fn lemma_advance_closed(c: Cursor, t: Seq<char>)
    requires
        c.line + nl_count(t) <= usize::MAX,
        c.col + t.len() <= usize::MAX,
    ensures
        advance_cursor(c, t) == (if nl_count(t) == 0 {
            Cursor { line: c.line, col: (c.col + t.len()) as usize }
        } else {
            Cursor {
                line: (c.line + nl_count(t)) as usize,
                col: (t.len() - 1 - nth_nl(t, nl_count(t) - 1)) as usize,
            }
        }),
    decreases t.len(),
{
    lemma_nl_count_bounds(t);
    if t.len() == 0 {
    } else {
        let rest = t.drop_first();
        lemma_nl_count_bounds(rest);
        if nl_count(rest) > 0 {
            lemma_nth_nl(rest, nl_count(rest) - 1);
        }
        if t[0] == '\n' {
            lemma_advance_closed(Cursor { line: (c.line + 1) as usize, col: 0 }, rest);
        } else {
            lemma_advance_closed(Cursor { line: c.line, col: (c.col + 1) as usize }, rest);
        }
    }
}

/// Inserting at a consistent cursor keeps the advanced cursor consistent
/// with the new text, right after the inserted characters.
pub proof fn lemma_insert_cursor(s: Seq<char>, c: Cursor, t: Seq<char>)
    requires
        cursor_ok(s, c),
        s.len() + t.len() <= usize::MAX,
    ensures
        ({
            let off = cursor_offset(s, c);
            let s2 = s.take(off) + t + s.skip(off);
            let c2 = advance_cursor(c, t);
            &&& cursor_ok(s2, c2)
            &&& nl_count(s2) == nl_count(s) + nl_count(t)
            &&& cursor_offset(s2, c2) == off + t.len()
        }),
{
    let off = cursor_offset(s, c);
    let s2 = s.take(off) + t + s.skip(off);
    lemma_nl_count_bounds(s);
    lemma_nl_count_bounds(t);
    if c.line > 0 {
        lemma_nth_nl(s, c.line as int - 1);
    }
    assert(0 <= off <= s.len());
    assert(s =~= s.take(off) + s.skip(off));
    lemma_nl_count_concat(s.take(off), s.skip(off));
    lemma_nl_count_concat(s.take(off) + t, s.skip(off));
    lemma_nl_count_concat(s.take(off), t);
    assert(nl_count(s2) == nl_count(s) + nl_count(t));
    assert(s2.len() == s.len() + t.len());
    lemma_advance_closed(c, t);
    let c2 = advance_cursor(c, t);
    let off2 = off + t.len();
    assert(s2.take(off2) =~= s.take(off) + t);
    assert(nl_count(s2.take(off2)) == c.line + nl_count(t));
    if nl_count(t) == 0 {
        // same line: its start does not move
        if c.line > 0 {
            assert(s2.take(off) =~= s.take(off));
            lemma_nth_nl_prefix(s2, off, c.line - 1);
            lemma_nth_nl_prefix(s, off, c.line - 1);
        }
        assert(line_start(s2, c2.line as int) == line_start(s, c.line as int));
        assert(cursor_offset(s2, c2) == off2);
    } else {
        // the cursor lands after the last inserted newline
        lemma_nth_nl(t, nl_count(t) - 1);
        let last = nth_nl(t, nl_count(t) - 1);
        let p = off + last;
        assert(s2[p] == t[last]);
        assert(s2.take(p) =~= s.take(off) + t.take(last));
        lemma_nl_count_concat(s.take(off), t.take(last));
        lemma_nth_nl_inverse(s2, p);
        assert(nth_nl(s2, c.line + nl_count(t) - 1) == p);
        assert(line_start(s2, c2.line as int) == p + 1);
        assert(cursor_offset(s2, c2) == off2);
    }
}

/// Removes the character before the cursor; at column 0 this joins the line
/// onto the previous one and parks the cursor at that line's last position.
/// A no-op at the very start of the buffer.
pub open spec fn spec_delete_before(v: BufView) -> BufView {
    let off = cursor_offset(v.text, v.cursor);
    if v.cursor.col == 0 && v.cursor.line == 0 {
        v
    } else {
        let t2 = v.text.take(off - 1) + v.text.skip(off);
        let c2 = if v.cursor.col == 0 {
            let l2 = (v.cursor.line - 1) as usize;
            let ll = line_len(t2, l2 as int);
            Cursor {
                line: l2,
                col: if ll > 0 {
                    (ll - 1) as usize
                } else {
                    0
                },
            }
        } else {
            Cursor { line: v.cursor.line, col: (v.cursor.col - 1) as usize }
        };
        BufView { text: t2, cursor: c2, ..v }
    }
}

/// Removes the character under the cursor and clamps the column to the
/// shortened line. A no-op on an empty line or past the end of the text.
pub open spec fn spec_delete_char_at_cursor(v: BufView) -> BufView {
    let ll = line_len(v.text, v.cursor.line as int);
    let off = cursor_offset(v.text, v.cursor);
    if ll == 0 || off >= v.text.len() {
        v
    } else {
        let t2 = v.text.take(off) + v.text.skip(off + 1);
        let nll = line_len(t2, v.cursor.line as int);
        let c2 = if v.cursor.col >= nll && nll > 0 {
            Cursor { line: v.cursor.line, col: (nll - 1) as usize }
        } else {
            v.cursor
        };
        BufView { text: t2, cursor: c2, ..v }
    }
}

/// The first column at or after `col` whose character is not a word
/// character (or the end of the line).
pub open spec fn skip_word_chars(lc: Seq<char>, col: int) -> int
    decreases lc.len() - col,
{
    if 0 <= col < lc.len() && crate::chars::is_word_char(lc[col]) {
        skip_word_chars(lc, col + 1)
    } else {
        col
    }
}

/// The first column at or after `col` whose character is a word character
/// (or the end of the line).
pub open spec fn skip_gap_chars(lc: Seq<char>, col: int) -> int
    decreases lc.len() - col,
{
    if 0 <= col < lc.len() && !crate::chars::is_word_char(lc[col]) {
        skip_gap_chars(lc, col + 1)
    } else {
        col
    }
}

/// Walks left over non-word characters, stopping at column 0.
pub open spec fn back_over_gap(lc: Seq<char>, col: int) -> int
    decreases col,
{
    if 0 < col < lc.len() && !crate::chars::is_word_char(lc[col]) {
        back_over_gap(lc, col - 1)
    } else {
        col
    }
}

/// Walks left while the character before the column is a word character,
/// stopping at column 0: the start of the current word.
pub open spec fn back_to_word_start(lc: Seq<char>, col: int) -> int
    decreases col,
{
    if 0 < col <= lc.len() && crate::chars::is_word_char(lc[col - 1]) {
        back_to_word_start(lc, col - 1)
    } else {
        col
    }
}

/// Advances to the start of the next word, staying on the current line:
/// first past the current word, then past the following gap, clamped to the
/// line's last character.
pub open spec fn spec_move_word_forward(v: BufView) -> BufView {
    let lc = line_at(v.text, v.cursor.line as int);
    let a = skip_word_chars(lc, v.cursor.col as int);
    let b = skip_gap_chars(lc, a);
    let mx = if lc.len() > 0 {
        lc.len() - 1
    } else {
        0
    };
    let c2 = if b <= mx {
        b
    } else {
        mx as int
    };
    BufView { cursor: Cursor { line: v.cursor.line, col: c2 as usize }, ..v }
}

/// Moves back to the start of the previous word, staying on the current
/// line.
pub open spec fn spec_move_word_back(v: BufView) -> BufView {
    if v.cursor.col == 0 {
        v
    } else {
        let lc = line_at(v.text, v.cursor.line as int);
        let a = back_over_gap(lc, v.cursor.col - 1);
        let b = back_to_word_start(lc, a);
        BufView { cursor: Cursor { line: v.cursor.line, col: b as usize }, ..v }
    }
}

/// A line whose content is entirely whitespace (its newline included).
pub open spec fn blank_line(s: Seq<char>, i: int) -> bool {
    forall|j: int|
        0 <= j < line_at(s, i).len() ==> crate::chars::is_space_char(#[trigger] line_at(s, i)[j])
}

/// The first blank line at or after `i`, or the last line if there is none.
pub open spec fn next_blank_line(s: Seq<char>, i: int) -> int
    decreases line_count(s) - i,
{
    if i < 0 || i >= line_count(s) {
        line_count(s) - 1
    } else if blank_line(s, i) {
        i
    } else {
        next_blank_line(s, i + 1)
    }
}

/// The first blank line at or before `i`, or line 0 if there is none.
pub open spec fn prev_blank_line(s: Seq<char>, i: int) -> int
    decreases i,
{
    if i <= 0 {
        0
    } else if blank_line(s, i) {
        i
    } else {
        prev_blank_line(s, i - 1)
    }
}

/// Jumps to the next blank line, or the last line if none exists.
pub open spec fn spec_move_paragraph_forward(v: BufView) -> BufView {
    let l2 = next_blank_line(v.text, v.cursor.line + 1);
    BufView { cursor: Cursor { line: l2 as usize, col: 0 }, ..v }
}

/// Jumps to the previous blank line, or line 0 if none exists.
pub open spec fn spec_move_paragraph_back(v: BufView) -> BufView {
    if v.cursor.line == 0 {
        v
    } else {
        let l2 = prev_blank_line(v.text, v.cursor.line - 1);
        BufView { cursor: Cursor { line: l2 as usize, col: 0 }, ..v }
    }
}

/// Addition on `usize` that stops at the largest value instead of wrapping.
pub open spec fn sat_add(a: usize, b: usize) -> usize {
    if a + b > usize::MAX {
        usize::MAX
    } else {
        (a + b) as usize
    }
}

/// Keeps the cursor within a 3-line margin of the viewport's edges: scrolls
/// up when the cursor is too close to the top, down when too close to the
/// bottom, and clamps the offset to the last line.
pub open spec fn spec_clamp_scroll(v: BufView, viewport_lines: usize) -> BufView {
    let line = v.cursor.line;
    let s1 = if line < sat_add(v.scroll, 3) {
        if line >= 3 {
            (line - 3) as usize
        } else {
            0
        }
    } else {
        v.scroll
    };
    let s2 = if sat_add(line, 3) >= sat_add(s1, viewport_lines) {
        (sat_add(sat_add(line, 3), 1) - viewport_lines) as usize
    } else {
        s1
    };
    let mx = (line_count(v.text) - 1) as usize;
    let s3 = if s2 <= mx {
        s2
    } else {
        mx
    };
    BufView { scroll: s3, ..v }
}

/// The linear offset of a selection endpoint, clamped into the text: a
/// selection may outlive edits, so a stored endpoint is pulled back to the
/// last line and the end of the text when it points past them.
pub open spec fn sel_offset(text: Seq<char>, c: Cursor) -> int {
    let l = if c.line as int <= nl_count(text) {
        c.line as int
    } else {
        nl_count(text)
    };
    let off = line_start(text, l) + c.col;
    if off <= text.len() {
        off
    } else {
        text.len() as int
    }
}

/// The cursor position that a linear offset denotes.
pub open spec fn cursor_of_offset(text: Seq<char>, p: int) -> Cursor {
    let l = nl_count(text.take(p));
    Cursor { line: l as usize, col: (p - line_start(text, l)) as usize }
}

/// The selected characters: the inclusive range between the selection's two
/// endpoints, in either order; empty without a selection.
pub open spec fn spec_yank_text(v: BufView) -> Seq<char> {
    match v.selection {
        None => Seq::empty(),
        Some(sel) => {
            let ao = sel_offset(v.text, sel.anchor);
            let ho = sel_offset(v.text, sel.head);
            let s = if ao <= ho {
                ao
            } else {
                ho
            };
            let m = if ao <= ho {
                ho
            } else {
                ao
            };
            let e = if m >= v.text.len() {
                v.text.len() as int
            } else {
                m + 1
            };
            v.text.subrange(s, e)
        },
    }
}

/// Removes the selected range, placing the cursor at its earlier endpoint
/// and dropping the selection.
pub open spec fn spec_delete_selection(v: BufView) -> BufView {
    match v.selection {
        None => v,
        Some(sel) => {
            let ao = sel_offset(v.text, sel.anchor);
            let ho = sel_offset(v.text, sel.head);
            let s = if ao <= ho {
                ao
            } else {
                ho
            };
            let m = if ao <= ho {
                ho
            } else {
                ao
            };
            let e = if m >= v.text.len() {
                v.text.len() as int
            } else {
                m + 1
            };
            let t2 = v.text.take(s) + v.text.skip(e);
            BufView { text: t2, cursor: cursor_of_offset(t2, s), selection: None, scroll: v.scroll }
        },
    }
}

/// A line/column pair within line `l` is a consistent cursor position.
pub proof fn lemma_cursor_ok_from_line_pos(s: Seq<char>, l: int, c: int)
    requires
        0 <= l < line_count(s),
        0 <= c <= line_len(s, l),
        c == line_len(s, l) ==> l == nl_count(s),
        l <= usize::MAX,
        c <= usize::MAX,
    ensures
        cursor_ok(s, Cursor { line: l as usize, col: c as usize }),
        cursor_offset(s, Cursor { line: l as usize, col: c as usize }) == line_start(s, l) + c,
{
    lemma_line_geometry(s, l);
    lemma_nl_count_bounds(s);
    let off = line_start(s, l) + c;
    if l < nl_count(s) {
        lemma_nl_count_constant_range(s, line_start(s, l), off);
    } else {
        lemma_nl_count_constant_range(s, line_start(s, l), off);
    }
}

/// Conversely, a consistent cursor lies within its line.
pub proof fn lemma_cursor_ok_to_line_pos(s: Seq<char>, c: Cursor)
    requires
        cursor_ok(s, c),
    ensures
        (c.line as int) < line_count(s),
        c.col as int <= line_len(s, c.line as int),
        c.col as int == line_len(s, c.line as int) ==> c.line as int == nl_count(s),
{
    lemma_line_geometry(s, c.line as int);
    let l = c.line as int;
    let off = cursor_offset(s, c);
    if l < nl_count(s) {
        lemma_nth_nl(s, l);
        lemma_nl_count_take_step(s, nth_nl(s, l));
        if off > nth_nl(s, l) {
            lemma_nl_count_take_mono(s, nth_nl(s, l) + 1, off);
            assert(false);
        }
    }
}

/// Executable saturating addition on `usize`.
fn sat_add_usize(a: usize, b: usize) -> (r: usize)
    ensures
        r == sat_add(a, b),
{
    if a > usize::MAX - b {
        usize::MAX
    } else {
        a + b
    }
}

/// The rope-backed buffer with its cursor, selection and scroll state.
pub struct Buffer {
    rope: ropey::Rope,
    cursor: Cursor,
    selection: Option<Selection>,
    scroll_offset: usize,
}

impl View for Buffer {
    type V = BufView;

    closed spec fn view(&self) -> BufView {
        BufView {
            text: rope_chars(self.rope),
            cursor: self.cursor,
            selection: self.selection,
            scroll: self.scroll_offset,
        }
    }
}

impl Buffer {
    /// Initialises the buffer from a string slice; cursor starts at the
    /// top-left, with no selection and no scroll.
    pub fn new(text: &str) -> (b: Buffer)
        ensures
            b@ == spec_new(text@),
            b@.wf(),
    {
        let b = Buffer {
            rope: rope_from_str(text),
            cursor: Cursor { line: 0, col: 0 },
            selection: None,
            scroll_offset: 0,
        };
        proof {
            assert(text@.take(0) =~= Seq::<char>::empty());
            lemma_nl_count_bounds(text@);
        }
        b
    }

    /// Returns a copy of the current cursor position.
    pub fn cursor(&self) -> (c: Cursor)
        ensures
            c == self@.cursor,
    {
        self.cursor
    }

    /// Returns the active visual selection, if any.
    pub fn selection(&self) -> (s: Option<Selection>)
        ensures
            s == self@.selection,
    {
        self.selection
    }

    /// Returns the index of the topmost visible line.
    pub fn scroll_offset(&self) -> (n: usize)
        ensures
            n == self@.scroll,
    {
        self.scroll_offset
    }

    /// The number of lines; a trailing newline counts as an extra empty
    /// final line.
    pub fn line_count(&self) -> (n: usize)
        ensures
            n == line_count(self@.text),
    {
        rope_len_lines(&self.rope)
    }

    /// Returns the line at `idx` including any trailing newline character.
    pub fn line(&self, idx: usize) -> (s: String)
        requires
            idx < line_count(self@.text),
        ensures
            s@ == line_at(self@.text, idx as int),
    {
        rope_line(&self.rope, idx)
    }

    /// Returns the whole buffer contents as a string.
    pub fn text(&self) -> (s: String)
        ensures
            s@ == self@.text,
    {
        rope_to_string(&self.rope)
    }

    /// The length in characters of line `idx`, counting its trailing
    /// newline.
    fn line_len_chars(&self, idx: usize) -> (n: usize)
        requires
            idx < line_count(self@.text),
        ensures
            n == line_len(self@.text, idx as int),
    {
        proof {
            lemma_line_geometry(self@.text, idx as int);
            if (idx as int) < nl_count(self@.text) {
                lemma_line_start_mono(self@.text, idx as int, idx + 1 as int);
                lemma_line_geometry(self@.text, idx + 1 as int);
            }
        }
        let start = rope_line_to_char(&self.rope, idx);
        let total_lines = rope_len_lines(&self.rope);
        if idx + 1 < total_lines {
            let next = rope_line_to_char(&self.rope, idx + 1);
            next - start
        } else {
            let total = rope_len_chars(&self.rope);
            total - start
        }
    }

    /// The last column the cursor may rest on in line `idx`.
    fn last_col_of(&self, idx: usize) -> (n: usize)
        requires
            idx < line_count(self@.text),
        ensures
            n == last_col(self@.text, idx as int),
    {
        let ll = self.line_len_chars(idx);
        if ll > 0 {
            ll - 1
        } else {
            0
        }
    }

    /// Moves left without crossing line boundaries.
    pub fn move_left(&mut self)
        requires
            old(self)@.wf(),
        ensures
            final(self)@ == spec_move_left(old(self)@),
            final(self)@.wf(),
    {
        proof {
            lemma_cursor_ok_to_line_pos(self@.text, self@.cursor);
        }
        if self.cursor.col > 0 {
            self.cursor.col = self.cursor.col - 1;
        }
        proof {
            lemma_cursor_ok_from_line_pos(
                self@.text,
                self@.cursor.line as int,
                self@.cursor.col as int,
            );
        }
    }

    /// Moves right without crossing into the newline at the end of the line.
    pub fn move_right(&mut self)
        requires
            old(self)@.wf(),
        ensures
            final(self)@ == spec_move_right(old(self)@),
            final(self)@.wf(),
    {
        proof {
            lemma_cursor_ok_to_line_pos(self@.text, self@.cursor);
        }
        let mx = self.last_col_of(self.cursor.line);
        if self.cursor.col < mx {
            self.cursor.col = self.cursor.col + 1;
            proof {
                lemma_cursor_ok_from_line_pos(
                    self@.text,
                    self@.cursor.line as int,
                    self@.cursor.col as int,
                );
            }
        }
    }

    /// Moves up one line, clamping the column to the new line's last valid
    /// position.
    pub fn move_up(&mut self)
        requires
            old(self)@.wf(),
        ensures
            final(self)@ == spec_move_up(old(self)@),
            final(self)@.wf(),
    {
        proof {
            lemma_cursor_ok_to_line_pos(self@.text, self@.cursor);
        }
        if self.cursor.line > 0 {
            let l2 = self.cursor.line - 1;
            let mx = self.last_col_of(l2);
            let col = if self.cursor.col <= mx {
                self.cursor.col
            } else {
                mx
            };
            proof {
                lemma_line_geometry(self@.text, l2 as int);
            }
            self.cursor = Cursor { line: l2, col };
            proof {
                lemma_cursor_ok_from_line_pos(self@.text, l2 as int, col as int);
            }
        }
    }

    /// Moves down one line, clamping the column to the new line's last valid
    /// position.
    pub fn move_down(&mut self)
        requires
            old(self)@.wf(),
        ensures
            final(self)@ == spec_move_down(old(self)@),
            final(self)@.wf(),
    {
        proof {
            lemma_cursor_ok_to_line_pos(self@.text, self@.cursor);
        }
        let total_lines = rope_len_lines(&self.rope);
        if self.cursor.line + 1 < total_lines {
            let l2 = self.cursor.line + 1;
            let mx = self.last_col_of(l2);
            let col = if self.cursor.col <= mx {
                self.cursor.col
            } else {
                mx
            };
            proof {
                lemma_line_geometry(self@.text, l2 as int);
            }
            self.cursor = Cursor { line: l2, col };
            proof {
                lemma_cursor_ok_from_line_pos(self@.text, l2 as int, col as int);
            }
        }
    }

    /// Moves to the first character of the current line.
    pub fn move_line_start(&mut self)
        requires
            old(self)@.wf(),
        ensures
            final(self)@ == spec_move_line_start(old(self)@),
            final(self)@.wf(),
    {
        proof {
            lemma_cursor_ok_to_line_pos(self@.text, self@.cursor);
            lemma_line_geometry(self@.text, self@.cursor.line as int);
        }
        self.cursor.col = 0;
        proof {
            lemma_cursor_ok_from_line_pos(self@.text, self@.cursor.line as int, 0);
        }
    }

    /// Moves to the last character of the current line, excluding the
    /// newline.
    pub fn move_line_end(&mut self)
        requires
            old(self)@.wf(),
        ensures
            final(self)@ == spec_move_line_end(old(self)@),
            final(self)@.wf(),
    {
        proof {
            lemma_cursor_ok_to_line_pos(self@.text, self@.cursor);
            lemma_line_geometry(self@.text, self@.cursor.line as int);
        }
        let mx = self.last_col_of(self.cursor.line);
        self.cursor.col = mx;
        proof {
            lemma_cursor_ok_from_line_pos(self@.text, self@.cursor.line as int, mx as int);
        }
    }

    /// Jumps to line 0, column 0.
    pub fn move_first_line(&mut self)
        requires
            old(self)@.wf(),
        ensures
            final(self)@ == spec_move_first_line(old(self)@),
            final(self)@.wf(),
    {
        proof {
            lemma_nl_count_bounds(self@.text);
            lemma_line_geometry(self@.text, 0);
        }
        self.cursor = Cursor { line: 0, col: 0 };
        proof {
            lemma_cursor_ok_from_line_pos(self@.text, 0, 0);
        }
    }

    /// Jumps to column 0 of the last line of the buffer.
    pub fn move_last_line(&mut self)
        requires
            old(self)@.wf(),
        ensures
            final(self)@ == spec_move_last_line(old(self)@),
            final(self)@.wf(),
    {
        let total_lines = rope_len_lines(&self.rope);
        let l2 = total_lines - 1;
        proof {
            lemma_line_geometry(self@.text, l2 as int);
        }
        self.cursor = Cursor { line: l2, col: 0 };
        proof {
            lemma_cursor_ok_from_line_pos(self@.text, l2 as int, 0);
        }
    }

    /// Inserts text at the cursor and advances the cursor past the inserted
    /// characters.
    pub fn insert(&mut self, text: &str)
        requires
            old(self)@.wf(),
        ensures
            final(self)@ == spec_insert(old(self)@, text@),
            final(self)@.wf(),
    {
        let ghost s0 = self@.text;
        let ghost cur0 = self@.cursor;
        proof {
            lemma_cursor_ok_to_line_pos(s0, cur0);
            if cur0.line > 0 {
                lemma_nth_nl(s0, cur0.line as int - 1);
            }
        }
        let _total = rope_len_chars(&self.rope);
        let start = rope_line_to_char(&self.rope, self.cursor.line);
        proof {
            assert(start + cur0.col == cursor_offset(s0, cur0));
        }
        let off = start + self.cursor.col;
        rope_insert(&mut self.rope, off, text);
        let tv = crate::chars::str_chars(text);
        let n = tv.len();
        let mut nl: usize = 0;
        let mut last: usize = 0;
        let mut i: usize = 0;
        proof {
            assert(text@.take(0) =~= Seq::<char>::empty());
        }
        while i < n
            invariant
                i <= n,
                n == text@.len(),
                tv@ == text@,
                nl == nl_count(text@.take(i as int)),
                nl <= i,
                nl > 0 ==> last < i && last as int == nth_nl(text@, nl as int - 1),
            decreases n - i,
        {
            proof {
                lemma_nl_count_take_step(text@, i as int);
            }
            if tv[i] == '\n' {
                proof {
                    lemma_nth_nl_inverse(text@, i as int);
                }
                nl = nl + 1;
                last = i;
            }
            i = i + 1;
        }
        proof {
            assert(text@.take(n as int) =~= text@);
        }
        let _new_total = rope_len_chars(&self.rope);
        proof {
            assert(self@.text.len() == s0.len() + n);
            lemma_insert_cursor(s0, cur0, text@);
            lemma_nl_count_bounds(s0);
            lemma_advance_closed(cur0, text@);
        }
        if nl == 0 {
            self.cursor = Cursor { line: self.cursor.line, col: self.cursor.col + n };
        } else {
            self.cursor = Cursor { line: self.cursor.line + nl, col: n - 1 - last };
        }
    }

    /// Deletes the character immediately before the cursor, joining lines if
    /// the cursor is at column 0. A no-op at the start of the buffer.
    pub fn delete_before(&mut self)
        requires
            old(self)@.wf(),
        ensures
            final(self)@ == spec_delete_before(old(self)@),
            final(self)@.wf(),
    {
        let ghost s0 = self@.text;
        let ghost cur0 = self@.cursor;
        if self.cursor.col == 0 && self.cursor.line == 0 {
            return ;
        }
        proof {
            lemma_cursor_ok_to_line_pos(s0, cur0);
            lemma_line_geometry(s0, cur0.line as int);
            if cur0.line > 0 {
                lemma_nth_nl(s0, cur0.line as int - 1);
            }
        }
        let _total = rope_len_chars(&self.rope);
        let start = rope_line_to_char(&self.rope, self.cursor.line);
        let off = start + self.cursor.col;
        let ghost offg = off as int;
        let ghost t2 = s0.take(offg - 1) + s0.skip(offg);
        proof {
            assert(s0 =~= s0.take(offg) + s0.skip(offg));
            lemma_nl_count_concat(s0.take(offg), s0.skip(offg));
            lemma_nl_count_concat(s0.take(offg - 1), s0.skip(offg));
            lemma_nl_count_take_step(s0, offg - 1);
            assert(t2.take(offg - 1) =~= s0.take(offg - 1));
        }
        rope_remove(&mut self.rope, off - 1, off);
        if self.cursor.col == 0 {
            // the removed character was the previous line's newline
            proof {
                assert(s0[offg - 1] == '\n');
                assert(nl_count(t2) == nl_count(s0) - 1);
            }
            let l2 = self.cursor.line - 1;
            let ll = self.line_len_chars(l2);
            let col = if ll > 0 {
                ll - 1
            } else {
                0
            };
            proof {
                lemma_line_geometry(t2, l2 as int);
            }
            self.cursor = Cursor { line: l2, col };
            proof {
                lemma_cursor_ok_from_line_pos(t2, l2 as int, col as int);
            }
        } else {
            // the removed character sits inside the line, so it is no newline
            proof {
                assert(s0[offg - 1] != '\n');
                assert(nl_count(t2) == nl_count(s0));
                assert(nl_count(s0.take(offg - 1)) == cur0.line);
                if cur0.line > 0 {
                    lemma_nth_nl_prefix(t2, offg - 1, cur0.line as int - 1);
                    lemma_nth_nl_prefix(s0, offg - 1, cur0.line as int - 1);
                }
            }
            self.cursor = Cursor { line: self.cursor.line, col: self.cursor.col - 1 };
            proof {
                assert(cursor_offset(t2, self@.cursor) == offg - 1);
                assert(cursor_ok(t2, self@.cursor));
            }
        }
    }

    /// Deletes the character under the cursor, clamping the column to the
    /// new line length afterward. A no-op on an empty line.
    pub fn delete_char_at_cursor(&mut self)
        requires
            old(self)@.wf(),
        ensures
            final(self)@ == spec_delete_char_at_cursor(old(self)@),
            final(self)@.wf(),
    {
        let ghost s0 = self@.text;
        let ghost cur0 = self@.cursor;
        proof {
            lemma_cursor_ok_to_line_pos(s0, cur0);
            lemma_line_geometry(s0, cur0.line as int);
            if cur0.line > 0 {
                lemma_nth_nl(s0, cur0.line as int - 1);
            }
        }
        let ll = self.line_len_chars(self.cursor.line);
        if ll == 0 {
            return ;
        }
        let total = rope_len_chars(&self.rope);
        let start = rope_line_to_char(&self.rope, self.cursor.line);
        let off = start + self.cursor.col;
        if off >= total {
            return ;
        }
        let ghost offg = off as int;
        let ghost t2 = s0.take(offg) + s0.skip(offg + 1);
        proof {
            assert(s0 =~= s0.take(offg + 1) + s0.skip(offg + 1));
            lemma_nl_count_concat(s0.take(offg + 1), s0.skip(offg + 1));
            lemma_nl_count_concat(s0.take(offg), s0.skip(offg + 1));
            lemma_nl_count_take_step(s0, offg);
            assert(t2.take(offg) =~= s0.take(offg));
            if s0[offg] == '\n' {
                // removing a line break: the cursor's line must have more
                // lines after it
                lemma_nth_nl_inverse(s0, offg);
                assert(cur0.line as int <= nl_count(t2));
            } else {
                assert(nl_count(t2) == nl_count(s0));
            }
        }
        rope_remove(&mut self.rope, off, off + 1);
        let nll = self.line_len_chars(self.cursor.line);
        proof {
            lemma_line_geometry(t2, cur0.line as int);
        }
        if self.cursor.col >= nll && nll > 0 {
            self.cursor = Cursor { line: self.cursor.line, col: nll - 1 };
            proof {
                lemma_cursor_ok_from_line_pos(t2, cur0.line as int, nll as int - 1);
            }
        } else {
            // the cursor's offset is unchanged and still precedes the same
            // number of newlines, so the position stays consistent
            proof {
                if cur0.line > 0 {
                    lemma_nth_nl_prefix(t2, offg, cur0.line as int - 1);
                    lemma_nth_nl_prefix(s0, offg, cur0.line as int - 1);
                }
                assert(cursor_offset(t2, cur0) == offg);
                assert(nl_count(t2.take(offg)) == cur0.line);
                assert(cursor_ok(t2, cur0));
            }
        }
    }

    /// Inserts `text` at the cursor; used at call sites that hold yanked
    /// text.
    pub fn paste(&mut self, text: &str)
        requires
            old(self)@.wf(),
        ensures
            final(self)@ == spec_insert(old(self)@, text@),
            final(self)@.wf(),
    {
        self.insert(text);
    }

    /// Whether line `idx` is entirely whitespace.
    fn line_is_blank(&self, idx: usize) -> (b: bool)
        requires
            idx < line_count(self@.text),
        ensures
            b == blank_line(self@.text, idx as int),
    {
        let ls = rope_line(&self.rope, idx);
        let lc = crate::chars::str_chars(ls.as_str());
        let n = lc.len();
        let mut i: usize = 0;
        while i < n
            invariant
                i <= n,
                n == line_at(self@.text, idx as int).len(),
                lc@ == line_at(self@.text, idx as int),
                forall|j: int|
                    0 <= j < i ==> crate::chars::is_space_char(
                        #[trigger] line_at(self@.text, idx as int)[j],
                    ),
            decreases n - i,
        {
            if !crate::chars::char_is_space(lc[i]) {
                return false;
            }
            i = i + 1;
        }
        true
    }

    /// Advances to the start of the next word, staying on the current line.
    pub fn move_word_forward(&mut self)
        requires
            old(self)@.wf(),
        ensures
            final(self)@ == spec_move_word_forward(old(self)@),
            final(self)@.wf(),
    {
        let ghost s0 = self@.text;
        let ghost cur0 = self@.cursor;
        proof {
            lemma_cursor_ok_to_line_pos(s0, cur0);
            lemma_line_geometry(s0, cur0.line as int);
        }
        let ls = rope_line(&self.rope, self.cursor.line);
        let lc = crate::chars::str_chars(ls.as_str());
        let ghost lcg = lc@;
        let n = lc.len();
        let mut col = self.cursor.col;
        while col < n && crate::chars::char_is_word(lc[col])
            invariant
                lc@ == lcg,
                n == lcg.len(),
                col <= n,
                skip_word_chars(lcg, cur0.col as int) == skip_word_chars(lcg, col as int),
            decreases n - col,
        {
            col = col + 1;
        }
        while col < n && !crate::chars::char_is_word(lc[col])
            invariant
                lc@ == lcg,
                n == lcg.len(),
                col <= n,
                skip_gap_chars(lcg, skip_word_chars(lcg, cur0.col as int)) == skip_gap_chars(
                    lcg,
                    col as int,
                ),
            decreases n - col,
        {
            col = col + 1;
        }
        let mx = if n > 0 {
            n - 1
        } else {
            0
        };
        let c2 = if col <= mx {
            col
        } else {
            mx
        };
        self.cursor = Cursor { line: self.cursor.line, col: c2 };
        proof {
            lemma_cursor_ok_from_line_pos(s0, cur0.line as int, c2 as int);
        }
    }

    /// Moves back to the start of the previous word, staying on the current
    /// line.
    pub fn move_word_back(&mut self)
        requires
            old(self)@.wf(),
        ensures
            final(self)@ == spec_move_word_back(old(self)@),
            final(self)@.wf(),
    {
        let ghost s0 = self@.text;
        let ghost cur0 = self@.cursor;
        proof {
            lemma_cursor_ok_to_line_pos(s0, cur0);
            lemma_line_geometry(s0, cur0.line as int);
        }
        if self.cursor.col == 0 {
            return ;
        }
        let ls = rope_line(&self.rope, self.cursor.line);
        let lc = crate::chars::str_chars(ls.as_str());
        let ghost lcg = lc@;
        let n = lc.len();
        let mut col = self.cursor.col - 1;
        while col > 0 && !crate::chars::char_is_word(lc[col])
            invariant
                lc@ == lcg,
                n == lcg.len(),
                col < n,
                back_over_gap(lcg, cur0.col - 1) == back_over_gap(lcg, col as int),
            decreases col,
        {
            col = col - 1;
        }
        while col > 0 && crate::chars::char_is_word(lc[col - 1])
            invariant
                lc@ == lcg,
                n == lcg.len(),
                col < n,
                back_to_word_start(lcg, back_over_gap(lcg, cur0.col - 1)) == back_to_word_start(
                    lcg,
                    col as int,
                ),
            decreases col,
        {
            col = col - 1;
        }
        self.cursor = Cursor { line: self.cursor.line, col };
        proof {
            lemma_cursor_ok_from_line_pos(s0, cur0.line as int, col as int);
        }
    }

    /// Jumps to the next blank line, or the last line if none exists.
    pub fn move_paragraph_forward(&mut self)
        requires
            old(self)@.wf(),
        ensures
            final(self)@ == spec_move_paragraph_forward(old(self)@),
            final(self)@.wf(),
    {
        let ghost s0 = self@.text;
        let ghost cur0 = self@.cursor;
        proof {
            lemma_cursor_ok_to_line_pos(s0, cur0);
        }
        let total_lines = rope_len_lines(&self.rope);
        let mut ln = self.cursor.line + 1;
        while ln < total_lines && !self.line_is_blank(ln)
            invariant
                cur0.line + 1 <= ln <= total_lines,
                total_lines == line_count(s0),
                self@ == old(self)@,
                self@.text == s0,
                next_blank_line(s0, cur0.line + 1) == next_blank_line(s0, ln as int),
            decreases total_lines - ln,
        {
            ln = ln + 1;
        }
        let l2 = if ln < total_lines {
            ln
        } else {
            total_lines - 1
        };
        proof {
            lemma_line_geometry(s0, l2 as int);
        }
        self.cursor = Cursor { line: l2, col: 0 };
        proof {
            lemma_cursor_ok_from_line_pos(s0, l2 as int, 0);
        }
    }

    /// Jumps to the previous blank line, or line 0 if none exists.
    pub fn move_paragraph_back(&mut self)
        requires
            old(self)@.wf(),
        ensures
            final(self)@ == spec_move_paragraph_back(old(self)@),
            final(self)@.wf(),
    {
        let ghost s0 = self@.text;
        let ghost cur0 = self@.cursor;
        proof {
            lemma_cursor_ok_to_line_pos(s0, cur0);
        }
        if self.cursor.line == 0 {
            return ;
        }
        let mut ln = self.cursor.line - 1;
        while ln > 0 && !self.line_is_blank(ln)
            invariant
                ln <= cur0.line - 1,
                (cur0.line as int) < line_count(s0),
                self@ == old(self)@,
                self@.text == s0,
                prev_blank_line(s0, cur0.line - 1) == prev_blank_line(s0, ln as int),
            decreases ln,
        {
            ln = ln - 1;
        }
        let l2 = if self.line_is_blank(ln) {
            ln
        } else {
            0
        };
        proof {
            lemma_line_geometry(s0, l2 as int);
        }
        self.cursor = Cursor { line: l2, col: 0 };
        proof {
            lemma_cursor_ok_from_line_pos(s0, l2 as int, 0);
        }
    }

    /// Clamps the scroll offset so the cursor stays within a 3-line margin
    /// from both edges of a viewport of `viewport_lines` fully visible
    /// lines.
    pub fn clamp_scroll(&mut self, viewport_lines: usize)
        requires
            old(self)@.wf(),
        ensures
            final(self)@ == spec_clamp_scroll(old(self)@, viewport_lines),
            final(self)@.wf(),
    {
        let line = self.cursor.line;
        if line < sat_add_usize(self.scroll_offset, 3) {
            self.scroll_offset = if line >= 3 {
                line - 3
            } else {
                0
            };
        }
        if sat_add_usize(line, 3) >= sat_add_usize(self.scroll_offset, viewport_lines) {
            self.scroll_offset = sat_add_usize(sat_add_usize(line, 3), 1) - viewport_lines;
        }
        let total_lines = rope_len_lines(&self.rope);
        let mx = total_lines - 1;
        if self.scroll_offset > mx {
            self.scroll_offset = mx;
        }
    }

    /// The cursor position denoted by a linear character offset.
    fn cursor_at(&self, off: usize) -> (c: Cursor)
        requires
            off as int <= self@.text.len(),
        ensures
            c == cursor_of_offset(self@.text, off as int),
            cursor_ok(self@.text, c),
    {
        proof {
            lemma_line_of_offset(self@.text, off as int);
            lemma_nl_count_bounds(self@.text);
            lemma_nl_count_take_mono(self@.text, 0, off as int);
        }
        let line = rope_char_to_line(&self.rope, off);
        let start = rope_line_to_char(&self.rope, line);
        Cursor { line, col: off - start }
    }

    /// The clamped linear offset of a selection endpoint.
    fn sel_offset_at(&self, c: Cursor) -> (n: usize)
        ensures
            n == sel_offset(self@.text, c),
            n <= self@.text.len(),
    {
        proof {
            lemma_nl_count_bounds(self@.text);
        }
        let total = rope_len_chars(&self.rope);
        let total_lines = rope_len_lines(&self.rope);
        let l = if c.line <= total_lines - 1 {
            c.line
        } else {
            total_lines - 1
        };
        proof {
            lemma_line_geometry(self@.text, l as int);
        }
        let start = rope_line_to_char(&self.rope, l);
        if c.col > total - start {
            total
        } else {
            start + c.col
        }
    }

    /// Returns the selected text as a string: the inclusive character range
    /// between the selection's endpoints, in either order; empty when no
    /// selection is active.
    pub fn yank_selection(&self) -> (r: String)
        ensures
            r@ == spec_yank_text(self@),
    {
        match self.selection {
            None => String::new(),
            Some(sel) => {
                let ao = self.sel_offset_at(sel.anchor);
                let ho = self.sel_offset_at(sel.head);
                let total = rope_len_chars(&self.rope);
                let s = if ao <= ho {
                    ao
                } else {
                    ho
                };
                let m = if ao <= ho {
                    ho
                } else {
                    ao
                };
                let e = if m >= total {
                    total
                } else {
                    m + 1
                };
                rope_slice_string(&self.rope, s, e)
            },
        }
    }

    /// Yanks and removes the selected range, placing the cursor at the
    /// earlier of the two endpoints and clearing the selection. Returns the
    /// yanked text.
    pub fn delete_selection(&mut self) -> (r: String)
        requires
            old(self)@.wf(),
        ensures
            final(self)@ == spec_delete_selection(old(self)@),
            r@ == spec_yank_text(old(self)@),
            final(self)@.wf(),
    {
        let yanked = self.yank_selection();
        match self.selection {
            None => {
                self.selection = None;
            },
            Some(sel) => {
                let ao = self.sel_offset_at(sel.anchor);
                let ho = self.sel_offset_at(sel.head);
                let total = rope_len_chars(&self.rope);
                let s = if ao <= ho {
                    ao
                } else {
                    ho
                };
                let m = if ao <= ho {
                    ho
                } else {
                    ao
                };
                let e = if m >= total {
                    total
                } else {
                    m + 1
                };
                rope_remove(&mut self.rope, s, e);
                let c = self.cursor_at(s);
                self.cursor = c;
                self.selection = None;
            },
        }
        yanked
    }

    /// Begins a visual selection with both anchor and head at the cursor.
    pub fn start_visual(&mut self)
        ensures
            final(self)@ == spec_start_visual(old(self)@),
    {
        self.selection = Some(Selection { anchor: self.cursor, head: self.cursor });
    }

    /// Updates the moving end of the selection to track the current cursor.
    pub fn update_visual_head(&mut self)
        ensures
            final(self)@ == spec_update_visual_head(old(self)@),
    {
        if let Some(sel) = self.selection {
            self.selection = Some(Selection { anchor: sel.anchor, head: self.cursor });
        }
    }

    /// Clears the active selection without modifying the text.
    pub fn clear_selection(&mut self)
        ensures
            final(self)@ == spec_clear_selection(old(self)@),
    {
        self.selection = None;
    }
}

} // verus!
