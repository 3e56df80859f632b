//! A plain line-based document with a cursor, as the host's direct editing
//! view keeps one: a list of lines, the cursor's line and character column,
//! and the last-saved snapshot for dirty tracking. Unlike the rope-backed
//! buffer, motions here wrap across line ends and the cursor may rest one
//! past a line's last character.

use vstd::prelude::*;
use vstd::string::{StrSliceExecFns, StringExecFns};
use crate::chars::{str_chars, str_eq, string_from_chars};

verus! {

/// The views of a sequence of lines.
pub open spec fn lines_view(s: Seq<String>) -> Seq<Seq<char>> {
    s.map_values(|l: String| l@)
}

/// One open document in the direct editing view.
#[derive(Debug)]
pub struct LineDoc {
    pub content_lines: Vec<String>,
    pub saved_content: Vec<String>,
    pub cursor_line: usize,
    pub cursor_column: usize,
}

/// The document's invariant: the cursor addresses a line and a column no
/// further than one past its last character (or rests at the origin of an
/// empty document).
pub open spec fn doc_wf(lines: Seq<Seq<char>>, line: usize, col: usize) -> bool {
    if lines.len() == 0 {
        line == 0 && col == 0
    } else {
        line < lines.len() && col <= lines[line as int].len()
    }
}

impl LineDoc {
    /// The invariant, over the document's own fields.
    pub open spec fn wf(&self) -> bool {
        doc_wf(lines_view(self.content_lines@), self.cursor_line, self.cursor_column)
    }

    /// Builds a document over the given lines with the cursor at the given
    /// position, the saved snapshot matching the content.
    pub fn new(lines: Vec<String>, cursor_line: usize, cursor_column: usize) -> (d: LineDoc)
        requires
            doc_wf(lines_view(lines@), cursor_line, cursor_column),
        ensures
            d.content_lines == lines,
            d.saved_content@ == lines@,
            d.cursor_line == cursor_line,
            d.cursor_column == cursor_column,
            d.wf(),
    {
        let mut saved: Vec<String> = Vec::new();
        let mut i: usize = 0;
        while i < lines.len()
            invariant
                i <= lines@.len(),
                saved@ =~= lines@.take(i as int),
            decreases lines@.len() - i,
        {
            saved.push(lines[i].clone());
            i = i + 1;
            proof {
                assert(lines@.take(i as int) =~= lines@.take(i - 1).push(lines@[i - 1]));
            }
        }
        proof {
            assert(lines@.take(lines@.len() as int) =~= lines@);
        }
        LineDoc { content_lines: lines, saved_content: saved, cursor_line, cursor_column }
    }

    /// Whether the content differs from the last-saved snapshot.
    pub fn is_dirty(&self) -> (r: bool)
        ensures
            r == (lines_view(self.content_lines@) != lines_view(self.saved_content@)),
    {
        let n = self.content_lines.len();
        if n != self.saved_content.len() {
            proof {
                if lines_view(self.content_lines@) == lines_view(self.saved_content@) {
                    assert(false);
                }
            }
            return true;
        }
        let mut i: usize = 0;
        while i < n
            invariant
                i <= n,
                n == self.content_lines@.len(),
                n == self.saved_content@.len(),
                forall|j: int|
                    0 <= j < i ==> (#[trigger] self.content_lines@[j])@ == self.saved_content@[j]@,
            decreases n - i,
        {
            if !str_eq(self.content_lines[i].as_str(), self.saved_content[i].as_str()) {
                proof {
                    if lines_view(self.content_lines@) == lines_view(self.saved_content@) {
                        assert(lines_view(self.content_lines@)[i as int] == lines_view(
                            self.saved_content@,
                        )[i as int]);
                    }
                }
                return true;
            }
            i = i + 1;
        }
        proof {
            assert(lines_view(self.content_lines@) =~= lines_view(self.saved_content@));
        }
        false
    }

    /// Marks the content as saved: the snapshot becomes the content.
    pub fn mark_saved(&mut self)
        ensures
            final(self).content_lines == old(self).content_lines,
            final(self).saved_content@ == old(self).content_lines@,
            final(self).cursor_line == old(self).cursor_line,
            final(self).cursor_column == old(self).cursor_column,
    {
        let n = self.content_lines.len();
        let mut saved: Vec<String> = Vec::new();
        let mut i: usize = 0;
        while i < n
            invariant
                i <= n,
                n == self.content_lines@.len(),
                self.content_lines == old(self).content_lines,
                self.cursor_line == old(self).cursor_line,
                self.cursor_column == old(self).cursor_column,
                saved@ =~= self.content_lines@.take(i as int),
            decreases n - i,
        {
            saved.push(self.content_lines[i].clone());
            i = i + 1;
            proof {
                assert(self.content_lines@.take(i as int) =~= self.content_lines@.take(
                    i - 1,
                ).push(self.content_lines@[i - 1]));
            }
        }
        proof {
            assert(self.content_lines@.take(n as int) =~= self.content_lines@);
        }
        self.saved_content = saved;
    }
}

/// Replaces one line of the document.
fn set_line(doc: &mut LineDoc, idx: usize, line: String)
    requires
        idx < old(doc).content_lines@.len(),
    ensures
        final(doc).content_lines@ == old(doc).content_lines@.update(idx as int, line),
        final(doc).saved_content == old(doc).saved_content,
        final(doc).cursor_line == old(doc).cursor_line,
        final(doc).cursor_column == old(doc).cursor_column,
{
    doc.content_lines.set(idx, line);
}

/// The characters of one line, rebuilt around an edit.
fn splice_line(line: &str, at: usize, insert: Option<char>, remove: bool) -> (r: String)
    requires
        at <= line@.len(),
        remove ==> at < line@.len(),
        insert is Some ==> !remove,
    ensures
        insert matches Some(c) ==> r@ == line@.take(at as int) + seq![c] + line@.skip(at as int),
        insert is None && remove ==> r@ == line@.take(at as int) + line@.skip(at + 1),
        insert is Some ==> line@.len() < usize::MAX,
{
    let lc = str_chars(line);
    let n = lc.len();
    let mut out: Vec<char> = Vec::new();
    let mut i: usize = 0;
    while i < at
        invariant
            i <= at <= n,
            n == line@.len(),
            lc@ == line@,
            out@ =~= line@.take(i as int),
        decreases at - i,
    {
        out.push(lc[i]);
        i = i + 1;
        proof {
            assert(line@.take(i as int) =~= line@.take(i - 1).push(line@[i - 1]));
        }
    }
    if let Some(c) = insert {
        out.push(c);
    }
    let mut j: usize = if remove {
        at + 1
    } else {
        at
    };
    let ghost start = j as int;
    let ghost mid = out@;
    while j < n
        invariant
            0 <= start <= j <= n,
            n == line@.len(),
            lc@ == line@,
            out@ =~= mid + line@.subrange(start, j as int),
        decreases n - j,
    {
        out.push(lc[j]);
        j = j + 1;
        proof {
            assert(line@.subrange(start, j as int) =~= line@.subrange(start, j - 1).push(
                line@[j - 1],
            ));
            assert(mid + line@.subrange(start, j - 1).push(line@[j - 1]) =~= (mid
                + line@.subrange(start, j - 1)).push(line@[j - 1]));
        }
    }
    let total = out.len();
    proof {
        if insert is Some && !remove {
            assert(total == line@.len() + 1);
        }
    }
    let s = string_from_chars(&out);
    proof {
        match insert {
            Some(c) => {
                assert(s@ =~= line@.take(at as int) + seq![c] + line@.skip(at as int));
            },
            None => {
                if remove {
                    assert(s@ =~= line@.take(at as int) + line@.skip(at + 1));
                }
            },
        }
    }
    s
}

/// Inserts a character at the cursor and advances the column. An empty
/// document first gains one empty line (and an empty saved snapshot, so the
/// edit counts as unsaved).
pub fn insert_char(doc: &mut LineDoc, ch: char)
    requires
        old(doc).wf(),
    ensures
        ({
            let lines0 = lines_view(old(doc).content_lines@);
            let lines1 = if lines0.len() == 0 {
                seq![Seq::<char>::empty()]
            } else {
                lines0
            };
            let l = old(doc).cursor_line as int;
            let at = old(doc).cursor_column as int;
            lines_view(final(doc).content_lines@) == lines1.update(
                l,
                lines1[l].take(at) + seq![ch] + lines1[l].skip(at),
            ) && final(doc).cursor_line == old(doc).cursor_line && final(doc).cursor_column == old(doc).cursor_column + 1
        }),
        final(doc).wf(),
{
    if doc.content_lines.len() == 0 {
        doc.content_lines.push(String::new());
        doc.saved_content = Vec::new();
        proof {
            assert(lines_view(doc.content_lines@) =~= seq![Seq::<char>::empty()]);
        }
    }
    let line = splice_line(
        doc.content_lines[doc.cursor_line].as_str(),
        doc.cursor_column,
        Some(ch),
        false,
    );
    let idx = doc.cursor_line;
    set_line(doc, idx, line);
    doc.cursor_column = doc.cursor_column + 1;
    proof {
        let lines0 = lines_view(old(doc).content_lines@);
        let lines1 = if lines0.len() == 0 {
            seq![Seq::<char>::empty()]
        } else {
            lines0
        };
        let l = old(doc).cursor_line as int;
        let at = old(doc).cursor_column as int;
        assert(lines_view(final(doc).content_lines@) =~~= lines1.update(
            l,
            lines1[l].take(at) + seq![ch] + lines1[l].skip(at),
        ));
    }
}

/// Removes the character before the cursor; at column 0 it joins the
/// current line onto the previous one. A no-op at the document's start or
/// on an empty document.
pub fn backspace(doc: &mut LineDoc)
    requires
        old(doc).wf(),
    ensures
        ({
            let lines0 = lines_view(old(doc).content_lines@);
            let l = old(doc).cursor_line as int;
            let at = old(doc).cursor_column as int;
            if lines0.len() == 0 {
                final(doc).content_lines == old(doc).content_lines && final(doc).cursor_line
                    == old(doc).cursor_line && final(doc).cursor_column == old(doc).cursor_column
            } else if at > 0 {
                lines_view(final(doc).content_lines@) == lines0.update(
                    l,
                    lines0[l].take(at - 1) + lines0[l].skip(at),
                ) && final(doc).cursor_line == old(doc).cursor_line && final(doc).cursor_column
                    == old(doc).cursor_column - 1
            } else if l > 0 {
                lines_view(final(doc).content_lines@) == lines0.remove(l).update(
                    l - 1,
                    lines0[l - 1] + lines0[l],
                ) && final(doc).cursor_line == old(doc).cursor_line - 1
                    && final(doc).cursor_column as int == lines0[l - 1].len()
            } else {
                final(doc).content_lines == old(doc).content_lines && final(doc).cursor_line
                    == old(doc).cursor_line && final(doc).cursor_column == old(doc).cursor_column
            }
        }),
        final(doc).wf(),
{
    if doc.content_lines.len() == 0 {
        return ;
    }
    if doc.cursor_column > 0 {
        let line = splice_line(
            doc.content_lines[doc.cursor_line].as_str(),
            doc.cursor_column - 1,
            None,
            true,
        );
        let idx = doc.cursor_line;
        set_line(doc, idx, line);
        doc.cursor_column = doc.cursor_column - 1;
        proof {
            assert(lines_view(final(doc).content_lines@) =~~= lines_view(
                old(doc).content_lines@,
            ).update(
                old(doc).cursor_line as int,
                lines_view(old(doc).content_lines@)[old(doc).cursor_line as int].take(
                    old(doc).cursor_column - 1,
                ) + lines_view(old(doc).content_lines@)[old(doc).cursor_line as int].skip(
                    old(doc).cursor_column as int,
                ),
            ));
        }
    } else if doc.cursor_line > 0 {
        let current = doc.content_lines.remove(doc.cursor_line);
        doc.cursor_line = doc.cursor_line - 1;
        let prev = doc.content_lines[doc.cursor_line].as_str().unicode_len();
        let mut joined = doc.content_lines[doc.cursor_line].clone();
        joined.append(current.as_str());
        let idx = doc.cursor_line;
        set_line(doc, idx, joined);
        doc.cursor_column = prev;
        proof {
            let lines0 = lines_view(old(doc).content_lines@);
            let l = old(doc).cursor_line as int;
            assert(lines_view(final(doc).content_lines@) =~~= lines0.remove(l).update(
                l - 1,
                lines0[l - 1] + lines0[l],
            ));
        }
    }
}

/// Removes the character under the cursor; at the line's end it joins the
/// next line on. A no-op on an empty document or at the document's end.
pub fn delete_char(doc: &mut LineDoc)
    requires
        old(doc).wf(),
    ensures
        ({
            let lines0 = lines_view(old(doc).content_lines@);
            let l = old(doc).cursor_line as int;
            let at = old(doc).cursor_column as int;
            &&& final(doc).cursor_line == old(doc).cursor_line
            &&& final(doc).cursor_column == old(doc).cursor_column
            &&& lines_view(final(doc).content_lines@) == (if lines0.len() == 0 {
                lines0
            } else if at < lines0[l].len() {
                lines0.update(l, lines0[l].take(at) + lines0[l].skip(at + 1))
            } else if l + 1 < lines0.len() {
                lines0.remove(l + 1).update(l, lines0[l] + lines0[l + 1])
            } else {
                lines0
            })
        }),
        final(doc).wf(),
{
    if doc.content_lines.len() == 0 {
        return ;
    }
    let line_chars = doc.content_lines[doc.cursor_line].as_str().unicode_len();
    if doc.cursor_column < line_chars {
        let line = splice_line(
            doc.content_lines[doc.cursor_line].as_str(),
            doc.cursor_column,
            None,
            true,
        );
        let idx = doc.cursor_line;
        set_line(doc, idx, line);
        proof {
            let lines0 = lines_view(old(doc).content_lines@);
            let l = old(doc).cursor_line as int;
            let at = old(doc).cursor_column as int;
            assert(lines_view(final(doc).content_lines@) =~~= lines0.update(
                l,
                lines0[l].take(at) + lines0[l].skip(at + 1),
            ));
        }
    } else if doc.cursor_line + 1 < doc.content_lines.len() {
        let next = doc.content_lines.remove(doc.cursor_line + 1);
        let mut joined = doc.content_lines[doc.cursor_line].clone();
        joined.append(next.as_str());
        let idx = doc.cursor_line;
        set_line(doc, idx, joined);
        proof {
            let lines0 = lines_view(old(doc).content_lines@);
            let l = old(doc).cursor_line as int;
            assert(lines_view(final(doc).content_lines@) =~~= lines0.remove(l + 1).update(
                l,
                lines0[l] + lines0[l + 1],
            ));
        }
    }
}

/// Splits the current line at the cursor and moves to the start of the new
/// line. An empty document becomes two empty lines.
pub fn insert_newline(doc: &mut LineDoc)
    requires
        old(doc).wf(),
    ensures
        ({
            let lines0 = lines_view(old(doc).content_lines@);
            let l = old(doc).cursor_line as int;
            let at = old(doc).cursor_column as int;
            &&& final(doc).cursor_column == 0
            &&& (if lines0.len() == 0 {
                lines_view(final(doc).content_lines@) == seq![
                    Seq::<char>::empty(),
                    Seq::<char>::empty(),
                ] && final(doc).cursor_line == 1
            } else {
                lines_view(final(doc).content_lines@) == lines0.update(l, lines0[l].take(at)).insert(
                    l + 1,
                    lines0[l].skip(at),
                ) && final(doc).cursor_line == old(doc).cursor_line + 1
            })
        }),
        final(doc).wf(),
{
    if doc.content_lines.len() == 0 {
        doc.content_lines.push(String::new());
        doc.content_lines.push(String::new());
        doc.cursor_line = 1;
        doc.cursor_column = 0;
        proof {
            assert(lines_view(final(doc).content_lines@) =~~= seq![
                Seq::<char>::empty(),
                Seq::<char>::empty(),
            ]);
        }
        return ;
    }
    let lc = str_chars(doc.content_lines[doc.cursor_line].as_str());
    let n = lc.len();
    let mut head: Vec<char> = Vec::new();
    let mut i: usize = 0;
    let ghost linev = lc@;
    while i < doc.cursor_column
        invariant
            i <= doc.cursor_column <= n,
            n == linev.len(),
            lc@ == linev,
            doc == old(doc),
            head@ =~= linev.take(i as int),
        decreases doc.cursor_column - i,
    {
        head.push(lc[i]);
        i = i + 1;
        proof {
            assert(linev.take(i as int) =~= linev.take(i - 1).push(linev[i - 1]));
        }
    }
    let mut tail: Vec<char> = Vec::new();
    let mut j: usize = doc.cursor_column;
    while j < n
        invariant
            doc.cursor_column <= j <= n,
            n == linev.len(),
            lc@ == linev,
            doc == old(doc),
            tail@ =~= linev.subrange(doc.cursor_column as int, j as int),
        decreases n - j,
    {
        tail.push(lc[j]);
        j = j + 1;
        proof {
            assert(linev.subrange(doc.cursor_column as int, j as int) =~= linev.subrange(
                doc.cursor_column as int,
                j - 1,
            ).push(linev[j - 1]));
        }
    }
    let head_s = string_from_chars(&head);
    let tail_s = string_from_chars(&tail);
    let idx = doc.cursor_line;
    set_line(doc, idx, head_s);
    doc.content_lines.insert(idx + 1, tail_s);
    doc.cursor_line = doc.cursor_line + 1;
    doc.cursor_column = 0;
    proof {
        let lines0 = lines_view(old(doc).content_lines@);
        let l = old(doc).cursor_line as int;
        let at = old(doc).cursor_column as int;
        assert(lines_view(final(doc).content_lines@) =~~= lines0.update(l, lines0[l].take(
            at,
        )).insert(l + 1, lines0[l].skip(at)));
    }
}

/// Moves left one character, wrapping to the end of the previous line.
pub fn move_left(doc: &mut LineDoc)
    requires
        old(doc).wf(),
    ensures
        final(doc).content_lines == old(doc).content_lines,
        ({
            let lines0 = lines_view(old(doc).content_lines@);
            let l = old(doc).cursor_line as int;
            if old(doc).cursor_column > 0 {
                final(doc).cursor_line == old(doc).cursor_line && final(doc).cursor_column == old(doc).cursor_column - 1
            } else if l > 0 {
                final(doc).cursor_line == old(doc).cursor_line - 1 && final(doc).cursor_column as int == lines0[l - 1].len()
            } else {
                final(doc).cursor_line == old(doc).cursor_line && final(doc).cursor_column == old(doc).cursor_column
            }
        }),
        final(doc).wf(),
{
    if doc.cursor_column > 0 {
        doc.cursor_column = doc.cursor_column - 1;
    } else if doc.cursor_line > 0 {
        doc.cursor_line = doc.cursor_line - 1;
        doc.cursor_column = doc.content_lines[doc.cursor_line].as_str().unicode_len();
    }
}

/// Moves right one character, wrapping to the start of the next line.
pub fn move_right(doc: &mut LineDoc)
    requires
        old(doc).wf(),
    ensures
        final(doc).content_lines == old(doc).content_lines,
        ({
            let lines0 = lines_view(old(doc).content_lines@);
            let l = old(doc).cursor_line as int;
            let at = old(doc).cursor_column as int;
            if lines0.len() > 0 && at < lines0[l].len() {
                final(doc).cursor_line == old(doc).cursor_line && final(doc).cursor_column as int == at + 1
            } else if lines0.len() > 0 && l + 1 < lines0.len() {
                final(doc).cursor_line == old(doc).cursor_line + 1 && final(doc).cursor_column == 0
            } else {
                final(doc).cursor_line == old(doc).cursor_line && final(doc).cursor_column == old(doc).cursor_column
            }
        }),
        final(doc).wf(),
{
    if doc.content_lines.len() == 0 {
        return ;
    }
    let line_chars = doc.content_lines[doc.cursor_line].as_str().unicode_len();
    if doc.cursor_column < line_chars {
        doc.cursor_column = doc.cursor_column + 1;
    } else if doc.cursor_line + 1 < doc.content_lines.len() {
        doc.cursor_line = doc.cursor_line + 1;
        doc.cursor_column = 0;
    }
}

/// Moves up one line, clamping the column to the new line's length.
pub fn move_up(doc: &mut LineDoc)
    requires
        old(doc).wf(),
    ensures
        final(doc).content_lines == old(doc).content_lines,
        ({
            let lines0 = lines_view(old(doc).content_lines@);
            let l = old(doc).cursor_line as int;
            if l > 0 {
                final(doc).cursor_line == old(doc).cursor_line - 1 && final(doc).cursor_column as int == (if old(doc).cursor_column as int <= lines0[l - 1].len() {
                    old(doc).cursor_column as int
                } else {
                    lines0[l - 1].len() as int
                })
            } else {
                final(doc).cursor_line == old(doc).cursor_line && final(doc).cursor_column == old(doc).cursor_column
            }
        }),
        final(doc).wf(),
{
    if doc.cursor_line > 0 {
        doc.cursor_line = doc.cursor_line - 1;
        let line_chars = doc.content_lines[doc.cursor_line].as_str().unicode_len();
        if doc.cursor_column > line_chars {
            doc.cursor_column = line_chars;
        }
    }
}

/// Moves down one line, clamping the column to the new line's length.
pub fn move_down(doc: &mut LineDoc)
    requires
        old(doc).wf(),
    ensures
        final(doc).content_lines == old(doc).content_lines,
        ({
            let lines0 = lines_view(old(doc).content_lines@);
            let l = old(doc).cursor_line as int;
            if l + 1 < lines0.len() {
                final(doc).cursor_line == old(doc).cursor_line + 1 && final(doc).cursor_column as int == (if old(doc).cursor_column as int <= lines0[l + 1].len() {
                    old(doc).cursor_column as int
                } else {
                    lines0[l + 1].len() as int
                })
            } else {
                final(doc).cursor_line == old(doc).cursor_line && final(doc).cursor_column == old(doc).cursor_column
            }
        }),
        final(doc).wf(),
{
    let total = doc.content_lines.len();
    if doc.cursor_line + 1 < total {
        doc.cursor_line = doc.cursor_line + 1;
        let line_chars = doc.content_lines[doc.cursor_line].as_str().unicode_len();
        if doc.cursor_column > line_chars {
            doc.cursor_column = line_chars;
        }
    }
}

} // verus!
