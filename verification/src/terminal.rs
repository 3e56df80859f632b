//! The terminal grid: a fixed-size matrix of styled cells with a cursor and
//! a current pen, driven by plain text writes and SGR (Select Graphic
//! Rendition) parameters. The surrounding pty plumbing and escape-sequence
//! scanning live with the host; the grid itself is pure state.

use vstd::prelude::*;
use crate::chars::str_chars;

verus! {

/// An RGB colour.
#[derive(Debug, Clone, Copy, PartialEq, Eq, Structural)]
pub struct Colour {
    pub r: u8,
    pub g: u8,
    pub b: u8,
}

/// The default foreground: a light grey.
pub open spec fn spec_white() -> Colour {
    Colour { r: 204, g: 204, b: 204 }
}

/// The default background: a near-black.
pub open spec fn spec_black() -> Colour {
    Colour { r: 26, g: 26, b: 30 }
}

impl Colour {
    /// The default foreground colour.
    pub fn white() -> (c: Colour)
        ensures
            c == spec_white(),
    {
        Colour { r: 204, g: 204, b: 204 }
    }

    /// The default background colour.
    pub fn black() -> (c: Colour)
        ensures
            c == spec_black(),
    {
        Colour { r: 26, g: 26, b: 30 }
    }
}

/// One character cell with its colours and weight.
#[derive(Debug, Clone, Copy, PartialEq, Eq, Structural)]
pub struct Cell {
    pub ch: char,
    pub fg: Colour,
    pub bg: Colour,
    pub bold: bool,
}

/// A blank cell in the default colours.
pub open spec fn blank_cell() -> Cell {
    Cell { ch: ' ', fg: spec_white(), bg: spec_black(), bold: false }
}

impl Default for Cell {
    /// A blank cell in the default colours.
    fn default() -> (c: Cell)
        ensures
            c == blank_cell(),
    {
        Cell { ch: ' ', fg: Colour::white(), bg: Colour::black(), bold: false }
    }
}

/// The mathematical image of a [`TerminalGrid`].
pub struct GridView {
    pub rows: usize,
    pub cols: usize,
    pub cells: Seq<Cell>,
    pub cursor_row: usize,
    pub cursor_col: usize,
    pub fg: Colour,
    pub bg: Colour,
    pub bold: bool,
}

impl GridView {
    /// The grid's invariant: the cell matrix matches the dimensions and the
    /// cursor stays inside them.
    pub open spec fn wf(self) -> bool {
        &&& self.rows >= 1
        &&& self.cols >= 1
        &&& self.cells.len() == self.rows * self.cols
        &&& self.cursor_row < self.rows
        &&& self.cursor_col < self.cols
    }
}

/// A blank grid of the given dimensions.
pub open spec fn spec_grid_new(rows: usize, cols: usize) -> GridView {
    GridView {
        rows,
        cols,
        cells: Seq::new((rows * cols) as nat, |i: int| blank_cell()),
        cursor_row: 0,
        cursor_col: 0,
        fg: spec_white(),
        bg: spec_black(),
        bold: false,
    }
}

/// Scrolling drops the top row and appends a blank one.
pub open spec fn scrolled_cells(cells: Seq<Cell>, cols: usize) -> Seq<Cell> {
    cells.skip(cols as int) + Seq::new(cols as nat, |i: int| blank_cell())
}

/// Writing one character: a newline moves to the next line's start
/// (scrolling at the bottom), a carriage return to the line's start, and
/// any other character fills the cell under the cursor with the current pen
/// and advances, wrapping and scrolling as needed.
pub open spec fn spec_write_char(g: GridView, ch: char) -> GridView {
    if ch == '\n' {
        if g.cursor_row + 1 >= g.rows {
            GridView {
                cursor_col: 0,
                cursor_row: (g.rows - 1) as usize,
                cells: scrolled_cells(g.cells, g.cols),
                ..g
            }
        } else {
            GridView { cursor_col: 0, cursor_row: (g.cursor_row + 1) as usize, ..g }
        }
    } else if ch == '\r' {
        GridView { cursor_col: 0, ..g }
    } else {
        if g.cursor_col < g.cols && g.cursor_row < g.rows {
            let idx = g.cursor_row * g.cols + g.cursor_col;
            let cells2 = g.cells.update(
                idx as int,
                Cell { ch, fg: g.fg, bg: g.bg, bold: g.bold },
            );
            if g.cursor_col + 1 >= g.cols {
                if g.cursor_row + 1 >= g.rows {
                    GridView {
                        cells: scrolled_cells(cells2, g.cols),
                        cursor_col: 0,
                        cursor_row: (g.rows - 1) as usize,
                        ..g
                    }
                } else {
                    GridView {
                        cells: cells2,
                        cursor_col: 0,
                        cursor_row: (g.cursor_row + 1) as usize,
                        ..g
                    }
                }
            } else {
                GridView { cells: cells2, cursor_col: (g.cursor_col + 1) as usize, ..g }
            }
        } else {
            g
        }
    }
}

/// Writing a string: one character at a time.
pub open spec fn spec_write_str(g: GridView, s: Seq<char>) -> GridView
    decreases s.len(),
{
    if s.len() == 0 {
        g
    } else {
        spec_write_str(spec_write_char(g, s[0]), s.drop_first())
    }
}

/// One SGR parameter's effect on the pen: reset, bold, or one of the eight
/// standard foreground colours.
pub open spec fn sgr_one(g: GridView, p: u16) -> GridView {
    if p == 0 {
        GridView { fg: spec_white(), bg: spec_black(), bold: false, ..g }
    } else if p == 1 {
        GridView { bold: true, ..g }
    } else if p == 30 {
        GridView { fg: Colour { r: 0, g: 0, b: 0 }, ..g }
    } else if p == 31 {
        GridView { fg: Colour { r: 224, g: 108, b: 117 }, ..g }
    } else if p == 32 {
        GridView { fg: Colour { r: 152, g: 195, b: 121 }, ..g }
    } else if p == 33 {
        GridView { fg: Colour { r: 229, g: 192, b: 123 }, ..g }
    } else if p == 34 {
        GridView { fg: Colour { r: 97, g: 175, b: 239 }, ..g }
    } else if p == 35 {
        GridView { fg: Colour { r: 198, g: 120, b: 221 }, ..g }
    } else if p == 36 {
        GridView { fg: Colour { r: 86, g: 182, b: 194 }, ..g }
    } else if p == 37 {
        GridView { fg: spec_white(), ..g }
    } else {
        g
    }
}

/// A whole SGR parameter list, applied left to right.
pub open spec fn spec_apply_sgr(g: GridView, ps: Seq<u16>) -> GridView
    decreases ps.len(),
{
    if ps.len() == 0 {
        g
    } else {
        spec_apply_sgr(sgr_one(g, ps[0]), ps.drop_first())
    }
}

/// Writing a character keeps the grid consistent.
pub proof fn lemma_write_char_wf(g: GridView, ch: char)
    requires
        g.wf(),
    ensures
        spec_write_char(g, ch).wf(),
        spec_write_char(g, ch).rows == g.rows,
        spec_write_char(g, ch).cols == g.cols,
{
    if ch != '\n' && ch != '\r' {
        assert(g.cursor_row * g.cols + g.cursor_col < g.rows * g.cols) by (nonlinear_arith)
            requires
                g.cursor_row < g.rows,
                g.cursor_col < g.cols,
                g.cols >= 1,
        ;
        assert((g.rows - 1) * g.cols >= 0) by (nonlinear_arith)
            requires
                g.rows >= 1,
                g.cols >= 1,
        ;
    }
    assert(g.cols <= g.rows * g.cols) by (nonlinear_arith)
        requires
            g.rows >= 1,
            g.cols >= 1,
    ;
}

/// Writing a whole string keeps the grid consistent.
pub proof fn lemma_write_str_wf(g: GridView, s: Seq<char>)
    requires
        g.wf(),
    ensures
        spec_write_str(g, s).wf(),
        spec_write_str(g, s).rows == g.rows,
        spec_write_str(g, s).cols == g.cols,
    decreases s.len(),
{
    if s.len() != 0 {
        lemma_write_char_wf(g, s[0]);
        lemma_write_str_wf(spec_write_char(g, s[0]), s.drop_first());
    }
}

/// Appending one character to a write is one more character step.
proof fn lemma_write_str_snoc(g: GridView, s: Seq<char>, c: char)
    ensures
        spec_write_str(g, s.push(c)) == spec_write_char(spec_write_str(g, s), c),
    decreases s.len(),
{
    assert(s.push(c).len() == s.len() + 1);
    if s.len() == 0 {
        assert(s.push(c)[0] == c);
        assert(s.push(c).drop_first() =~= Seq::<char>::empty());
        assert(spec_write_str(g, s.push(c)) == spec_write_str(
            spec_write_char(g, c),
            Seq::<char>::empty(),
        ));
    } else {
        assert(s.push(c)[0] == s[0]);
        assert(s.push(c).drop_first() =~= s.drop_first().push(c));
        lemma_write_str_snoc(spec_write_char(g, s[0]), s.drop_first(), c);
    }
}

/// Appending one parameter to an SGR run is one more parameter step.
proof fn lemma_apply_sgr_snoc(g: GridView, ps: Seq<u16>, p: u16)
    ensures
        spec_apply_sgr(g, ps.push(p)) == sgr_one(spec_apply_sgr(g, ps), p),
    decreases ps.len(),
{
    assert(ps.push(p).len() == ps.len() + 1);
    if ps.len() == 0 {
        assert(ps.push(p)[0] == p);
        assert(ps.push(p).drop_first() =~= Seq::<u16>::empty());
        assert(spec_apply_sgr(g, ps.push(p)) == spec_apply_sgr(
            sgr_one(g, p),
            Seq::<u16>::empty(),
        ));
    } else {
        assert(ps.push(p)[0] == ps[0]);
        assert(ps.push(p).drop_first() =~= ps.drop_first().push(p));
        lemma_apply_sgr_snoc(sgr_one(g, ps[0]), ps.drop_first(), p);
    }
}

/// The terminal grid with its cursor and current pen.
pub struct TerminalGrid {
    pub rows: usize,
    pub cols: usize,
    cells: Vec<Cell>,
    pub cursor_row: usize,
    pub cursor_col: usize,
    current_fg: Colour,
    current_bg: Colour,
    current_bold: bool,
}

impl View for TerminalGrid {
    type V = GridView;

    closed spec fn view(&self) -> GridView {
        GridView {
            rows: self.rows,
            cols: self.cols,
            cells: self.cells@,
            cursor_row: self.cursor_row,
            cursor_col: self.cursor_col,
            fg: self.current_fg,
            bg: self.current_bg,
            bold: self.current_bold,
        }
    }
}

impl TerminalGrid {
    /// Creates a blank grid of the given dimensions with the cursor at the
    /// top-left.
    pub fn new(rows: usize, cols: usize) -> (g: TerminalGrid)
        requires
            rows >= 1,
            cols >= 1,
            rows * cols <= usize::MAX,
        ensures
            g@ == spec_grid_new(rows, cols),
            g@.wf(),
    {
        proof {
            assert(rows * cols >= 1) by (nonlinear_arith)
                requires
                    rows >= 1,
                    cols >= 1,
            ;
        }
        let total = rows * cols;
        let mut cells: Vec<Cell> = Vec::new();
        let mut i: usize = 0;
        while i < total
            invariant
                i <= total,
                cells@.len() == i,
                forall|j: int| 0 <= j < i ==> cells@[j] == blank_cell(),
            decreases total - i,
        {
            cells.push(Cell::default());
            i = i + 1;
        }
        let g = TerminalGrid {
            rows,
            cols,
            cells,
            cursor_row: 0,
            cursor_col: 0,
            current_fg: Colour::white(),
            current_bg: Colour::black(),
            current_bold: false,
        };
        proof {
            assert(g@.cells =~= spec_grid_new(rows, cols).cells);
        }
        g
    }

    /// Returns the cell at the given grid position.
    pub fn cell(&self, row: usize, col: usize) -> (c: Cell)
        requires
            self@.wf(),
            row < self@.rows,
            col < self@.cols,
        ensures
            c == self@.cells[row * self@.cols + col],
    {
        let _total = self.cells.len();
        proof {
            assert(row * self@.cols + col < self@.rows * self@.cols) by (nonlinear_arith)
                requires
                    row < self@.rows,
                    col < self@.cols,
                    self@.cols >= 1,
            ;
        }
        self.cells[row * self.cols + col]
    }

    /// Writes a single character at the cursor, advancing it and scrolling
    /// at the bottom of the grid.
    pub fn write_char(&mut self, ch: char)
        requires
            old(self)@.wf(),
        ensures
            final(self)@ == spec_write_char(old(self)@, ch),
            final(self)@.wf(),
    {
        proof {
            lemma_write_char_wf(self@, ch);
        }
        if ch == '\n' {
            self.cursor_col = 0;
            if self.cursor_row + 1 >= self.rows {
                self.scroll_up();
                self.cursor_row = self.rows - 1;
            } else {
                self.cursor_row = self.cursor_row + 1;
            }
        } else if ch == '\r' {
            self.cursor_col = 0;
        } else {
            let _total = self.cells.len();
            proof {
                assert(self@.cursor_row * self@.cols + self@.cursor_col < self@.rows
                    * self@.cols) by (nonlinear_arith)
                    requires
                        self@.cursor_row < self@.rows,
                        self@.cursor_col < self@.cols,
                        self@.cols >= 1,
                ;
            }
            let idx = self.cursor_row * self.cols + self.cursor_col;
            let cell = Cell {
                ch,
                fg: self.current_fg,
                bg: self.current_bg,
                bold: self.current_bold,
            };
            self.cells.set(idx, cell);
            if self.cursor_col + 1 >= self.cols {
                self.cursor_col = 0;
                if self.cursor_row + 1 >= self.rows {
                    self.scroll_up();
                    self.cursor_row = self.rows - 1;
                } else {
                    self.cursor_row = self.cursor_row + 1;
                }
            } else {
                self.cursor_col = self.cursor_col + 1;
            }
        }
    }

    /// Writes a string into the grid, advancing the cursor and handling
    /// newlines.
    pub fn write_str(&mut self, text: &str)
        requires
            old(self)@.wf(),
        ensures
            final(self)@ == spec_write_str(old(self)@, text@),
            final(self)@.wf(),
    {
        let tv = str_chars(text);
        let n = tv.len();
        let mut i: usize = 0;
        proof {
            assert(text@.take(0) =~= Seq::<char>::empty());
        }
        while i < n
            invariant
                i <= n,
                n == text@.len(),
                tv@ == text@,
                self@ == spec_write_str(old(self)@, text@.take(i as int)),
                self@.wf(),
            decreases n - i,
        {
            self.write_char(tv[i]);
            i = i + 1;
            proof {
                lemma_write_str_snoc(old(self)@, text@.take(i - 1), text@[i - 1]);
                assert(text@.take(i as int) =~= text@.take(i - 1).push(text@[i - 1]));
            }
        }
        proof {
            assert(text@.take(n as int) =~= text@);
        }
    }

    /// Drops the top row and appends a blank one at the bottom.
    fn scroll_up(&mut self)
        requires
            old(self)@.wf(),
        ensures
            final(self)@ == (GridView {
                cells: scrolled_cells(old(self)@.cells, old(self)@.cols),
                ..old(self)@
            }),
    {
        let total = self.cells.len();
        let mut fresh: Vec<Cell> = Vec::new();
        let mut i: usize = self.cols;
        proof {
            assert(self@.cols <= self@.rows * self@.cols) by (nonlinear_arith)
                requires
                    self@.rows >= 1,
                    self@.cols >= 1,
            ;
        }
        while i < total
            invariant
                self@.cols <= i <= total,
                total == self@.cells.len(),
                self == old(self),
                fresh@ =~= self@.cells.subrange(self@.cols as int, i as int),
            decreases total - i,
        {
            fresh.push(self.cells[i]);
            i = i + 1;
            proof {
                assert(self@.cells.subrange(self@.cols as int, i as int) =~= self@.cells.subrange(
                    self@.cols as int,
                    i - 1,
                ).push(self@.cells[i - 1]));
            }
        }
        let mut j: usize = 0;
        while j < self.cols
            invariant
                j <= self@.cols,
                total == self@.cells.len(),
                self == old(self),
                fresh@ =~= self@.cells.skip(self@.cols as int) + Seq::new(
                    j as nat,
                    |q: int| blank_cell(),
                ),
            decreases self@.cols - j,
        {
            fresh.push(Cell::default());
            j = j + 1;
            proof {
                assert(self@.cells.skip(self@.cols as int) + Seq::new(j as nat, |q: int| blank_cell())
                    =~= (self@.cells.skip(self@.cols as int) + Seq::new(
                    (j - 1) as nat,
                    |q: int| blank_cell(),
                )).push(blank_cell()));
            }
        }
        self.cells = fresh;
    }

    /// Applies SGR escape parameters, left to right, to the current pen.
    pub fn apply_sgr(&mut self, params: &[u16])
        requires
            old(self)@.wf(),
        ensures
            final(self)@ == spec_apply_sgr(old(self)@, params@),
            final(self)@.wf(),
    {
        let n = params.len();
        let mut i: usize = 0;
        proof {
            assert(params@.take(0) =~= Seq::<u16>::empty());
        }
        while i < n
            invariant
                i <= n,
                n == params@.len(),
                self@ == spec_apply_sgr(old(self)@, params@.take(i as int)),
                self@.wf(),
            decreases n - i,
        {
            let p = params[i];
            if p == 0 {
                self.current_fg = Colour::white();
                self.current_bg = Colour::black();
                self.current_bold = false;
            } else if p == 1 {
                self.current_bold = true;
            } else if p == 30 {
                self.current_fg = Colour { r: 0, g: 0, b: 0 };
            } else if p == 31 {
                self.current_fg = Colour { r: 224, g: 108, b: 117 };
            } else if p == 32 {
                self.current_fg = Colour { r: 152, g: 195, b: 121 };
            } else if p == 33 {
                self.current_fg = Colour { r: 229, g: 192, b: 123 };
            } else if p == 34 {
                self.current_fg = Colour { r: 97, g: 175, b: 239 };
            } else if p == 35 {
                self.current_fg = Colour { r: 198, g: 120, b: 221 };
            } else if p == 36 {
                self.current_fg = Colour { r: 86, g: 182, b: 194 };
            } else if p == 37 {
                self.current_fg = Colour::white();
            }
            i = i + 1;
            proof {
                lemma_apply_sgr_snoc(old(self)@, params@.take(i - 1), params@[i - 1]);
                assert(params@.take(i as int) =~= params@.take(i - 1).push(params@[i - 1]));
            }
        }
        proof {
            assert(params@.take(n as int) =~= params@);
        }
    }

    /// Moves the cursor to an absolute position, clamped into the grid.
    pub fn set_cursor(&mut self, row: usize, col: usize)
        requires
            old(self)@.wf(),
        ensures
            final(self)@ == (GridView {
                cursor_row: if row < old(self)@.rows {
                    row
                } else {
                    (old(self)@.rows - 1) as usize
                },
                cursor_col: if col < old(self)@.cols {
                    col
                } else {
                    (old(self)@.cols - 1) as usize
                },
                ..old(self)@
            }),
            final(self)@.wf(),
    {
        self.cursor_row = if row < self.rows {
            row
        } else {
            self.rows - 1
        };
        self.cursor_col = if col < self.cols {
            col
        } else {
            self.cols - 1
        };
    }
}

} // verus!
