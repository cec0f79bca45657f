//! An in-memory terminal: a grid of character cells with a cursor, and a
//! queue of input bytes.
//!
//! The main purpose of the in-memory terminal is testing line editing
//! without a real terminal device.

use vstd::prelude::*;
use vstd::utf8::encode_utf8;
use crate::text::chars_of;

verus! {

/// Number of lines of a terminal made by `MemoryTerminal::new`.
pub const DEFAULT_LINES: usize = 24;

/// Number of columns of a terminal made by `MemoryTerminal::new`.
pub const DEFAULT_COLUMNS: usize = 80;

/// Dimensions of a terminal buffer.
#[derive(Clone, Copy, Debug, PartialEq, Eq, Structural)]
pub struct Size {
    /// Number of lines
    pub lines: usize,
    /// Number of columns
    pub columns: usize,
}

/// Display mode of the terminal cursor.
#[derive(Clone, Copy, Debug, PartialEq, Eq, Structural)]
pub enum CursorMode {
    /// Normal mode
    Normal,
    /// Invisible mode
    Invisible,
    /// Overwrite mode
    Overwrite,
}

/// The visible state of a terminal buffer: its cells, stored line after
/// line, the cursor position and the dimensions.
pub struct Screen {
    pub cells: Seq<char>,
    pub line: int,
    pub col: int,
    pub lines: int,
    pub columns: int,
}

impl Screen {
    /// The buffer holds `lines * columns` cells and the cursor's column lies
    /// inside it or just past its last column. The cursor's line may lie
    /// below the buffer: shrinking the buffer leaves it just below, and new
    /// lines move it further.
    pub open spec fn wf(self) -> bool {
        &&& self.lines >= 1
        &&& self.columns >= 1
        &&& self.cells.len() == self.lines * self.columns
        &&& 0 <= self.line
        &&& 0 <= self.col <= self.columns
    }

    /// The character in line `r`, column `c`.
    pub open spec fn cell(self, r: int, c: int) -> char {
        self.cells[r * self.columns + c]
    }

    /// The characters of line `r`.
    pub open spec fn row(self, r: int) -> Seq<char> {
        self.cells.subrange(r * self.columns, (r + 1) * self.columns)
    }

    pub open spec fn with_cursor(self, line: int, col: int) -> Screen {
        Screen { cells: self.cells, line, col, lines: self.lines, columns: self.columns }
    }

    pub open spec fn with_cells(self, cells: Seq<char>) -> Screen {
        Screen { cells, line: self.line, col: self.col, lines: self.lines, columns: self.columns }
    }
}

/// `n` blank cells.
pub open spec fn blanks(n: int) -> Seq<char> {
    Seq::new(n as nat, |_i: int| ' ')
}

/// The cursor moved up by `n` lines, stopping at the first.
pub open spec fn sat_sub(a: int, n: int) -> int {
    if a >= n { a - n } else { 0 }
}

/// The contents moved up `n` lines: the first `n` lines leave the buffer
/// and blank lines enter at its end.
pub open spec fn scroll_spec(t: Screen, n: int) -> Screen {
    let k = if n >= t.lines { t.cells.len() as int } else { n * t.columns };
    Screen {
        cells: t.cells.skip(k) + blanks(k),
        line: sat_sub(t.line, n),
        col: t.col,
        lines: t.lines,
        columns: t.columns,
    }
}

/// The cursor moved to the start of the next line, scrolling the contents
/// when it leaves the last line.
pub open spec fn advance_spec(t: Screen) -> Screen {
    let moved = t.with_cursor(t.line + 1, 0);
    if moved.line == t.lines { scroll_spec(moved, 1) } else { moved }
}

/// A printable character put at the cursor, first moving to the next line
/// when the cursor is past the last column.
pub open spec fn put_spec(t: Screen, c: char) -> Screen {
    let u = if t.col >= t.columns { advance_spec(t) } else { t };
    Screen {
        cells: u.cells.update(u.line * u.columns + u.col, c),
        line: u.line,
        col: u.col + 1,
        lines: u.lines,
        columns: u.columns,
    }
}

/// One character written: a newline moves to the next line, a carriage
/// return to the first column, any other character is put in a cell.
pub open spec fn step_spec(t: Screen, c: char) -> Screen {
    if c == '\n' {
        advance_spec(t)
    } else if c == '\r' {
        t.with_cursor(t.line, 0)
    } else {
        put_spec(t, c)
    }
}

/// The characters of `s` written one after the other.
pub open spec fn write_spec(t: Screen, s: Seq<char>) -> Screen
    decreases s.len(),
{
    if s.len() == 0 {
        t
    } else {
        step_spec(write_spec(t, s.drop_last()), s.last())
    }
}

/// Every character of `s` is a newline or a carriage return.
pub open spec fn only_breaks(s: Seq<char>) -> bool {
    forall|i: int| 0 <= i < s.len() ==> s[i] == '\n' || s[i] == '\r'
}

/// The number of newlines in `s`.
pub open spec fn newlines(s: Seq<char>) -> nat
    decreases s.len(),
{
    if s.len() == 0 {
        0
    } else {
        newlines(s.drop_last()) + if s.last() == '\n' { 1nat } else { 0nat }
    }
}

/// Whether `s` can be written from `t`: from a cursor inside the buffer
/// anything can; from one below it only newlines and carriage returns,
/// as long as the line number stays within a `usize`.
pub open spec fn write_ok(t: Screen, s: Seq<char>) -> bool {
    t.line < t.lines || (only_breaks(s) && t.line + newlines(s) <= usize::MAX)
}

/// A prefix of a text has no more newlines than the text.
pub proof fn lemma_newlines_prefix(s: Seq<char>, i: int)
    requires
        0 <= i <= s.len(),
    ensures
        newlines(s.take(i)) <= newlines(s),
    decreases s.len() - i,
{
    if i < s.len() {
        lemma_newlines_prefix(s, i + 1);
        assert(s.take(i + 1).drop_last() =~= s.take(i));
    } else {
        assert(s.take(i) =~= s);
    }
}

/// The cell found at line `r`, column `c` after a buffer of `ol` lines of
/// `oc` columns is resized: the old cell where there was one, else blank.
pub open spec fn kept_cell(cells: Seq<char>, ol: int, oc: int, r: int, c: int) -> char {
    if r < ol && c < oc { cells[r * oc + c] } else { ' ' }
}

/// The buffer resized to `nl` lines of `nc` columns: each line is cut or
/// filled with blanks, lines are dropped at the end or blank lines added,
/// and the cursor is kept within the new size; the same size changes
/// nothing.
pub open spec fn resize_spec(t: Screen, nl: int, nc: int) -> Screen {
    if nl == t.lines && nc == t.columns {
        t
    } else {
        resized(t, nl, nc)
    }
}

/// The buffer laid out again in `nl` lines of `nc` columns.
pub open spec fn resized(t: Screen, nl: int, nc: int) -> Screen {
    Screen {
        cells: Seq::new(
            (nl * nc) as nat,
            |j: int| kept_cell(t.cells, t.lines, t.columns, j / nc, j % nc),
        ),
        line: if t.line < nl { t.line } else { nl },
        col: if t.col < nc { t.col } else { nc },
        lines: nl,
        columns: nc,
    }
}

/// Position `r * cols + c` of a cell inside a grid of `rows` lines.
pub proof fn lemma_cell_index(r: int, c: int, rows: int, cols: int)
    requires
        0 <= r < rows,
        0 <= c < cols,
    ensures
        0 <= r * cols,
        r * cols + c < rows * cols,
        (r + 1) * cols <= rows * cols,
        (r + 1) * cols == r * cols + cols,
{
    assert(0 <= r * cols) by (nonlinear_arith)
        requires
            0 <= r,
            0 <= c < cols,
    ;
    assert((r + 1) * cols <= rows * cols) by (nonlinear_arith)
        requires
            0 <= r < rows,
            0 <= c < cols,
    ;
    assert((r + 1) * cols == r * cols + cols) by (nonlinear_arith);
}

/// A product grows with each of its factors.
pub proof fn lemma_mul_le(a: int, b: int, c: int, d: int)
    requires
        0 <= a <= c,
        0 <= b <= d,
    ensures
        0 <= a * b <= c * d,
{
    assert(0 <= a * b <= c * d) by (nonlinear_arith)
        requires
            0 <= a <= c,
            0 <= b <= d,
    ;
}

/// Every position inside a grid of `rows` lines of `cols` columns is the
/// position of the cell in line `j / cols`, column `j % cols`.
pub proof fn lemma_split_index(j: int, rows: int, cols: int)
    requires
        0 <= j < rows * cols,
        cols >= 1,
    ensures
        0 <= j / cols < rows,
        0 <= j % cols < cols,
        (j / cols) * cols + j % cols == j,
{
    vstd::arithmetic::div_mod::lemma_fundamental_div_mod(j, cols);
    vstd::arithmetic::div_mod::lemma_mod_pos_bound(j, cols);
    let q = j / cols;
    let r = j % cols;
    assert(q * cols == cols * q) by (nonlinear_arith);
    assert(0 <= q < rows) by (nonlinear_arith)
        requires
            j == q * cols + r,
            0 <= r < cols,
            0 <= j < rows * cols,
    ;
}

/// Moving to the next line keeps the buffer well formed, and a cursor on a
/// line of the buffer stays on one; below the buffer it moves one line
/// further down.
pub proof fn lemma_advance_wf(t: Screen)
    requires
        t.wf(),
    ensures
        advance_spec(t).wf(),
        t.line < t.lines ==> advance_spec(t).line < t.lines,
        t.line >= t.lines ==> advance_spec(t) == t.with_cursor(t.line + 1, 0),
        advance_spec(t).col == 0,
        advance_spec(t).lines == t.lines,
        advance_spec(t).columns == t.columns,
{
    lemma_mul_le(1, t.columns, t.lines, t.columns);
    let moved = t.with_cursor(t.line + 1, 0);
    if moved.line == t.lines {
        let k = if 1 >= t.lines { t.cells.len() as int } else { t.columns };
        assert(0 <= k <= t.cells.len());
        assert((t.cells.skip(k) + blanks(k)).len() == t.cells.len());
    }
}

/// Each step keeps the buffer well formed and a cursor on a line of the
/// buffer on one; below the buffer a newline moves it one line down and a
/// carriage return leaves the line where it is.
pub proof fn lemma_step_wf(t: Screen, c: char)
    requires
        t.wf(),
        t.line < t.lines || c == '\r' || c == '\n',
    ensures
        step_spec(t, c).wf(),
        t.line < t.lines ==> step_spec(t, c).line < t.lines,
        c == '\r' ==> step_spec(t, c).line == t.line,
        c == '\n' && t.line >= t.lines ==> step_spec(t, c).line == t.line + 1,
        step_spec(t, c).lines == t.lines,
        step_spec(t, c).columns == t.columns,
{
    if c == '\n' {
        lemma_advance_wf(t);
    }
    if c != '\r' && c != '\n' {
        let u = if t.col >= t.columns { advance_spec(t) } else { t };
        lemma_advance_wf(t);
        assert(u.wf() && u.line < u.lines && u.col < u.columns);
        lemma_cell_index(u.line, u.col, u.lines, u.columns);
    }
}

/// Writing keeps the buffer well formed; a cursor on a line of the buffer
/// stays on one, and one below it moves down a line for each newline.
pub proof fn lemma_write_wf(t: Screen, s: Seq<char>)
    requires
        t.wf(),
        t.line < t.lines || only_breaks(s),
    ensures
        write_spec(t, s).wf(),
        write_spec(t, s).lines == t.lines,
        write_spec(t, s).columns == t.columns,
        t.line < t.lines ==> write_spec(t, s).line < t.lines,
        t.line >= t.lines ==> write_spec(t, s).line == t.line + newlines(s),
    decreases s.len(),
{
    if s.len() > 0 {
        lemma_write_wf(t, s.drop_last());
        let u = write_spec(t, s.drop_last());
        if t.line >= t.lines {
            assert(s.last() == s[s.len() - 1]);
        }
        lemma_step_wf(u, s.last());
    }
}

struct Writer {
    memory: Vec<char>,
    col: usize,
    line: usize,
    cursor_mode: CursorMode,
    size: Size,
}

impl View for Writer {
    type V = Screen;

    closed spec fn view(&self) -> Screen {
        Screen {
            cells: self.memory@,
            line: self.line as int,
            col: self.col as int,
            lines: self.size.lines as int,
            columns: self.size.columns as int,
        }
    }
}

impl Writer {
    fn new(size: Size) -> (w: Writer)
        requires
            size.lines >= 1,
            size.columns >= 1,
            size.lines * size.columns <= usize::MAX,
        ensures
            w@.wf(),
            w@.cells == blanks(size.lines * size.columns),
            w@.line == 0,
            w@.col == 0,
            w@.lines == size.lines,
            w@.columns == size.columns,
            w.cursor_mode == CursorMode::Normal,
    {
        let n_chars = size.lines * size.columns;
        let mut memory: Vec<char> = Vec::new();
        let mut i: usize = 0;
        while i < n_chars
            invariant
                i <= n_chars,
                memory@ == blanks(i as int),
            decreases n_chars - i,
        {
            memory.push(' ');
            i = i + 1;
            assert(memory@ =~= blanks(i as int));
        }
        Writer { memory, col: 0, line: 0, cursor_mode: CursorMode::Normal, size }
    }

    fn clear_all(&mut self)
        requires
            old(self)@.wf(),
        ensures
            final(self)@ == old(self)@.with_cursor(0, 0).with_cells(blanks(old(self)@.cells.len() as int)),
            final(self).cursor_mode == old(self).cursor_mode,
    {
        let n = self.memory.len();
        let mut i: usize = 0;
        while i < n
            invariant
                n == self.memory.len(),
                i <= n,
                self.size == old(self).size,
                self.line == old(self).line,
                self.col == old(self).col,
                self.cursor_mode == old(self).cursor_mode,
                forall|j: int| 0 <= j < i ==> self.memory@[j] == ' ',
            decreases n - i,
        {
            self.memory[i] = ' ';
            i = i + 1;
        }
        assert(self.memory@ =~= blanks(n as int));
        self.col = 0;
        self.line = 0;
    }

    fn clear_to_end(&mut self)
        requires
            old(self)@.wf(),
            old(self)@.line < old(self)@.lines || (old(self)@.line == old(self)@.lines && old(self)@.col == 0),
        ensures
            final(self)@ == old(self)@.with_cells(
                old(self)@.cells.take(old(self)@.line * old(self)@.columns + old(self)@.col)
                    + blanks(old(self)@.cells.len() - (old(self)@.line * old(self)@.columns + old(self)@.col)),
            ),
            final(self)@.wf(),
            final(self).cursor_mode == old(self).cursor_mode,
    {
        let n = self.memory.len();
        proof {
            if self.line < self.size.lines {
                lemma_cell_index(self.line as int, 0, self.size.lines as int, self.size.columns as int);
            }
        }
        let idx = self.line * self.size.columns + self.col;
        let mut i: usize = idx;
        while i < n
            invariant
                n == self.memory.len(),
                idx <= i <= n,
                self.size == old(self).size,
                self.line == old(self).line,
                self.col == old(self).col,
                self.cursor_mode == old(self).cursor_mode,
                forall|j: int| 0 <= j < idx ==> self.memory@[j] == old(self).memory@[j],
                forall|j: int| idx <= j < i ==> self.memory@[j] == ' ',
            decreases n - i,
        {
            self.memory[i] = ' ';
            i = i + 1;
        }
        assert(self.memory@ =~= old(self).memory@.take(idx as int) + blanks(n - idx));
    }

    fn move_up(&mut self, n: usize)
        ensures
            final(self)@ == old(self)@.with_cursor(sat_sub(old(self)@.line, n as int), old(self)@.col),
            final(self).cursor_mode == old(self).cursor_mode,
    {
        self.line = if self.line >= n { self.line - n } else { 0 };
    }

    fn move_down(&mut self, n: usize)
        requires
            old(self)@.wf(),
        ensures
            final(self)@ == old(self)@.with_cursor(
                if old(self)@.line + n < old(self)@.lines - 1 { old(self)@.line + n } else { old(self)@.lines - 1 },
                old(self)@.col,
            ),
            final(self).cursor_mode == old(self).cursor_mode,
    {
        let last = self.size.lines - 1;
        self.line = if self.line >= last || n >= last - self.line { last } else { self.line + n };
    }

    fn move_left(&mut self, n: usize)
        ensures
            final(self)@ == old(self)@.with_cursor(old(self)@.line, sat_sub(old(self)@.col, n as int)),
            final(self).cursor_mode == old(self).cursor_mode,
    {
        self.col = if self.col >= n { self.col - n } else { 0 };
    }

    fn move_right(&mut self, n: usize)
        requires
            old(self)@.wf(),
        ensures
            final(self)@ == old(self)@.with_cursor(
                old(self)@.line,
                if old(self)@.col + n < old(self)@.columns - 1 { old(self)@.col + n } else { old(self)@.columns - 1 },
            ),
            final(self).cursor_mode == old(self).cursor_mode,
    {
        let last = self.size.columns - 1;
        self.col = if self.col >= last || n >= last - self.col { last } else { self.col + n };
    }

    fn scroll_up(&mut self, n: usize)
        requires
            old(self)@.wf(),
        ensures
            final(self)@ == scroll_spec(old(self)@, n as int),
            final(self)@.wf(),
            final(self).cursor_mode == old(self).cursor_mode,
    {
        let len = self.memory.len();
        let k: usize = if n >= self.size.lines {
            len
        } else {
            proof {
                lemma_mul_le(n as int, self.size.columns as int, self.size.lines as int, self.size.columns as int);
            }
            n * self.size.columns
        };
        let mut fresh: Vec<char> = Vec::new();
        let mut j: usize = k;
        while j < len
            invariant
                k <= j <= len,
                len == self.memory.len(),
                fresh@ == self.memory@.subrange(k as int, j as int),
            decreases len - j,
        {
            fresh.push(self.memory[j]);
            j = j + 1;
            assert(fresh@ =~= self.memory@.subrange(k as int, j as int));
        }
        let mut c: usize = 0;
        while c < k
            invariant
                c <= k <= len,
                len == self.memory.len(),
                fresh@ == self.memory@.skip(k as int) + blanks(c as int),
            decreases k - c,
        {
            fresh.push(' ');
            c = c + 1;
            assert(fresh@ =~= self.memory@.skip(k as int) + blanks(c as int));
        }
        self.memory = fresh;
        self.line = if self.line >= n { self.line - n } else { 0 };
    }

    fn advance_line(&mut self)
        requires
            old(self)@.wf(),
            old(self).line < usize::MAX,
        ensures
            final(self)@ == advance_spec(old(self)@),
            final(self)@.wf(),
            final(self).cursor_mode == old(self).cursor_mode,
    {
        proof {
            lemma_advance_wf(self@);
        }
        self.line = self.line + 1;
        self.col = 0;
        if self.line == self.size.lines {
            self.scroll_up(1);
        }
    }

    fn write_char(&mut self, ch: char)
        requires
            old(self)@.wf(),
            old(self)@.line < old(self)@.lines,
        ensures
            final(self)@ == put_spec(old(self)@, ch),
            final(self).cursor_mode == old(self).cursor_mode,
    {
        if self.col >= self.size.columns {
            self.advance_line();
        }
        let len = self.memory.len();
        proof {
            lemma_cell_index(self.line as int, self.col as int, self.size.lines as int, self.size.columns as int);
        }
        let idx = self.line * self.size.columns + self.col;
        self.memory[idx] = ch;
        self.col = self.col + 1;
    }

    fn write(&mut self, s: &str)
        requires
            old(self)@.wf(),
            write_ok(old(self)@, s@),
        ensures
            final(self)@ == write_spec(old(self)@, s@),
            final(self)@.wf(),
            final(self).cursor_mode == old(self).cursor_mode,
    {
        let v = chars_of(s);
        let mut i: usize = 0;
        while i < v.len()
            invariant
                v@ == s@,
                i <= v.len(),
                old(self)@.wf(),
                write_ok(old(self)@, s@),
                self@ == write_spec(old(self)@, s@.take(i as int)),
                self.cursor_mode == old(self).cursor_mode,
            decreases v.len() - i,
        {
            let ch = v[i];
            proof {
                assert(s@.take(i as int + 1).drop_last() =~= s@.take(i as int));
                assert(only_breaks(s@) ==> only_breaks(s@.take(i as int)));
                lemma_write_wf(old(self)@, s@.take(i as int));
                if old(self)@.line >= old(self)@.lines {
                    assert(s@[i as int] == ch);
                    lemma_newlines_prefix(s@, i + 1);
                }
            }
            if ch == '\n' {
                self.advance_line();
            } else if ch == '\r' {
                self.col = 0;
            } else {
                self.write_char(ch);
            }
            i = i + 1;
        }
        proof {
            assert(s@.take(i as int) =~= s@);
            lemma_write_wf(old(self)@, s@);
        }
    }

    fn resize(&mut self, new_size: Size)
        requires
            old(self)@.wf(),
            new_size.lines >= 1,
            new_size.columns >= 1,
            new_size.lines * new_size.columns <= usize::MAX,
        ensures
            final(self)@ == resize_spec(old(self)@, new_size.lines as int, new_size.columns as int),
            final(self)@.wf(),
            final(self).cursor_mode == old(self).cursor_mode,
    {
        if self.size == new_size {
            return;
        }
        let nl = new_size.lines;
        let nc = new_size.columns;
        let ol = self.size.lines;
        let oc = self.size.columns;
        let len = self.memory.len();
        let ghost t = self@;
        let mut buf: Vec<char> = Vec::new();
        let mut r: usize = 0;
        while r < nl
            invariant
                self@ == t,
                t.wf(),
                ol == t.lines,
                oc == t.columns,
                len == t.cells.len(),
                nl >= 1,
                nc >= 1,
                nl * nc <= usize::MAX,
                r <= nl,
                buf@.len() == r * nc,
                forall|k: int| 0 <= k < buf@.len() ==> buf@[k] == kept_cell(t.cells, ol as int, oc as int, k / nc as int, k % nc as int),
            decreases nl - r,
        {
            proof {
                lemma_cell_index(r as int, 0, nl as int, nc as int);
            }
            let mut c: usize = 0;
            while c < nc
                invariant
                    self@ == t,
                    t.wf(),
                    ol == t.lines,
                    oc == t.columns,
                    len == t.cells.len(),
                    nc >= 1,
                    r < nl,
                    c <= nc,
                    buf@.len() == r * nc + c,
                    forall|k: int| 0 <= k < buf@.len() ==> buf@[k] == kept_cell(t.cells, ol as int, oc as int, k / nc as int, k % nc as int),
                decreases nc - c,
            {
                let ch = if r < ol && c < oc {
                    proof {
                        lemma_cell_index(r as int, c as int, ol as int, oc as int);
                    }
                    self.memory[r * oc + c]
                } else {
                    ' '
                };
                proof {
                    vstd::arithmetic::div_mod::lemma_fundamental_div_mod_converse(
                        r * nc + c, nc as int, r as int, c as int);
                }
                buf.push(ch);
                c = c + 1;
            }
            r = r + 1;
        }
        proof {
            assert(buf@ =~= resize_spec(t, nl as int, nc as int).cells);
        }
        self.col = if self.col < nc { self.col } else { nc };
        self.line = if self.line < nl { self.line } else { nl };
        self.size = new_size;
        self.memory = buf;
    }
}

/// Resizing a buffer to the size it has changes nothing, not even a
/// cursor below the buffer.
pub proof fn lemma_resize_same(t: Screen)
    requires
        t.wf(),
    ensures
        resize_spec(t, t.lines, t.columns) == t,
{
}

/// Resizing a buffer to a larger size and back restores it, cursor and all,
/// unless the cursor lay more than one line below the buffer.
pub proof fn lemma_resize_back(t: Screen, nl: int, nc: int)
    requires
        t.wf(),
        nl >= t.lines,
        nc >= t.columns,
        t.line <= t.lines || (nl == t.lines && nc == t.columns),
    ensures
        resize_spec(resize_spec(t, nl, nc), t.lines, t.columns) == t,
{
    if !(nl == t.lines && nc == t.columns) {
        let u = resize_spec(t, nl, nc);
        let w = resize_spec(u, t.lines, t.columns);
        lemma_mul_le(t.lines, t.columns, nl, nc);
        assert forall|j: int| 0 <= j < t.cells.len() implies w.cells[j] == t.cells[j] by {
            lemma_split_index(j, t.lines, t.columns);
            let r = j / t.columns;
            let q = j % t.columns;
            lemma_cell_index(r, q, nl, nc);
            vstd::arithmetic::div_mod::lemma_fundamental_div_mod_converse(r * nc + q, nc, r, q);
        }
        assert(w.cells =~= t.cells);
    }
}

/// Input waiting to be read: bytes, and a pending change of size.
struct Reader {
    input: Vec<u8>,
    resize: Option<Size>,
}

/// A terminal kept in memory: a buffer of character cells with a cursor,
/// and a queue of input bytes.
pub struct MemoryTerminal {
    writer: Writer,
    reader: Reader,
}

impl MemoryTerminal {
    /// The buffer and the cursor.
    pub closed spec fn screen(&self) -> Screen {
        self.writer@
    }

    /// The cursor mode.
    pub closed spec fn mode(&self) -> CursorMode {
        self.writer.cursor_mode
    }

    /// The bytes waiting to be read, oldest first.
    pub closed spec fn input(&self) -> Seq<u8> {
        self.reader.input@
    }

    /// The last size set and not yet reported to a reader.
    pub closed spec fn pending_resize(&self) -> Option<Size> {
        self.reader.resize
    }

    /// The buffer is well formed.
    pub open spec fn wf(&self) -> bool {
        self.screen().wf()
    }

    /// A terminal of 24 lines of 80 columns, blank, with the cursor at the
    /// top left corner and no input.
    pub fn new() -> (m: MemoryTerminal)
        ensures
            m.wf(),
            m.screen().cells == blanks(DEFAULT_LINES * DEFAULT_COLUMNS),
            m.screen().line == 0,
            m.screen().col == 0,
            m.screen().lines == DEFAULT_LINES,
            m.screen().columns == DEFAULT_COLUMNS,
            m.mode() == CursorMode::Normal,
            m.input() == Seq::<u8>::empty(),
            m.pending_resize() is None,
    {
        MemoryTerminal::with_size(Size { lines: DEFAULT_LINES, columns: DEFAULT_COLUMNS })
    }

    /// A terminal of the given size, blank, with the cursor at the top left
    /// corner and no input.
    pub fn with_size(size: Size) -> (m: MemoryTerminal)
        requires
            size.lines >= 1,
            size.columns >= 1,
            size.lines * size.columns <= usize::MAX,
        ensures
            m.wf(),
            m.screen().cells == blanks(size.lines * size.columns),
            m.screen().line == 0,
            m.screen().col == 0,
            m.screen().lines == size.lines,
            m.screen().columns == size.columns,
            m.mode() == CursorMode::Normal,
            m.input() == Seq::<u8>::empty(),
            m.pending_resize() is None,
    {
        MemoryTerminal {
            writer: Writer::new(size),
            reader: Reader { input: Vec::new(), resize: None },
        }
    }

    /// Clears the buffer and places the cursor at `(0, 0)`.
    pub fn clear_all(&mut self)
        requires
            old(self).wf(),
        ensures
            final(self).wf(),
            final(self).screen() == old(self).screen().with_cursor(0, 0).with_cells(
                blanks(old(self).screen().cells.len() as int),
            ),
            final(self).mode() == old(self).mode(),
            final(self).input() == old(self).input(),
            final(self).pending_resize() == old(self).pending_resize(),
    {
        self.writer.clear_all();
    }

    /// Clears all cells from the cursor to the end of the buffer.
    pub fn clear_to_end(&mut self)
        requires
            old(self).wf(),
            old(self).screen().line < old(self).screen().lines || (old(self).screen().line == old(self).screen().lines
                && old(self).screen().col == 0),
        ensures
            final(self).wf(),
            final(self).screen() == old(self).screen().with_cells(
                old(self).screen().cells.take(old(self).screen().line * old(self).screen().columns + old(self).screen().col)
                    + blanks(old(self).screen().cells.len() - (old(self).screen().line * old(self).screen().columns + old(self).screen().col)),
            ),
            final(self).mode() == old(self).mode(),
            final(self).input() == old(self).input(),
            final(self).pending_resize() == old(self).pending_resize(),
    {
        self.writer.clear_to_end();
    }

    /// Discards the input waiting to be read.
    pub fn clear_input(&mut self)
        ensures
            final(self).screen() == old(self).screen(),
            final(self).mode() == old(self).mode(),
            final(self).input() == Seq::<u8>::empty(),
            final(self).pending_resize() == old(self).pending_resize(),
    {
        self.reader.input = Vec::new();
    }

    /// Whether any input, bytes or a change of size, remains to be read.
    pub fn has_input(&self) -> (b: bool)
        ensures
            b == (self.pending_resize() is Some || self.input().len() > 0),
    {
        self.reader.resize.is_some() || self.reader.input.len() > 0
    }

    /// The lines of the buffer, from the first.
    pub fn lines(&self) -> (l: Lines<'_>)
        requires
            self.wf(),
        ensures
            l.wf(),
            l.screen() == self.screen(),
            l.position() == 0,
    {
        Lines { writer: &self.writer, line: 0 }
    }

    /// Moves the cursor up `n` lines, stopping at the first.
    pub fn move_up(&mut self, n: usize)
        requires
            old(self).wf(),
        ensures
            final(self).wf(),
            final(self).screen() == old(self).screen().with_cursor(
                sat_sub(old(self).screen().line, n as int),
                old(self).screen().col,
            ),
            final(self).mode() == old(self).mode(),
            final(self).input() == old(self).input(),
            final(self).pending_resize() == old(self).pending_resize(),
    {
        self.writer.move_up(n);
    }

    /// Moves the cursor down `n` lines, stopping at the last.
    pub fn move_down(&mut self, n: usize)
        requires
            old(self).wf(),
        ensures
            final(self).wf(),
            final(self).screen() == old(self).screen().with_cursor(
                if old(self).screen().line + n < old(self).screen().lines - 1 {
                    old(self).screen().line + n
                } else {
                    old(self).screen().lines - 1
                },
                old(self).screen().col,
            ),
            final(self).mode() == old(self).mode(),
            final(self).input() == old(self).input(),
            final(self).pending_resize() == old(self).pending_resize(),
    {
        self.writer.move_down(n);
    }

    /// Moves the cursor left `n` columns, stopping at the first.
    pub fn move_left(&mut self, n: usize)
        requires
            old(self).wf(),
        ensures
            final(self).wf(),
            final(self).screen() == old(self).screen().with_cursor(
                old(self).screen().line,
                sat_sub(old(self).screen().col, n as int),
            ),
            final(self).mode() == old(self).mode(),
            final(self).input() == old(self).input(),
            final(self).pending_resize() == old(self).pending_resize(),
    {
        self.writer.move_left(n);
    }

    /// Moves the cursor right `n` columns, stopping at the last.
    pub fn move_right(&mut self, n: usize)
        requires
            old(self).wf(),
        ensures
            final(self).wf(),
            final(self).screen() == old(self).screen().with_cursor(
                old(self).screen().line,
                if old(self).screen().col + n < old(self).screen().columns - 1 {
                    old(self).screen().col + n
                } else {
                    old(self).screen().columns - 1
                },
            ),
            final(self).mode() == old(self).mode(),
            final(self).input() == old(self).input(),
            final(self).pending_resize() == old(self).pending_resize(),
    {
        self.writer.move_right(n);
    }

    /// Moves the cursor to the first column of its line.
    pub fn move_to_first_column(&mut self)
        requires
            old(self).wf(),
        ensures
            final(self).wf(),
            final(self).screen() == old(self).screen().with_cursor(old(self).screen().line, 0),
            final(self).mode() == old(self).mode(),
            final(self).input() == old(self).input(),
            final(self).pending_resize() == old(self).pending_resize(),
    {
        self.writer.col = 0;
    }

    /// Appends the bytes of `s` to the input queue.
    pub fn push_input(&mut self, s: &str)
        ensures
            final(self).screen() == old(self).screen(),
            final(self).mode() == old(self).mode(),
            final(self).input() == old(self).input() + encode_utf8(s@),
            final(self).pending_resize() == old(self).pending_resize(),
    {
        let bytes = s.as_bytes();
        let mut i: usize = 0;
        while i < bytes.len()
            invariant
                i <= bytes@.len(),
                bytes@ == encode_utf8(s@),
                self.writer == old(self).writer,
                self.reader.resize == old(self).reader.resize,
                self.reader.input@ == old(self).reader.input@ + bytes@.take(i as int),
            decreases bytes@.len() - i,
        {
            self.reader.input.push(bytes[i]);
            i = i + 1;
            assert(self.reader.input@ =~= old(self).reader.input@ + bytes@.take(i as int));
        }
        assert(bytes@.take(i as int) =~= bytes@);
    }

    /// Moves input bytes, oldest first, into `buf`: as many as it holds, or
    /// as remain. Returns their number.
    pub fn read_input(&mut self, buf: &mut [u8]) -> (n: usize)
        ensures
            n == (if old(buf)@.len() < old(self).input().len() { old(buf)@.len() } else { old(self).input().len() }),
            final(buf)@ == old(self).input().take(n as int) + old(buf)@.skip(n as int),
            final(self).input() == old(self).input().skip(n as int),
            final(self).screen() == old(self).screen(),
            final(self).mode() == old(self).mode(),
            final(self).pending_resize() == old(self).pending_resize(),
    {
        let len = self.reader.input.len();
        let n = if buf.len() < len { buf.len() } else { len };
        let mut i: usize = 0;
        while i < n
            invariant
                i <= n,
                n <= buf@.len(),
                n <= self.reader.input@.len(),
                buf@.len() == old(buf)@.len(),
                self.reader.input@ == old(self).reader.input@,
                forall|j: int| 0 <= j < i ==> buf@[j] == self.reader.input@[j],
                forall|j: int| i <= j < buf@.len() ==> buf@[j] == old(buf)@[j],
            decreases n - i,
        {
            buf[i] = self.reader.input[i];
            i = i + 1;
        }
        let mut rest: Vec<u8> = Vec::new();
        let mut j: usize = n;
        while j < len
            invariant
                n <= j <= len,
                len == self.reader.input@.len(),
                rest@ == self.reader.input@.subrange(n as int, j as int),
            decreases len - j,
        {
            rest.push(self.reader.input[j]);
            j = j + 1;
            assert(rest@ =~= self.reader.input@.subrange(n as int, j as int));
        }
        assert(buf@ =~= old(self).input().take(n as int) + old(buf)@.skip(n as int));
        self.reader.input = rest;
        n
    }

    /// Changes the size of the buffer: each line is cut or filled with
    /// blanks, lines are dropped at the end or blank lines added. A reader
    /// is told of the new size.
    pub fn resize(&mut self, new_size: Size)
        requires
            old(self).wf(),
            new_size.lines >= 1,
            new_size.columns >= 1,
            new_size.lines * new_size.columns <= usize::MAX,
        ensures
            final(self).wf(),
            final(self).screen() == resize_spec(old(self).screen(), new_size.lines as int, new_size.columns as int),
            final(self).mode() == old(self).mode(),
            final(self).input() == old(self).input(),
            final(self).pending_resize() == Some(new_size),
    {
        self.writer.resize(new_size);
        self.reader.resize = Some(new_size);
    }

    /// Moves the contents of the buffer up `n` lines; the first `n` lines
    /// are erased.
    pub fn scroll_up(&mut self, n: usize)
        requires
            old(self).wf(),
        ensures
            final(self).wf(),
            final(self).screen() == scroll_spec(old(self).screen(), n as int),
            final(self).mode() == old(self).mode(),
            final(self).input() == old(self).input(),
            final(self).pending_resize() == old(self).pending_resize(),
    {
        self.writer.scroll_up(n);
    }

    /// The `(line, column)` position of the cursor.
    pub fn cursor(&self) -> (p: (usize, usize))
        ensures
            p.0 == self.screen().line,
            p.1 == self.screen().col,
    {
        (self.writer.line, self.writer.col)
    }

    /// Sets the cursor mode.
    pub fn set_cursor_mode(&mut self, mode: CursorMode)
        ensures
            final(self).screen() == old(self).screen(),
            final(self).mode() == mode,
            final(self).input() == old(self).input(),
            final(self).pending_resize() == old(self).pending_resize(),
    {
        self.writer.cursor_mode = mode;
    }

    /// The cursor mode.
    pub fn cursor_mode(&self) -> (m: CursorMode)
        ensures
            m == self.mode(),
    {
        self.writer.cursor_mode
    }

    /// The size of the buffer.
    pub fn size(&self) -> (s: Size)
        ensures
            s.lines == self.screen().lines,
            s.columns == self.screen().columns,
    {
        self.writer.size
    }

    /// Writes text at the cursor. A newline moves to the start of the next
    /// line, scrolling at the end of the buffer; a carriage return moves to
    /// the first column; text that runs past the last column goes on in the
    /// next line.
    pub fn write(&mut self, s: &str)
        requires
            old(self).wf(),
            write_ok(old(self).screen(), s@),
        ensures
            final(self).wf(),
            final(self).screen() == write_spec(old(self).screen(), s@),
            final(self).mode() == old(self).mode(),
            final(self).input() == old(self).input(),
            final(self).pending_resize() == old(self).pending_resize(),
    {
        self.writer.write(s);
    }
}

/// The lines of a `MemoryTerminal` buffer, one after the other.
pub struct Lines<'a> {
    writer: &'a Writer,
    line: usize,
}

/// Where a walk over the lines of `t` goes from position `p` on a call of
/// `next`: one line on, unless it is past the last.
pub open spec fn next_position(t: Screen, p: int) -> int {
    if p < t.lines {
        p + 1
    } else {
        p
    }
}

/// What a call of `next` at position `p` gives: that line of `t`, or
/// nothing past the last.
pub open spec fn next_row(t: Screen, p: int) -> Option<Seq<char>> {
    if p < t.lines {
        Some(t.row(p))
    } else {
        None
    }
}

/// Where a walk over the lines of `t` stands after `k` calls of `next`.
pub open spec fn position_after(t: Screen, k: nat) -> int
    decreases k,
{
    if k == 0 {
        0
    } else {
        next_position(t, position_after(t, (k - 1) as nat))
    }
}

/// A walk over the lines of a buffer of `L` lines gives, on its `k`-th call
/// of `next` (counting from 0), line `k` while `k < L` and nothing after;
/// `L - k` lines remain after `k` calls, and none after `L`.
pub proof fn lemma_lines_run(t: Screen, k: nat)
    requires
        t.wf(),
    ensures
        position_after(t, k) == if k < t.lines { k as int } else { t.lines },
        next_row(t, position_after(t, k)) == if k < t.lines { Some(t.row(k as int)) } else { None },
        t.lines - position_after(t, k) == if k < t.lines { t.lines - k } else { 0 },
    decreases k,
{
    if k > 0 {
        lemma_lines_run(t, (k - 1) as nat);
    }
}

impl<'a> Lines<'a> {
    /// The buffer walked.
    pub closed spec fn screen(&self) -> Screen {
        self.writer@
    }

    /// The number of lines already given.
    pub closed spec fn position(&self) -> int {
        self.line as int
    }

    /// The buffer is well formed and the walk has not gone past its end.
    pub open spec fn wf(&self) -> bool {
        self.screen().wf() && 0 <= self.position() <= self.screen().lines
    }

    /// The next line of the buffer, or `None` after the last.
    pub fn next(&mut self) -> (r: Option<&[char]>)
        requires
            old(self).wf(),
        ensures
            final(self).wf(),
            final(self).screen() == old(self).screen(),
            old(self).position() == old(self).screen().lines ==> r is None && final(self).position() == old(self).position(),
            old(self).position() < old(self).screen().lines ==> r is Some
                && r.unwrap()@ == old(self).screen().row(old(self).position())
                && final(self).position() == old(self).position() + 1,
            final(self).position() == next_position(old(self).screen(), old(self).position()),
            match r {
                Some(x) => next_row(old(self).screen(), old(self).position()) == Some(x@),
                None => next_row(old(self).screen(), old(self).position()) is None,
            },
    {
        if self.line >= self.writer.size.lines {
            None
        } else {
            proof {
                lemma_cell_index(self.line as int, 0, self.writer.size.lines as int, self.writer.size.columns as int);
            }
            let len = self.writer.memory.len();
            let start = self.line * self.writer.size.columns;
            let end = start + self.writer.size.columns;
            self.line = self.line + 1;
            Some(vstd::slice::slice_subrange(self.writer.memory.as_slice(), start, end))
        }
    }

    /// The number of lines not yet given.
    pub fn lines_remaining(&self) -> (n: usize)
        requires
            self.wf(),
        ensures
            n == self.screen().lines - self.position(),
    {
        self.writer.size.lines - self.line
    }
}

/// Writing text without line breaks that fits in the rest of the cursor's
/// line puts it into the cells from the cursor on and moves the cursor
/// past it; nothing else changes.
pub proof fn lemma_write_plain(t: Screen, s: Seq<char>)
    requires
        t.wf(),
        t.line < t.lines,
        t.col + s.len() <= t.columns,
        forall|i: int| 0 <= i < s.len() ==> s[i] != '\n' && s[i] != '\r',
    ensures
        write_spec(t, s) == t.with_cursor(t.line, t.col + s.len()).with_cells(
            t.cells.take(t.line * t.columns + t.col) + s + t.cells.skip(t.line * t.columns + t.col + s.len()),
        ),
    decreases s.len(),
{
    let start = t.line * t.columns + t.col;
    lemma_cell_index(t.line, 0, t.lines, t.columns);
    if s.len() == 0 {
        assert(t.cells.take(start) + s + t.cells.skip(start) =~= t.cells);
    } else {
        let p = s.drop_last();
        assert forall|i: int| 0 <= i < p.len() implies p[i] != '\n' && p[i] != '\r' by {
            assert(p[i] == s[i]);
        }
        lemma_write_plain(t, p);
        let u = write_spec(t, p);
        let c = s.last();
        assert(c == s[s.len() - 1]);
        assert(u.col < u.columns);
        assert(u.line * u.columns + u.col == start + p.len());
        let before = t.cells.take(start) + p + t.cells.skip(start + p.len());
        assert(before.update(start + p.len(), c) =~= t.cells.take(start) + s + t.cells.skip(start + s.len()));
    }
}

} // verus!
