use vstd::prelude::*;
use std::collections::VecDeque;
use super::cursor::{Cursor, clamp_index};

verus! {

/// Rendering attributes of one cell (SGR state).
#[derive(Clone, Copy, Debug)]
pub struct CellAttributes {
    pub bold: bool,
    pub italic: bool,
    pub underline: bool,
    pub blink: bool,
    pub inverse: bool,
    pub strikethrough: bool,
    pub fg_color: Option<u8>,
    pub bg_color: Option<u8>,
    pub fg_rgb: Option<[u8; 3]>,
    pub bg_rgb: Option<[u8; 3]>,
}

/// The attributes of a cell that was never styled.
pub open spec fn plain_attrs() -> CellAttributes {
    CellAttributes {
        bold: false,
        italic: false,
        underline: false,
        blink: false,
        inverse: false,
        strikethrough: false,
        fg_color: None,
        bg_color: None,
        fg_rgb: None,
        bg_rgb: None,
    }
}

impl Default for CellAttributes {
    fn default() -> (r: Self)
        ensures
            r == plain_attrs(),
    {
        CellAttributes {
            bold: false,
            italic: false,
            underline: false,
            blink: false,
            inverse: false,
            strikethrough: false,
            fg_color: None,
            bg_color: None,
            fg_rgb: None,
            bg_rgb: None,
        }
    }
}

/// One character cell of the screen grid.
#[derive(Clone, Copy, Debug)]
pub struct Cell {
    pub c: char,
    pub attrs: CellAttributes,
}

/// The empty cell: a space with plain attributes.
pub open spec fn blank_cell() -> Cell {
    Cell { c: ' ', attrs: plain_attrs() }
}

impl Default for Cell {
    fn default() -> (r: Self)
        ensures
            r == blank_cell(),
    {
        Cell { c: ' ', attrs: CellAttributes::default() }
    }
}

/// A line of `n` blank cells.
pub open spec fn blank_line(n: nat) -> Seq<Cell> {
    Seq::new(n, |i: int| blank_cell())
}

/// `n` blank lines of `cols` cells each.
pub open spec fn blank_lines(n: nat, cols: nat) -> Seq<Seq<Cell>> {
    Seq::new(n, |i: int| blank_line(cols))
}

/// Builds a line of `n` blank cells.
pub fn new_blank_line(n: usize) -> (line: Vec<Cell>)
    ensures
        line@ == blank_line(n as nat),
{
    let mut line: Vec<Cell> = Vec::with_capacity(n);
    let mut i: usize = 0;
    while i < n
        invariant
            i <= n,
            line@ == blank_line(i as nat),
        decreases n - i,
    {
        line.push(Cell::default());
        i = i + 1;
        assert(line@ =~= blank_line(i as nat));
    }
    line
}

/// Appends `line` to `sb`, dropping the oldest line when the length would pass `max`.
pub open spec fn push_capped(sb: Seq<Seq<Cell>>, line: Seq<Cell>, max: nat) -> Seq<Seq<Cell>> {
    if sb.len() + 1 > max {
        sb.push(line).drop_first()
    } else {
        sb.push(line)
    }
}

/// Appends every line of `lines`, in order, with `push_capped`.
pub open spec fn append_capped(sb: Seq<Seq<Cell>>, lines: Seq<Seq<Cell>>, max: nat) -> Seq<Seq<Cell>>
    decreases lines.len(),
{
    if lines.len() == 0 {
        sb
    } else {
        push_capped(append_capped(sb, lines.drop_last(), max), lines.last(), max)
    }
}

/// Number of history lines the screen keeps.
pub const MAX_SCROLLBACK: usize = 10000;

/// Abstract state of a screen buffer.
pub struct ScreenModel {
    pub lines: Seq<Seq<Cell>>,
    pub scrollback: Seq<Seq<Cell>>,
    pub rows: usize,
    pub cols: usize,
    pub max_scrollback: usize,
    pub dirty: bool,
}

/// The visible grid plus its scrollback history.
pub struct ScreenBuffer {
    lines: Vec<Vec<Cell>>,
    scrollback: VecDeque<Vec<Cell>>,
    rows: usize,
    cols: usize,
    max_scrollback: usize,
    dirty: bool,
}

impl View for ScreenBuffer {
    type V = ScreenModel;

    closed spec fn view(&self) -> ScreenModel {
        ScreenModel {
            lines: Seq::new(self.lines@.len(), |i: int| self.lines@[i]@),
            scrollback: Seq::new(self.scrollback@.len(), |i: int| self.scrollback@[i]@),
            rows: self.rows,
            cols: self.cols,
            max_scrollback: self.max_scrollback,
            dirty: self.dirty,
        }
    }
}

impl ScreenModel {
    /// The grid has `rows` lines of `cols` cells and the history is within its bound.
    pub open spec fn wf(self) -> bool {
        &&& self.lines.len() == self.rows
        &&& forall|r: int| 0 <= r < self.lines.len() ==> (#[trigger] self.lines[r]).len() == self.cols
        &&& self.max_scrollback == MAX_SCROLLBACK
        &&& self.scrollback.len() <= self.max_scrollback
        &&& forall|r: int| 0 <= r < self.scrollback.len() ==> (#[trigger] self.scrollback[r]).len() == self.cols
    }
}


/// The line `line` with cells from index `from` (inclusive) to `to` (exclusive) blanked.
pub open spec fn blank_range(line: Seq<Cell>, from: int, to: int) -> Seq<Cell> {
    Seq::new(line.len(), |i: int| if from <= i < to { blank_cell() } else { line[i] })
}

/// Every line at index `r >= row` blanked from column `col` (row `row`) or 0 (later rows).
pub open spec fn cleared_from(lines: Seq<Seq<Cell>>, row: int, col: int) -> Seq<Seq<Cell>> {
    Seq::new(
        lines.len(),
        |r: int|
            if r < row {
                lines[r]
            } else if r == row {
                blank_range(lines[r], col, lines[r].len() as int)
            } else {
                blank_range(lines[r], 0, lines[r].len() as int)
            },
    )
}

/// Every line at index `r <= row` blanked up to column `col` exclusive (row `row`) or entirely.
pub open spec fn cleared_to(lines: Seq<Seq<Cell>>, row: int, col: int) -> Seq<Seq<Cell>> {
    Seq::new(
        lines.len(),
        |r: int|
            if r < row {
                blank_range(lines[r], 0, lines[r].len() as int)
            } else if r == row {
                blank_range(lines[r], 0, col)
            } else {
                lines[r]
            },
    )
}

/// The cells `from..to` of line `row` blanked (no change when `row` is off the grid).
pub open spec fn cleared_cells(lines: Seq<Seq<Cell>>, row: int, from: int, to: int) -> Seq<Seq<Cell>> {
    if 0 <= row < lines.len() {
        lines.update(row, blank_range(lines[row], from, to))
    } else {
        lines
    }
}

impl ScreenModel {
    /// The screen after storing `c` with `attrs` at (`row`, `col`) of the grid.
    pub open spec fn written(self, row: int, col: int, c: char, attrs: CellAttributes) -> ScreenModel {
        ScreenModel {
            lines: self.lines.update(row, self.lines[row].update(col, Cell { c, attrs })),
            dirty: true,
            ..self
        }
    }

    /// One whole-screen scroll up: the top line moves into the history.
    pub open spec fn step_up(self) -> ScreenModel {
        ScreenModel {
            lines: self.lines.drop_first().push(blank_line(self.cols as nat)),
            scrollback: push_capped(self.scrollback, self.lines[0], self.max_scrollback as nat),
            ..self
        }
    }

    /// `n` whole-screen scrolls up.
    pub open spec fn scrolled_up(self, n: nat) -> ScreenModel
        decreases n,
    {
        if n == 0 {
            self
        } else {
            self.scrolled_up((n - 1) as nat).step_up()
        }
    }

    /// One whole-screen scroll down: the newest history line comes back on top
    /// (no change when the history is empty).
    pub open spec fn step_down(self) -> ScreenModel {
        if self.scrollback.len() > 0 {
            ScreenModel {
                lines: seq![self.scrollback.last()] + self.lines.drop_last(),
                scrollback: self.scrollback.drop_last(),
                ..self
            }
        } else {
            self
        }
    }

    /// `n` whole-screen scrolls down.
    pub open spec fn scrolled_down(self, n: nat) -> ScreenModel
        decreases n,
    {
        if n == 0 {
            self
        } else {
            self.scrolled_down((n - 1) as nat).step_down()
        }
    }

    /// One scroll up of the region `top..=bottom`; the line leaving the region goes
    /// to the history only when the region starts at the first row.
    pub open spec fn region_step_up(self, top: int, bottom: int) -> ScreenModel {
        ScreenModel {
            lines: self.lines.remove(top).insert(bottom, blank_line(self.cols as nat)),
            scrollback: if top == 0 {
                push_capped(self.scrollback, self.lines[top], self.max_scrollback as nat)
            } else {
                self.scrollback
            },
            ..self
        }
    }

    pub open spec fn region_scrolled_up(self, top: int, bottom: int, n: nat) -> ScreenModel
        decreases n,
    {
        if n == 0 {
            self
        } else {
            self.region_scrolled_up(top, bottom, (n - 1) as nat).region_step_up(top, bottom)
        }
    }

    /// One scroll down of the region `top..=bottom`: its last line is dropped and a
    /// blank line enters at its top.
    pub open spec fn region_step_down(self, top: int, bottom: int) -> ScreenModel {
        ScreenModel { lines: self.lines.remove(bottom).insert(top, blank_line(self.cols as nat)), ..self }
    }

    pub open spec fn region_scrolled_down(self, top: int, bottom: int, n: nat) -> ScreenModel
        decreases n,
    {
        if n == 0 {
            self
        } else {
            self.region_scrolled_down(top, bottom, (n - 1) as nat).region_step_down(top, bottom)
        }
    }
}

/// A trailing cell that reflow may drop: an unstyled-background, non-inverse space.
pub open spec fn trimmable(c: Cell) -> bool {
    c.c == ' ' && !c.attrs.inverse && c.attrs.bg_color is None && c.attrs.bg_rgb is None
}

/// `line` without its trailing trimmable cells.
pub open spec fn trim_end(line: Seq<Cell>) -> Seq<Cell>
    decreases line.len(),
{
    if line.len() > 0 && trimmable(line.last()) {
        trim_end(line.drop_last())
    } else {
        line
    }
}

/// `s` padded with blank cells up to length `n`.
pub open spec fn pad_to(s: Seq<Cell>, n: nat) -> Seq<Cell> {
    if s.len() >= n {
        s
    } else {
        s + blank_line((n - s.len()) as nat)
    }
}

/// `s` cut into consecutive pieces of `cols` cells, the last one padded to `cols`.
pub open spec fn chunks_of(s: Seq<Cell>, cols: nat) -> Seq<Seq<Cell>>
    decreases s.len(),
{
    if s.len() == 0 || cols == 0 {
        seq![]
    } else if s.len() <= cols {
        seq![pad_to(s, cols)]
    } else {
        seq![s.take(cols as int)] + chunks_of(s.skip(cols as int), cols)
    }
}

/// The lines one old line becomes at width `cols`: a single blank line when nothing
/// but trimmable cells remain, else the pieces of its trimmed content.
pub open spec fn reflow_line(line: Seq<Cell>, cols: nat) -> Seq<Seq<Cell>> {
    if trim_end(line).len() == 0 {
        seq![blank_line(cols)]
    } else {
        chunks_of(trim_end(line), cols)
    }
}

/// All lines reflowed to width `cols`, in order.
pub open spec fn reflow_all(lines: Seq<Seq<Cell>>, cols: nat) -> Seq<Seq<Cell>>
    decreases lines.len(),
{
    if lines.len() == 0 {
        seq![]
    } else {
        reflow_all(lines.drop_last(), cols) + reflow_line(lines.last(), cols)
    }
}

impl ScreenModel {
    /// Resizing a screen to `rows` x `cols`: the history and the grid are reflowed
    /// together; the last `rows` resulting lines form the grid (padded with blank
    /// lines at the bottom when fewer) and the earlier ones the (bounded) history.
    pub open spec fn resized(self, rows: usize, cols: usize) -> ScreenModel {
        if rows == self.rows && cols == self.cols {
            self
        } else {
            let all = reflow_all(self.scrollback + self.lines, cols as nat);
            if all.len() > rows {
                ScreenModel {
                    lines: all.skip(all.len() - rows),
                    scrollback: append_capped(
                        Seq::empty(),
                        all.take(all.len() - rows),
                        self.max_scrollback as nat,
                    ),
                    rows,
                    cols,
                    dirty: true,
                    ..self
                }
            } else {
                ScreenModel {
                    lines: all + blank_lines((rows - all.len()) as nat, cols as nat),
                    scrollback: Seq::empty(),
                    rows,
                    cols,
                    dirty: true,
                    ..self
                }
            }
        }
    }

    /// Resizing can proceed: the size is unchanged, the new width is positive, or no
    /// line has content left to cut.
    pub open spec fn can_resize(self, rows: usize, cols: usize) -> bool {
        ||| rows == self.rows && cols == self.cols
        ||| cols > 0
        ||| forall|i: int| 0 <= i < (self.scrollback + self.lines).len()
                ==> trim_end(#[trigger] (self.scrollback + self.lines)[i]).len() == 0
    }
}

/// Appending to an empty history keeps the last `max` lines.
pub proof fn lemma_append_capped_empty(lines: Seq<Seq<Cell>>, max: nat)
    requires
        max > 0,
    ensures
        append_capped(Seq::empty(), lines, max) == lines.skip(
            if lines.len() > max { lines.len() - max } else { 0 },
        ),
    decreases lines.len(),
{
    if lines.len() > 0 {
        lemma_append_capped_empty(lines.drop_last(), max);
        let prev = append_capped(Seq::empty(), lines.drop_last(), max);
        if lines.len() > max {
            assert(prev.push(lines.last()).drop_first() =~= lines.skip(lines.len() - max));
        } else {
            assert(prev.push(lines.last()) =~= lines.skip(0));
        }
    } else {
        assert(lines.skip(0) =~= lines);
    }
}

proof fn lemma_trim_step(line: Seq<Cell>, t: int)
    requires
        0 < t <= line.len(),
        trimmable(line[t - 1]),
    ensures
        trim_end(line.take(t)) == trim_end(line.take(t - 1)),
{
    assert(line.take(t).drop_last() =~= line.take(t - 1));
}

proof fn lemma_chunks_step(s: Seq<Cell>, start: int, cols: nat)
    requires
        cols > 0,
        0 <= start < s.len(),
    ensures
        s.len() - start <= cols ==> chunks_of(s.skip(start), cols) == seq![pad_to(s.subrange(start, s.len() as int), cols)]
            && s.skip(s.len() as int).len() == 0,
        s.len() - start > cols ==> chunks_of(s.skip(start), cols) == seq![s.subrange(start, start + cols)]
            + chunks_of(s.skip(start + cols), cols),
{
    assert(s.skip(start) =~= s.subrange(start, s.len() as int));
    if s.len() - start > cols {
        assert(s.skip(start).take(cols as int) =~= s.subrange(start, start + cols));
        assert(s.skip(start).skip(cols as int) =~= s.skip(start + cols));
    }
}


/// The views of a sequence of lines.
pub open spec fn lines_view(v: Seq<Vec<Cell>>) -> Seq<Seq<Cell>> {
    Seq::new(v.len(), |i: int| v[i]@)
}

fn is_trimmable(c: &Cell) -> (b: bool)
    ensures
        b == trimmable(*c),
{
    c.c == ' ' && !c.attrs.inverse && c.attrs.bg_color.is_none() && c.attrs.bg_rgb.is_none()
}

/// Length of `line` once its trailing trimmable cells are dropped.
fn trimmed_len(line: &Vec<Cell>) -> (t: usize)
    ensures
        t <= line@.len(),
        trim_end(line@) == line@.take(t as int),
{
    let mut t = line.len();
    assert(line@.take(t as int) =~= line@);
    while t > 0 && is_trimmable(&line[t - 1])
        invariant
            t <= line@.len(),
            trim_end(line@) == trim_end(line@.take(t as int)),
        decreases t,
    {
        proof {
            lemma_trim_step(line@, t as int);
        }
        t = t - 1;
    }
    proof {
        if t > 0 {
            assert(line@.take(t as int).last() == line@[t - 1]);
        }
    }
    t
}

/// A copy of `line[from..to]` padded with blank cells to `width`.
fn copy_padded(line: &Vec<Cell>, from: usize, to: usize, width: usize) -> (r: Vec<Cell>)
    requires
        from <= to <= line@.len(),
    ensures
        r@ == pad_to(line@.subrange(from as int, to as int), width as nat),
{
    let mut r: Vec<Cell> = Vec::new();
    let mut i = from;
    while i < to
        invariant
            from <= i <= to,
            to <= line@.len(),
            r@ == line@.subrange(from as int, i as int),
        decreases to - i,
    {
        r.push(line[i]);
        i = i + 1;
        assert(r@ =~= line@.subrange(from as int, i as int));
    }
    let ghost content = r@;
    let n = r.len();
    while r.len() < width
        invariant
            n == content.len(),
            n <= r@.len(),
            n >= width ==> r@.len() == n,
            n < width ==> r@.len() <= width,
            r@ == content + blank_line((r@.len() - n) as nat),
        decreases width - r.len(),
    {
        r.push(Cell::default());
        assert(r@ =~= content + blank_line((r@.len() - n) as nat));
    }
    if n >= width {
        assert(r@ =~= content);
    }
    assert(r@ =~= pad_to(content, width as nat));
    r
}

/// Appends to `out` the lines that `line` becomes at width `cols`.
fn reflow_into(out: &mut Vec<Vec<Cell>>, line: &Vec<Cell>, cols: usize)
    requires
        cols > 0 || trim_end(line@).len() == 0,
    ensures
        lines_view(final(out)@) == lines_view(old(out)@) + reflow_line(line@, cols as nat),
{
    let t = trimmed_len(line);
    let ghost s = line@.take(t as int);
    if t == 0 {
        let blank = new_blank_line(cols);
        out.push(blank);
        assert(lines_view(out@) =~= lines_view(old(out)@) + reflow_line(line@, cols as nat));
        return;
    }
    let mut start: usize = 0;
    assert(s.skip(0) =~= s);
    while start < t
        invariant
            cols > 0,
            0 < t <= line@.len(),
            s == line@.take(t as int),
            start <= t,
            lines_view(old(out)@) + chunks_of(s, cols as nat)
                == lines_view(out@) + chunks_of(s.skip(start as int), cols as nat),
        decreases t - start,
    {
        proof {
            lemma_chunks_step(s, start as int, cols as nat);
            assert(s.subrange(start as int, t as int) =~= line@.subrange(start as int, t as int));
        }
        let ghost prev = out@;
        if t - start <= cols {
            let chunk = copy_padded(line, start, t, cols);
            out.push(chunk);
            proof {
                assert(lines_view(out@) =~= lines_view(prev) + seq![pad_to(s.subrange(start as int, t as int), cols as nat)]);
                assert(chunks_of(s.skip(t as int), cols as nat) == Seq::<Seq<Cell>>::empty());
            }
            start = t;
        } else {
            let chunk = copy_padded(line, start, start + cols, cols);
            proof {
                assert(s.subrange(start as int, start + cols) =~= line@.subrange(start as int, start + cols));
                assert(pad_to(s.subrange(start as int, start + cols), cols as nat) =~= s.subrange(start as int, start + cols));
            }
            out.push(chunk);
            assert(lines_view(out@) =~= lines_view(prev) + seq![s.subrange(start as int, start + cols)]);
            start = start + cols;
        }
    }
    assert(s.skip(t as int).len() == 0);
    assert(chunks_of(s.skip(t as int), cols as nat) == Seq::<Seq<Cell>>::empty());
    assert(lines_view(out@) + Seq::<Seq<Cell>>::empty() =~= lines_view(out@));
}


/// Every line produced by reflowing to a positive width `cols` has exactly `cols` cells.
proof fn lemma_chunks_widths(s: Seq<Cell>, cols: nat)
    ensures
        forall|i: int| 0 <= i < chunks_of(s, cols).len() ==> (#[trigger] chunks_of(s, cols)[i]).len() == cols,
    decreases s.len(),
{
    if s.len() == 0 || cols == 0 {
    } else if s.len() <= cols {
    } else {
        lemma_chunks_widths(s.skip(cols as int), cols);
        let rest = chunks_of(s.skip(cols as int), cols);
        assert forall|i: int| 0 <= i < chunks_of(s, cols).len() implies (#[trigger] chunks_of(s, cols)[i]).len() == cols by {
            if i > 0 {
                assert(chunks_of(s, cols)[i] == rest[i - 1]);
            }
        }
    }
}

proof fn lemma_reflow_all_widths(lines: Seq<Seq<Cell>>, cols: nat)
    ensures
        forall|i: int| 0 <= i < reflow_all(lines, cols).len() ==> (#[trigger] reflow_all(lines, cols)[i]).len() == cols,
    decreases lines.len(),
{
    if lines.len() > 0 {
        lemma_reflow_all_widths(lines.drop_last(), cols);
        lemma_chunks_widths(trim_end(lines.last()), cols);
        let a = reflow_all(lines.drop_last(), cols);
        let b = reflow_line(lines.last(), cols);
        assert forall|i: int| 0 <= i < reflow_all(lines, cols).len() implies (#[trigger] reflow_all(lines, cols)[i]).len() == cols by {
            if i >= a.len() {
                assert(reflow_all(lines, cols)[i] == b[i - a.len()]);
            } else {
                assert(reflow_all(lines, cols)[i] == a[i]);
            }
        }
    }
}


impl ScreenModel {
    /// Result of `write_char`: the cell is stored when (`row`, `col`) is on the grid.
    pub open spec fn put_char(self, row: usize, col: usize, c: char, attrs: CellAttributes) -> ScreenModel {
        if row < self.rows && col < self.cols {
            self.written(row as int, col as int, c, attrs)
        } else {
            self
        }
    }

    /// Result of `clear_all`.
    pub open spec fn cleared_all(self) -> ScreenModel {
        ScreenModel { lines: blank_lines(self.rows as nat, self.cols as nat), dirty: true, ..self }
    }

    /// Result of `clear`.
    pub open spec fn cleared(self) -> ScreenModel {
        ScreenModel {
            lines: blank_lines(self.rows as nat, self.cols as nat),
            scrollback: Seq::empty(),
            dirty: true,
            ..self
        }
    }

    /// Result of `clear_from_cursor`.
    pub open spec fn erased_below(self, row: usize, col: usize) -> ScreenModel {
        ScreenModel { lines: cleared_from(self.lines, row as int, col as int), dirty: true, ..self }
    }

    /// Result of `clear_to_cursor`.
    pub open spec fn erased_above(self, row: usize, col: usize) -> ScreenModel {
        ScreenModel { lines: cleared_to(self.lines, row as int, col as int), dirty: true, ..self }
    }

    /// Result of the line erasures: cells `from..to` of line `row` blanked.
    pub open spec fn erased_cells(self, row: usize, from: int, to: int) -> ScreenModel {
        ScreenModel { lines: cleared_cells(self.lines, row as int, from, to), dirty: true, ..self }
    }

    /// Result of `scroll_up`.
    pub open spec fn scroll_up_result(self, n: nat) -> ScreenModel {
        ScreenModel { dirty: true, ..self.scrolled_up(n) }
    }

    /// Result of `scroll_down`.
    pub open spec fn scroll_down_result(self, n: nat) -> ScreenModel {
        ScreenModel { dirty: true, ..self.scrolled_down(n) }
    }

    /// Result of `scroll_region_up`: nothing when the clamped region is empty.
    pub open spec fn region_up(self, top: usize, bottom: usize, n: nat) -> ScreenModel {
        let t = clamp_index(top, self.rows);
        let b = clamp_index(bottom, self.rows);
        if t >= b {
            self
        } else {
            ScreenModel { dirty: true, ..self.region_scrolled_up(t as int, b as int, n) }
        }
    }

    /// Result of `scroll_region_down`: nothing when the clamped region is empty.
    pub open spec fn region_down(self, top: usize, bottom: usize, n: nat) -> ScreenModel {
        let t = clamp_index(top, self.rows);
        let b = clamp_index(bottom, self.rows);
        if t >= b {
            self
        } else {
            ScreenModel { dirty: true, ..self.region_scrolled_down(t as int, b as int, n) }
        }
    }
}

impl ScreenBuffer {
    /// A screen of `rows` blank lines of `cols` cells, with empty history.
    pub fn new(rows: usize, cols: usize) -> (s: Self)
        ensures
            s@.wf(),
            s@.lines == blank_lines(rows as nat, cols as nat),
            s@.scrollback == Seq::<Seq<Cell>>::empty(),
            s@.rows == rows,
            s@.cols == cols,
            s@.dirty,
    {
        let mut buffer = ScreenBuffer {
            lines: Vec::with_capacity(rows),
            scrollback: VecDeque::new(),
            rows,
            cols,
            max_scrollback: MAX_SCROLLBACK,
            dirty: true,
        };
        buffer.init_lines();
        buffer
    }

    fn init_lines(&mut self)
        ensures
            final(self)@ == (ScreenModel {
                lines: blank_lines(old(self)@.rows as nat, old(self)@.cols as nat),
                ..old(self)@
            }),
    {
        self.lines.clear();
        let mut i: usize = 0;
        while i < self.rows
            invariant
                i <= self.rows,
                self.rows == old(self).rows,
                self.cols == old(self).cols,
                self.scrollback == old(self).scrollback,
                self.max_scrollback == old(self).max_scrollback,
                self.dirty == old(self).dirty,
                self.lines@.len() == i,
                forall|r: int| 0 <= r < i ==> #[trigger] self.lines@[r]@ == blank_line(self.cols as nat),
            decreases self.rows - i,
        {
            let line = new_blank_line(self.cols);
            self.lines.push(line);
            i = i + 1;
        }
        assert(self@.lines =~= blank_lines(self.rows as nat, self.cols as nat));
        assert(self@.scrollback =~= old(self)@.scrollback);
    }

    pub fn rows(&self) -> (r: usize)
        ensures
            r == self@.rows,
    {
        self.rows
    }

    pub fn cols(&self) -> (c: usize)
        ensures
            c == self@.cols,
    {
        self.cols
    }

    /// The cell at (`row`, `col`), if that position is on the grid.
    pub fn cell(&self, row: usize, col: usize) -> (r: Option<&Cell>)
        ensures
            r == (if row < self@.lines.len() && col < self@.lines[row as int].len() {
                Some(&self@.lines[row as int][col as int])
            } else {
                None
            }),
    {
        if row < self.lines.len() && col < self.lines[row].len() {
            Some(&self.lines[row][col])
        } else {
            None
        }
    }

    /// Stores `c` with `attrs` at (`row`, `col`); positions off the grid are ignored.
    pub fn write_char(&mut self, row: usize, col: usize, c: char, attrs: CellAttributes)
        requires
            old(self)@.wf(),
        ensures
            final(self)@.wf(),
            final(self)@ == old(self)@.put_char(row, col, c, attrs),
    {
        if row >= self.rows || col >= self.cols {
            return;
        }
        assert(self@.lines[row as int].len() == self.cols);
        let mut line: Vec<Cell> = Vec::new();
        std::mem::swap(&mut line, &mut self.lines[row]);
        line.set(col, Cell { c, attrs });
        self.lines.set(row, line);
        self.dirty = true;
        assert(self@.lines =~= old(self)@.lines.update(
            row as int,
            old(self)@.lines[row as int].update(col as int, Cell { c, attrs }),
        ));
        assert(self@.scrollback =~= old(self)@.scrollback);
    }
}


impl ScreenBuffer {
    /// Blanks the cells `from..to` of line `row` (clipped to the line).
    fn blank_cells(&mut self, row: usize, from: usize, to: usize)
        requires
            old(self)@.wf(),
        ensures
            final(self)@ == (ScreenModel {
                lines: cleared_cells(old(self)@.lines, row as int, from as int, to as int),
                ..old(self)@
            }),
    {
        if row >= self.lines.len() {
            assert(self@.lines =~= cleared_cells(old(self)@.lines, row as int, from as int, to as int));
            return;
        }
        let mut line: Vec<Cell> = Vec::new();
        std::mem::swap(&mut line, &mut self.lines[row]);
        let ghost orig = line@;
        let end = if to < line.len() { to } else { line.len() };
        let mut i = from;
        while i < end
            invariant
                from <= i,
                i <= end || i == from,
                end <= line@.len(),
                end == to || end == orig.len(),
                end <= to,
                line@.len() == orig.len(),
                forall|k: int| 0 <= k < line@.len() ==> #[trigger] line@[k] == (
                    if from <= k < i { blank_cell() } else { orig[k] }),
            decreases end - i,
        {
            line.set(i, Cell::default());
            i = i + 1;
        }
        assert(line@ =~= blank_range(orig, from as int, to as int));
        self.lines.set(row, line);
        assert(self@.lines =~= cleared_cells(old(self)@.lines, row as int, from as int, to as int));
        assert(self@.scrollback =~= old(self)@.scrollback);
    }

    pub fn has_changes(&self, _cursor: &Cursor) -> (r: bool)
        ensures
            r == self@.dirty,
    {
        self.dirty
    }

    pub fn mark_clean(&mut self)
        ensures
            final(self)@ == (ScreenModel { dirty: false, ..old(self)@ }),
    {
        self.dirty = false;
        assert(self@.lines =~= old(self)@.lines);
        assert(self@.scrollback =~= old(self)@.scrollback);
    }

    /// Blanks the whole grid (the history is kept).
    pub fn clear_all(&mut self)
        requires
            old(self)@.wf(),
        ensures
            final(self)@.wf(),
            final(self)@ == old(self)@.cleared_all(),
    {
        self.init_lines();
        self.dirty = true;
        assert(self@.lines =~= blank_lines(old(self)@.rows as nat, old(self)@.cols as nat));
        assert(self@.scrollback =~= old(self)@.scrollback);
    }

    /// Erase below (ED 0): from (`row`, `col`) to the end of the grid.
    pub fn clear_from_cursor(&mut self, row: usize, col: usize)
        requires
            old(self)@.wf(),
        ensures
            final(self)@.wf(),
            final(self)@ == old(self)@.erased_below(row, col),
    {
        let mut r = row;
        while r < self.rows
            invariant
                self@.wf(),
                row <= r,
                self@.rows == old(self)@.rows,
                self@.cols == old(self)@.cols,
                self@.scrollback == old(self)@.scrollback,
                self@.max_scrollback == old(self)@.max_scrollback,
                self@.dirty == old(self)@.dirty,
                old(self)@.wf(),
                forall|k: int| 0 <= k < self@.lines.len() ==> #[trigger] self@.lines[k] == (
                    if k < row || k >= r {
                        old(self)@.lines[k]
                    } else if k == row {
                        blank_range(old(self)@.lines[k], col as int, old(self)@.cols as int)
                    } else {
                        blank_range(old(self)@.lines[k], 0, old(self)@.cols as int)
                    }),
            decreases self.rows - r,
        {
            let start = if r == row { col } else { 0 };
            self.blank_cells(r, start, self.cols);
            r = r + 1;
        }
        self.dirty = true;
        assert(self@.lines =~= cleared_from(old(self)@.lines, row as int, col as int));
        assert(self@.scrollback =~= old(self)@.scrollback);
    }

    /// Erase above (ED 1): from the start of the grid up to (`row`, `col`), exclusive.
    pub fn clear_to_cursor(&mut self, row: usize, col: usize)
        requires
            old(self)@.wf(),
        ensures
            final(self)@.wf(),
            final(self)@ == old(self)@.erased_above(row, col),
    {
        let last = if row < self.rows { row + 1 } else { self.rows };
        let mut r: usize = 0;
        while r < last
            invariant
                self@.wf(),
                r <= last,
                last <= self@.rows,
                last == self@.rows || last == row + 1,
                self@.rows == old(self)@.rows,
                self@.cols == old(self)@.cols,
                self@.scrollback == old(self)@.scrollback,
                self@.max_scrollback == old(self)@.max_scrollback,
                self@.dirty == old(self)@.dirty,
                old(self)@.wf(),
                forall|k: int| 0 <= k < self@.lines.len() ==> #[trigger] self@.lines[k] == (
                    if k >= r {
                        old(self)@.lines[k]
                    } else if k == row {
                        blank_range(old(self)@.lines[k], 0, col as int)
                    } else {
                        blank_range(old(self)@.lines[k], 0, old(self)@.cols as int)
                    }),
            decreases last - r,
        {
            let end = if r == row { col } else { self.cols };
            self.blank_cells(r, 0, end);
            r = r + 1;
        }
        self.dirty = true;
        assert(self@.lines =~= cleared_to(old(self)@.lines, row as int, col as int));
        assert(self@.scrollback =~= old(self)@.scrollback);
    }

    /// Erase the whole line `row` (EL 2).
    pub fn clear_line(&mut self, row: usize)
        requires
            old(self)@.wf(),
        ensures
            final(self)@.wf(),
            final(self)@ == old(self)@.erased_cells(row, 0, old(self)@.cols as int),
    {
        self.blank_cells(row, 0, self.cols);
        self.dirty = true;
        assert(self@.lines =~= cleared_cells(old(self)@.lines, row as int, 0, old(self)@.cols as int));
        assert(self@.scrollback =~= old(self)@.scrollback);
    }

    /// Erase line `row` from column `col` to its end (EL 0).
    pub fn clear_line_from_cursor(&mut self, row: usize, col: usize)
        requires
            old(self)@.wf(),
        ensures
            final(self)@.wf(),
            final(self)@ == old(self)@.erased_cells(row, col as int, old(self)@.cols as int),
    {
        self.blank_cells(row, col, self.cols);
        self.dirty = true;
        assert(self@.lines =~= cleared_cells(old(self)@.lines, row as int, col as int, old(self)@.cols as int));
        assert(self@.scrollback =~= old(self)@.scrollback);
    }

    /// Erase line `row` from its start through column `col`, inclusive (EL 1).
    pub fn clear_line_to_cursor(&mut self, row: usize, col: usize)
        requires
            old(self)@.wf(),
            col < usize::MAX,
        ensures
            final(self)@.wf(),
            final(self)@ == old(self)@.erased_cells(row, 0, col + 1),
    {
        self.blank_cells(row, 0, col + 1);
        self.dirty = true;
        assert(self@.lines =~= cleared_cells(old(self)@.lines, row as int, 0, col + 1));
        assert(self@.scrollback =~= old(self)@.scrollback);
    }

    /// Scrolls the whole grid up `lines` times; each top line enters the history.
    pub fn scroll_up(&mut self, lines: usize)
        requires
            old(self)@.wf(),
            old(self)@.rows > 0 || lines == 0,
        ensures
            final(self)@.wf(),
            final(self)@ == old(self)@.scroll_up_result(lines as nat),
            final(self)@.rows == old(self)@.rows,
            final(self)@.cols == old(self)@.cols,
    {
        let mut i: usize = 0;
        while i < lines
            invariant
                i <= lines,
                old(self)@.rows > 0 || lines == 0,
                self@.wf(),
                self@ == old(self)@.scrolled_up(i as nat),
                self@.rows == old(self)@.rows,
                self@.cols == old(self)@.cols,
            decreases lines - i,
        {
            let ghost prev = self@;
            let removed = self.lines.remove(0);
            self.scrollback.push_back(removed);
            if self.scrollback.len() > self.max_scrollback {
                self.scrollback.pop_front();
            }
            let blank = new_blank_line(self.cols);
            self.lines.push(blank);
            i = i + 1;
            assert(self@.lines =~= prev.step_up().lines);
            assert(self@.scrollback =~= prev.step_up().scrollback);
            assert(self@ == prev.step_up());
        }
        self.dirty = true;
        assert(self@.lines =~= old(self)@.scrolled_up(lines as nat).lines);
        assert(self@.scrollback =~= old(self)@.scrolled_up(lines as nat).scrollback);
    }

    /// Scrolls the whole grid down `lines` times; each step brings the newest history
    /// line back on top and drops the bottom line (a step with empty history does nothing).
    pub fn scroll_down(&mut self, lines: usize)
        requires
            old(self)@.wf(),
            old(self)@.rows > 0 || lines == 0 || old(self)@.scrollback.len() == 0,
        ensures
            final(self)@.wf(),
            final(self)@ == old(self)@.scroll_down_result(lines as nat),
            final(self)@.rows == old(self)@.rows,
            final(self)@.cols == old(self)@.cols,
    {
        let mut i: usize = 0;
        while i < lines
            invariant
                i <= lines,
                old(self)@.rows > 0 || lines == 0 || old(self)@.scrollback.len() == 0,
                self@.wf(),
                self@.rows == old(self)@.rows,
                self@.scrollback.len() <= old(self)@.scrollback.len(),
                self@ == old(self)@.scrolled_down(i as nat),
                self@.rows == old(self)@.rows,
                self@.cols == old(self)@.cols,
            decreases lines - i,
        {
            let ghost prev = self@;
            if let Some(restored) = self.scrollback.pop_back() {
                let last = self.lines.len() - 1;
                self.lines.remove(last);
                self.lines.insert(0, restored);
                assert(self@.lines =~= prev.step_down().lines);
                assert(self@.scrollback =~= prev.step_down().scrollback);
            } else {
                assert(self@.lines =~= prev.step_down().lines);
                assert(self@.scrollback =~= prev.step_down().scrollback);
            }
            i = i + 1;
            assert(self@ == prev.step_down());
        }
        self.dirty = true;
        assert(self@.lines =~= old(self)@.scrolled_down(lines as nat).lines);
        assert(self@.scrollback =~= old(self)@.scrolled_down(lines as nat).scrollback);
    }

    /// Scrolls the region `top..=bottom` (each clamped to the grid) up `n` times (SU / DL).
    /// An empty or inverted region leaves the screen untouched.
    pub fn scroll_region_up(&mut self, top: usize, bottom: usize, n: usize)
        requires
            old(self)@.wf(),
        ensures
            final(self)@.wf(),
            final(self)@ == old(self)@.region_up(top, bottom, n as nat),
            final(self)@.rows == old(self)@.rows,
            final(self)@.cols == old(self)@.cols,
    {
        let top = top.min(self.rows.saturating_sub(1));
        let bottom = bottom.min(self.rows.saturating_sub(1));
        if top >= bottom {
            return;
        }
        let mut i: usize = 0;
        while i < n
            invariant
                i <= n,
                top < bottom < self@.rows,
                self@.wf(),
                self@ == old(self)@.region_scrolled_up(top as int, bottom as int, i as nat),
                self@.rows == old(self)@.rows,
                self@.cols == old(self)@.cols,
            decreases n - i,
        {
            let ghost prev = self@;
            let removed = self.lines.remove(top);
            if top == 0 {
                self.scrollback.push_back(removed);
                if self.scrollback.len() > self.max_scrollback {
                    self.scrollback.pop_front();
                }
            }
            let blank = new_blank_line(self.cols);
            self.lines.insert(bottom, blank);
            i = i + 1;
            assert(self@.lines =~= prev.region_step_up(top as int, bottom as int).lines);
            assert(self@.scrollback =~= prev.region_step_up(top as int, bottom as int).scrollback);
            assert(self@ == prev.region_step_up(top as int, bottom as int));
        }
        self.dirty = true;
        assert(self@.lines =~= old(self)@.region_scrolled_up(top as int, bottom as int, n as nat).lines);
        assert(self@.scrollback =~= old(self)@.region_scrolled_up(top as int, bottom as int, n as nat).scrollback);
    }

    /// Scrolls the region `top..=bottom` (each clamped to the grid) down `n` times (SD / IL).
    /// An empty or inverted region leaves the screen untouched.
    pub fn scroll_region_down(&mut self, top: usize, bottom: usize, n: usize)
        requires
            old(self)@.wf(),
        ensures
            final(self)@.wf(),
            final(self)@ == old(self)@.region_down(top, bottom, n as nat),
            final(self)@.rows == old(self)@.rows,
            final(self)@.cols == old(self)@.cols,
    {
        let top = top.min(self.rows.saturating_sub(1));
        let bottom = bottom.min(self.rows.saturating_sub(1));
        if top >= bottom {
            return;
        }
        let mut i: usize = 0;
        while i < n
            invariant
                i <= n,
                top < bottom < self@.rows,
                self@.wf(),
                self@ == old(self)@.region_scrolled_down(top as int, bottom as int, i as nat),
                self@.rows == old(self)@.rows,
                self@.cols == old(self)@.cols,
            decreases n - i,
        {
            let ghost prev = self@;
            if bottom < self.lines.len() {
                self.lines.remove(bottom);
            }
            let blank = new_blank_line(self.cols);
            self.lines.insert(top, blank);
            i = i + 1;
            assert(self@.lines =~= prev.region_step_down(top as int, bottom as int).lines);
            assert(self@.scrollback =~= prev.region_step_down(top as int, bottom as int).scrollback);
            assert(self@ == prev.region_step_down(top as int, bottom as int));
        }
        self.dirty = true;
        assert(self@.lines =~= old(self)@.region_scrolled_down(top as int, bottom as int, n as nat).lines);
        assert(self@.scrollback =~= old(self)@.region_scrolled_down(top as int, bottom as int, n as nat).scrollback);
    }

    /// Blanks the grid and forgets the history.
    pub fn clear(&mut self)
        requires
            old(self)@.wf(),
        ensures
            final(self)@.wf(),
            final(self)@ == old(self)@.cleared(),
    {
        self.init_lines();
        self.scrollback.clear();
        self.dirty = true;
        assert(self@.lines =~= blank_lines(old(self)@.rows as nat, old(self)@.cols as nat));
        assert(self@.scrollback =~= Seq::<Seq<Cell>>::empty());
    }

    pub fn lines(&self) -> (r: &[Vec<Cell>])
        ensures
            r@.len() == self@.lines.len(),
            forall|i: int| 0 <= i < r@.len() ==> (#[trigger] r@[i])@ == self@.lines[i],
    {
        self.lines.as_slice()
    }

    pub fn scrollback(&self) -> (r: &VecDeque<Vec<Cell>>)
        ensures
            r@.len() == self@.scrollback.len(),
            forall|i: int| 0 <= i < r@.len() ==> (#[trigger] r@[i])@ == self@.scrollback[i],
    {
        &self.scrollback
    }

    /// History line `index` (0 is the oldest), if there is one.
    pub fn get_scrollback_line(&self, index: usize) -> (r: Option<&[Cell]>)
        ensures
            match r {
                Some(line) => index < self@.scrollback.len() && line@ == self@.scrollback[index as int],
                None => index >= self@.scrollback.len(),
            },
    {
        if index < self.scrollback.len() {
            Some(self.scrollback[index].as_slice())
        } else {
            None
        }
    }

    pub fn scrollback_len(&self) -> (n: usize)
        ensures
            n == self@.scrollback.len(),
    {
        self.scrollback.len()
    }

    /// Whether [`ScreenBuffer::resize`] can take `rows` x `cols`: the size is unchanged,
    /// the width is positive, or no line has content that a zero width would cut.
    pub fn can_resize(&self, rows: usize, cols: usize) -> (b: bool)
        ensures
            b == self@.can_resize(rows, cols),
    {
        if (rows == self.rows && cols == self.cols) || cols > 0 {
            return true;
        }
        let ghost all = self@.scrollback + self@.lines;
        let sb_len = self.scrollback.len();
        let mut i: usize = 0;
        while i < sb_len
            invariant
                i <= sb_len,
                sb_len == self.scrollback@.len(),
                all == self@.scrollback + self@.lines,
                !(rows == self@.rows && cols == self@.cols),
                cols == 0,
                forall|k: int| 0 <= k < i ==> trim_end(#[trigger] all[k]).len() == 0,
            decreases sb_len - i,
        {
            assert(all[i as int] == self.scrollback@[i as int]@);
            let t = trimmed_len(&self.scrollback[i]);
            if t > 0 {
                assert(trim_end(all[i as int]).len() > 0);
                assert(!(rows == self@.rows && cols == self@.cols) && cols == 0);
                assert(0 <= i < all.len());
                return false;
            }
            i = i + 1;
        }
        let mut j: usize = 0;
        while j < self.lines.len()
            invariant
                j <= self.lines@.len(),
                sb_len == self.scrollback@.len(),
                all == self@.scrollback + self@.lines,
                !(rows == self@.rows && cols == self@.cols),
                cols == 0,
                forall|k: int| 0 <= k < sb_len + j ==> trim_end(#[trigger] all[k]).len() == 0,
            decreases self.lines@.len() - j,
        {
            assert(all[sb_len + j] == self.lines@[j as int]@);
            let t = trimmed_len(&self.lines[j]);
            if t > 0 {
                assert(trim_end(all[sb_len + j]).len() > 0);
                assert(!(rows == self@.rows && cols == self@.cols) && cols == 0);
                assert(0 <= sb_len + j < all.len());
                return false;
            }
            j = j + 1;
        }
        true
    }

    #[verifier::rlimit(80)]
    /// Changes the grid size, reflowing history and grid together (see `ScreenModel::resized`).
    pub fn resize(&mut self, rows: usize, cols: usize)
        requires
            old(self)@.wf(),
            old(self)@.can_resize(rows, cols),
        ensures
            final(self)@.wf(),
            final(self)@ == old(self)@.resized(rows, cols),
    {
        if cols == self.cols && rows == self.rows {
            return;
        }
        let ghost all_old = old(self)@.scrollback + old(self)@.lines;
        let mut new_all: Vec<Vec<Cell>> = Vec::new();
        let sb_len = self.scrollback.len();
        let mut i: usize = 0;
        assert(all_old.take(0) =~= Seq::<Seq<Cell>>::empty());
        while i < sb_len
            invariant
                i <= sb_len,
                sb_len == self.scrollback@.len(),
                self@ == old(self)@,
                all_old == old(self)@.scrollback + old(self)@.lines,
                old(self)@.can_resize(rows, cols),
                !(rows == old(self)@.rows && cols == old(self)@.cols),
                lines_view(new_all@) == reflow_all(all_old.take(i as int), cols as nat),
            decreases sb_len - i,
        {
            proof {
                assert(all_old[i as int] == self.scrollback@[i as int]@);
                if cols == 0 {
                    assert(trim_end(all_old[i as int]).len() == 0);
                }
                assert(all_old.take(i + 1).drop_last() =~= all_old.take(i as int));
            }
            reflow_into(&mut new_all, &self.scrollback[i], cols);
            i = i + 1;
        }
        let n_lines = self.lines.len();
        let mut j: usize = 0;
        while j < n_lines
            invariant
                j <= n_lines,
                n_lines == self.lines@.len(),
                sb_len == self.scrollback@.len(),
                self@ == old(self)@,
                all_old == old(self)@.scrollback + old(self)@.lines,
                old(self)@.can_resize(rows, cols),
                !(rows == old(self)@.rows && cols == old(self)@.cols),
                lines_view(new_all@) == reflow_all(all_old.take(sb_len + j), cols as nat),
            decreases n_lines - j,
        {
            proof {
                assert(all_old[sb_len + j] == self.lines@[j as int]@);
                if cols == 0 {
                    assert(trim_end(all_old[sb_len + j]).len() == 0);
                }
                assert(all_old.take(sb_len + j + 1).drop_last() =~= all_old.take(sb_len + j));
            }
            reflow_into(&mut new_all, &self.lines[j], cols);
            j = j + 1;
        }
        assert(all_old.take(sb_len + n_lines) =~= all_old);
        let ghost all = reflow_all(all_old, cols as nat);
        proof {
            lemma_reflow_all_widths(all_old, cols as nat);
        }
        self.cols = cols;
        self.rows = rows;
        self.scrollback.clear();
        assert(lines_view(new_all@) == all);
        assert(self@.scrollback =~= Seq::<Seq<Cell>>::empty());
        if new_all.len() > rows {
            let split = new_all.len() - rows;
            let tail = new_all.split_off(split);
            let mut history: VecDeque<Vec<Cell>> = VecDeque::new();
            while new_all.len() > 0
                invariant
                    lines_view(new_all@) + lines_view(history@) == all.take(split as int),
                decreases new_all@.len(),
            {
                let ghost before_n = new_all@;
                let ghost before_h = history@;
                match new_all.pop() {
                    Some(l) => {
                        history.push_front(l);
                        assert(lines_view(new_all@) + lines_view(history@) =~= lines_view(before_n) + lines_view(before_h));
                    },
                    None => {},
                }
            }
            assert(lines_view(history@) =~= all.take(split as int));
            let ghost xs = all.take(split as int);
            assert(xs.skip(0) =~= xs);
            while history.len() > self.max_scrollback
                invariant
                    self.max_scrollback == MAX_SCROLLBACK,
                    xs.len() == split,
                    lines_view(history@) == xs.skip(xs.len() - history@.len()),
                    history@.len() <= split,
                    history@.len() == split || history@.len() >= MAX_SCROLLBACK,
                decreases history@.len(),
            {
                let ghost before_h = history@;
                history.pop_front();
                assert(lines_view(history@) =~= lines_view(before_h).drop_first());
                assert(xs.skip(xs.len() - before_h.len()).drop_first() =~= xs.skip(xs.len() - history@.len()));
            }
            self.scrollback = history;
            self.lines = tail;
            proof {
                lemma_append_capped_empty(all.take(split as int), MAX_SCROLLBACK as nat);
                assert(self@.lines =~= all.skip(all.len() - rows));
                assert(self@.scrollback =~= append_capped(Seq::empty(), all.take(all.len() - rows), MAX_SCROLLBACK as nat));
                assert forall|r: int| 0 <= r < self@.lines.len() implies (#[trigger] self@.lines[r]).len() == cols by {
                    assert(self@.lines[r] == all[r + (all.len() - rows)]);
                }
                assert forall|r: int| 0 <= r < self@.scrollback.len() implies (#[trigger] self@.scrollback[r]).len() == cols by {
                    assert(self@.scrollback[r] == all[r + (xs.len() - self@.scrollback.len())]);
                }
            }
        } else {
            self.lines = new_all;
            assert(self@.lines =~= all + blank_lines(0, cols as nat));
            while self.lines.len() < rows
                invariant
                    self.rows == rows,
                    self.cols == cols,
                    self.scrollback@.len() == 0,
                    self.max_scrollback == MAX_SCROLLBACK,
                    all.len() <= self.lines@.len() <= rows,
                    self@.lines == all + blank_lines((self.lines@.len() - all.len()) as nat, cols as nat),
                decreases rows - self.lines.len(),
            {
                let ghost before = self@.lines;
                let blank = new_blank_line(cols);
                self.lines.push(blank);
                assert(self@.lines =~= before.push(blank_line(cols as nat)));
                assert(blank_lines((self.lines@.len() - all.len()) as nat, cols as nat) =~=
                    blank_lines((before.len() - all.len()) as nat, cols as nat).push(blank_line(cols as nat)));
                assert(self@.lines =~= all + blank_lines((self.lines@.len() - all.len()) as nat, cols as nat));
            }
            assert(self@.scrollback =~= Seq::<Seq<Cell>>::empty());
            assert forall|r: int| 0 <= r < self@.lines.len() implies (#[trigger] self@.lines[r]).len() == cols by {
                if r >= all.len() {
                    assert(self@.lines[r] == blank_lines((self.lines@.len() - all.len()) as nat, cols as nat)[r - all.len()]);
                }
            }
        }
        if self.lines.len() > rows {
            self.lines.truncate(rows);
        }
        self.dirty = true;
    }
}

/// Law: a cell written on the grid is read back unchanged, and no other cell changes.
pub proof fn law_write_then_read(m: ScreenModel, row: int, col: int, c: char, attrs: CellAttributes)
    requires
        m.wf(),
        0 <= row < m.rows,
        0 <= col < m.cols,
    ensures
        m.written(row, col, c, attrs).wf(),
        m.written(row, col, c, attrs).lines[row][col] == (Cell { c, attrs }),
        forall|r: int, k: int|
            0 <= r < m.rows && 0 <= k < m.cols && (r != row || k != col)
                ==> #[trigger] m.written(row, col, c, attrs).lines[r][k] == m.lines[r][k],
{
}

/// Law: scrolling the whole screen up once and then down once gives the grid back;
/// the history is also restored unless it was full (then its oldest line is lost).
pub proof fn law_scroll_up_then_down(m: ScreenModel)
    requires
        m.wf(),
        m.rows > 0,
    ensures
        m.step_up().step_down().lines == m.lines,
        m.scrollback.len() < m.max_scrollback ==> m.step_up().step_down().scrollback == m.scrollback,
        m.scrollback.len() == m.max_scrollback ==> m.step_up().step_down().scrollback == m.scrollback.drop_first(),
        m.step_up().step_down().wf(),
{
    let u = m.step_up();
    assert(u.scrollback.len() > 0);
    assert(u.scrollback.last() == m.lines[0]);
    assert(seq![m.lines[0]] + u.lines.drop_last() =~= m.lines);
    if m.scrollback.len() < m.max_scrollback {
        assert(u.scrollback.drop_last() =~= m.scrollback);
    } else {
        assert(u.scrollback.drop_last() =~= m.scrollback.drop_first());
    }
}

/// One scroll up then one scroll down is the identity while the history has room.
proof fn lemma_step_up_down(m: ScreenModel)
    requires
        m.wf(),
        m.rows > 0,
        m.scrollback.len() < m.max_scrollback,
    ensures
        m.step_up().step_down() == m,
        m.step_up().wf(),
        m.step_up().scrollback.len() == m.scrollback.len() + 1,
{
    law_scroll_up_then_down(m);
    let u = m.step_up();
    assert(u.lines.len() == m.rows);
    assert forall|r: int| 0 <= r < u.lines.len() implies (#[trigger] u.lines[r]).len() == u.cols by {
        if r < u.lines.len() - 1 {
            assert(u.lines[r] == m.lines[r + 1]);
        }
    }
    assert forall|r: int| 0 <= r < u.scrollback.len() implies (#[trigger] u.scrollback[r]).len() == u.cols by {
        if r < m.scrollback.len() {
            assert(u.scrollback[r] == m.scrollback[r]);
        }
    }
}

/// `n` scrolls down equal one scroll down followed by `n - 1` more.
proof fn lemma_scrolled_down_first(m: ScreenModel, n: nat)
    requires
        n > 0,
    ensures
        m.scrolled_down(n) == m.step_down().scrolled_down((n - 1) as nat),
    decreases n,
{
    if n > 1 {
        lemma_scrolled_down_first(m, (n - 1) as nat);
        assert(m.step_down().scrolled_down((n - 1) as nat) == m.step_down().scrolled_down((n - 2) as nat).step_down());
    } else {
        assert(m.scrolled_down(0) == m);
        assert(m.step_down().scrolled_down(0) == m.step_down());
    }
}

/// `n` scrolls up, while the history has room for every line, are undone by `n`
/// scrolls down.
proof fn lemma_scrolled_up_down(m: ScreenModel, n: nat)
    requires
        m.wf(),
        m.rows > 0,
        m.scrollback.len() + n <= m.max_scrollback,
    ensures
        m.scrolled_up(n).scrolled_down(n) == m,
        m.scrolled_up(n).wf(),
        m.scrolled_up(n).rows == m.rows,
        m.scrolled_up(n).scrollback.len() == m.scrollback.len() + n,
    decreases n,
{
    if n > 0 {
        let k = (n - 1) as nat;
        lemma_scrolled_up_down(m, k);
        let u = m.scrolled_up(k);
        lemma_step_up_down(u);
        lemma_scrolled_down_first(u.step_up(), n);
        assert(m.scrolled_up(n) == u.step_up());
    }
}

/// Marking the screen dirty commutes with scrolling it up.
proof fn lemma_scrolled_up_dirty(m: ScreenModel, n: nat)
    ensures
        (ScreenModel { dirty: true, ..m.scrolled_up(n) }) == (ScreenModel { dirty: true, ..m }).scrolled_up(n),
    decreases n,
{
    if n > 0 {
        lemma_scrolled_up_dirty(m, (n - 1) as nat);
    }
}

/// Law: `scroll_up(n)` followed by `scroll_down(n)` gives back the grid and the
/// history, cell for cell, when the history has room for the `n` lines.
pub proof fn law_scroll_up_down_n(m: ScreenModel, n: nat)
    requires
        m.wf(),
        m.rows > 0,
        m.scrollback.len() + n <= m.max_scrollback,
    ensures
        m.scroll_up_result(n).scroll_down_result(n) == (ScreenModel { dirty: true, ..m }),
        m.scroll_up_result(n).scroll_down_result(n).lines == m.lines,
        m.scroll_up_result(n).scroll_down_result(n).scrollback == m.scrollback,
{
    let d = ScreenModel { dirty: true, ..m };
    lemma_scrolled_up_dirty(m, n);
    lemma_scrolled_up_down(d, n);
    assert(m.scroll_up_result(n) == d.scrolled_up(n));
}

/// Law: after `mark_clean` the screen reports no change; from there a write on the
/// grid, every clear and erase, every whole-screen scroll, a region scroll over a
/// non-empty region and a resize to another size each report a change, while a
/// write off the grid, an empty region scroll and a same-size resize do not.
pub proof fn law_dirty_flag(
    m: ScreenModel,
    row: usize,
    col: usize,
    c: char,
    attrs: CellAttributes,
    top: usize,
    bottom: usize,
    n: nat,
    rows: usize,
    cols: usize,
)
    ensures
        ({
            let k = ScreenModel { dirty: false, ..m };
            &&& !k.dirty
            &&& k.lines == m.lines && k.scrollback == m.scrollback
            &&& k.put_char(row, col, c, attrs).dirty == (row < m.rows && col < m.cols)
            &&& k.cleared_all().dirty
            &&& k.cleared().dirty
            &&& k.erased_below(row, col).dirty
            &&& k.erased_above(row, col).dirty
            &&& k.erased_cells(row, col as int, n as int).dirty
            &&& k.scroll_up_result(n).dirty
            &&& k.scroll_down_result(n).dirty
            &&& k.region_up(top, bottom, n).dirty == (clamp_index(top, m.rows) < clamp_index(bottom, m.rows))
            &&& k.region_down(top, bottom, n).dirty == (clamp_index(top, m.rows) < clamp_index(bottom, m.rows))
            &&& k.resized(rows, cols).dirty == !(rows == m.rows && cols == m.cols)
        }),
{
}

/// A call on a screen that may change it, with its arguments.
pub enum ScreenCall {
    WriteChar(usize, usize, char, CellAttributes),
    ClearAll,
    Clear,
    ClearFromCursor(usize, usize),
    ClearToCursor(usize, usize),
    ClearLine(usize),
    ClearLineFromCursor(usize, usize),
    ClearLineToCursor(usize, usize),
    ScrollUp(usize),
    ScrollDown(usize),
    ScrollRegionUp(usize, usize, usize),
    ScrollRegionDown(usize, usize, usize),
    Resize(usize, usize),
}

impl ScreenModel {
    /// The screen after `call`, as the contract of the matching method states it.
    pub open spec fn after_call(self, call: ScreenCall) -> ScreenModel {
        match call {
            ScreenCall::WriteChar(row, col, c, attrs) => self.put_char(row, col, c, attrs),
            ScreenCall::ClearAll => self.cleared_all(),
            ScreenCall::Clear => self.cleared(),
            ScreenCall::ClearFromCursor(row, col) => self.erased_below(row, col),
            ScreenCall::ClearToCursor(row, col) => self.erased_above(row, col),
            ScreenCall::ClearLine(row) => self.erased_cells(row, 0, self.cols as int),
            ScreenCall::ClearLineFromCursor(row, col) => self.erased_cells(row, col as int, self.cols as int),
            ScreenCall::ClearLineToCursor(row, col) => self.erased_cells(row, 0, col + 1),
            ScreenCall::ScrollUp(n) => self.scroll_up_result(n as nat),
            ScreenCall::ScrollDown(n) => self.scroll_down_result(n as nat),
            ScreenCall::ScrollRegionUp(top, bottom, n) => self.region_up(top, bottom, n as nat),
            ScreenCall::ScrollRegionDown(top, bottom, n) => self.region_down(top, bottom, n as nat),
            ScreenCall::Resize(rows, cols) => self.resized(rows, cols),
        }
    }

    /// The screen after `calls`, in order.
    pub open spec fn after_calls(self, calls: Seq<ScreenCall>) -> ScreenModel
        decreases calls.len(),
    {
        if calls.len() == 0 {
            self
        } else {
            self.after_calls(calls.drop_last()).after_call(calls.last())
        }
    }

    /// `call` changes the screen: a write on the grid, any clear or erase, any
    /// whole-screen scroll, a region scroll over a non-empty region, or a resize to
    /// another size.
    pub open spec fn changed_by(self, call: ScreenCall) -> bool {
        match call {
            ScreenCall::WriteChar(row, col, _, _) => row < self.rows && col < self.cols,
            ScreenCall::ScrollRegionUp(top, bottom, _) => clamp_index(top, self.rows) < clamp_index(bottom, self.rows),
            ScreenCall::ScrollRegionDown(top, bottom, _) => clamp_index(top, self.rows) < clamp_index(bottom, self.rows),
            ScreenCall::Resize(rows, cols) => !(rows == self.rows && cols == self.cols),
            _ => true,
        }
    }
}

proof fn lemma_call_dirty(m: ScreenModel, call: ScreenCall)
    ensures
        m.after_call(call).dirty == (m.dirty || m.changed_by(call)),
{
}

/// Law: after `mark_clean`, the screen reports a change after a sequence of calls
/// exactly when one of them changed it (see [`ScreenModel::changed_by`]); until
/// then it stays clean, and the grid and history are those before `mark_clean`.
pub proof fn law_clean_until_changed(m: ScreenModel, calls: Seq<ScreenCall>)
    ensures
        ({
            let k = ScreenModel { dirty: false, ..m };
            &&& k.lines == m.lines && k.scrollback == m.scrollback
            &&& k.after_calls(calls).dirty == exists|i: int|
                0 <= i < calls.len() && #[trigger] k.after_calls(calls.take(i)).changed_by(calls[i])
        }),
    decreases calls.len(),
{
    let k = ScreenModel { dirty: false, ..m };
    if calls.len() > 0 {
        let init = calls.drop_last();
        let j = calls.len() - 1;
        law_clean_until_changed(m, init);
        lemma_call_dirty(k.after_calls(init), calls.last());
        assert(calls.take(j) =~= init);
        assert forall|i: int| 0 <= i < j implies calls.take(i) == init.take(i) && calls[i] == init[i] by {
            assert(calls.take(i) =~= init.take(i));
        }
        if k.after_calls(calls).dirty {
            if k.after_calls(init).dirty {
                let i = choose|i: int| 0 <= i < init.len() && #[trigger] k.after_calls(init.take(i)).changed_by(init[i]);
                assert(calls.take(i) == init.take(i));
                assert(k.after_calls(calls.take(i)).changed_by(calls[i]));
            } else {
                assert(k.after_calls(calls.take(j)).changed_by(calls[j]));
            }
        } else {
            assert forall|i: int| 0 <= i < calls.len() implies !#[trigger] k.after_calls(calls.take(i)).changed_by(calls[i]) by {
                if i < j {
                    assert(calls.take(i) == init.take(i));
                    assert(!k.after_calls(init.take(i)).changed_by(init[i]));
                }
            }
        }
    } else {
        assert(k.after_calls(calls) == k);
    }
}

/// Law: resizing to the current size changes nothing.
pub proof fn law_resize_same_size(m: ScreenModel)
    ensures
        m.resized(m.rows, m.cols) == m,
{
}

} // verus!
