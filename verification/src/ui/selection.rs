//! Mouse selections: which cells they cover and the text they copy.
use vstd::prelude::*;
use crate::terminal::buffer::{ScreenBuffer, ScreenModel};
use crate::config::config::trail_ws;

verus! {

/// Cell (`row`, `col`) lies in the selection rectangle whose corners are
/// (`r0`, `c0`) and (`r1`, `c1`).
pub open spec fn in_selection(row: usize, col: usize, r0: usize, c0: usize, r1: usize, c1: usize) -> bool {
    r0 <= row <= r1 && c0 <= col <= c1
}

pub fn is_in_selection(row: usize, col: usize, r0: usize, c0: usize, r1: usize, c1: usize) -> (b: bool)
    ensures
        b == in_selection(row, col, r0, c0, r1, c1),
{
    r0 <= row && row <= r1 && c0 <= col && col <= c1
}

/// `s` without trailing whitespace (`str::trim_end`).
pub open spec fn trim_end_chars(s: Seq<char>) -> Seq<char> {
    s.take(s.len() - trail_ws(s))
}

/// Last column a selection row reads: `c1` on the last row, else the last column,
/// clipped to the grid.
pub open spec fn row_end(m: ScreenModel, row: int, r1: usize, c1: usize) -> int {
    let last: int = if m.cols >= 1 { m.cols - 1 } else { 0 };
    let e: int = if row == r1 { c1 as int } else { last };
    if e <= last { e } else { last }
}

/// The characters of row `row` of a selection, before trimming.
pub open spec fn row_chars(m: ScreenModel, row: int, r0: usize, c0: usize, r1: usize, c1: usize) -> Seq<char> {
    let start: int = if row == r0 { c0 as int } else { 0 };
    let end = row_end(m, row, r1, c1);
    if 0 <= row < m.lines.len() && start <= end && m.cols > 0 {
        Seq::new((end - start + 1) as nat, |k: int| m.lines[row][start + k].c)
    } else {
        Seq::empty()
    }
}

/// The text of the selection rows `r0..=r`: each row trimmed at its end, rows
/// separated by a newline once some text was produced.
pub open spec fn selection_upto(m: ScreenModel, r: int, r0: usize, c0: usize, r1: usize, c1: usize) -> Seq<char>
    decreases r - r0 + 1,
{
    if r < r0 {
        Seq::empty()
    } else {
        let prev = selection_upto(m, r - 1, r0, c0, r1, c1);
        let t = trim_end_chars(row_chars(m, r, r0, c0, r1, c1));
        if prev.len() > 0 {
            prev + seq!['\n'] + t
        } else {
            prev + t
        }
    }
}

/// Last row a selection reads: `r1`, clipped to the grid.
pub open spec fn last_row(m: ScreenModel, r1: usize) -> int {
    let last: int = if m.rows >= 1 { m.rows - 1 } else { 0 };
    if r1 <= last { r1 as int } else { last }
}

/// Trims trailing whitespace off `s`.
fn trim_end_string(s: &Vec<char>) -> (r: String)
    ensures
        r@ == trim_end_chars(s@),
{
    let mut end = s.len();
    assert(s@.take(end as int) =~= s@);
    while end > 0 && (('\t' <= s[end - 1] && s[end - 1] <= '\r') || s[end - 1] == ' ' || s[end - 1] == '\u{85}'
        || s[end - 1] == '\u{a0}' || s[end - 1] == '\u{1680}' || ('\u{2000}' <= s[end - 1] && s[end - 1] <= '\u{200a}')
        || s[end - 1] == '\u{2028}' || s[end - 1] == '\u{2029}' || s[end - 1] == '\u{202f}' || s[end - 1] == '\u{205f}'
        || s[end - 1] == '\u{3000}')
        invariant
            end <= s@.len(),
            trail_ws(s@) == (s@.len() - end) + trail_ws(s@.take(end as int)),
        decreases end,
    {
        assert(s@.take(end as int).drop_last() =~= s@.take(end - 1));
        end = end - 1;
    }
    proof {
        if end > 0 {
            assert(s@.take(end as int).last() == s@[end - 1]);
        }
    }
    let mut r = String::new();
    let mut i: usize = 0;
    while i < end
        invariant
            i <= end <= s@.len(),
            r@ == s@.take(i as int),
        decreases end - i,
    {
        r.push(s[i]);
        i = i + 1;
        assert(r@ =~= s@.take(i as int));
    }
    r
}

/// The text of the selection from (`r0`, `c0`) to (`r1`, `c1`) of `screen`
/// (see [`selection_upto`]).
pub fn selected_text(screen: &ScreenBuffer, r0: usize, c0: usize, r1: usize, c1: usize) -> (out: String)
    requires
        screen@.wf(),
    ensures
        out@ == selection_upto(screen@, last_row(screen@, r1), r0, c0, r1, c1),
{
    let rows = screen.rows();
    let cols = screen.cols();
    let rmax = if r1 < rows.saturating_sub(1) { r1 } else { rows.saturating_sub(1) };
    let mut out = String::new();
    let mut row = r0;
    let ghost m = screen@;
    while row <= rmax
        invariant
            r0 <= row,
            row <= rmax + 1 || row == r0,
            rmax == last_row(m, r1),
            rmax < usize::MAX,
            m == screen@,
            m.wf(),
            rows == m.rows,
            cols == m.cols,
            out@ == selection_upto(m, row - 1, r0, c0, r1, c1),
        decreases rmax + 1 - row,
    {
        let c_start = if row == r0 { c0 } else { 0 };
        let last_col = cols.saturating_sub(1);
        let c_end0 = if row == r1 { c1 } else { last_col };
        let c_end = if c_end0 < last_col { c_end0 } else { last_col };
        let mut line: Vec<char> = Vec::new();
        let ghost want = row_chars(m, row as int, r0, c0, r1, c1);
        if row < rows && cols > 0 {
            let mut col = c_start;
            assert(want.take(0) =~= Seq::<char>::empty());
            while col <= c_end
                invariant
                    c_start <= col,
                    col <= c_end + 1 || col == c_start,
                    c_end < cols,
                    row < rows,
                    rows == m.rows,
                    cols == m.cols,
                    c_end == row_end(m, row as int, r1, c1),
                    c_start == (if row == r0 { c0 as int } else { 0 }),
                    m == screen@,
                    m.wf(),
                    want == row_chars(m, row as int, r0, c0, r1, c1),
                    c_start <= c_end + 1 ==> line@ == want.take(col - c_start),
                    c_start > c_end ==> line@.len() == 0,
                decreases c_end + 1 - col,
            {
                assert(m.lines[row as int].len() == m.cols);
                match screen.cell(row, col) {
                    Some(cell) => line.push(cell.c),
                    None => {},
                }
                col = col + 1;
                assert(line@ =~= want.take(col - c_start));
            }
            proof {
                if c_start <= c_end {
                    assert(want.take(col - c_start) =~= want);
                } else {
                    assert(line@ =~= want);
                }
            }
        } else {
            assert(line@ =~= want);
        }
        let trimmed = trim_end_string(&line);
        let ghost prev = out@;
        if out.as_str().is_empty() {
            out.push_str(trimmed.as_str());
        } else {
            out.push('\n');
            out.push_str(trimmed.as_str());
        }
        assert(out@ =~= selection_upto(m, row as int, r0, c0, r1, c1));
        row = row + 1;
    }
    out
}

} // verus!
