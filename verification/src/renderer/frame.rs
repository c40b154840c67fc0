//! What one frame draws, cell by cell in row-major order: the cells that need a
//! background quad and the characters that need a glyph, with the colour each
//! takes; the pixel geometry is left to the caller.
use vstd::prelude::*;
use vstd::arithmetic::div_mod::lemma_fundamental_div_mod_converse;
use crate::terminal::buffer::{Cell, ScreenBuffer, ScreenModel};
use crate::ui::selection::{in_selection, is_in_selection};
use super::cell_color::{ColorChoice, drawn_fg, drawn_bg, foreground_choice, background_choice, has_custom_background};

verus! {

/// How a cell's background is filled.
#[derive(Debug, Clone, Copy, PartialEq, Eq)]
pub enum CellFill {
    /// The selection colour.
    Selection,
    /// The cell's own background colour.
    Color(ColorChoice),
}

/// A cell whose background is drawn.
#[derive(Debug, Clone, Copy)]
pub struct BackgroundQuad {
    pub row: usize,
    pub col: usize,
    pub fill: CellFill,
}

/// How a character is coloured.
#[derive(Debug, Clone, Copy, PartialEq, Eq)]
pub enum TextColor {
    /// Selected text takes the window's background colour.
    Selected,
    /// The cell's own text colour.
    Color(ColorChoice),
}

/// A character to draw at a cell.
#[derive(Debug, Clone, Copy)]
pub struct GlyphQuad {
    pub row: usize,
    pub col: usize,
    pub c: char,
    pub color: TextColor,
}

/// The cell at (`r`, `c`), if the grid has one there.
pub open spec fn cell_at(m: ScreenModel, r: int, c: int) -> Option<Cell> {
    if 0 <= r < m.lines.len() && 0 <= c < m.lines[r].len() {
        Some(m.lines[r][c])
    } else {
        None
    }
}

/// The selection rectangle `sel` holds cell (`r`, `c`).
pub open spec fn selected(sel: Option<(usize, usize, usize, usize)>, r: usize, c: usize) -> bool {
    match sel {
        Some((r0, c0, r1, c1)) => in_selection(r, c, r0, c0, r1, c1),
        None => false,
    }
}

/// The background of a cell: the selection colour when selected, else its
/// own colour when it names one or is in inverse video, else none (the
/// cleared window shows).
pub open spec fn cell_fill(cell: Cell, sel: bool) -> Option<CellFill> {
    if sel {
        Some(CellFill::Selection)
    } else if cell.attrs.bg_color is Some || cell.attrs.bg_rgb is Some || cell.attrs.inverse {
        Some(CellFill::Color(drawn_bg(cell.attrs)))
    } else {
        None
    }
}

/// The colour of a cell's character, unless the cell is blank (space or NUL).
pub open spec fn cell_text(cell: Cell, sel: bool) -> Option<TextColor> {
    if cell.c == ' ' || cell.c == '\0' {
        None
    } else if sel {
        Some(TextColor::Selected)
    } else {
        Some(TextColor::Color(drawn_fg(cell.attrs)))
    }
}

/// The background quads of the first `k` cells of a grid `cols` wide, in order.
pub open spec fn backgrounds_upto(
    m: ScreenModel,
    cols: int,
    sel: Option<(usize, usize, usize, usize)>,
    k: int,
) -> Seq<BackgroundQuad>
    decreases k,
{
    if k <= 0 || cols <= 0 {
        Seq::empty()
    } else {
        let prev = backgrounds_upto(m, cols, sel, k - 1);
        let r = (k - 1) / cols;
        let c = (k - 1) % cols;
        match cell_at(m, r, c) {
            Some(cell) => match cell_fill(cell, selected(sel, r as usize, c as usize)) {
                Some(f) => prev.push(BackgroundQuad { row: r as usize, col: c as usize, fill: f }),
                None => prev,
            },
            None => prev,
        }
    }
}

/// The glyph quads of the first `k` cells of a grid `cols` wide, in order.
pub open spec fn glyphs_upto(m: ScreenModel, cols: int, sel: Option<(usize, usize, usize, usize)>, k: int) -> Seq<GlyphQuad>
    decreases k,
{
    if k <= 0 || cols <= 0 {
        Seq::empty()
    } else {
        let prev = glyphs_upto(m, cols, sel, k - 1);
        let r = (k - 1) / cols;
        let c = (k - 1) % cols;
        match cell_at(m, r, c) {
            Some(cell) => match cell_text(cell, selected(sel, r as usize, c as usize)) {
                Some(t) => prev.push(GlyphQuad { row: r as usize, col: c as usize, c: cell.c, color: t }),
                None => prev,
            },
            None => prev,
        }
    }
}

fn selected_exec(sel: Option<(usize, usize, usize, usize)>, r: usize, c: usize) -> (b: bool)
    ensures
        b == selected(sel, r, c),
{
    match sel {
        Some((r0, c0, r1, c1)) => is_in_selection(r, c, r0, c0, r1, c1),
        None => false,
    }
}

/// The smaller of two sizes.
pub open spec fn min_size(a: usize, b: usize) -> usize {
    if a < b { a } else { b }
}

/// What a frame draws over the first `rows` x `cols` cells of `screen` (clipped
/// to the screen), with the selection `sel`: the cells that need a background
/// quad and the characters that need a glyph, each in row-major order.
pub fn frame_quads(screen: &ScreenBuffer, rows: usize, cols: usize, sel: Option<(usize, usize, usize, usize)>) -> (r: (
    Vec<BackgroundQuad>,
    Vec<GlyphQuad>,
))
    requires
        min_size(screen@.rows, rows) * min_size(screen@.cols, cols) <= usize::MAX,
    ensures
        r.0@ == backgrounds_upto(
            screen@,
            min_size(screen@.cols, cols) as int,
            sel,
            min_size(screen@.rows, rows) * min_size(screen@.cols, cols),
        ),
        r.1@ == glyphs_upto(
            screen@,
            min_size(screen@.cols, cols) as int,
            sel,
            min_size(screen@.rows, rows) * min_size(screen@.cols, cols),
        ),
{
    let nr = if screen.rows() < rows { screen.rows() } else { rows };
    let nc = if screen.cols() < cols { screen.cols() } else { cols };
    let ghost m = screen@;
    let mut bgs: Vec<BackgroundQuad> = Vec::new();
    let mut gls: Vec<GlyphQuad> = Vec::new();
    let mut row: usize = 0;
    while row < nr
        invariant
            nr * nc <= usize::MAX,
            row <= nr,
            m == screen@,
            bgs@ == backgrounds_upto(m, nc as int, sel, row * nc),
            gls@ == glyphs_upto(m, nc as int, sel, row * nc),
        decreases nr - row,
    {
        let mut col: usize = 0;
        while col < nc
            invariant
                nr * nc <= usize::MAX,
                row < nr,
                col <= nc,
                m == screen@,
                bgs@ == backgrounds_upto(m, nc as int, sel, row * nc + col),
                gls@ == glyphs_upto(m, nc as int, sel, row * nc + col),
            decreases nc - col,
        {
            proof {
                lemma_fundamental_div_mod_converse((row * nc + col) as int, nc as int, row as int, col as int);
            }
            match screen.cell(row, col) {
                Some(cell) => {
                    let s = selected_exec(sel, row, col);
                    if s {
                        bgs.push(BackgroundQuad { row, col, fill: CellFill::Selection });
                    } else if has_custom_background(&cell.attrs) {
                        bgs.push(BackgroundQuad { row, col, fill: CellFill::Color(background_choice(&cell.attrs)) });
                    }
                    if cell.c != ' ' && cell.c != '\0' {
                        let color = if s { TextColor::Selected } else { TextColor::Color(foreground_choice(&cell.attrs)) };
                        gls.push(GlyphQuad { row, col, c: cell.c, color });
                    }
                },
                None => {},
            }
            col = col + 1;
        }
        proof {
            assert((row + 1) * nc == row * nc + nc) by (nonlinear_arith);
        }
        row = row + 1;
    }
    (bgs, gls)
}

} // verus!
