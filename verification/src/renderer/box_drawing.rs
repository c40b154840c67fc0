//! Box-drawing characters drawn as pixel lines, so that they join across cells.
use vstd::prelude::*;
use super::raster::{lit_buffer, grid_ok, fill_rect, lemma_lit_compose, lemma_lit_same};
use vstd::arithmetic::div_mod::lemma_fundamental_div_mod_converse;

verus! {

/// Line thickness for a cell `ch` pixels high: a 14th of it, at least 1.
pub open spec fn line_thickness(ch: u32) -> int {
    if ch / 14 >= 1 { (ch / 14) as int } else { 1 }
}

/// Pixels of a horizontal stroke from column `x0` to `x1` at the middle row.
pub open spec fn h_stroke(cw: u32, ch: u32, x0: int, x1: int, x: int, y: int) -> bool {
    x0 <= x < x1 && ch / 2 <= y < ch / 2 + line_thickness(ch)
}

/// Pixels of a vertical stroke from row `y0` to `y1` at the middle column.
pub open spec fn v_stroke(cw: u32, ch: u32, y0: int, y1: int, x: int, y: int) -> bool {
    cw / 2 <= x < cw / 2 + line_thickness(ch) && y0 <= y < y1
}

/// The pixels lit for box-drawing character `c` (light lines, rounded corners,
/// tees and the cross; other characters light nothing).
pub open spec fn box_lit(c: char, cw: u32, ch: u32, x: int, y: int) -> bool {
    let mx = (cw / 2) as int;
    let my = (ch / 2) as int;
    let t = line_thickness(ch);
    let w = cw as int;
    let h = ch as int;
    if c == '─' {
        h_stroke(cw, ch, 0, w, x, y)
    } else if c == '│' {
        v_stroke(cw, ch, 0, h, x, y)
    } else if c == '╭' {
        h_stroke(cw, ch, mx, w, x, y) || v_stroke(cw, ch, my, h, x, y)
    } else if c == '╮' {
        h_stroke(cw, ch, 0, mx + t, x, y) || v_stroke(cw, ch, my, h, x, y)
    } else if c == '╰' {
        h_stroke(cw, ch, mx, w, x, y) || v_stroke(cw, ch, 0, my + t, x, y)
    } else if c == '╯' {
        h_stroke(cw, ch, 0, mx + t, x, y) || v_stroke(cw, ch, 0, my + t, x, y)
    } else if c == '├' {
        v_stroke(cw, ch, 0, h, x, y) || h_stroke(cw, ch, mx, w, x, y)
    } else if c == '┤' {
        v_stroke(cw, ch, 0, h, x, y) || h_stroke(cw, ch, 0, mx, x, y)
    } else if c == '┬' {
        h_stroke(cw, ch, 0, w, x, y) || v_stroke(cw, ch, my, h, x, y)
    } else if c == '┴' {
        h_stroke(cw, ch, 0, w, x, y) || v_stroke(cw, ch, 0, my, x, y)
    } else if c == '┼' {
        h_stroke(cw, ch, 0, w, x, y) || v_stroke(cw, ch, 0, h, x, y)
    } else {
        false
    }
}

/// Some horizontal stroke of `c` has columns to draw.
pub open spec fn has_h_stroke(c: char, cw: u32) -> bool {
    if c == '─' || c == '╭' || c == '╮' || c == '╰' || c == '╯' || c == '├' || c == '┬' || c == '┴' || c == '┼' {
        cw > 0
    } else if c == '┤' {
        cw >= 2
    } else {
        false
    }
}

/// Some vertical stroke of `c` has rows to draw.
pub open spec fn has_v_stroke(c: char, ch: u32) -> bool {
    if c == '│' || c == '╭' || c == '╮' || c == '╰' || c == '╯' || c == '├' || c == '┤' || c == '┬' || c == '┼' {
        ch > 0
    } else if c == '┴' {
        ch >= 2
    } else {
        false
    }
}

/// Draws a horizontal stroke (see [`h_stroke`]).
fn hline(buf: &mut [u8], cw: u32, ch: u32, x0: u32, x1: u32, thick: u32)
    requires
        grid_ok(old(buf)@.len() as int, cw, ch),
        thick == line_thickness(ch),
        ch / 2 + thick <= u32::MAX,
    ensures
        final(buf)@ == lit_buffer(old(buf)@, cw as int, ch as int, |x: int, y: int| h_stroke(cw, ch, x0 as int, x1 as int, x, y)),
        final(buf)@.len() == old(buf)@.len(),
{
    let y = ch / 2;
    fill_rect(buf, cw, ch, x0, y, x1, y + thick);
    proof {
        assert((|x: int, yy: int| x0 <= x < x1 && y <= yy < y + thick) =~= (|x: int, yy: int| h_stroke(cw, ch, x0 as int, x1 as int, x, yy)));
    }
}

/// Draws a vertical stroke (see [`v_stroke`]).
fn vline(buf: &mut [u8], cw: u32, ch: u32, y0: u32, y1: u32, thick: u32)
    requires
        grid_ok(old(buf)@.len() as int, cw, ch),
        thick == line_thickness(ch),
        cw / 2 + thick <= u32::MAX,
    ensures
        final(buf)@ == lit_buffer(old(buf)@, cw as int, ch as int, |x: int, y: int| v_stroke(cw, ch, y0 as int, y1 as int, x, y)),
        final(buf)@.len() == old(buf)@.len(),
{
    let x = cw / 2;
    fill_rect(buf, cw, ch, x, y0, x + thick, y1);
    proof {
        assert((|xx: int, y: int| x <= xx < x + thick && y0 <= y < y1) =~= (|xx: int, y: int| v_stroke(cw, ch, y0 as int, y1 as int, xx, y)));
    }
}

/// Draws box-drawing character `c` into the `cw` x `ch` coverage buffer `buf`
/// (see [`box_lit`]); other characters leave it unchanged.
pub fn fill_box_drawing(c: char, buf: &mut [u8], cw: u32, ch: u32)
    requires
        grid_ok(old(buf)@.len() as int, cw, ch),
        !(has_h_stroke(c, cw) && ch == 0),
        !(has_v_stroke(c, ch) && cw == 0),
    ensures
        final(buf)@ == lit_buffer(old(buf)@, cw as int, ch as int, |x: int, y: int| box_lit(c, cw, ch, x, y)),
{
    let mid_x = cw / 2;
    let mid_y = ch / 2;
    let thick = if ch / 14 >= 1 { ch / 14 } else { 1 };
    let ghost b0 = buf@;
    let ghost w = cw as int;
    let ghost h = ch as int;
    let ghost mx = mid_x as int;
    let ghost my = mid_y as int;
    let ghost t = thick as int;
    proof {
        assert(cw / 2 + thick <= u32::MAX && ch / 2 + thick <= u32::MAX) by (nonlinear_arith)
            requires
                cw * ch <= u32::MAX,
                thick <= ch / 14 + 1,
        {
            if cw > 0 && ch > 0 {
                assert((cw - 1) * (ch - 1) >= 0);
            }
        }
    }
    if c == '─' {
        hline(buf, cw, ch, 0, cw, thick);
    } else if c == '│' {
        vline(buf, cw, ch, 0, ch, thick);
    } else if c == '╭' {
        hline(buf, cw, ch, mid_x, cw, thick);
        vline(buf, cw, ch, mid_y, ch, thick);
        proof {
            lemma_lit_compose(b0, w, h, |x: int, y: int| h_stroke(cw, ch, mx, w, x, y), |x: int, y: int| v_stroke(cw, ch, my, h, x, y));
        }
    } else if c == '╮' {
        hline(buf, cw, ch, 0, mid_x + thick, thick);
        vline(buf, cw, ch, mid_y, ch, thick);
        proof {
            lemma_lit_compose(b0, w, h, |x: int, y: int| h_stroke(cw, ch, 0, mx + t, x, y), |x: int, y: int| v_stroke(cw, ch, my, h, x, y));
        }
    } else if c == '╰' {
        hline(buf, cw, ch, mid_x, cw, thick);
        vline(buf, cw, ch, 0, mid_y + thick, thick);
        proof {
            lemma_lit_compose(b0, w, h, |x: int, y: int| h_stroke(cw, ch, mx, w, x, y), |x: int, y: int| v_stroke(cw, ch, 0, my + t, x, y));
        }
    } else if c == '╯' {
        hline(buf, cw, ch, 0, mid_x + thick, thick);
        vline(buf, cw, ch, 0, mid_y + thick, thick);
        proof {
            lemma_lit_compose(b0, w, h, |x: int, y: int| h_stroke(cw, ch, 0, mx + t, x, y), |x: int, y: int| v_stroke(cw, ch, 0, my + t, x, y));
        }
    } else if c == '├' {
        vline(buf, cw, ch, 0, ch, thick);
        hline(buf, cw, ch, mid_x, cw, thick);
        proof {
            lemma_lit_compose(b0, w, h, |x: int, y: int| v_stroke(cw, ch, 0, h, x, y), |x: int, y: int| h_stroke(cw, ch, mx, w, x, y));
        }
    } else if c == '┤' {
        vline(buf, cw, ch, 0, ch, thick);
        hline(buf, cw, ch, 0, mid_x, thick);
        proof {
            lemma_lit_compose(b0, w, h, |x: int, y: int| v_stroke(cw, ch, 0, h, x, y), |x: int, y: int| h_stroke(cw, ch, 0, mx, x, y));
        }
    } else if c == '┬' {
        hline(buf, cw, ch, 0, cw, thick);
        vline(buf, cw, ch, mid_y, ch, thick);
        proof {
            lemma_lit_compose(b0, w, h, |x: int, y: int| h_stroke(cw, ch, 0, w, x, y), |x: int, y: int| v_stroke(cw, ch, my, h, x, y));
        }
    } else if c == '┴' {
        hline(buf, cw, ch, 0, cw, thick);
        vline(buf, cw, ch, 0, mid_y, thick);
        proof {
            lemma_lit_compose(b0, w, h, |x: int, y: int| h_stroke(cw, ch, 0, w, x, y), |x: int, y: int| v_stroke(cw, ch, 0, my, x, y));
        }
    } else if c == '┼' {
        hline(buf, cw, ch, 0, cw, thick);
        vline(buf, cw, ch, 0, ch, thick);
        proof {
            lemma_lit_compose(b0, w, h, |x: int, y: int| h_stroke(cw, ch, 0, w, x, y), |x: int, y: int| v_stroke(cw, ch, 0, h, x, y));
        }
    } else {
        assert(b0 =~= lit_buffer(b0, w, h, |x: int, y: int| box_lit(c, cw, ch, x, y)));
        return;
    }
    proof {
        assert(buf@ =~= lit_buffer(b0, w, h, |x: int, y: int| box_lit(c, cw, ch, x, y)));
    }
}


/// Pixel (`x`, `y`) of a `cw` x `ch` grid after lighting `lit` on top of `b`.
proof fn lemma_pixel(b: Seq<u8>, cw: int, ch: int, lit: spec_fn(int, int) -> bool, x: int, y: int)
    requires
        0 <= x < cw,
        0 <= y < ch,
        cw * ch <= b.len(),
    ensures
        0 <= y * cw + x < b.len(),
        lit_buffer(b, cw, ch, lit)[y * cw + x] == if lit(x, y) { 255u8 } else { b[y * cw + x] },
{
    assert(0 <= y * cw + x < cw * ch) by (nonlinear_arith)
        requires
            0 <= x < cw,
            0 <= y < ch,
    ;
    lemma_fundamental_div_mod_converse(y * cw + x, cw, y, x);
}

/// Law: the tees point the right way. For `┬` nothing above the crossbar is lit,
/// the crossbar spans the cell's width, and the middle column is lit from the
/// middle row down to the bottom; `┴` is its mirror image: nothing below the
/// crossbar, and the middle column lit from the top down to the middle row.
pub proof fn law_tees(b: Seq<u8>, cw: u32, ch: u32, x: int, y: int)
    requires
        grid_ok(b.len() as int, cw, ch),
        0 <= x < cw,
        0 <= y < ch,
    ensures
        ({
            let down = lit_buffer(b, cw as int, ch as int, |px: int, py: int| box_lit('┬', cw, ch, px, py));
            let i = y * cw + x;
            &&& y < ch / 2 ==> down[i] == b[i]
            &&& y == ch / 2 ==> down[i] == 255
            &&& x == cw / 2 && y >= ch / 2 ==> down[i] == 255
        }),
        ({
            let up = lit_buffer(b, cw as int, ch as int, |px: int, py: int| box_lit('┴', cw, ch, px, py));
            let i = y * cw + x;
            &&& y >= ch / 2 + line_thickness(ch) ==> up[i] == b[i]
            &&& y == ch / 2 ==> up[i] == 255
            &&& x == cw / 2 && y <= ch / 2 ==> up[i] == 255
        }),
{
    lemma_pixel(b, cw as int, ch as int, |px: int, py: int| box_lit('┬', cw, ch, px, py), x, y);
    lemma_pixel(b, cw as int, ch as int, |px: int, py: int| box_lit('┴', cw, ch, px, py), x, y);
}

/// Law: box-drawing characters join their neighbours. In a cell wide and high
/// enough for a stroke to stay clear of the far edges, the middle of the left edge
/// is lit exactly for the characters with a line to the left (`─ ╮ ╯ ┤ ┬ ┴ ┼`), the
/// middle of the right edge for those with a line to the right (`─ ╭ ╰ ├ ┬ ┴ ┼`),
/// the middle of the top edge for those with a line up (`│ ╰ ╯ ├ ┤ ┴ ┼`) and the
/// middle of the bottom edge for those with a line down (`│ ╭ ╮ ├ ┤ ┬ ┼`); the
/// other pixels there keep what the buffer held.
pub proof fn law_box_edges(b: Seq<u8>, c: char, cw: u32, ch: u32)
    requires
        grid_ok(b.len() as int, cw, ch),
        cw / 2 + line_thickness(ch) < cw,
        ch / 2 + line_thickness(ch) < ch,
    ensures
        ({
            let r = lit_buffer(b, cw as int, ch as int, |px: int, py: int| box_lit(c, cw, ch, px, py));
            let mx = (cw / 2) as int;
            let my = (ch / 2) as int;
            let left = my * cw + 0;
            let right = my * cw + (cw - 1);
            let top = 0 * cw + mx;
            let bottom = (ch - 1) * cw + mx;
            &&& r[left] == if c == '─' || c == '╮' || c == '╯' || c == '┤' || c == '┬' || c == '┴' || c == '┼' {
                255u8
            } else {
                b[left]
            }
            &&& r[right] == if c == '─' || c == '╭' || c == '╰' || c == '├' || c == '┬' || c == '┴' || c == '┼' {
                255u8
            } else {
                b[right]
            }
            &&& r[top] == if c == '│' || c == '╰' || c == '╯' || c == '├' || c == '┤' || c == '┴' || c == '┼' {
                255u8
            } else {
                b[top]
            }
            &&& r[bottom] == if c == '│' || c == '╭' || c == '╮' || c == '├' || c == '┤' || c == '┬' || c == '┼' {
                255u8
            } else {
                b[bottom]
            }
        }),
{
    let mx = (cw / 2) as int;
    let my = (ch / 2) as int;
    lemma_pixel(b, cw as int, ch as int, |px: int, py: int| box_lit(c, cw, ch, px, py), 0, my);
    lemma_pixel(b, cw as int, ch as int, |px: int, py: int| box_lit(c, cw, ch, px, py), cw - 1, my);
    lemma_pixel(b, cw as int, ch as int, |px: int, py: int| box_lit(c, cw, ch, px, py), mx, 0);
    lemma_pixel(b, cw as int, ch as int, |px: int, py: int| box_lit(c, cw, ch, px, py), mx, ch - 1);
}
} // verus!
