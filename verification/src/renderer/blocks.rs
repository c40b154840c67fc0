//! Block elements (U+2580..U+259F) and braille patterns (U+2800..U+28FF) drawn as
//! pixel rectangles.
use vstd::prelude::*;
use super::raster::{lit_buffer, grid_ok, fill_rect, set_pixel, lemma_lit_compose, lemma_lit_same};

verus! {

/// Pixels of the rectangle `x0..x1` by `y0..y1`.
pub open spec fn in_rect(x0: int, y0: int, x1: int, y1: int, x: int, y: int) -> bool {
    x0 <= x < x1 && y0 <= y < y1
}

/// The shade patterns: light (`(x + 2y) % 4 == 0`), medium (`(x + y) % 2 == 0`) and
/// dark (`(x + y) % 4 != 0`).
pub open spec fn shade_lit(kind: u32, x: int, y: int) -> bool {
    if kind == 1 {
        (x + 2 * y) % 4 == 0
    } else if kind == 2 {
        (x + y) % 2 == 0
    } else {
        (x + y) % 4 != 0
    }
}

/// The pixels of block element `code` in a `cw` x `ch` cell: eighths are `ch * k / 8`
/// rows and `cw * k / 8` columns; unknown codes fill the cell.
pub open spec fn block_lit(code: u32, cw: u32, ch: u32, x: int, y: int) -> bool {
    let w = cw as int;
    let h = ch as int;
    let h1 = (ch / 8) as int;
    let h2 = (ch * 2 / 8) as int;
    let h3 = (ch * 3 / 8) as int;
    let h4 = (ch * 4 / 8) as int;
    let h5 = (ch * 5 / 8) as int;
    let h6 = (ch * 6 / 8) as int;
    let h7 = (ch * 7 / 8) as int;
    let w1 = (cw / 8) as int;
    let w2 = (cw * 2 / 8) as int;
    let w3 = (cw * 3 / 8) as int;
    let w4 = (cw * 4 / 8) as int;
    if code == 0x2580 {
        in_rect(0, 0, w, h4, x, y)
    } else if code == 0x2581 {
        in_rect(0, h - h1, w, h, x, y)
    } else if code == 0x2582 {
        in_rect(0, h - h2, w, h, x, y)
    } else if code == 0x2583 {
        in_rect(0, h - h3, w, h, x, y)
    } else if code == 0x2584 {
        in_rect(0, h4, w, h, x, y)
    } else if code == 0x2585 {
        in_rect(0, h - h5, w, h, x, y)
    } else if code == 0x2586 {
        in_rect(0, h - h6, w, h, x, y)
    } else if code == 0x2587 {
        in_rect(0, h - h7, w, h, x, y)
    } else if code == 0x2588 {
        in_rect(0, 0, w, h, x, y)
    } else if code == 0x2589 {
        in_rect(0, 0, (cw * 7 / 8) as int, h, x, y)
    } else if code == 0x258A {
        in_rect(0, 0, (cw * 6 / 8) as int, h, x, y)
    } else if code == 0x258B {
        in_rect(0, 0, (cw * 5 / 8) as int, h, x, y)
    } else if code == 0x258C {
        in_rect(0, 0, w4, h, x, y)
    } else if code == 0x258D {
        in_rect(0, 0, w3, h, x, y)
    } else if code == 0x258E {
        in_rect(0, 0, w2, h, x, y)
    } else if code == 0x258F {
        in_rect(0, 0, w1, h, x, y)
    } else if code == 0x2590 {
        in_rect(w4, 0, w, h, x, y)
    } else if code == 0x2591 {
        shade_lit(1, x, y)
    } else if code == 0x2592 {
        shade_lit(2, x, y)
    } else if code == 0x2593 {
        shade_lit(3, x, y)
    } else if code == 0x2594 {
        in_rect(0, 0, w, h1, x, y)
    } else if code == 0x2595 {
        in_rect(w - w1, 0, w, h, x, y)
    } else if code == 0x2596 {
        in_rect(0, h4, w4, h, x, y)
    } else if code == 0x2597 {
        in_rect(w4, h4, w, h, x, y)
    } else if code == 0x2598 {
        in_rect(0, 0, w4, h4, x, y)
    } else if code == 0x2599 {
        in_rect(0, 0, w4, h, x, y) || in_rect(w4, h4, w, h, x, y)
    } else if code == 0x259A {
        in_rect(0, 0, w4, h4, x, y) || in_rect(w4, h4, w, h, x, y)
    } else if code == 0x259B {
        in_rect(0, 0, w, h4, x, y) || in_rect(0, h4, w4, h, x, y)
    } else if code == 0x259C {
        in_rect(0, 0, w, h4, x, y) || in_rect(w4, h4, w, h, x, y)
    } else if code == 0x259D {
        in_rect(w4, 0, w, h4, x, y)
    } else if code == 0x259E {
        in_rect(w4, 0, w, h4, x, y) || in_rect(0, h4, w4, h, x, y)
    } else if code == 0x259F {
        in_rect(w4, 0, w, h4, x, y) || in_rect(0, h4, w, h, x, y)
    } else {
        in_rect(0, 0, w, h, x, y)
    }
}

/// Width of a braille dot: 28% of the cell width, rounded to nearest, at least 1.
pub open spec fn dot_width(cw: u32) -> int {
    let d = (14 * cw + 25) / 50;
    if d >= 1 { d } else { 1 }
}

/// Height of a braille dot: 18% of the cell height, rounded to nearest (halves up),
/// at least 1.
pub open spec fn dot_height(ch: u32) -> int {
    let d = (9 * ch + 25) / 50;
    if d >= 1 { d } else { 1 }
}

/// Left column and top row of the dot grid, centred in the cell.
pub open spec fn braille_origin(cw: u32, ch: u32) -> (int, int) {
    let hgap = (cw / 2) as int;
    let vgap = (ch / 4) as int;
    let gw = hgap + dot_width(cw);
    let gh = vgap * 3 + dot_height(ch);
    ((if cw >= gw { (cw - gw) / 2 } else { 0 }), (if ch >= gh { (ch - gh) / 2 } else { 0 }))
}

/// Column (0 or 1) and row (0..4) of braille dot `n` (bits 0-2 and 6 on the left,
/// 3-5 and 7 on the right).
pub open spec fn dot_place(n: u32) -> (int, int) {
    if n <= 2 {
        (0, n as int)
    } else if n <= 5 {
        (1, n - 3)
    } else {
        (n - 6, 3)
    }
}

/// Bit `n` of a braille code point is set.
pub open spec fn dot_on(code: u32, n: u32) -> bool {
    code & (1u32 << n) != 0
}

/// The pixels of braille dot `n` (when its bit is set).
pub open spec fn dot_lit(code: u32, cw: u32, ch: u32, n: u32, x: int, y: int) -> bool {
    let (ox, oy) = braille_origin(cw, ch);
    let (c, r) = dot_place(n);
    let dx = ox + c * (cw / 2) as int;
    let dy = oy + r * (ch / 4) as int;
    dot_on(code, n) && in_rect(dx, dy, dx + dot_width(cw), dy + dot_height(ch), x, y)
}

/// The pixels of braille pattern `code`: the dots whose bits are set.
pub open spec fn braille_lit(code: u32, cw: u32, ch: u32, x: int, y: int) -> bool {
    dot_lit(code, cw, ch, 0, x, y) || dot_lit(code, cw, ch, 1, x, y) || dot_lit(code, cw, ch, 2, x, y)
        || dot_lit(code, cw, ch, 3, x, y) || dot_lit(code, cw, ch, 4, x, y) || dot_lit(code, cw, ch, 5, x, y)
        || dot_lit(code, cw, ch, 6, x, y) || dot_lit(code, cw, ch, 7, x, y)
}

/// A braille code point.
pub open spec fn is_braille(code: u32) -> bool {
    0x2800 <= code <= 0x28FF
}

/// The eighths of a cell (and the sizes the drawing computes) fit in `u32`.
pub open spec fn block_sizes_ok(code: u32, cw: u32, ch: u32) -> bool {
    is_braille(code) || {
        &&& ch * 7 <= u32::MAX
        &&& cw * 4 <= u32::MAX
        &&& code == 0x2589 ==> cw * 7 <= u32::MAX
        &&& code == 0x258A ==> cw * 6 <= u32::MAX
        &&& code == 0x258B ==> cw * 5 <= u32::MAX
        &&& (code == 0x2591 || code == 0x2592 || code == 0x2593) ==> cw + 2 * ch <= u32::MAX
    }
}

/// Whether a block element of `code` can be drawn in a `cw` x `ch` cell without
/// overflowing (see [`block_sizes_ok`]).
pub fn block_sizes_ok_exec(code: u32, cw: u32, ch: u32) -> (r: bool)
    ensures
        r == block_sizes_ok(code, cw, ch),
{
    if 0x2800 <= code && code <= 0x28FF {
        return true;
    }
    let m: u64 = 0xFFFF_FFFF;
    let w = cw as u64;
    let h = ch as u64;
    h * 7 <= m && w * 4 <= m && (code != 0x2589 || w * 7 <= m) && (code != 0x258A || w * 6 <= m)
        && (code != 0x258B || w * 5 <= m) && (!(code == 0x2591 || code == 0x2592 || code == 0x2593) || w + 2 * h <= m)
}

/// Lights the pixels of a shade pattern (see [`shade_lit`]).
fn fill_shade(buf: &mut [u8], cw: u32, ch: u32, kind: u32)
    requires
        grid_ok(old(buf)@.len() as int, cw, ch),
        cw + 2 * ch <= u32::MAX,
    ensures
        final(buf)@ == lit_buffer(old(buf)@, cw as int, ch as int, |x: int, y: int| shade_lit(kind, x, y)),
        final(buf)@.len() == old(buf)@.len(),
{
    let ghost b0 = buf@;
    let mut y: u32 = 0;
    assert(buf@ =~= lit_buffer(b0, cw as int, ch as int, |x: int, yy: int| yy < y && shade_lit(kind, x, yy)));
    while y < ch
        invariant
            y <= ch,
            cw + 2 * ch <= u32::MAX,
            grid_ok(b0.len() as int, cw, ch),
            buf@.len() == b0.len(),
            buf@ == lit_buffer(b0, cw as int, ch as int, |x: int, yy: int| yy < y && shade_lit(kind, x, yy)),
        decreases ch - y,
    {
        let mut x: u32 = 0;
        assert(lit_buffer(b0, cw as int, ch as int, |xx: int, yy: int| yy < y && shade_lit(kind, xx, yy))
            =~= lit_buffer(b0, cw as int, ch as int, |xx: int, yy: int| (yy < y || (yy == y && xx < x)) && shade_lit(kind, xx, yy)));
        while x < cw
            invariant
                x <= cw,
                y < ch,
                cw + 2 * ch <= u32::MAX,
                grid_ok(b0.len() as int, cw, ch),
                buf@.len() == b0.len(),
                buf@ == lit_buffer(b0, cw as int, ch as int, |xx: int, yy: int| (yy < y || (yy == y && xx < x)) && shade_lit(kind, xx, yy)),
            decreases cw - x,
        {
            let on = if kind == 1 {
                (x + y * 2) % 4 == 0
            } else if kind == 2 {
                (x + y) % 2 == 0
            } else {
                (x + y) % 4 != 0
            };
            if on {
                set_pixel(buf, cw, ch, x, y);
                proof {
                    lemma_lit_compose(b0, cw as int, ch as int,
                        |xx: int, yy: int| (yy < y || (yy == y && xx < x)) && shade_lit(kind, xx, yy),
                        |xx: int, yy: int| xx == x && yy == y);
                    assert((|xx: int, yy: int| ((yy < y || (yy == y && xx < x)) && shade_lit(kind, xx, yy)) || (xx == x && yy == y))
                        =~= (|xx: int, yy: int| (yy < y || (yy == y && xx < x + 1)) && shade_lit(kind, xx, yy)));
                }
            } else {
                assert(lit_buffer(b0, cw as int, ch as int, |xx: int, yy: int| (yy < y || (yy == y && xx < x)) && shade_lit(kind, xx, yy))
                    =~= lit_buffer(b0, cw as int, ch as int, |xx: int, yy: int| (yy < y || (yy == y && xx < x + 1)) && shade_lit(kind, xx, yy)));
            }
            x = x + 1;
        }
        proof {
            lemma_lit_same(b0, cw as int, ch as int,
                |xx: int, yy: int| (yy < y || (yy == y && xx < x)) && shade_lit(kind, xx, yy),
                |xx: int, yy: int| yy < y + 1 && shade_lit(kind, xx, yy));
        }
        y = y + 1;
    }
    proof {
        lemma_lit_same(b0, cw as int, ch as int,
            |xx: int, yy: int| yy < y && shade_lit(kind, xx, yy),
            |xx: int, yy: int| shade_lit(kind, xx, yy));
    }
}


/// Draws block element or braille pattern `c` into the `cw` x `ch` coverage buffer
/// (see [`block_lit`] and [`braille_lit`]).
pub fn fill_block_element(c: char, buf: &mut [u8], cw: u32, ch: u32)
    requires
        grid_ok(old(buf)@.len() as int, cw, ch),
        block_sizes_ok(c as u32, cw, ch),
    ensures
        final(buf)@ == lit_buffer(old(buf)@, cw as int, ch as int, |x: int, y: int| if is_braille(c as u32) {
            braille_lit(c as u32, cw, ch, x, y)
        } else {
            block_lit(c as u32, cw, ch, x, y)
        }),
{
    let code = c as u32;
    if 0x2800 <= code && code <= 0x28FF {
        fill_braille_pattern(code, buf, cw, ch);
        assert(buf@ =~= lit_buffer(old(buf)@, cw as int, ch as int, |x: int, y: int| if is_braille(c as u32) {
            braille_lit(c as u32, cw, ch, x, y)
        } else {
            block_lit(c as u32, cw, ch, x, y)
        }));
        return;
    }
    let h1 = ch / 8;
    let h2 = ch * 2 / 8;
    let h3 = ch * 3 / 8;
    let h4 = ch * 4 / 8;
    let h5 = ch * 5 / 8;
    let h6 = ch * 6 / 8;
    let h7 = ch * 7 / 8;
    let w1 = cw / 8;
    let w2 = cw * 2 / 8;
    let w3 = cw * 3 / 8;
    let w4 = cw * 4 / 8;
    let ghost b0 = buf@;
    if code == 0x2580 {
        fill_rect(buf, cw, ch, 0, 0, cw, h4);
    } else if code == 0x2581 {
        fill_rect(buf, cw, ch, 0, ch - h1, cw, ch);
    } else if code == 0x2582 {
        fill_rect(buf, cw, ch, 0, ch - h2, cw, ch);
    } else if code == 0x2583 {
        fill_rect(buf, cw, ch, 0, ch - h3, cw, ch);
    } else if code == 0x2584 {
        fill_rect(buf, cw, ch, 0, h4, cw, ch);
    } else if code == 0x2585 {
        fill_rect(buf, cw, ch, 0, ch - h5, cw, ch);
    } else if code == 0x2586 {
        fill_rect(buf, cw, ch, 0, ch - h6, cw, ch);
    } else if code == 0x2587 {
        fill_rect(buf, cw, ch, 0, ch - h7, cw, ch);
    } else if code == 0x2588 {
        fill_rect(buf, cw, ch, 0, 0, cw, ch);
    } else if code == 0x2589 {
        fill_rect(buf, cw, ch, 0, 0, cw * 7 / 8, ch);
    } else if code == 0x258A {
        fill_rect(buf, cw, ch, 0, 0, cw * 6 / 8, ch);
    } else if code == 0x258B {
        fill_rect(buf, cw, ch, 0, 0, cw * 5 / 8, ch);
    } else if code == 0x258C {
        fill_rect(buf, cw, ch, 0, 0, w4, ch);
    } else if code == 0x258D {
        fill_rect(buf, cw, ch, 0, 0, w3, ch);
    } else if code == 0x258E {
        fill_rect(buf, cw, ch, 0, 0, w2, ch);
    } else if code == 0x258F {
        fill_rect(buf, cw, ch, 0, 0, w1, ch);
    } else if code == 0x2590 {
        fill_rect(buf, cw, ch, w4, 0, cw, ch);
    } else if code == 0x2591 {
        fill_shade(buf, cw, ch, 1);
    } else if code == 0x2592 {
        fill_shade(buf, cw, ch, 2);
    } else if code == 0x2593 {
        fill_shade(buf, cw, ch, 3);
    } else if code == 0x2594 {
        fill_rect(buf, cw, ch, 0, 0, cw, h1);
    } else if code == 0x2595 {
        fill_rect(buf, cw, ch, cw - w1, 0, cw, ch);
    } else if code == 0x2596 {
        fill_rect(buf, cw, ch, 0, h4, w4, ch);
    } else if code == 0x2597 {
        fill_rect(buf, cw, ch, w4, h4, cw, ch);
    } else if code == 0x2598 {
        fill_rect(buf, cw, ch, 0, 0, w4, h4);
    } else if code == 0x2599 {
        fill_rect(buf, cw, ch, 0, 0, w4, ch);
        fill_rect(buf, cw, ch, w4, h4, cw, ch);
        proof {
            lemma_lit_compose(b0, cw as int, ch as int, |x: int, y: int| 0 <= x < w4 && 0 <= y < ch, |x: int, y: int| w4 <= x < cw && h4 <= y < ch);
        }
    } else if code == 0x259A {
        fill_rect(buf, cw, ch, 0, 0, w4, h4);
        fill_rect(buf, cw, ch, w4, h4, cw, ch);
        proof {
            lemma_lit_compose(b0, cw as int, ch as int, |x: int, y: int| 0 <= x < w4 && 0 <= y < h4, |x: int, y: int| w4 <= x < cw && h4 <= y < ch);
        }
    } else if code == 0x259B {
        fill_rect(buf, cw, ch, 0, 0, cw, h4);
        fill_rect(buf, cw, ch, 0, h4, w4, ch);
        proof {
            lemma_lit_compose(b0, cw as int, ch as int, |x: int, y: int| 0 <= x < cw && 0 <= y < h4, |x: int, y: int| 0 <= x < w4 && h4 <= y < ch);
        }
    } else if code == 0x259C {
        fill_rect(buf, cw, ch, 0, 0, cw, h4);
        fill_rect(buf, cw, ch, w4, h4, cw, ch);
        proof {
            lemma_lit_compose(b0, cw as int, ch as int, |x: int, y: int| 0 <= x < cw && 0 <= y < h4, |x: int, y: int| w4 <= x < cw && h4 <= y < ch);
        }
    } else if code == 0x259D {
        fill_rect(buf, cw, ch, w4, 0, cw, h4);
    } else if code == 0x259E {
        fill_rect(buf, cw, ch, w4, 0, cw, h4);
        fill_rect(buf, cw, ch, 0, h4, w4, ch);
        proof {
            lemma_lit_compose(b0, cw as int, ch as int, |x: int, y: int| w4 <= x < cw && 0 <= y < h4, |x: int, y: int| 0 <= x < w4 && h4 <= y < ch);
        }
    } else if code == 0x259F {
        fill_rect(buf, cw, ch, w4, 0, cw, h4);
        fill_rect(buf, cw, ch, 0, h4, cw, ch);
        proof {
            lemma_lit_compose(b0, cw as int, ch as int, |x: int, y: int| w4 <= x < cw && 0 <= y < h4, |x: int, y: int| 0 <= x < cw && h4 <= y < ch);
        }
    } else {
        fill_rect(buf, cw, ch, 0, 0, cw, ch);
    }
    assert(buf@ =~= lit_buffer(b0, cw as int, ch as int, |x: int, y: int| if is_braille(c as u32) {
        braille_lit(c as u32, cw, ch, x, y)
    } else {
        block_lit(c as u32, cw, ch, x, y)
    }));
}

/// Draws braille dot `n` when its bit is set (see [`dot_lit`]).
fn braille_dot(buf: &mut [u8], code: u32, cw: u32, ch: u32, n: u32)
    requires
        grid_ok(old(buf)@.len() as int, cw, ch),
        n < 8,
    ensures
        final(buf)@ == lit_buffer(old(buf)@, cw as int, ch as int, |x: int, y: int| dot_lit(code, cw, ch, n, x, y)),
        final(buf)@.len() == old(buf)@.len(),
{
    let ghost b0 = buf@;
    if code & (1u32 << n) == 0 {
        assert(buf@ =~= lit_buffer(b0, cw as int, ch as int, |x: int, y: int| dot_lit(code, cw, ch, n, x, y)));
        return;
    }
    let c64 = cw as u64;
    let h64 = ch as u64;
    let dw0 = (14 * c64 + 25) / 50;
    let dot_w: u64 = if dw0 >= 1 { dw0 } else { 1 };
    let dh0 = (9 * h64 + 25) / 50;
    let dot_h: u64 = if dh0 >= 1 { dh0 } else { 1 };
    let hgap = c64 / 2;
    let vgap = h64 / 4;
    let grid_w = hgap + dot_w;
    let grid_h = vgap * 3 + dot_h;
    let ox = if c64 >= grid_w { (c64 - grid_w) / 2 } else { 0 };
    let oy = if h64 >= grid_h { (h64 - grid_h) / 2 } else { 0 };
    let (col, row): (u64, u64) = if n <= 2 {
        (0, n as u64)
    } else if n <= 5 {
        (1, (n - 3) as u64)
    } else {
        ((n - 6) as u64, 3)
    };
    let dx = ox + col * hgap;
    proof {
        assert(row * vgap <= 3 * vgap) by (nonlinear_arith)
            requires
                row <= 3,
        ;
    }
    let dy = oy + row * vgap;
    let x1 = if dx + dot_w < c64 { dx + dot_w } else { c64 };
    let y1 = if dy + dot_h < h64 { dy + dot_h } else { h64 };
    let x0 = if dx < c64 { dx } else { c64 };
    let y0 = if dy < h64 { dy } else { h64 };
    fill_rect(buf, cw, ch, x0 as u32, y0 as u32, x1 as u32, y1 as u32);
    proof {
        lemma_lit_same(b0, cw as int, ch as int,
            |x: int, y: int| (x0 as u32) <= x < (x1 as u32) && (y0 as u32) <= y < (y1 as u32),
            |x: int, y: int| dot_lit(code, cw, ch, n, x, y));
    }
}

/// Draws braille pattern `code` (see [`braille_lit`]).
pub fn fill_braille_pattern(code: u32, buf: &mut [u8], cw: u32, ch: u32)
    requires
        grid_ok(old(buf)@.len() as int, cw, ch),
    ensures
        final(buf)@ == lit_buffer(old(buf)@, cw as int, ch as int, |x: int, y: int| braille_lit(code, cw, ch, x, y)),
{
    let ghost b0 = buf@;
    braille_dot(buf, code, cw, ch, 0);
    braille_dot(buf, code, cw, ch, 1);
    braille_dot(buf, code, cw, ch, 2);
    braille_dot(buf, code, cw, ch, 3);
    braille_dot(buf, code, cw, ch, 4);
    braille_dot(buf, code, cw, ch, 5);
    braille_dot(buf, code, cw, ch, 6);
    braille_dot(buf, code, cw, ch, 7);
    assert(buf@ =~= lit_buffer(b0, cw as int, ch as int, |x: int, y: int| braille_lit(code, cw, ch, x, y)));
}

/// Law: the halves and quadrants tile the cell. Every pixel is lit by exactly one
/// of the upper and lower halves, by exactly one of the left and right halves, and
/// by exactly one of the four quadrants; the full block lights it, and each
/// three-quadrant or diagonal block lights it exactly when the quadrants it is
/// made of do.
pub proof fn law_block_tiling(cw: u32, ch: u32, x: int, y: int)
    requires
        0 <= x < cw,
        0 <= y < ch,
    ensures
        block_lit(0x2580, cw, ch, x, y) != block_lit(0x2584, cw, ch, x, y),
        block_lit(0x258C, cw, ch, x, y) != block_lit(0x2590, cw, ch, x, y),
        block_lit(0x2588, cw, ch, x, y),
        ({
            let ul = block_lit(0x2598, cw, ch, x, y);
            let ur = block_lit(0x259D, cw, ch, x, y);
            let ll = block_lit(0x2596, cw, ch, x, y);
            let lr = block_lit(0x2597, cw, ch, x, y);
            &&& (if ul { 1int } else { 0 }) + (if ur { 1int } else { 0 }) + (if ll { 1int } else { 0 }) + (if lr {
                1int
            } else {
                0
            }) == 1
            &&& ul == (block_lit(0x2580, cw, ch, x, y) && block_lit(0x258C, cw, ch, x, y))
            &&& lr == (block_lit(0x2584, cw, ch, x, y) && block_lit(0x2590, cw, ch, x, y))
            &&& block_lit(0x2599, cw, ch, x, y) == (ul || ll || lr)
            &&& block_lit(0x259B, cw, ch, x, y) == (ul || ur || ll)
            &&& block_lit(0x259C, cw, ch, x, y) == (ul || ur || lr)
            &&& block_lit(0x259F, cw, ch, x, y) == (ur || ll || lr)
            &&& block_lit(0x259A, cw, ch, x, y) == (ul || lr)
            &&& block_lit(0x259E, cw, ch, x, y) == (ur || ll)
        }),
{
}

/// Law: the eighth blocks grow from their edge. The lower eighths `▁ ▂ ▃ ▅ ▆ ▇` and
/// the full block are nested, each lighting every pixel the previous one lights,
/// and the lower half `▄` lights the rows from the middle one down; the left eighths `▏` to `▉` are
/// nested the same way from the left edge. In a cell at least 8 pixels high (wide),
/// each lower (left) eighth block lights the bottom row (left column), and the
/// upper (right) eighth lights the top row (right column) but not the bottom row
/// (left column).
pub proof fn law_block_eighths(cw: u32, ch: u32, x: int, y: int)
    requires
        0 <= x < cw,
        0 <= y < ch,
    ensures
        forall|k: u32|
            0x2581 <= k < 0x2588 && k != 0x2583 && k != 0x2584 ==> (#[trigger] block_lit(k, cw, ch, x, y)) ==> block_lit(
                (k + 1) as u32,
                cw,
                ch,
                x,
                y,
            ),
        block_lit(0x2583, cw, ch, x, y) ==> block_lit(0x2585, cw, ch, x, y),
        forall|k: u32| 0x2589 < k <= 0x258F ==> (#[trigger] block_lit(k, cw, ch, x, y)) ==> block_lit(
            (k - 1) as u32,
            cw,
            ch,
            x,
            y,
        ),
        block_lit(0x2589, cw, ch, x, y) ==> block_lit(0x2588, cw, ch, x, y),
        block_lit(0x2584, cw, ch, x, y) == (y >= ch / 2),
        ch >= 8 ==> forall|k: u32| 0x2581 <= k <= 0x2588 ==> #[trigger] block_lit(k, cw, ch, x, ch - 1),
        cw >= 8 ==> forall|k: u32| 0x2589 <= k <= 0x258F ==> #[trigger] block_lit(k, cw, ch, 0, y),
        ch >= 8 ==> block_lit(0x2594, cw, ch, x, 0) && !block_lit(0x2594, cw, ch, x, ch - 1),
        cw >= 8 ==> block_lit(0x2595, cw, ch, cw - 1, y) && !block_lit(0x2595, cw, ch, 0, y),
{
    assert(ch / 8 <= ch * 2 / 8 <= ch * 3 / 8 <= ch * 4 / 8 <= ch * 5 / 8 <= ch * 6 / 8 <= ch * 7 / 8 <= ch)
        by (nonlinear_arith);
    assert(cw / 8 <= cw * 2 / 8 <= cw * 3 / 8 <= cw * 4 / 8 <= cw * 5 / 8 <= cw * 6 / 8 <= cw * 7 / 8 <= cw)
        by (nonlinear_arith);
    assert(ch * 4 / 8 == ch / 2 && cw * 4 / 8 == cw / 2) by (nonlinear_arith);
    assert(ch >= 8 ==> ch / 8 >= 1 && ch / 8 < ch) by (nonlinear_arith);
    assert(cw >= 8 ==> cw / 8 >= 1 && cw / 8 < cw) by (nonlinear_arith);
}

/// Law: a braille pattern shows exactly the dots whose bits are set. Dots 1-3 (bits
/// 0-2) run down the left column, dots 4-6 (bits 3-5) down the right one, and dots
/// 7 and 8 (bits 6 and 7) take the bottom row, left and right; in a cell where the
/// dots do not overlap, the top-left pixel of the dot for bit `n` in column `col`
/// and row `row` is lit exactly when bit `n` of the code is set.
pub proof fn law_braille_dots(code: u32, cw: u32, ch: u32, n: u32)
    requires
        n < 8,
        dot_width(cw) <= cw / 2,
        dot_height(ch) <= ch / 4,
    ensures
        ({
            let col: int = if n <= 2 || n == 6 { 0 } else { 1 };
            let row: int = if n <= 2 { n as int } else if n <= 5 { n - 3 } else { 3 };
            let x = braille_origin(cw, ch).0 + col * (cw / 2) as int;
            let y = braille_origin(cw, ch).1 + row * (ch / 4) as int;
            braille_lit(code, cw, ch, x, y) == (code & (1u32 << n) != 0)
        }),
{
    let col: int = if n <= 2 || n == 6 { 0 } else { 1 };
    let row: int = if n <= 2 { n as int } else if n <= 5 { n - 3 } else { 3 };
    let hw = (cw / 2) as int;
    let hh = (ch / 4) as int;
    assert(col * hw == if col == 0 { 0 } else { hw });
    assert(0 * hh == 0 && 1 * hh == hh && 2 * hh == hh + hh && 3 * hh == hh + hh + hh);
    assert(row * hh == if row == 0 { 0 } else if row == 1 { hh } else if row == 2 { hh + hh } else { hh + hh + hh });
}
} // verus!
