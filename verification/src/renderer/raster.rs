//! Coverage buffers of one cell: `cw * ch` bytes, row after row, 255 where lit.
use vstd::prelude::*;
use vstd::arithmetic::div_mod::{lemma_fundamental_div_mod, lemma_fundamental_div_mod_converse};
use vstd::arithmetic::mul::{lemma_mul_strict_inequality, lemma_mul_is_commutative};

verus! {

/// `old` with every pixel (x, y) of the `cw` x `ch` grid for which `lit` holds set
/// to 255; the other bytes unchanged.
pub open spec fn lit_buffer(old: Seq<u8>, cw: int, ch: int, lit: spec_fn(int, int) -> bool) -> Seq<u8> {
    Seq::new(old.len(), |i: int| if i < cw * ch && lit(i % cw, i / cw) { 255u8 } else { old[i] })
}

/// The buffer fits a `cw` x `ch` grid whose indices fit in `u32`.
pub open spec fn grid_ok(len: int, cw: u32, ch: u32) -> bool {
    &&& cw * ch <= len
    &&& cw * ch <= u32::MAX
}

/// Lighting by `f`, then by `g`, is lighting by either.
pub proof fn lemma_lit_compose(b: Seq<u8>, cw: int, ch: int, f: spec_fn(int, int) -> bool, g: spec_fn(int, int) -> bool)
    ensures
        lit_buffer(lit_buffer(b, cw, ch, f), cw, ch, g) == lit_buffer(b, cw, ch, |x: int, y: int| f(x, y) || g(x, y)),
{
    assert(lit_buffer(lit_buffer(b, cw, ch, f), cw, ch, g) =~= lit_buffer(b, cw, ch, |x: int, y: int| f(x, y) || g(x, y)));
}

/// Lighting by equivalent predicates gives the same buffer.
pub proof fn lemma_lit_same(b: Seq<u8>, cw: int, ch: int, f: spec_fn(int, int) -> bool, g: spec_fn(int, int) -> bool)
    requires
        forall|x: int, y: int| 0 <= x < cw && 0 <= y < ch ==> (#[trigger] f(x, y) == g(x, y)),
        cw > 0 || ch >= 0,
    ensures
        lit_buffer(b, cw, ch, f) == lit_buffer(b, cw, ch, g),
{
    assert forall|i: int| 0 <= i < b.len() implies lit_buffer(b, cw, ch, f)[i] == lit_buffer(b, cw, ch, g)[i] by {
        if 0 <= i < cw * ch {
            if cw > 0 {
                lemma_fundamental_div_mod(i, cw);
                assert(0 <= i % cw < cw);
                if i / cw >= ch {
                    vstd::arithmetic::mul::lemma_mul_inequality(ch, i / cw, cw);
                    lemma_mul_is_commutative(ch, cw);
                    lemma_mul_is_commutative(i / cw, cw);
                }
                assert(0 <= i / cw < ch) by {
                    vstd::arithmetic::div_mod::lemma_div_pos_is_pos(i, cw);
                }
            } else {
                assert(cw * ch <= 0) by (nonlinear_arith)
                    requires
                        cw <= 0,
                        ch >= 0,
                ;
            }
        }
    }
    assert(lit_buffer(b, cw, ch, f) =~= lit_buffer(b, cw, ch, g));
}

/// Sets pixel (`x`, `y`) of the `cw`-wide grid to 255.
pub fn set_pixel(buf: &mut [u8], cw: u32, ch: u32, x: u32, y: u32)
    requires
        grid_ok(old(buf)@.len() as int, cw, ch),
        x < cw,
        y < ch,
    ensures
        final(buf)@ == lit_buffer(old(buf)@, cw as int, ch as int, |xx: int, yy: int| xx == x && yy == y),
        final(buf)@.len() == old(buf)@.len(),
{
    proof {
        assert(y * cw + x < cw * ch) by (nonlinear_arith)
            requires
                x < cw,
                y < ch,
        ;
        lemma_mul_is_commutative(y as int, cw as int);
        lemma_fundamental_div_mod_converse((y * cw + x) as int, cw as int, y as int, x as int);
    }
    let i: u32 = y * cw + x;
    buf[i as usize] = 255;
    proof {
        let ii = i as int;
        assert forall|j: int| 0 <= j < old(buf)@.len() implies final(buf)@[j] == lit_buffer(
            old(buf)@,
            cw as int,
            ch as int,
            |xx: int, yy: int| xx == x && yy == y,
        )[j] by {
            if j != ii && j < cw * ch {
                lemma_fundamental_div_mod(j, cw as int);
                if j % (cw as int) == x && j / (cw as int) == y {
                    lemma_mul_is_commutative(y as int, cw as int);
                    assert(j == ii);
                }
            }
        }
    }
    assert(final(buf)@ =~= lit_buffer(old(buf)@, cw as int, ch as int, |xx: int, yy: int| xx == x && yy == y));
}

/// Lights the rectangle `x0..x1` by `y0..y1`, clipped to the grid.
pub fn fill_rect(buf: &mut [u8], cw: u32, ch: u32, x0: u32, y0: u32, x1: u32, y1: u32)
    requires
        grid_ok(old(buf)@.len() as int, cw, ch),
    ensures
        final(buf)@ == lit_buffer(
            old(buf)@,
            cw as int,
            ch as int,
            |x: int, y: int| x0 <= x < x1 && y0 <= y < y1,
        ),
        final(buf)@.len() == old(buf)@.len(),
{
    let ye = if y1 < ch { y1 } else { ch };
    let xe = if x1 < cw { x1 } else { cw };
    let ghost b0 = buf@;
    let mut y = y0;
    assert(buf@ =~= lit_buffer(b0, cw as int, ch as int, |x: int, yy: int| x0 <= x < xe && y0 <= yy < y));
    while y < ye
        invariant
            y0 <= y,
            y <= ye || y == y0,
            ye <= ch,
            xe <= cw,
            grid_ok(b0.len() as int, cw, ch),
            buf@.len() == b0.len(),
            buf@ == lit_buffer(b0, cw as int, ch as int, |x: int, yy: int| x0 <= x < xe && y0 <= yy < y),
        decreases ye - y,
    {
        let mut x = x0;
        assert(lit_buffer(b0, cw as int, ch as int, |xx: int, yy: int| x0 <= xx < xe && y0 <= yy < y)
            =~= lit_buffer(b0, cw as int, ch as int, |xx: int, yy: int| (x0 <= xx < xe && y0 <= yy < y) || (yy == y && x0 <= xx < x)));
        while x < xe
            invariant
                x0 <= x,
                x <= xe || x == x0,
                y0 <= y < ye <= ch,
                xe <= cw,
                grid_ok(b0.len() as int, cw, ch),
                buf@.len() == b0.len(),
                buf@ == lit_buffer(
                    b0,
                    cw as int,
                    ch as int,
                    |xx: int, yy: int| (x0 <= xx < xe && y0 <= yy < y) || (yy == y && x0 <= xx < x),
                ),
            decreases xe - x,
        {
            let ghost before = buf@;
            set_pixel(buf, cw, ch, x, y);
            proof {
                lemma_lit_compose(
                    b0,
                    cw as int,
                    ch as int,
                    |xx: int, yy: int| (x0 <= xx < xe && y0 <= yy < y) || (yy == y && x0 <= xx < x),
                    |xx: int, yy: int| xx == x && yy == y,
                );
                assert((|xx: int, yy: int| ((x0 <= xx < xe && y0 <= yy < y) || (yy == y && x0 <= xx < x)) || (xx == x && yy == y))
                    =~= (|xx: int, yy: int| (x0 <= xx < xe && y0 <= yy < y) || (yy == y && x0 <= xx < x + 1)));
            }
            x = x + 1;
        }
        proof {
            if x0 < xe {
                assert((|xx: int, yy: int| (x0 <= xx < xe && y0 <= yy < y) || (yy == y && x0 <= xx < x))
                    =~= (|xx: int, yy: int| x0 <= xx < xe && y0 <= yy < y + 1));
            } else {
                lemma_lit_same(b0, cw as int, ch as int,
                    |xx: int, yy: int| (x0 <= xx < xe && y0 <= yy < y) || (yy == y && x0 <= xx < x),
                    |xx: int, yy: int| x0 <= xx < xe && y0 <= yy < y + 1);
            }
        }
        y = y + 1;
    }
    proof {
        lemma_lit_same(b0, cw as int, ch as int,
            |x: int, yy: int| x0 <= x < xe && y0 <= yy < y,
            |x: int, yy: int| x0 <= x < x1 && y0 <= yy < y1);
    }
}

} // verus!
