//! Cell sprites of the glyph atlas: a font bitmap composited into a canvas of
//! one cell (or two, for a wide icon), the characters drawn without a font, and
//! where each sprite is put in the atlas.
use vstd::prelude::*;
use vstd::arithmetic::div_mod::lemma_fundamental_div_mod_converse;
use vstd::arithmetic::mul::lemma_mul_is_commutative;
use super::raster::lit_buffer;
use super::box_drawing::{fill_box_drawing, box_lit};
use super::blocks::{fill_block_element, block_sizes_ok, is_braille, braille_lit, block_lit};

verus! {

/// Side of the square glyph atlas, in pixels.
pub const SPRITE_ATLAS_SIZE: u32 = 4096;

// ── Which software rasteriser draws a character ─────────────────────────────

/// How a character that no font provides is drawn.
#[derive(Debug, Clone, Copy, PartialEq, Eq, Structural)]
pub enum SoftwareSprite {
    /// Box-drawing lines, U+2500 to U+257F.
    BoxDrawing,
    /// Block elements (U+2580 to U+259F) and braille (U+2800 to U+28FF).
    BlockElement,
    /// Nothing to draw: the character is marked as missing.
    Unavailable,
}

/// Block elements and braille patterns.
pub open spec fn is_block_char(code: u32) -> bool {
    (0x2580 <= code <= 0x259F) || (0x2800 <= code <= 0x28FF)
}

pub open spec fn software_sprite_of(code: u32) -> SoftwareSprite {
    if 0x2500 <= code <= 0x257F {
        SoftwareSprite::BoxDrawing
    } else if is_block_char(code) {
        SoftwareSprite::BlockElement
    } else {
        SoftwareSprite::Unavailable
    }
}

/// The software rasteriser for `c` (see [`software_sprite_of`]).
pub fn software_sprite(c: char) -> (r: SoftwareSprite)
    ensures
        r == software_sprite_of(c as u32),
{
    let code = c as u32;
    if 0x2500 <= code && code <= 0x257F {
        SoftwareSprite::BoxDrawing
    } else if (0x2580 <= code && code <= 0x259F) || (0x2800 <= code && code <= 0x28FF) {
        SoftwareSprite::BlockElement
    } else {
        SoftwareSprite::Unavailable
    }
}

// ── Compositing a font bitmap ───────────────────────────────────────────────

/// Byte of the bitmap that holds pixel (`row`, `col`): rows are `pitch` bytes
/// apart; a 1-bit bitmap packs eight pixels in a byte.
pub open spec fn source_index(pitch: int, mono: bool, row: int, col: int) -> int {
    row * pitch + if mono { col / 8 } else { col }
}

/// Coverage of pixel (`row`, `col`): the byte itself for a grey bitmap; for a
/// 1-bit bitmap 255 where the pixel's bit (most significant first) is set, else 0.
pub open spec fn bitmap_alpha(raw: Seq<u8>, pitch: int, mono: bool, row: int, col: int) -> u8 {
    let b = raw[source_index(pitch, mono, row, col)];
    if mono {
        if (b >> ((7 - col % 8) as u8)) & 1u8 != 0 { 255 } else { 0 }
    } else {
        b
    }
}

/// Pixel (`x`, `y`) of a canvas onto which a `bmp_w` x `bmp_h` bitmap is drawn
/// with its top-left pixel at (`x_off`, `y_off`); 0 where the bitmap does not reach.
pub open spec fn canvas_pixel(
    raw: Seq<u8>,
    bmp_w: int,
    bmp_h: int,
    pitch: int,
    mono: bool,
    x_off: int,
    y_off: int,
    x: int,
    y: int,
) -> u8 {
    let row = y - y_off;
    let col = x - x_off;
    if 0 <= row < bmp_h && 0 <= col < bmp_w {
        bitmap_alpha(raw, pitch, mono, row, col)
    } else {
        0
    }
}

/// The `cw` x `ch` canvas, row after row (see [`canvas_pixel`]).
pub open spec fn composited(
    raw: Seq<u8>,
    bmp_w: int,
    bmp_h: int,
    pitch: int,
    mono: bool,
    x_off: int,
    y_off: int,
    cw: int,
    ch: int,
) -> Seq<u8> {
    Seq::new(
        (cw * ch) as nat,
        |i: int| canvas_pixel(raw, bmp_w, bmp_h, pitch, mono, x_off, y_off, i % cw, i / cw),
    )
}

/// Every bitmap pixel that lands on the canvas is read from inside the buffer.
pub open spec fn bitmap_reads_ok(
    raw_len: int,
    bmp_w: int,
    bmp_h: int,
    pitch: int,
    mono: bool,
    x_off: int,
    y_off: int,
    cw: int,
    ch: int,
) -> bool {
    forall|row: int, col: int|
        0 <= row < bmp_h && 0 <= col < bmp_w && 0 <= row + y_off < ch && 0 <= col + x_off < cw
            ==> #[trigger] source_index(pitch, mono, row, col) < raw_len
}

fn alpha_at(raw: &[u8], pitch: u32, mono: bool, row: u32, col: u32) -> (a: u8)
    requires
        source_index(pitch as int, mono, row as int, col as int) < raw@.len(),
    ensures
        a == bitmap_alpha(raw@, pitch as int, mono, row as int, col as int),
{
    let n = raw.len();
    proof {
        assert(0 <= row * pitch) by (nonlinear_arith);
    }
    let base: usize = row as usize * pitch as usize;
    if mono {
        let b = raw[base + (col / 8) as usize];
        let shift: u8 = (7 - col % 8) as u8;
        if (b >> shift) & 1 != 0 { 255 } else { 0 }
    } else {
        raw[base + col as usize]
    }
}

/// Composites a font bitmap onto a zeroed `cw` x `ch` canvas with its top-left
/// pixel at (`x_off`, `y_off`), clipping what falls outside (see [`composited`]).
pub fn composite_bitmap(
    raw: &[u8],
    bmp_w: u32,
    bmp_h: u32,
    pitch: u32,
    mono: bool,
    x_off: i32,
    y_off: i32,
    cw: u32,
    ch: u32,
) -> (canvas: Vec<u8>)
    requires
        cw * ch <= i32::MAX,
        bitmap_reads_ok(raw@.len() as int, bmp_w as int, bmp_h as int, pitch as int, mono, x_off as int, y_off as int, cw as int, ch as int),
    ensures
        canvas@ == composited(raw@, bmp_w as int, bmp_h as int, pitch as int, mono, x_off as int, y_off as int, cw as int, ch as int),
{
    let ghost target = composited(raw@, bmp_w as int, bmp_h as int, pitch as int, mono, x_off as int, y_off as int, cw as int, ch as int);
    let mut canvas: Vec<u8> = Vec::new();
    let mut y: u32 = 0;
    while y < ch
        invariant
            cw * ch <= i32::MAX,
            y <= ch,
            canvas@.len() == y * cw,
            bitmap_reads_ok(raw@.len() as int, bmp_w as int, bmp_h as int, pitch as int, mono, x_off as int, y_off as int, cw as int, ch as int),
            target == composited(raw@, bmp_w as int, bmp_h as int, pitch as int, mono, x_off as int, y_off as int, cw as int, ch as int),
            forall|j: int| 0 <= j < canvas@.len() ==> canvas@[j] == #[trigger] target[j],
        decreases ch - y,
    {
        let mut x: u32 = 0;
        while x < cw
            invariant
                cw * ch <= i32::MAX,
                y < ch,
                x <= cw,
                canvas@.len() == y * cw + x,
                bitmap_reads_ok(raw@.len() as int, bmp_w as int, bmp_h as int, pitch as int, mono, x_off as int, y_off as int, cw as int, ch as int),
                target == composited(raw@, bmp_w as int, bmp_h as int, pitch as int, mono, x_off as int, y_off as int, cw as int, ch as int),
                forall|j: int| 0 <= j < canvas@.len() ==> canvas@[j] == #[trigger] target[j],
            decreases cw - x,
        {
            let row: i64 = y as i64 - y_off as i64;
            let col: i64 = x as i64 - x_off as i64;
            let v: u8 = if 0 <= row && row < bmp_h as i64 && 0 <= col && col < bmp_w as i64 {
                assert(0 <= row + y_off < ch && 0 <= col + x_off < cw);
                assert(source_index(pitch as int, mono, row as int, col as int) < raw@.len());
                alpha_at(raw, pitch, mono, row as u32, col as u32)
            } else {
                0
            };
            proof {
                let i = y * cw + x;
                assert(i < cw * ch) by (nonlinear_arith)
                    requires
                        x < cw,
                        y < ch,
                        i == y * cw + x,
                ;
                lemma_fundamental_div_mod_converse(i as int, cw as int, y as int, x as int);
                assert(target[i as int] == v);
            }
            canvas.push(v);
            x = x + 1;
        }
        proof {
            assert((y + 1) * cw == y * cw + cw) by (nonlinear_arith);
        }
        y = y + 1;
    }
    proof {
        lemma_mul_is_commutative(cw as int, ch as int);
        assert(canvas@.len() == target.len());
        assert(canvas@ =~= target);
    }
    canvas
}

// ── The sprites of a text glyph and of an icon ──────────────────────────────

/// A text glyph's sprite: the bitmap drawn on one cell with its left bearing
/// as offset across and its top `bitmap_top` pixels above the `baseline`;
/// `None` for an empty bitmap (a space).
pub fn cell_sprite(
    raw: &[u8],
    bmp_w: u32,
    bmp_h: u32,
    pitch: u32,
    mono: bool,
    bitmap_left: i32,
    bitmap_top: i32,
    baseline: i32,
    cw: u32,
    ch: u32,
) -> (r: Option<Vec<u8>>)
    requires
        cw * ch <= i32::MAX,
        i32::MIN <= baseline - bitmap_top <= i32::MAX,
        bitmap_reads_ok(raw@.len() as int, bmp_w as int, bmp_h as int, pitch as int, mono, bitmap_left as int, baseline - bitmap_top, cw as int, ch as int),
    ensures
        bmp_w == 0 || bmp_h == 0 ==> r is None,
        bmp_w != 0 && bmp_h != 0 ==> (r matches Some(v) && v@ == composited(raw@, bmp_w as int, bmp_h as int, pitch as int, mono, bitmap_left as int, baseline - bitmap_top, cw as int, ch as int)),
{
    if bmp_w == 0 || bmp_h == 0 {
        return None;
    }
    let y_off = baseline - bitmap_top;
    Some(composite_bitmap(raw, bmp_w, bmp_h, pitch, mono, bitmap_left, y_off, cw, ch))
}

/// Width of an icon's canvas: two cells when the bitmap is wider than one.
pub open spec fn icon_canvas_width(bmp_w: u32, cw: u32) -> int {
    if bmp_w > cw { 2 * cw } else { cw as int }
}

/// Offset that centres `size` pixels in `space` pixels, halved toward zero.
pub open spec fn centred(space: int, size: int) -> int {
    let d = space - size;
    if d >= 0 { d / 2 } else { -((-d) / 2) }
}

fn centred_offset(space: u32, size: u32) -> (r: i32)
    requires
        space <= i32::MAX,
        size <= i32::MAX,
    ensures
        r == centred(space as int, size as int),
{
    if space >= size {
        ((space - size) / 2) as i32
    } else {
        -(((size - space) / 2) as i32)
    }
}

/// An icon's sprite: the grey bitmap centred on a canvas one cell high and one
/// or two cells wide (see [`icon_canvas_width`]); with that width, or `None` for
/// an empty bitmap.
pub fn icon_sprite(raw: &[u8], bmp_w: u32, bmp_h: u32, pitch: u32, cw: u32, ch: u32) -> (r: Option<(Vec<u8>, u32)>)
    requires
        icon_canvas_width(bmp_w, cw) * ch <= i32::MAX,
        icon_canvas_width(bmp_w, cw) <= i32::MAX,
        bmp_w <= i32::MAX,
        bmp_h <= i32::MAX,
        ch <= i32::MAX,
        bitmap_reads_ok(
            raw@.len() as int,
            bmp_w as int,
            bmp_h as int,
            pitch as int,
            false,
            centred(icon_canvas_width(bmp_w, cw), bmp_w as int),
            centred(ch as int, bmp_h as int),
            icon_canvas_width(bmp_w, cw),
            ch as int,
        ),
    ensures
        bmp_w == 0 || bmp_h == 0 ==> r is None,
        bmp_w != 0 && bmp_h != 0 ==> (r matches Some((v, w)) && w == icon_canvas_width(bmp_w, cw) && v@ == composited(
            raw@,
            bmp_w as int,
            bmp_h as int,
            pitch as int,
            false,
            centred(w as int, bmp_w as int),
            centred(ch as int, bmp_h as int),
            w as int,
            ch as int,
        )),
{
    if bmp_w == 0 || bmp_h == 0 {
        return None;
    }
    let w: u32 = if bmp_w > cw { 2 * cw } else { cw };
    let x_off = centred_offset(w, bmp_w);
    let y_off = centred_offset(ch, bmp_h);
    Some((composite_bitmap(raw, bmp_w, bmp_h, pitch, false, x_off, y_off, w, ch), w))
}

// ── Sprites drawn without a font ────────────────────────────────────────────

/// A zeroed `cw` x `ch` canvas.
pub open spec fn blank_canvas(cw: u32, ch: u32) -> Seq<u8> {
    Seq::new((cw * ch) as nat, |i: int| 0u8)
}

/// A box-drawing character's sprite; `None` for an empty cell size.
pub fn box_sprite(c: char, cw: u32, ch: u32) -> (r: Option<Vec<u8>>)
    requires
        cw * ch <= u32::MAX,
    ensures
        cw == 0 || ch == 0 ==> r is None,
        cw != 0 && ch != 0 ==> (r matches Some(v) && v@ == lit_buffer(
            blank_canvas(cw, ch),
            cw as int,
            ch as int,
            |x: int, y: int| box_lit(c, cw, ch, x, y),
        )),
{
    if cw == 0 || ch == 0 {
        return None;
    }
    let n: u32 = cw * ch;
    let mut buf: Vec<u8> = vec![0u8; n as usize];
    assert(buf@ =~= blank_canvas(cw, ch));
    fill_box_drawing(c, buf.as_mut_slice(), cw, ch);
    Some(buf)
}

/// The sprite of a character with no font glyph outside box drawing: a block
/// element or braille pattern where [`is_block_char`] holds, else an empty cell;
/// `None` for an empty cell size.
pub fn fallback_sprite(c: char, cw: u32, ch: u32) -> (r: Option<Vec<u8>>)
    requires
        cw * ch <= u32::MAX,
        is_block_char(c as u32) ==> block_sizes_ok(c as u32, cw, ch),
    ensures
        cw == 0 || ch == 0 ==> r is None,
        cw != 0 && ch != 0 && !is_block_char(c as u32) ==> (r matches Some(v) && v@ == blank_canvas(cw, ch)),
        cw != 0 && ch != 0 && is_block_char(c as u32) ==> (r matches Some(v) && v@ == lit_buffer(
            blank_canvas(cw, ch),
            cw as int,
            ch as int,
            |x: int, y: int| if is_braille(c as u32) {
                braille_lit(c as u32, cw, ch, x, y)
            } else {
                block_lit(c as u32, cw, ch, x, y)
            },
        )),
{
    if cw == 0 || ch == 0 {
        return None;
    }
    let n: u32 = cw * ch;
    let mut buf: Vec<u8> = vec![0u8; n as usize];
    assert(buf@ =~= blank_canvas(cw, ch));
    let code = c as u32;
    if (0x2580 <= code && code <= 0x259F) || (0x2800 <= code && code <= 0x28FF) {
        fill_block_element(c, buf.as_mut_slice(), cw, ch);
    }
    Some(buf)
}

// ── Where sprites go in the atlas ───────────────────────────────────────────

/// Abstract state of a [`SpriteShelf`]: where the next sprite would start and
/// how tall the current shelf is.
pub struct ShelfModel {
    pub next_x: u32,
    pub next_y: u32,
    pub row_height: u32,
}

/// Placing a `w` x `h` sprite with a one-pixel gutter: a new shelf starts when
/// the sprite and its gutter do not fit across; `None` when they do not fit below.
pub open spec fn placed(m: ShelfModel, w: u32, h: u32) -> (ShelfModel, Option<(u32, u32)>) {
    let wrapped = m.next_x + w + 1 > SPRITE_ATLAS_SIZE;
    let nx: u32 = if wrapped { 1 } else { m.next_x };
    let ny: u32 = if wrapped { (m.next_y + m.row_height + 1) as u32 } else { m.next_y };
    let rh: u32 = if wrapped { 0 } else { m.row_height };
    if ny + h + 1 > SPRITE_ATLAS_SIZE {
        (ShelfModel { next_x: nx, next_y: ny, row_height: rh }, None)
    } else {
        (
            ShelfModel { next_x: (nx + w + 1) as u32, next_y: ny, row_height: if h > rh { h } else { rh } },
            Some((nx, ny)),
        )
    }
}

/// The placement's arithmetic stays within `u32`.
pub open spec fn placement_fits(m: ShelfModel, w: u32, h: u32) -> bool {
    &&& m.next_x + w + 1 <= u32::MAX
    &&& m.next_y + m.row_height + 1 + h + 1 <= u32::MAX
    &&& 1 + w + 1 <= u32::MAX
}

/// The packing cursor of the glyph atlas: sprites go left to right on shelves,
/// one pixel apart, starting one pixel in from the corner.
pub struct SpriteShelf {
    next_x: u32,
    next_y: u32,
    row_height: u32,
}

impl View for SpriteShelf {
    type V = ShelfModel;

    closed spec fn view(&self) -> ShelfModel {
        ShelfModel { next_x: self.next_x, next_y: self.next_y, row_height: self.row_height }
    }
}

impl SpriteShelf {
    /// An empty atlas: the first sprite goes at (1, 1).
    pub fn new() -> (s: Self)
        ensures
            s@ == (ShelfModel { next_x: 1, next_y: 1, row_height: 0 }),
    {
        SpriteShelf { next_x: 1, next_y: 1, row_height: 0 }
    }

    /// Whether [`SpriteShelf::place`] can take a `w` x `h` sprite (see [`placement_fits`]).
    pub fn fits(&self, w: u32, h: u32) -> (r: bool)
        ensures
            r == placement_fits(self@, w, h),
    {
        let m: u64 = 0xFFFF_FFFF;
        self.next_x as u64 + w as u64 + 1 <= m && self.next_y as u64 + self.row_height as u64 + 1 + h as u64 + 1 <= m
            && 1 + w as u64 + 1 <= m
    }

    /// Reserves room for a `w` x `h` sprite; returns its top-left corner.
    pub fn place(&mut self, w: u32, h: u32) -> (r: Option<(u32, u32)>)
        requires
            placement_fits(old(self)@, w, h),
        ensures
            (final(self)@, r) == placed(old(self)@, w, h),
    {
        if self.next_x + w + 1 > SPRITE_ATLAS_SIZE {
            self.next_x = 1;
            self.next_y = self.next_y + self.row_height + 1;
            self.row_height = 0;
        }
        if self.next_y + h + 1 > SPRITE_ATLAS_SIZE {
            return None;
        }
        let pos = (self.next_x, self.next_y);
        if h > self.row_height {
            self.row_height = h;
        }
        self.next_x = self.next_x + w + 1;
        Some(pos)
    }
}

/// Law: a placed sprite lies inside the atlas with its gutter (when it is not
/// wider than the atlas), and the next one starts beyond its gutter, across or
/// below, so two consecutive sprites never touch.
pub proof fn law_sprites_apart(m: ShelfModel, w1: u32, h1: u32, w2: u32, h2: u32)
    requires
        placement_fits(m, w1, h1),
        placed(m, w1, h1).1 is Some,
        placement_fits(placed(m, w1, h1).0, w2, h2),
        placed(placed(m, w1, h1).0, w2, h2).1 is Some,
        w1 + 2 <= SPRITE_ATLAS_SIZE,
    ensures
        ({
            let (x1, y1) = placed(m, w1, h1).1->0;
            let (x2, y2) = placed(placed(m, w1, h1).0, w2, h2).1->0;
            &&& x1 + w1 + 1 <= SPRITE_ATLAS_SIZE
            &&& y1 + h1 + 1 <= SPRITE_ATLAS_SIZE
            &&& (x1 + w1 + 1 <= x2 || y1 + h1 + 1 <= y2)
        }),
{
}

} // verus!
