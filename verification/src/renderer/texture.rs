//! Shelf allocation of glyph rectangles in a texture atlas.
use vstd::prelude::*;

verus! {

/// Abstract state of a [`TextureAtlas`].
pub struct AtlasModel {
    pub width: u32,
    pub height: u32,
    pub texture_id: u32,
    pub next_x: u32,
    pub next_y: u32,
    pub row_height: u32,
}

/// Allocating a `w` x `h` rectangle: a new shelf starts when the current one is full
/// across; `None` when the rectangle does not fit below.
pub open spec fn allocated(m: AtlasModel, w: u32, h: u32) -> (AtlasModel, Option<(u32, u32)>) {
    let wrapped = m.next_x + w > m.width;
    let nx: u32 = if wrapped { 0 } else { m.next_x };
    let ny: u32 = if wrapped { (m.next_y + m.row_height) as u32 } else { m.next_y };
    let rh: u32 = if wrapped { 0 } else { m.row_height };
    if ny + h > m.height {
        (AtlasModel { next_x: nx, next_y: ny, row_height: rh, ..m }, None)
    } else {
        (
            AtlasModel { next_x: (nx + w) as u32, next_y: ny, row_height: if rh >= h { rh } else { h }, ..m },
            Some((nx, ny)),
        )
    }
}

/// The allocation's arithmetic stays within `u32`.
pub open spec fn allocation_fits(m: AtlasModel, w: u32, h: u32) -> bool {
    &&& m.next_x + w <= u32::MAX
    &&& m.next_x + w > m.width ==> m.next_y + m.row_height <= u32::MAX && m.next_y + m.row_height + h <= u32::MAX
    &&& m.next_x + w <= m.width ==> m.next_y + h <= u32::MAX
}

/// A texture atlas filled shelf by shelf, left to right.
pub struct TextureAtlas {
    width: u32,
    height: u32,
    texture_id: u32,
    next_x: u32,
    next_y: u32,
    row_height: u32,
}

impl View for TextureAtlas {
    type V = AtlasModel;

    closed spec fn view(&self) -> AtlasModel {
        AtlasModel {
            width: self.width,
            height: self.height,
            texture_id: self.texture_id,
            next_x: self.next_x,
            next_y: self.next_y,
            row_height: self.row_height,
        }
    }
}

impl TextureAtlas {
    /// An empty `width` x `height` atlas with no texture yet.
    pub fn new(width: u32, height: u32) -> (r: anyhow::Result<Self>)
        ensures
            r matches Ok(a) && a@ == (AtlasModel { width, height, texture_id: 0, next_x: 0, next_y: 0, row_height: 0 }),
    {
        Ok(TextureAtlas { width, height, texture_id: 0, next_x: 0, next_y: 0, row_height: 0 })
    }

    /// Reserves a `w` x `h` rectangle; returns its top-left corner.
    pub fn allocate(&mut self, w: u32, h: u32) -> (r: Option<(u32, u32)>)
        requires
            allocation_fits(old(self)@, w, h),
        ensures
            (final(self)@, r) == allocated(old(self)@, w, h),
    {
        if self.next_x + w > self.width {
            self.next_x = 0;
            self.next_y = self.next_y + self.row_height;
            self.row_height = 0;
        }
        if self.next_y + h > self.height {
            return None;
        }
        let x = self.next_x;
        let y = self.next_y;
        self.next_x = self.next_x + w;
        self.row_height = if self.row_height >= h { self.row_height } else { h };
        Some((x, y))
    }

    /// Forgets every allocation.
    pub fn reset(&mut self)
        ensures
            final(self)@ == (AtlasModel { next_x: 0, next_y: 0, row_height: 0, ..old(self)@ }),
    {
        self.next_x = 0;
        self.next_y = 0;
        self.row_height = 0;
    }

    pub fn width(&self) -> (w: u32)
        ensures
            w == self@.width,
    {
        self.width
    }

    pub fn height(&self) -> (h: u32)
        ensures
            h == self@.height,
    {
        self.height
    }

    pub fn texture_id(&self) -> (id: u32)
        ensures
            id == self@.texture_id,
    {
        self.texture_id
    }

    pub fn set_texture_id(&mut self, id: u32)
        ensures
            final(self)@ == (AtlasModel { texture_id: id, ..old(self)@ }),
    {
        self.texture_id = id;
    }
}

/// Law: an allocated rectangle lies inside the atlas (across, when it is not wider
/// than the atlas), and the next allocation starts right of it or on a later shelf,
/// so two consecutive rectangles never overlap.
pub proof fn law_allocations_disjoint(m: AtlasModel, w1: u32, h1: u32, w2: u32, h2: u32)
    requires
        allocation_fits(m, w1, h1),
        allocated(m, w1, h1).1 is Some,
        allocation_fits(allocated(m, w1, h1).0, w2, h2),
        allocated(allocated(m, w1, h1).0, w2, h2).1 is Some,
        w1 <= m.width,
    ensures
        ({
            let (x1, y1) = allocated(m, w1, h1).1->0;
            let (x2, y2) = allocated(allocated(m, w1, h1).0, w2, h2).1->0;
            &&& y1 + h1 <= m.height
            &&& x1 + w1 <= m.width
            &&& (x1 + w1 <= x2 || y1 + h1 <= y2)
        }),
{
}

} // verus!
