//! Software rasterisation of the cell sprites drawn without a font (box drawing,
//! block elements, braille) and the glyph atlas bookkeeping.
pub mod raster;
pub mod box_drawing;
pub mod blocks;
pub mod texture;
pub mod sprite;
pub mod cell_color;
pub mod frame;
