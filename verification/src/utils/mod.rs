pub mod color;
pub mod ring_buffer;

pub use color::{Color, ColorPalette};
pub use ring_buffer::RingBuffer;
