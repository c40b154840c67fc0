pub mod ansi;
pub mod buffer;
pub mod cursor;
pub mod graphics;

pub use ansi::AnsiParser;
pub use buffer::ScreenBuffer;
pub use cursor::Cursor;
pub use graphics::GraphicsManager;
