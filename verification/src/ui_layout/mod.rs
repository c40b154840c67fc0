pub mod base;
pub mod grid;
pub mod stack;

pub use base::{WindowId, WindowType};
pub use grid::GridLayout;
pub use stack::StackLayout;
