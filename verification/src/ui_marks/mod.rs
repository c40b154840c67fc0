pub mod marks;

pub use marks::{Mark, MarkManager, MarkType};
