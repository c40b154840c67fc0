//! Window-system side of the terminal: keyboard state, key bindings and the
//! window backend interface.
pub mod input;
pub mod keys;
pub mod x11;
pub mod backend;

pub use input::InputHandler;
pub use x11::X11Window;
pub use backend::{WindowBackend, WindowEvent};
