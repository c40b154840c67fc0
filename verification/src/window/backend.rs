//! The interface a window backend offers, and the events it reports.
use vstd::prelude::*;

verus! {

#[verifier::external_type_specification]
#[verifier::external_body]
pub struct ExAnyhowError(anyhow::Error);

/// An event reported by a window backend.
#[derive(Clone, Debug)]
pub enum WindowEvent {
    Close,
    Resize { width: u32, height: u32 },
    KeyPress { keycode: u32, modifiers: u32 },
    KeyRelease { keycode: u32, modifiers: u32 },
    MouseMotion { x: i32, y: i32 },
    MouseButton { button: u32, pressed: bool },
    Focus { gained: bool },
}

/// A native window with a GL surface.
pub trait WindowBackend: Send {
    fn create_window(&mut self, title: &str, width: u32, height: u32) -> anyhow::Result<()>;

    fn poll_events(&mut self) -> Option<WindowEvent>;

    fn swap_buffers(&mut self);

    fn set_title(&mut self, title: &str);

    fn resize(&mut self, width: u32, height: u32);

    fn should_close(&self) -> bool;

    fn get_size(&self) -> (u32, u32);

    fn make_current(&mut self);
}

} // verus!
