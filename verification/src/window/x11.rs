//! A minimal X11 backend that only tracks the window size.
use vstd::prelude::*;
use super::backend::{WindowBackend, WindowEvent};

verus! {

pub struct X11Window {
    width: u32,
    height: u32,
    should_close: bool,
}

impl View for X11Window {
    type V = (u32, u32, bool);

    closed spec fn view(&self) -> (u32, u32, bool) {
        (self.width, self.height, self.should_close)
    }
}

impl X11Window {
    /// An 800 x 600 window that is not closing.
    pub fn new() -> (r: anyhow::Result<Self>)
        ensures
            r matches Ok(w) && w@ == (800u32, 600u32, false),
    {
        Ok(X11Window { width: 800, height: 600, should_close: false })
    }
}

impl WindowBackend for X11Window {
    fn create_window(&mut self, _title: &str, width: u32, height: u32) -> (r: anyhow::Result<()>)
        ensures
            r is Ok,
            final(self)@ == (width, height, old(self)@.2),
    {
        self.width = width;
        self.height = height;
        Ok(())
    }

    fn poll_events(&mut self) -> (e: Option<WindowEvent>)
        ensures
            e is None,
            final(self)@ == old(self)@,
    {
        None
    }

    fn swap_buffers(&mut self)
        ensures
            final(self)@ == old(self)@,
    {
    }

    fn set_title(&mut self, _title: &str)
        ensures
            final(self)@ == old(self)@,
    {
    }

    fn resize(&mut self, width: u32, height: u32)
        ensures
            final(self)@ == (width, height, old(self)@.2),
    {
        self.width = width;
        self.height = height;
    }

    fn should_close(&self) -> (b: bool)
        ensures
            b == self@.2,
    {
        self.should_close
    }

    fn get_size(&self) -> (s: (u32, u32))
        ensures
            s == (self@.0, self@.1),
    {
        (self.width, self.height)
    }

    fn make_current(&mut self)
        ensures
            final(self)@ == old(self)@,
    {
    }
}

} // verus!
