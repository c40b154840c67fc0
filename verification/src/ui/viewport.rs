//! What the user changes in the view without touching the terminal: the font
//! size (zoom) and how far the view is scrolled back into history.
use vstd::prelude::*;

verus! {

/// Largest font size that zooming in reaches, in points.
pub const MAX_FONT_SIZE: u32 = 72;

/// Smallest font size that zooming out reaches, in points.
pub const MIN_FONT_SIZE: u32 = 6;

/// Abstract state of a [`ViewState`].
pub struct ViewModel {
    pub base_font_size: u32,
    pub current_font_size: u32,
    pub scroll_offset: usize,
}

/// Zooming in by `delta` points, up to [`MAX_FONT_SIZE`].
pub open spec fn zoomed_in(size: u32, delta: u32) -> u32 {
    if size + delta <= MAX_FONT_SIZE { (size + delta) as u32 } else { MAX_FONT_SIZE }
}

/// Zooming out by `delta` points, down to [`MIN_FONT_SIZE`].
pub open spec fn zoomed_out(size: u32, delta: u32) -> u32 {
    let s: int = if size >= delta { size - delta } else { 0 };
    if s >= MIN_FONT_SIZE { s as u32 } else { MIN_FONT_SIZE }
}

/// Scrolling by `delta` lines: a negative delta goes back into history, a
/// positive one toward the live screen (saturating at both ends of `usize`);
/// with a known history length the offset stops there.
pub open spec fn scrolled(offset: usize, delta: i32, history: Option<usize>) -> usize {
    let moved: int = if delta < 0 {
        if offset - delta <= usize::MAX { offset - delta } else { usize::MAX as int }
    } else {
        if offset >= delta { offset - delta } else { 0 }
    };
    match history {
        Some(max) => if moved <= max { moved as usize } else { max },
        None => moved as usize,
    }
}

/// The font size (base and zoomed) and scroll offset of a window.
pub struct ViewState {
    base_font_size: u32,
    current_font_size: u32,
    scroll_offset: usize,
}

impl View for ViewState {
    type V = ViewModel;

    closed spec fn view(&self) -> ViewModel {
        ViewModel {
            base_font_size: self.base_font_size,
            current_font_size: self.current_font_size,
            scroll_offset: self.scroll_offset,
        }
    }
}

impl ViewState {
    /// The configured font size, not zoomed, scrolled to the live screen.
    pub fn new(font_size: u32) -> (v: Self)
        ensures
            v@ == (ViewModel { base_font_size: font_size, current_font_size: font_size, scroll_offset: 0 }),
    {
        ViewState { base_font_size: font_size, current_font_size: font_size, scroll_offset: 0 }
    }

    pub fn font_size(&self) -> (s: u32)
        ensures
            s == self@.current_font_size,
    {
        self.current_font_size
    }

    pub fn scroll_offset(&self) -> (o: usize)
        ensures
            o == self@.scroll_offset,
    {
        self.scroll_offset
    }

    /// Zooms in (see [`zoomed_in`]).
    pub fn increase_font_size(&mut self, delta: u32)
        requires
            old(self)@.current_font_size + delta <= u32::MAX,
        ensures
            final(self)@ == (ViewModel { current_font_size: zoomed_in(old(self)@.current_font_size, delta), ..old(self)@ }),
    {
        let s = self.current_font_size + delta;
        self.current_font_size = if s <= MAX_FONT_SIZE { s } else { MAX_FONT_SIZE };
    }

    /// Zooms out (see [`zoomed_out`]).
    pub fn decrease_font_size(&mut self, delta: u32)
        ensures
            final(self)@ == (ViewModel { current_font_size: zoomed_out(old(self)@.current_font_size, delta), ..old(self)@ }),
    {
        let s = self.current_font_size.saturating_sub(delta);
        self.current_font_size = if s >= MIN_FONT_SIZE { s } else { MIN_FONT_SIZE };
    }

    /// Back to the configured font size.
    pub fn reset_font_size(&mut self)
        ensures
            final(self)@ == (ViewModel { current_font_size: old(self)@.base_font_size, ..old(self)@ }),
    {
        self.current_font_size = self.base_font_size;
    }

    /// Scrolls by `delta` lines within a history of `history` lines, when known
    /// (see [`scrolled`]).
    pub fn scroll_lines(&mut self, delta: i32, history: Option<usize>)
        requires
            delta > i32::MIN,
        ensures
            final(self)@ == (ViewModel { scroll_offset: scrolled(old(self)@.scroll_offset, delta, history), ..old(self)@ }),
    {
        let moved: usize = if delta < 0 {
            let back: i32 = -delta;
            self.scroll_offset.saturating_add(back as usize)
        } else {
            self.scroll_offset.saturating_sub(delta as usize)
        };
        self.scroll_offset = match history {
            Some(max) => if moved <= max { moved } else { max },
            None => moved,
        };
    }

    /// Scrolls to the oldest line of a history of `history` lines; unchanged
    /// when the history is not known.
    pub fn scroll_to_top(&mut self, history: Option<usize>)
        ensures
            final(self)@ == (ViewModel {
                scroll_offset: match history { Some(h) => h, None => old(self)@.scroll_offset },
                ..old(self)@
            }),
    {
        if let Some(h) = history {
            self.scroll_offset = h;
        }
    }

    /// Back to the live screen.
    pub fn scroll_to_bottom(&mut self)
        ensures
            final(self)@ == (ViewModel { scroll_offset: 0, ..old(self)@ }),
    {
        self.scroll_offset = 0;
    }
}

/// Law: zooming keeps the font size within [`MIN_FONT_SIZE`] and
/// [`MAX_FONT_SIZE`] once it is there, whichever way and however far.
pub proof fn law_zoom_bounded(size: u32, delta: u32)
    requires
        MIN_FONT_SIZE <= size <= MAX_FONT_SIZE,
    ensures
        MIN_FONT_SIZE <= zoomed_in(size, delta) <= MAX_FONT_SIZE,
        MIN_FONT_SIZE <= zoomed_out(size, delta) <= MAX_FONT_SIZE,
{
}

/// Law: with a known history, scrolling never goes past its oldest line.
pub proof fn law_scroll_within_history(offset: usize, delta: i32, history: usize)
    ensures
        scrolled(offset, delta, Some(history)) <= history,
{
}

} // verus!
