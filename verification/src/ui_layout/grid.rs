//! The grid layout: windows in rows of a fixed number of columns.
use vstd::prelude::*;

verus! {

pub struct GridLayout {
    cols: usize,
}

impl View for GridLayout {
    type V = usize;

    closed spec fn view(&self) -> usize {
        self.cols
    }
}

impl GridLayout {
    /// Two columns.
    pub fn new() -> (g: Self)
        ensures
            g@ == 2,
    {
        GridLayout { cols: 2 }
    }

    /// Sets the number of columns (at least 1).
    pub fn set_cols(&mut self, cols: usize)
        ensures
            final(self)@ == if cols >= 1 { cols } else { 1 },
    {
        self.cols = if cols >= 1 { cols } else { 1 };
    }

    pub fn cols(&self) -> (c: usize)
        ensures
            c == self@,
    {
        self.cols
    }

    /// Columns and rows used for `n` windows: at most the configured columns, and
    /// enough rows for all.
    pub fn shape(&self, n: usize) -> (r: (usize, usize))
        requires
            n >= 1,
            self@ >= 1,
            n - 1 + (if self@ < n { self@ } else { n }) <= usize::MAX,
        ensures
            r.0 == if self@ < n { self@ } else { n },
            r.1 == (n + r.0 - 1) / (r.0 as int),
            r.0 >= 1,
    {
        let cols = if self.cols < n { self.cols } else { n };
        (cols, (n - 1 + cols) / cols)
    }
}

impl Default for GridLayout {
    fn default() -> (g: Self)
        ensures
            g@ == 2,
    {
        GridLayout::new()
    }
}

/// Column and row of window `i` in a grid of `cols` columns.
pub fn grid_cell(i: usize, cols: usize) -> (r: (usize, usize))
    requires
        cols >= 1,
    ensures
        r == ((i % cols) as usize, (i / cols) as usize),
{
    (i % cols, i / cols)
}

} // verus!
