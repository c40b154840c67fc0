use vstd::prelude::*;
use super::buffer::{CellAttributes, plain_attrs};

verus! {

/// `v` clamped to the last valid index of a dimension of size `max`
/// (`v.min(max.saturating_sub(1))`).
pub open spec fn clamp_index(v: usize, max: usize) -> usize {
    if max == 0 {
        0
    } else if v < max {
        v
    } else {
        (max - 1) as usize
    }
}

/// Abstract state of a cursor.
pub struct CursorModel {
    pub row: usize,
    pub col: usize,
    pub visible: bool,
    pub blinking: bool,
    pub origin: bool,
    pub attributes: CellAttributes,
    pub saved_row: usize,
    pub saved_col: usize,
    pub max_rows: usize,
    pub max_cols: usize,
}

impl CursorModel {
    /// The position lies inside the grid (or at the origin of an empty grid).
    pub open spec fn wf(self) -> bool {
        &&& self.row == clamp_index(self.row, self.max_rows)
        &&& self.col == clamp_index(self.col, self.max_cols)
    }
}


/// A new cursor for a `max_rows` x `max_cols` grid.
pub open spec fn fresh_cursor(max_rows: usize, max_cols: usize) -> CursorModel {
    CursorModel {
        row: 0,
        col: 0,
        visible: true,
        blinking: false,
        origin: false,
        attributes: plain_attrs(),
        saved_row: 0,
        saved_col: 0,
        max_rows,
        max_cols,
    }
}

impl CursorModel {
    pub open spec fn with_visible(self, visible: bool) -> CursorModel {
        CursorModel { visible, ..self }
    }

    pub open spec fn with_attributes(self, attributes: CellAttributes) -> CursorModel {
        CursorModel { attributes, ..self }
    }

    pub open spec fn moved_to(self, row: usize, col: usize) -> CursorModel {
        CursorModel { row: clamp_index(row, self.max_rows), col: clamp_index(col, self.max_cols), ..self }
    }

    pub open spec fn moved_to_row(self, row: usize) -> CursorModel {
        CursorModel { row: clamp_index(row, self.max_rows), ..self }
    }

    pub open spec fn moved_to_col(self, col: usize) -> CursorModel {
        CursorModel { col: clamp_index(col, self.max_cols), ..self }
    }

    pub open spec fn moved_up(self, n: usize) -> CursorModel {
        CursorModel { row: if self.row >= n { (self.row - n) as usize } else { 0 }, ..self }
    }

    /// The cursor is on (or below) the last row, so moving down needs a scroll.
    pub open spec fn at_last_row(self) -> bool {
        !(self.row + 1 < self.max_rows)
    }

    pub open spec fn moved_down(self) -> CursorModel {
        CursorModel { row: if self.at_last_row() { self.row } else { (self.row + 1) as usize }, ..self }
    }

    pub open spec fn moved_left(self) -> CursorModel {
        CursorModel { col: if self.col > 0 { (self.col - 1) as usize } else { 0 }, ..self }
    }

    pub open spec fn moved_right(self) -> CursorModel {
        CursorModel { col: if self.col + 1 < self.max_cols { (self.col + 1) as usize } else { self.col }, ..self }
    }

    pub open spec fn saved(self) -> CursorModel {
        CursorModel { saved_row: self.row, saved_col: self.col, ..self }
    }

    pub open spec fn restored(self) -> CursorModel {
        CursorModel {
            row: clamp_index(self.saved_row, self.max_rows),
            col: clamp_index(self.saved_col, self.max_cols),
            ..self
        }
    }

    pub open spec fn resized(self, rows: usize, cols: usize) -> CursorModel {
        CursorModel {
            max_rows: rows,
            max_cols: cols,
            row: clamp_index(self.row, rows),
            col: clamp_index(self.col, cols),
            ..self
        }
    }

    pub open spec fn reset_state(self) -> CursorModel {
        CursorModel {
            row: 0,
            col: 0,
            visible: true,
            blinking: false,
            origin: false,
            attributes: plain_attrs(),
            ..self
        }
    }
}

/// Law: every cursor movement keeps the position on the grid.
pub proof fn law_cursor_stays_on_grid(c: CursorModel, row: usize, col: usize, n: usize, rows: usize, cols: usize)
    requires
        c.wf(),
    ensures
        c.moved_to(row, col).wf(),
        c.moved_to_row(row).wf(),
        c.moved_to_col(col).wf(),
        c.moved_up(n).wf(),
        c.moved_down().wf(),
        c.moved_left().wf(),
        c.max_cols > 0 ==> c.moved_right().wf(),
        c.saved().wf(),
        c.restored().wf(),
        c.resized(rows, cols).wf(),
        c.reset_state().wf(),
{
}

/// A call on a cursor other than saving, restoring or resizing, with its arguments.
pub enum CursorCall {
    MoveTo(usize, usize),
    MoveToRow(usize),
    MoveToCol(usize),
    MoveUp(usize),
    MoveDown,
    MoveLeft,
    MoveRight,
    Newline,
    Reset,
    SetVisible(bool),
    SetBlinking(bool),
    SetAttributes(CellAttributes),
}

impl CursorModel {
    /// The cursor after `call`, as the contract of the matching method states it.
    pub open spec fn after_call(self, call: CursorCall) -> CursorModel {
        match call {
            CursorCall::MoveTo(row, col) => self.moved_to(row, col),
            CursorCall::MoveToRow(row) => self.moved_to_row(row),
            CursorCall::MoveToCol(col) => self.moved_to_col(col),
            CursorCall::MoveUp(n) => self.moved_up(n),
            CursorCall::MoveDown => self.moved_down(),
            CursorCall::MoveLeft => self.moved_left(),
            CursorCall::MoveRight => self.moved_right(),
            CursorCall::Newline => self.moved_to_col(0).moved_down(),
            CursorCall::Reset => self.reset_state(),
            CursorCall::SetVisible(v) => self.with_visible(v),
            CursorCall::SetBlinking(b) => CursorModel { blinking: b, ..self },
            CursorCall::SetAttributes(a) => self.with_attributes(a),
        }
    }

    /// The cursor after `calls`, in order.
    pub open spec fn after_calls(self, calls: Seq<CursorCall>) -> CursorModel
        decreases calls.len(),
    {
        if calls.len() == 0 {
            self
        } else {
            self.after_calls(calls.drop_last()).after_call(calls.last())
        }
    }
}

proof fn lemma_calls_keep_saved(c: CursorModel, calls: Seq<CursorCall>)
    ensures
        c.after_calls(calls).saved_row == c.saved_row,
        c.after_calls(calls).saved_col == c.saved_col,
        c.after_calls(calls).max_rows == c.max_rows,
        c.after_calls(calls).max_cols == c.max_cols,
    decreases calls.len(),
{
    if calls.len() > 0 {
        lemma_calls_keep_saved(c, calls.drop_last());
    }
}

/// Law: a position saved on the grid comes back on restore, whatever moves, resets
/// and attribute changes happened in between.
pub proof fn law_save_then_restore(c: CursorModel, calls: Seq<CursorCall>)
    requires
        c.wf(),
    ensures
        c.saved().after_calls(calls).restored().row == c.row,
        c.saved().after_calls(calls).restored().col == c.col,
{
    lemma_calls_keep_saved(c.saved(), calls);
}

/// Text cursor: position, visibility, current attributes and a saved position.
#[derive(Clone, Debug)]
pub struct Cursor {
    row: usize,
    col: usize,
    visible: bool,
    blinking: bool,
    origin: bool,
    attributes: CellAttributes,
    saved_row: usize,
    saved_col: usize,
    max_rows: usize,
    max_cols: usize,
}

impl View for Cursor {
    type V = CursorModel;

    closed spec fn view(&self) -> CursorModel {
        CursorModel {
            row: self.row,
            col: self.col,
            visible: self.visible,
            blinking: self.blinking,
            origin: self.origin,
            attributes: self.attributes,
            saved_row: self.saved_row,
            saved_col: self.saved_col,
            max_rows: self.max_rows,
            max_cols: self.max_cols,
        }
    }
}

impl Cursor {
    pub fn new(max_rows: usize, max_cols: usize) -> (c: Self)
        ensures
            c@ == fresh_cursor(max_rows, max_cols),
            fresh_cursor(max_rows, max_cols) == (CursorModel {
                row: 0,
                col: 0,
                visible: true,
                blinking: false,
                origin: false,
                attributes: plain_attrs(),
                saved_row: 0,
                saved_col: 0,
                max_rows,
                max_cols,
            }),
            c@.wf(),
    {
        Cursor {
            row: 0,
            col: 0,
            visible: true,
            blinking: false,
            origin: false,
            attributes: CellAttributes::default(),
            saved_row: 0,
            saved_col: 0,
            max_rows,
            max_cols,
        }
    }

    pub fn row(&self) -> (r: usize)
        ensures
            r == self@.row,
    {
        self.row
    }

    pub fn col(&self) -> (c: usize)
        ensures
            c == self@.col,
    {
        self.col
    }

    pub fn visible(&self) -> (v: bool)
        ensures
            v == self@.visible,
    {
        self.visible
    }

    pub fn set_visible(&mut self, visible: bool)
        ensures
            final(self)@ == old(self)@.with_visible(visible),
    {
        self.visible = visible;
    }

    pub fn blinking(&self) -> (b: bool)
        ensures
            b == self@.blinking,
    {
        self.blinking
    }

    pub fn set_blinking(&mut self, blinking: bool)
        ensures
            final(self)@ == (CursorModel { blinking, ..old(self)@ }),
    {
        self.blinking = blinking;
    }

    pub fn attributes(&self) -> (a: CellAttributes)
        ensures
            a == self@.attributes,
    {
        self.attributes
    }

    pub fn set_attributes(&mut self, attrs: CellAttributes)
        ensures
            final(self)@ == old(self)@.with_attributes(attrs),
    {
        self.attributes = attrs;
    }

    /// Moves to (`row`, `col`), each clamped to the grid.
    pub fn move_to(&mut self, row: usize, col: usize)
        ensures
            final(self)@ == old(self)@.moved_to(row, col),
    {
        self.row = row.min(self.max_rows.saturating_sub(1));
        self.col = col.min(self.max_cols.saturating_sub(1));
    }

    pub fn move_to_row(&mut self, row: usize)
        ensures
            final(self)@ == old(self)@.moved_to_row(row),
    {
        self.row = row.min(self.max_rows.saturating_sub(1));
    }

    pub fn move_to_col(&mut self, col: usize)
        ensures
            final(self)@ == old(self)@.moved_to_col(col),
    {
        self.col = col.min(self.max_cols.saturating_sub(1));
    }

    /// Moves `n` rows up, stopping at the top row.
    pub fn move_up(&mut self, n: usize)
        ensures
            final(self)@ == old(self)@.moved_up(n),
    {
        if self.row >= n {
            self.row -= n;
        } else {
            self.row = 0;
        }
    }

    /// Moves one row down; returns `true` (and stays) when already on the last row.
    pub fn move_down(&mut self) -> (needs_scroll: bool)
        ensures
            needs_scroll == old(self)@.at_last_row(),
            final(self)@ == old(self)@.moved_down(),
    {
        if self.row < self.max_rows.saturating_sub(1) {
            self.row += 1;
            false
        } else {
            true
        }
    }

    pub fn max_rows(&self) -> (r: usize)
        ensures
            r == self@.max_rows,
    {
        self.max_rows
    }

    pub fn max_cols(&self) -> (c: usize)
        ensures
            c == self@.max_cols,
    {
        self.max_cols
    }

    /// Moves one column left, stopping at the first column.
    pub fn move_left(&mut self)
        ensures
            final(self)@ == old(self)@.moved_left(),
    {
        if self.col > 0 {
            self.col -= 1;
        }
    }

    /// Moves one column right, stopping at the last column.
    pub fn move_right(&mut self)
        requires
            old(self)@.max_cols > 0,
        ensures
            final(self)@ == old(self)@.moved_right(),
    {
        if self.col < self.max_cols - 1 {
            self.col += 1;
        }
    }

    pub fn save_position(&mut self)
        ensures
            final(self)@ == old(self)@.saved(),
    {
        self.saved_row = self.row;
        self.saved_col = self.col;
    }

    /// Returns to the saved position, clamped to the current grid.
    pub fn restore_position(&mut self)
        ensures
            final(self)@ == old(self)@.restored(),
    {
        self.row = self.saved_row.min(self.max_rows.saturating_sub(1));
        self.col = self.saved_col.min(self.max_cols.saturating_sub(1));
    }

    /// Changes the grid size, clamping the position into it.
    pub fn resize(&mut self, rows: usize, cols: usize)
        ensures
            final(self)@ == old(self)@.resized(rows, cols),
    {
        self.max_rows = rows;
        self.max_cols = cols;
        self.row = self.row.min(rows.saturating_sub(1));
        self.col = self.col.min(cols.saturating_sub(1));
    }

    /// Back to the home position with default visibility and attributes
    /// (the saved position and the grid size are kept).
    pub fn reset(&mut self)
        ensures
            final(self)@ == old(self)@.reset_state(),
    {
        self.row = 0;
        self.col = 0;
        self.visible = true;
        self.blinking = false;
        self.origin = false;
        self.attributes = CellAttributes::default();
    }

    /// Carriage return plus line feed; returns `true` when the grid must scroll.
    pub fn newline(&mut self) -> (needs_scroll: bool)
        ensures
            needs_scroll == old(self)@.at_last_row(),
            final(self)@ == old(self)@.moved_to_col(0).moved_down(),
    {
        self.col = 0;
        self.move_down()
    }
}

} // verus!
