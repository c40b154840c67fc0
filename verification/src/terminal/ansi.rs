//! VT/xterm escape-sequence interpreter: turns the parsed control functions of the
//! byte stream into changes of the screen, the cursor and the graphics state.
use vstd::prelude::*;
use vstd::utf8::valid_utf8;
use vstd::string::StringSliceAdditionalSpecFns;
use super::buffer::{
    Cell,
    blank_range,
    CellAttributes, ScreenBuffer, ScreenModel, plain_attrs, blank_cell, blank_line, blank_lines,
    cleared_cells, trim_end,
};
use super::cursor::{Cursor, CursorModel, clamp_index, fresh_cursor, law_cursor_stays_on_grid};
use super::graphics::{GraphicsManager, GraphicsModel};
use crate::text::{
    has_prefix, has_infix, split_on, parse_unsigned, decimal, push_decimal, split_bytes,
    starts_with_bytes, contains_bytes, parse_unsigned_exec, copy_range,
};

verus! {

#[verifier::external_type_specification]
#[verifier::external_body]
pub struct ExVteParser<const OSC_RAW_BUF_SIZE: usize>(vte::Parser<OSC_RAW_BUF_SIZE>);

#[verifier::external_type_specification]
#[verifier::external_body]
pub struct ExVteParams(vte::Params);

/// `vte::Parser::new`: a parser in its ground state (nothing is stated of the state).
pub assume_specification[vte::Parser::new]() -> (p: vte::Parser);

/// One control function or character recognised by the `vte` state machine.
#[derive(Debug)]
pub enum VtEvent {
    Print(char),
    Execute(u8),
    Csi { params: Vec<Vec<u16>>, intermediates: Vec<u8>, ignore: bool, action: char },
    Esc { intermediates: Vec<u8>, ignore: bool, byte: u8 },
    Hook { params: Vec<Vec<u16>>, intermediates: Vec<u8>, ignore: bool, action: char },
    Put(u8),
    Unhook,
}

/// Records the callbacks of `vte::Parser::advance`, in order, as [`VtEvent`]s.
pub struct EventCollector {
    pub events: Vec<VtEvent>,
}

impl vte::Perform for EventCollector {
    #[verifier::external_body]
    fn print(&mut self, c: char) {
        self.events.push(VtEvent::Print(c));
    }

    #[verifier::external_body]
    fn execute(&mut self, byte: u8) {
        self.events.push(VtEvent::Execute(byte));
    }

    #[verifier::external_body]
    fn hook(&mut self, params: &vte::Params, intermediates: &[u8], ignore: bool, action: char) {
        let params = params.iter().map(|p| p.to_vec()).collect();
        self.events.push(VtEvent::Hook { params, intermediates: intermediates.to_vec(), ignore, action });
    }

    #[verifier::external_body]
    fn put(&mut self, byte: u8) {
        self.events.push(VtEvent::Put(byte));
    }

    #[verifier::external_body]
    fn unhook(&mut self) {
        self.events.push(VtEvent::Unhook);
    }

    #[verifier::external_body]
    fn csi_dispatch(&mut self, params: &vte::Params, intermediates: &[u8], ignore: bool, action: char) {
        let params = params.iter().map(|p| p.to_vec()).collect();
        self.events.push(VtEvent::Csi { params, intermediates: intermediates.to_vec(), ignore, action });
    }

    #[verifier::external_body]
    fn esc_dispatch(&mut self, intermediates: &[u8], ignore: bool, byte: u8) {
        self.events.push(VtEvent::Esc { intermediates: intermediates.to_vec(), ignore, byte });
    }
}

/// Every parameter of a control sequence has at least one (sub)parameter value.
pub open spec fn params_ok(params: Seq<Vec<u16>>) -> bool {
    forall|i: int| 0 <= i < params.len() ==> (#[trigger] params[i])@.len() > 0
}

/// The events carry well-formed parameter lists.
pub open spec fn events_ok(events: Seq<VtEvent>) -> bool {
    forall|i: int|
        0 <= i < events.len() ==> match #[trigger] events[i] {
            VtEvent::Csi { params, .. } => params_ok(params@),
            VtEvent::Hook { params, .. } => params_ok(params@),
            _ => true,
        }
}

/// Number of `Unhook` events.
pub open spec fn unhook_count(events: Seq<VtEvent>) -> nat
    decreases events.len(),
{
    if events.len() == 0 {
        0
    } else {
        unhook_count(events.drop_last()) + if events.last() is Unhook { 1nat } else { 0nat }
    }
}

/// The callbacks `vte::Parser::advance` makes, in order, when `parser` is fed `bytes`.
pub uninterp spec fn vte_events(parser: vte::Parser, bytes: Seq<u8>) -> Seq<VtEvent>;

/// The state `vte::Parser::advance` leaves `parser` in after `bytes`.
pub uninterp spec fn vte_after(parser: vte::Parser, bytes: Seq<u8>) -> vte::Parser;

/// Feeds `bytes` to the `vte` state machine (`vte::Parser::advance`) and returns the
/// callbacks it made, in order (see [`vte_events`], [`vte_after`]). Of the events it
/// also states that each parameter holds at least one value (vte stores a parameter
/// with its subparameter count, at least one) and that each `Unhook` is caused by
/// a distinct input byte.
#[verifier::external_body]
fn vte_advance(parser: &mut vte::Parser, bytes: &[u8]) -> (events: Vec<VtEvent>)
    ensures
        events@ == vte_events(*old(parser), bytes@),
        *final(parser) == vte_after(*old(parser), bytes@),
        events_ok(events@),
        unhook_count(events@) <= bytes@.len(),
{
    let mut collector = EventCollector { events: Vec::new() };
    parser.advance(&mut collector, bytes);
    collector.events
}

/// Display width of `c` in columns per Unicode Annex #11, `None` for control
/// characters (the `unicode-width` crate's `UnicodeWidthChar::width`).
pub uninterp spec fn unicode_char_width(c: char) -> Option<usize>;

/// Calls `unicode_width::UnicodeWidthChar::width`. Its source gives 1 for printable
/// ASCII, `None` for the C0 and C1 controls, and otherwise a table value of type `u8`.
#[verifier::external_body]
fn char_width(c: char) -> (r: Option<usize>)
    ensures
        r == unicode_char_width(c),
        (' ' <= c && c < '\x7f') ==> r == Some(1usize),
        (c < ' ' || ('\x7f' <= c && c < '\u{a0}')) ==> r is None,
        r matches Some(w) ==> w <= 255,
{
    unicode_width::UnicodeWidthChar::width(c)
}

/// `bytes` as text when they are well-formed UTF-8 (`std::str::from_utf8`).
#[verifier::external_body]
fn utf8_str(bytes: &[u8]) -> (r: Option<&str>)
    ensures
        r is Some <==> valid_utf8(bytes@),
        r matches Some(s) ==> s.spec_bytes() == bytes@,
{
    std::str::from_utf8(bytes).ok()
}

/// Largest grid width an interpreter accepts: a column plus a character's width
/// (at most 255) or a tab step still fits in a `usize`. (Every grid line holds
/// `cols` cells of several bytes each, so no wider grid could be allocated anyway.)
pub const MAX_COLS: usize = usize::MAX - 255;

/// Columns a printed character advances: its display width, at least 1.
pub open spec fn print_width(c: char) -> usize {
    match unicode_char_width(c) {
        Some(w) => if w >= 1 { w } else { 1 },
        None => 1,
    }
}

/// Tab stops every 8 columns of a `cols`-wide grid.
pub open spec fn default_tab_stops(cols: usize) -> Seq<usize> {
    Seq::new(((cols + 7) / 8) as nat, |i: int| (i * 8) as usize)
}

/// The first tab stop right of `col`.
pub open spec fn next_tab_stop(stops: Seq<usize>, col: usize) -> Option<usize>
    decreases stops.len(),
{
    if stops.len() == 0 {
        None
    } else if stops[0] > col {
        Some(stops[0])
    } else {
        next_tab_stop(stops.drop_first(), col)
    }
}

/// Abstract state of an [`AnsiParser`].
pub struct AnsiModel {
    /// The `vte` state machine, whose state follows from the bytes fed to it.
    pub vte: vte::Parser,
    pub screen: ScreenModel,
    pub alt_screen: ScreenModel,
    pub cursor: CursorModel,
    pub alt_cursor: CursorModel,
    pub tab_stops: Seq<usize>,
    pub using_alt: bool,
    pub scroll_top: usize,
    pub scroll_bottom: usize,
    pub pending_responses: Seq<Seq<u8>>,
    pub graphics: GraphicsModel,
    pub apc_buf: Seq<u8>,
    pub in_apc: bool,
}

impl AnsiModel {
    /// Both screens are well formed and of one size, which the cursors share; the
    /// scroll region lies on the grid.
    pub open spec fn wf(self) -> bool {
        &&& self.screen.wf()
        &&& self.alt_screen.wf()
        &&& self.alt_screen.rows == self.screen.rows
        &&& self.alt_screen.cols == self.screen.cols
        &&& self.screen.cols <= MAX_COLS
        &&& self.cursor.max_rows == self.screen.rows
        &&& self.cursor.max_cols == self.screen.cols
        &&& self.cursor.wf()
        &&& self.alt_cursor.max_rows == self.screen.rows
        &&& self.alt_cursor.max_cols == self.screen.cols
        &&& self.alt_cursor.wf()
        &&& self.scroll_top == clamp_index(self.scroll_top, self.screen.rows)
        &&& self.scroll_bottom == clamp_index(self.scroll_bottom, self.screen.rows)
    }

    /// The screen output goes to.
    pub open spec fn active(self) -> ScreenModel {
        if self.using_alt {
            self.alt_screen
        } else {
            self.screen
        }
    }

    pub open spec fn with_active(self, s: ScreenModel) -> AnsiModel {
        if self.using_alt {
            AnsiModel { alt_screen: s, ..self }
        } else {
            AnsiModel { screen: s, ..self }
        }
    }

    pub open spec fn with_cursor(self, c: CursorModel) -> AnsiModel {
        AnsiModel { cursor: c, ..self }
    }

    /// Line feed inside the scroll region: at or below its bottom the region scrolls
    /// up; elsewhere the cursor moves down (scrolling the screen at its last row).
    pub open spec fn line_feed(self) -> AnsiModel {
        if self.cursor.row >= self.scroll_bottom {
            self.with_active(self.active().region_up(self.scroll_top, self.scroll_bottom, 1))
        } else if self.cursor.at_last_row() {
            self.with_active(self.active().scroll_up_result(1)).with_cursor(self.cursor.moved_down())
        } else {
            self.with_cursor(self.cursor.moved_down())
        }
    }

    /// `n` line feeds.
    pub open spec fn line_feeds(self, n: nat) -> AnsiModel
        decreases n,
    {
        if n == 0 {
            self
        } else {
            self.line_feeds((n - 1) as nat).line_feed()
        }
    }

    /// Reverse index: at or above the top of the scroll region the region scrolls
    /// down; elsewhere the cursor moves up.
    pub open spec fn reverse_index(self) -> AnsiModel {
        if self.cursor.row <= self.scroll_top {
            self.with_active(self.active().region_down(self.scroll_top, self.scroll_bottom, 1))
        } else {
            self.with_cursor(self.cursor.moved_up(1))
        }
    }

    /// Entering the alternate screen (blank, with a fresh cursor), optionally saving
    /// the cursor position; nothing when already there.
    pub open spec fn to_alt(self, save_cursor: bool) -> AnsiModel {
        if self.using_alt {
            self
        } else {
            AnsiModel {
                cursor: if save_cursor { self.cursor.saved() } else { self.cursor },
                using_alt: true,
                alt_screen: self.alt_screen.cleared(),
                alt_cursor: fresh_cursor(self.screen.rows, self.screen.cols),
                ..self
            }
        }
    }

    /// Leaving the alternate screen, optionally restoring the cursor position.
    pub open spec fn to_normal(self, restore_cursor: bool) -> AnsiModel {
        if self.using_alt {
            AnsiModel {
                using_alt: false,
                cursor: if restore_cursor { self.cursor.restored() } else { self.cursor },
                ..self
            }
        } else {
            self
        }
    }

    /// Full reset (RIS): both screens and their histories cleared, cursors reset,
    /// normal screen, whole-screen scroll region.
    pub open spec fn reset_state(self) -> AnsiModel {
        AnsiModel {
            screen: self.screen.cleared(),
            alt_screen: self.alt_screen.cleared(),
            cursor: self.cursor.reset_state(),
            alt_cursor: self.alt_cursor.reset_state(),
            using_alt: false,
            scroll_top: 0,
            scroll_bottom: clamp_index(usize::MAX, self.screen.rows),
            ..self
        }
    }

    /// Clearing the visible screen: blank grid, cursor home, whole-screen scroll region.
    pub open spec fn cleared_active(self) -> AnsiModel {
        AnsiModel {
            cursor: self.cursor.moved_to(0, 0),
            scroll_top: 0,
            scroll_bottom: clamp_index(usize::MAX, self.screen.rows),
            ..self.with_active(self.active().cleared_all())
        }
    }

    /// Resizing: the normal screen is reflowed, the alternate one cleared and resized.
    pub open spec fn resized(self, rows: usize, cols: usize) -> AnsiModel {
        AnsiModel {
            screen: self.screen.resized(rows, cols),
            alt_screen: self.alt_screen.cleared().resized(rows, cols),
            cursor: self.cursor.resized(rows, cols),
            alt_cursor: self.alt_cursor.resized(rows, cols),
            tab_stops: default_tab_stops(cols),
            scroll_top: 0,
            scroll_bottom: clamp_index(usize::MAX, rows),
            ..self
        }
    }

    /// Printing `c` with the current attributes: wrap to the next line when it does
    /// not fit, store it (and a `'\0'` continuation cell for a wide character), then
    /// advance by its width.
    pub open spec fn printed(self, c: char) -> AnsiModel {
        let width = print_width(c);
        let attrs = self.cursor.attributes;
        let max_col = self.cursor.max_cols;
        let m1 = if self.cursor.col + width > max_col {
            self.with_cursor(self.cursor.moved_to_col(0)).line_feed()
        } else {
            self
        };
        let row = m1.cursor.row;
        let col = m1.cursor.col;
        let m2 = m1.with_active(m1.active().put_char(row, col, c, attrs));
        let m3 = if width == 2 && col + 1 < max_col {
            m2.with_active(m2.active().put_char(row, (col + 1) as usize, '\0', attrs))
        } else {
            m2
        };
        m3.with_cursor(right_n(m3.cursor, width as nat))
    }

    /// C0 controls: LF/VT/FF line feed, CR, TAB to the next stop (or the last
    /// column), BS; BEL and the rest are ignored.
    pub open spec fn executed(self, byte: u8) -> AnsiModel {
        if byte == 10 || byte == 11 || byte == 12 {
            self.line_feed()
        } else if byte == 13 {
            self.with_cursor(self.cursor.moved_to_col(0))
        } else if byte == 9 {
            match next_tab_stop(self.tab_stops, self.cursor.col) {
                Some(t) => self.with_cursor(self.cursor.moved_to_col(t)),
                None => self.with_cursor(self.cursor.moved_to_col(clamp_index(usize::MAX, self.cursor.max_cols))),
            }
        } else if byte == 8 {
            self.with_cursor(self.cursor.moved_left())
        } else {
            self
        }
    }

    /// ESC sequences without intermediates: DECSC, DECRC, RIS, IND, RI, NEL.
    pub open spec fn escaped(self, intermediates: Seq<u8>, byte: u8) -> AnsiModel {
        if intermediates.len() != 0 {
            self
        } else if byte == 55 {
            self.with_cursor(self.cursor.saved())
        } else if byte == 56 {
            self.with_cursor(self.cursor.restored())
        } else if byte == 99 {
            self.reset_state()
        } else if byte == 68 {
            self.line_feed()
        } else if byte == 77 {
            self.reverse_index()
        } else if byte == 69 {
            self.with_cursor(self.cursor.moved_to_col(0)).line_feed()
        } else {
            self
        }
    }

    /// Start of a DCS string: collected only when its final character is `G`.
    pub open spec fn hooked(self, action: char) -> AnsiModel {
        if action == 'G' {
            AnsiModel { in_apc: true, apc_buf: Seq::empty(), ..self }
        } else {
            AnsiModel { in_apc: false, ..self }
        }
    }

    pub open spec fn put_byte(self, byte: u8) -> AnsiModel {
        if self.in_apc {
            AnsiModel { apc_buf: self.apc_buf.push(byte), ..self }
        } else {
            self
        }
    }

    /// End of a collected string: a graphics capability query (`a=q`) is answered with
    /// `ESC _ G i=<id>;OK ESC \`; any other UTF-8 string is a graphics command.
    pub open spec fn unhooked(self) -> AnsiModel {
        if !self.in_apc || self.apc_buf.len() == 0 {
            AnsiModel { in_apc: false, ..self }
        } else {
            let s = self.apc_buf;
            let m = AnsiModel { in_apc: false, apc_buf: Seq::empty(), ..self };
            if !valid_utf8(s) {
                m
            } else if is_graphics_query(s) {
                AnsiModel {
                    pending_responses: self.pending_responses.push(query_response(query_id(s))),
                    ..m
                }
            } else {
                AnsiModel {
                    graphics: self.graphics.handled_apc(s, self.cursor.row, self.cursor.col),
                    ..m
                }
            }
        }
    }

    /// An APC payload taken from the byte stream: a leading `G` is dropped and UTF-8
    /// text is handed to the graphics state at the cursor position.
    pub open spec fn apc_dispatched(self, payload: Seq<u8>) -> AnsiModel {
        let data = if payload.len() > 0 && payload[0] == 71 { payload.drop_first() } else { payload };
        if valid_utf8(data) {
            AnsiModel { graphics: self.graphics.handled_apc(data, self.cursor.row, self.cursor.col), ..self }
        } else {
            self
        }
    }

    pub open spec fn apcs_dispatched(self, payloads: Seq<Seq<u8>>) -> AnsiModel
        decreases payloads.len(),
    {
        if payloads.len() == 0 {
            self
        } else {
            self.apcs_dispatched(payloads.drop_last()).apc_dispatched(payloads.last())
        }
    }
}

/// `n` moves right.
pub open spec fn right_n(c: CursorModel, n: nat) -> CursorModel
    decreases n,
{
    if n == 0 {
        c
    } else {
        right_n(c, (n - 1) as nat).moved_right()
    }
}

/// `n` moves left.
pub open spec fn left_n(c: CursorModel, n: nat) -> CursorModel
    decreases n,
{
    if n == 0 {
        c
    } else {
        left_n(c, (n - 1) as nat).moved_left()
    }
}

/// `n` moves down (without scrolling).
pub open spec fn down_n(c: CursorModel, n: nat) -> CursorModel
    decreases n,
{
    if n == 0 {
        c
    } else {
        down_n(c, (n - 1) as nat).moved_down()
    }
}

/// The string is a graphics capability query: it starts with `a=q` or holds `,a=q`.
pub open spec fn is_graphics_query(s: Seq<u8>) -> bool {
    has_prefix(s, seq![97u8, 61, 113]) || has_infix(s, seq![44u8, 97, 61, 113])
}

/// The first comma separated item that starts with `i=`.
pub open spec fn first_id_item(items: Seq<Seq<u8>>) -> Option<Seq<u8>>
    decreases items.len(),
{
    if items.len() == 0 {
        None
    } else if has_prefix(items[0], seq![105u8, 61]) {
        Some(items[0])
    } else {
        first_id_item(items.drop_first())
    }
}

/// Image id of a query: the number after the first `i=`, else 1.
pub open spec fn query_id(s: Seq<u8>) -> u32 {
    match first_id_item(split_on(s, 44)) {
        Some(item) => match parse_unsigned(item.skip(2), u32::MAX as nat) {
            Some(n) => n as u32,
            None => 1,
        },
        None => 1,
    }
}

/// `ESC _ G i=<id> ; OK ESC \`
pub open spec fn query_response(id: u32) -> Seq<u8> {
    seq![27u8, 95, 71, 105, 61] + decimal(id as nat) + seq![59u8, 79, 75, 27, 92]
}


/// Scan of a byte stream for APC strings (`ESC _ ... ESC \` or `... BEL`) from
/// position `i`: the bytes outside them, and their payloads in order. An APC string
/// without terminator ends the stream.
pub open spec fn apc_scan(data: Seq<u8>, i: int) -> (Seq<u8>, Seq<Seq<u8>>)
    decreases data.len() - i, 1int,
{
    if i < 0 || i >= data.len() {
        (Seq::empty(), Seq::empty())
    } else if i + 1 < data.len() && data[i] == 27 && data[i + 1] == 95 {
        apc_body(data, i + 2, i + 2)
    } else {
        let rest = apc_scan(data, i + 1);
        (seq![data[i]] + rest.0, rest.1)
    }
}

/// Inside an APC string whose payload starts at `start`, looking at position `j`.
pub open spec fn apc_body(data: Seq<u8>, start: int, j: int) -> (Seq<u8>, Seq<Seq<u8>>)
    decreases data.len() - j, 0int,
{
    if j < 0 || j >= data.len() {
        (Seq::empty(), Seq::empty())
    } else if data[j] == 27 && j + 1 < data.len() && data[j + 1] == 92 {
        let rest = apc_scan(data, j + 2);
        (rest.0, seq![data.subrange(start, j)] + rest.1)
    } else if data[j] == 7 {
        let rest = apc_scan(data, j + 1);
        (rest.0, seq![data.subrange(start, j)] + rest.1)
    } else {
        apc_body(data, start, j + 1)
    }
}

/// The interpreter of one terminal: normal and alternate screens, cursors, scroll
/// region, tab stops, replies owed to the application and graphics state.
pub struct AnsiParser {
    parser: vte::Parser,
    pub screen: ScreenBuffer,
    alt_screen: ScreenBuffer,
    pub cursor: Cursor,
    alt_cursor: Cursor,
    tab_stops: Vec<usize>,
    using_alt: bool,
    scroll_top: usize,
    scroll_bottom: usize,
    /// Replies (DA, DSR, CPR, graphics query) to write back to the application.
    pub pending_responses: Vec<Vec<u8>>,
    pub graphics: GraphicsManager,
    apc_buf: Vec<u8>,
    in_apc: bool,
}

impl View for AnsiParser {
    type V = AnsiModel;

    closed spec fn view(&self) -> AnsiModel {
        AnsiModel {
            vte: self.parser,
            screen: self.screen@,
            alt_screen: self.alt_screen@,
            cursor: self.cursor@,
            alt_cursor: self.alt_cursor@,
            tab_stops: self.tab_stops@,
            using_alt: self.using_alt,
            scroll_top: self.scroll_top,
            scroll_bottom: self.scroll_bottom,
            pending_responses: Seq::new(self.pending_responses@.len(), |i: int| self.pending_responses@[i]@),
            graphics: self.graphics@,
            apc_buf: self.apc_buf@,
            in_apc: self.in_apc,
        }
    }
}

/// Tab stops every 8 columns below `cols`.
fn build_tab_stops(cols: usize) -> (v: Vec<usize>)
    requires
        cols <= MAX_COLS,
    ensures
        v@ == default_tab_stops(cols),
{
    let mut v: Vec<usize> = Vec::new();
    let mut i: usize = 0;
    while i < cols
        invariant
            cols <= MAX_COLS,
            i % 8 == 0,
            i <= cols + 7,
            v@.len() == i / 8,
            forall|k: int| 0 <= k < v@.len() ==> #[trigger] v@[k] == k * 8,
        decreases cols + 8 - i,
    {
        v.push(i);
        i = i + 8;
    }
    assert(v@ =~= default_tab_stops(cols));
    v
}

impl AnsiParser {
    pub fn new(rows: usize, cols: usize) -> (p: Self)
        requires
            cols <= MAX_COLS,
        ensures
            p@.wf(),
            p@ == (AnsiModel {
                vte: p@.vte,
                screen: p@.screen,
                alt_screen: p@.alt_screen,
                cursor: fresh_cursor(rows, cols),
                alt_cursor: fresh_cursor(rows, cols),
                tab_stops: default_tab_stops(cols),
                using_alt: false,
                scroll_top: 0,
                scroll_bottom: clamp_index(usize::MAX, rows),
                pending_responses: Seq::empty(),
                graphics: p@.graphics,
                apc_buf: Seq::empty(),
                in_apc: false,
            }),
            p@.screen.lines == blank_lines(rows as nat, cols as nat),
            p@.screen.scrollback.len() == 0,
            p@.screen.rows == rows && p@.screen.cols == cols,
            p@.alt_screen.lines == blank_lines(rows as nat, cols as nat),
            p@.alt_screen.scrollback.len() == 0,
            p@.graphics.placements.len() == 0,
            p@.graphics.pending is None,
            p@.graphics.next_id == 1,
            p@.graphics.jobs.len() == 0,
    {
        let p = AnsiParser {
            parser: vte::Parser::new(),
            screen: ScreenBuffer::new(rows, cols),
            alt_screen: ScreenBuffer::new(rows, cols),
            cursor: Cursor::new(rows, cols),
            alt_cursor: Cursor::new(rows, cols),
            tab_stops: build_tab_stops(cols),
            using_alt: false,
            scroll_top: 0,
            scroll_bottom: rows.saturating_sub(1),
            pending_responses: Vec::new(),
            graphics: GraphicsManager::new(),
            apc_buf: Vec::new(),
            in_apc: false,
        };
        assert(p@.pending_responses =~= Seq::<Seq<u8>>::empty());
        p
    }

    /// The screen currently shown (the alternate one while it is active).
    pub fn screen(&self) -> (s: &ScreenBuffer)
        ensures
            s@ == self@.active(),
    {
        if self.using_alt {
            &self.alt_screen
        } else {
            &self.screen
        }
    }

    /// Mutable access to the screen currently shown.
    pub fn screen_mut(&mut self) -> (s: &mut ScreenBuffer)
        ensures
            s@ == old(self)@.active(),
            final(self)@ == old(self)@.with_active(final(s)@),
    {
        if self.using_alt {
            &mut self.alt_screen
        } else {
            &mut self.screen
        }
    }

    pub fn cursor(&self) -> (c: &Cursor)
        ensures
            c@ == self@.cursor,
    {
        &self.cursor
    }
}


/// A line of blank cells has nothing left after trimming.
proof fn lemma_blank_line_trims_empty(n: nat)
    ensures
        trim_end(blank_line(n)).len() == 0,
    decreases n,
{
    if n > 0 {
        assert(blank_line(n).drop_last() =~= blank_line((n - 1) as nat));
        lemma_blank_line_trims_empty((n - 1) as nat);
    }
}

/// A cleared screen can always be resized.
proof fn lemma_cleared_can_resize(s: ScreenModel, rows: usize, cols: usize)
    ensures
        s.cleared().can_resize(rows, cols),
{
    let c = s.cleared();
    assert forall|i: int| 0 <= i < (c.scrollback + c.lines).len() implies trim_end(
        #[trigger] (c.scrollback + c.lines)[i],
    ).len() == 0 by {
        assert((c.scrollback + c.lines)[i] == blank_line(s.cols as nat));
        lemma_blank_line_trims_empty(s.cols as nat);
    }
}

/// `next_tab_stop` skips stops at or left of `col`.
proof fn lemma_next_tab_stop_skip(stops: Seq<usize>, col: usize, i: int)
    requires
        0 <= i < stops.len(),
        stops[i] <= col,
    ensures
        next_tab_stop(stops.skip(i), col) == next_tab_stop(stops.skip(i + 1), col),
{
    assert(stops.skip(i).drop_first() =~= stops.skip(i + 1));
}

impl AnsiParser {
    /// The screen currently shown, for writing (private twin of `screen_mut`).
    fn active_screen_mut(&mut self) -> (s: &mut ScreenBuffer)
        ensures
            s@ == old(self)@.active(),
            final(self)@ == old(self)@.with_active(final(s)@),
    {
        if self.using_alt {
            &mut self.alt_screen
        } else {
            &mut self.screen
        }
    }

    /// Line feed inside the scroll region (see [`AnsiModel::line_feed`]).
    fn newline(&mut self)
        requires
            old(self)@.wf(),
        ensures
            final(self)@ == old(self)@.line_feed(),
            final(self)@.wf(),
            same_grid(final(self)@, old(self)@),
            final(self)@.graphics == old(self)@.graphics,
    {
        let row = self.cursor.row();
        let st = self.scroll_top;
        let sb = self.scroll_bottom;
        if row >= sb {
            self.active_screen_mut().scroll_region_up(st, sb, 1);
        } else {
            let needs_scroll = self.cursor.move_down();
            if needs_scroll {
                self.active_screen_mut().scroll_up(1);
            }
        }
    }

    /// Reverse index (see [`AnsiModel::reverse_index`]).
    fn index_up(&mut self)
        requires
            old(self)@.wf(),
        ensures
            final(self)@ == old(self)@.reverse_index(),
            final(self)@.wf(),
            same_grid(final(self)@, old(self)@),
            final(self)@.graphics == old(self)@.graphics,
    {
        let row = self.cursor.row();
        let st = self.scroll_top;
        let sb = self.scroll_bottom;
        if row <= st {
            self.active_screen_mut().scroll_region_down(st, sb, 1);
        } else {
            self.cursor.move_up(1);
        }
    }

    fn switch_to_alt(&mut self, save_cursor: bool)
        requires
            old(self)@.wf(),
        ensures
            final(self)@ == old(self)@.to_alt(save_cursor),
            final(self)@.wf(),
            same_grid(final(self)@, old(self)@),
            final(self)@.graphics == old(self)@.graphics,
    {
        if !self.using_alt {
            if save_cursor {
                self.cursor.save_position();
            }
            self.using_alt = true;
            self.alt_screen.clear();
            self.alt_cursor = Cursor::new(self.screen.rows(), self.screen.cols());
        }
    }

    fn switch_to_normal(&mut self, restore_cursor: bool)
        requires
            old(self)@.wf(),
        ensures
            final(self)@ == old(self)@.to_normal(restore_cursor),
            final(self)@.wf(),
            same_grid(final(self)@, old(self)@),
            final(self)@.graphics == old(self)@.graphics,
    {
        if self.using_alt {
            self.using_alt = false;
            if restore_cursor {
                self.cursor.restore_position();
            }
        }
    }

    /// Whether [`AnsiParser::resize`] can take `rows` x `cols` (see
    /// [`ScreenBuffer::can_resize`]).
    pub fn can_resize(&self, rows: usize, cols: usize) -> (b: bool)
        ensures
            b == (self@.screen.can_resize(rows, cols) && cols <= MAX_COLS),
    {
        cols <= MAX_COLS && self.screen.can_resize(rows, cols)
    }

    /// Resizes both screens and cursors; the normal screen keeps (reflows) its
    /// content, the alternate one is cleared; tab stops and scroll region are reset.
    pub fn resize(&mut self, rows: usize, cols: usize)
        requires
            old(self)@.wf(),
            old(self)@.screen.can_resize(rows, cols),
            cols <= MAX_COLS,
        ensures
            final(self)@ == old(self)@.resized(rows, cols),
            final(self)@.wf(),
    {
        self.screen.resize(rows, cols);
        self.alt_screen.clear();
        proof {
            lemma_cleared_can_resize(old(self)@.alt_screen, rows, cols);
        }
        self.alt_screen.resize(rows, cols);
        self.cursor.resize(rows, cols);
        self.alt_cursor.resize(rows, cols);
        self.tab_stops = build_tab_stops(cols);
        self.scroll_top = 0;
        self.scroll_bottom = rows.saturating_sub(1);
    }

    /// Clears the visible screen, homes the cursor and resets the scroll region.
    pub fn clear_active_screen(&mut self)
        requires
            old(self)@.wf(),
        ensures
            final(self)@ == old(self)@.cleared_active(),
            final(self)@.wf(),
            same_grid(final(self)@, old(self)@),
            final(self)@.graphics == old(self)@.graphics,
    {
        self.active_screen_mut().clear_all();
        self.cursor.move_to(0, 0);
        self.scroll_top = 0;
        self.scroll_bottom = self.screen.rows().saturating_sub(1);
    }

    /// Full reset (RIS), see [`AnsiModel::reset_state`].
    pub fn reset(&mut self)
        requires
            old(self)@.wf(),
        ensures
            final(self)@ == old(self)@.reset_state(),
            final(self)@.wf(),
            same_grid(final(self)@, old(self)@),
            final(self)@.graphics == old(self)@.graphics,
    {
        self.screen.clear();
        self.alt_screen.clear();
        self.cursor.reset();
        self.alt_cursor.reset();
        self.using_alt = false;
        let rows = self.screen.rows();
        self.scroll_top = 0;
        self.scroll_bottom = rows.saturating_sub(1);
    }

    /// The first tab stop right of `col`, if any.
    fn find_tab_stop(&self, col: usize) -> (r: Option<usize>)
        ensures
            r == next_tab_stop(self.tab_stops@, col),
    {
        let mut i: usize = 0;
        let ghost stops = self.tab_stops@;
        assert(stops.skip(0) =~= stops);
        while i < self.tab_stops.len()
            invariant
                i <= stops.len(),
                stops == self.tab_stops@,
                next_tab_stop(stops, col) == next_tab_stop(stops.skip(i as int), col),
            decreases stops.len() - i,
        {
            let t = self.tab_stops[i];
            if t > col {
                assert(stops.skip(i as int)[0] == t);
                return Some(t);
            }
            proof {
                lemma_next_tab_stop_skip(stops, col, i as int);
            }
            i = i + 1;
        }
        assert(stops.skip(i as int).len() == 0);
        None
    }

    /// C0 control character (see [`AnsiModel::executed`]).
    pub fn execute(&mut self, byte: u8)
        requires
            old(self)@.wf(),
        ensures
            final(self)@ == old(self)@.executed(byte),
            final(self)@.wf(),
            same_grid(final(self)@, old(self)@),
            final(self)@.graphics == old(self)@.graphics,
    {
        if byte == 10 || byte == 11 || byte == 12 {
            self.newline();
        } else if byte == 13 {
            self.cursor.move_to_col(0);
        } else if byte == 9 {
            let col = self.cursor.col();
            match self.find_tab_stop(col) {
                Some(next) => self.cursor.move_to_col(next),
                None => {
                    let last = self.cursor.max_cols().saturating_sub(1);
                    self.cursor.move_to_col(last);
                },
            }
        } else if byte == 8 {
            self.cursor.move_left();
        }
    }

    /// ESC sequence (see [`AnsiModel::escaped`]).
    pub fn esc_dispatch(&mut self, intermediates: &[u8], _ignore: bool, byte: u8)
        requires
            old(self)@.wf(),
        ensures
            final(self)@ == old(self)@.escaped(intermediates@, byte),
            final(self)@.wf(),
            same_grid(final(self)@, old(self)@),
            final(self)@.graphics == old(self)@.graphics,
    {
        if intermediates.len() != 0 {
            return;
        }
        if byte == 55 {
            self.cursor.save_position();
        } else if byte == 56 {
            self.cursor.restore_position();
        } else if byte == 99 {
            self.reset();
        } else if byte == 68 {
            self.newline();
        } else if byte == 77 {
            self.index_up();
        } else if byte == 69 {
            self.cursor.move_to_col(0);
            self.newline();
        }
    }

    /// Start of a DCS string (see [`AnsiModel::hooked`]).
    pub fn hook(&mut self, _params: &Vec<Vec<u16>>, _intermediates: &[u8], _ignore: bool, action: char)
        ensures
            final(self)@ == old(self)@.hooked(action),
    {
        if action == 'G' {
            self.in_apc = true;
            self.apc_buf.clear();
        } else {
            self.in_apc = false;
        }
    }

    /// One byte of a DCS string.
    pub fn put(&mut self, byte: u8)
        ensures
            final(self)@ == old(self)@.put_byte(byte),
    {
        if self.in_apc {
            self.apc_buf.push(byte);
        }
    }
}

/// The payload of an APC string taken from the byte stream (leading `G` dropped).
pub open spec fn apc_data(payload: Seq<u8>) -> Seq<u8> {
    if payload.len() > 0 && payload[0] == 71 {
        payload.drop_first()
    } else {
        payload
    }
}

/// The two models describe grids of one size.
pub open spec fn same_grid(a: AnsiModel, b: AnsiModel) -> bool {
    &&& a.screen.rows == b.screen.rows
    &&& a.screen.cols == b.screen.cols
}

impl AnsiParser {
    /// Prints `c` at the cursor (see [`AnsiModel::printed`]).
    pub fn print(&mut self, c: char)
        requires
            old(self)@.wf(),
            old(self)@.screen.cols > 0,
        ensures
            final(self)@ == old(self)@.printed(c),
            final(self)@.wf(),
            same_grid(final(self)@, old(self)@),
            final(self)@.graphics == old(self)@.graphics,
    {
        let width: usize = match char_width(c) {
            Some(w) => if w >= 1 { w } else { 1 },
            None => 1,
        };
        let col = self.cursor.col();
        let attrs = self.cursor.attributes();
        let max_col = self.cursor.max_cols();
        if col + width > max_col {
            self.cursor.move_to_col(0);
            self.newline();
        }
        let row = self.cursor.row();
        let col = self.cursor.col();
        self.active_screen_mut().write_char(row, col, c, attrs);
        if width == 2 && col + 1 < max_col {
            self.active_screen_mut().write_char(row, col + 1, '\0', attrs);
        }
        let ghost m3 = self@;
        let mut i: usize = 0;
        while i < width
            invariant
                i <= width,
                m3.wf(),
                m3.cursor.max_cols > 0,
                self@ == m3.with_cursor(right_n(m3.cursor, i as nat)),
                right_n(m3.cursor, i as nat).wf(),
                right_n(m3.cursor, i as nat).max_cols == m3.cursor.max_cols,
                right_n(m3.cursor, i as nat).max_rows == m3.cursor.max_rows,
            decreases width - i,
        {
            self.cursor.move_right();
            i = i + 1;
        }
    }

    /// End of a DCS string (see [`AnsiModel::unhooked`]).
    pub fn unhook(&mut self)
        requires
            old(self)@.graphics.next_id < u32::MAX,
        ensures
            final(self)@ == old(self)@.unhooked(),
            final(self)@.graphics.next_id <= old(self)@.graphics.next_id + 1,
            same_grid(final(self)@, old(self)@),
            final(self)@.screen == old(self)@.screen,
            final(self)@.alt_screen == old(self)@.alt_screen,
            final(self)@.cursor == old(self)@.cursor,
            final(self)@.alt_cursor == old(self)@.alt_cursor,
            final(self)@.scroll_top == old(self)@.scroll_top,
            final(self)@.scroll_bottom == old(self)@.scroll_bottom,
    {
        if !self.in_apc || self.apc_buf.len() == 0 {
            self.in_apc = false;
            return;
        }
        self.in_apc = false;
        let mut buf: Vec<u8> = Vec::new();
        std::mem::swap(&mut buf, &mut self.apc_buf);
        match utf8_str(buf.as_slice()) {
            Some(s) => {
                let bytes = s.as_bytes();
                let query_prefix: [u8; 3] = [97, 61, 113];
                let query_item: [u8; 4] = [44, 97, 61, 113];
                let is_query = starts_with_bytes(bytes, &query_prefix) || contains_bytes(bytes, &query_item);
                if is_query {
                    let id = find_query_id(bytes);
                    let mut resp: Vec<u8> = Vec::new();
                    resp.push(27);
                    resp.push(95);
                    resp.push(71);
                    resp.push(105);
                    resp.push(61);
                    push_decimal(&mut resp, id as u64);
                    resp.push(59);
                    resp.push(79);
                    resp.push(75);
                    resp.push(27);
                    resp.push(92);
                    assert(resp@ =~= query_response(id));
                    let ghost before = self.pending_responses@;
                    self.pending_responses.push(resp);
                    assert(self@.pending_responses =~= old(self)@.pending_responses.push(query_response(id)));
                    return;
                }
                let row = self.cursor.row();
                let col = self.cursor.col();
                self.graphics.handle_apc(s, row, col);
            },
            None => {},
        }
    }
}

/// The id of a graphics query: the number after the first `i=` item, else 1.
fn find_query_id(s: &[u8]) -> (id: u32)
    ensures
        id == query_id(s@),
{
    let items = split_bytes(s, 44);
    let ghost pieces = split_on(s@, 44);
    let id_prefix: [u8; 2] = [105, 61];
    let mut i: usize = 0;
    assert(pieces.skip(0) =~= pieces);
    while i < items.len()
        invariant
            i <= items@.len(),
            items@.len() == pieces.len(),
            pieces == split_on(s@, 44),
            forall|k: int| 0 <= k < items@.len() ==> (#[trigger] items@[k])@ == pieces[k],
            id_prefix@ == seq![105u8, 61],
            first_id_item(pieces) == first_id_item(pieces.skip(i as int)),
        decreases items@.len() - i,
    {
        let item = &items[i];
        if starts_with_bytes(item.as_slice(), &id_prefix) {
            assert(pieces.skip(i as int)[0] == item@);
            let rest = copy_range(item.as_slice(), 2, item.len());
            assert(rest@ =~= item@.skip(2));
            return match parse_unsigned_exec(rest.as_slice(), 0xffff_ffff) {
                Some(n) => n as u32,
                None => 1,
            };
        }
        assert(pieces.skip(i as int).drop_first() =~= pieces.skip(i + 1));
        i = i + 1;
    }
    1
}

/// Each APC string taken from a stream consumes at least two bytes of it.
proof fn lemma_apc_scan_len(data: Seq<u8>, i: int)
    requires
        0 <= i <= data.len(),
    ensures
        apc_scan(data, i).0.len() + 2 * apc_scan(data, i).1.len() <= data.len() - i,
    decreases data.len() - i, 1int,
{
    if i < data.len() {
        if i + 1 < data.len() && data[i] == 27 && data[i + 1] == 95 {
            lemma_apc_body_len(data, i + 2, i + 2);
        } else {
            lemma_apc_scan_len(data, i + 1);
        }
    }
}

proof fn lemma_apc_body_len(data: Seq<u8>, start: int, j: int)
    requires
        2 <= start <= j <= data.len(),
    ensures
        apc_body(data, start, j).0.len() + 2 * apc_body(data, start, j).1.len() <= data.len() - start + 2,
    decreases data.len() - j, 0int,
{
    if j < data.len() {
        if data[j] == 27 && j + 1 < data.len() && data[j + 1] == 92 {
            lemma_apc_scan_len(data, j + 2);
        } else if data[j] == 7 {
            lemma_apc_scan_len(data, j + 1);
        } else {
            lemma_apc_body_len(data, start, j + 1);
        }
    }
}

impl AnsiParser {
    /// Hands the payload of an APC string to the graphics state (see
    /// [`AnsiModel::apc_dispatched`]).
    fn dispatch_apc(&mut self, payload: &[u8])
        requires
            old(self)@.graphics.next_id < u32::MAX,
        ensures
            final(self)@ == old(self)@.apc_dispatched(payload@),
            final(self)@.graphics.next_id <= old(self)@.graphics.next_id + 1,
    {
        let data: Vec<u8> = if payload.len() > 0 && payload[0] == 71 {
            copy_range(payload, 1, payload.len())
        } else {
            copy_range(payload, 0, payload.len())
        };
        assert(data@ =~= apc_data(payload@));
        match utf8_str(data.as_slice()) {
            Some(s) => {
                let row = self.cursor.row();
                let col = self.cursor.col();
                self.graphics.handle_apc(s, row, col);
            },
            None => {},
        }
    }

    /// Handles the APC strings of `data` (see [`apc_scan`]) and returns the other bytes.
    fn extract_apc_sequences(&mut self, data: &[u8]) -> (out: Vec<u8>)
        requires
            old(self)@.graphics.next_id + apc_scan(data@, 0).1.len() < u32::MAX,
        ensures
            out@ == apc_scan(data@, 0).0,
            final(self)@ == old(self)@.apcs_dispatched(apc_scan(data@, 0).1),
            final(self)@.graphics.next_id <= old(self)@.graphics.next_id + apc_scan(data@, 0).1.len(),
    {
        let n = data.len();
        let mut out: Vec<u8> = Vec::new();
        let mut i: usize = 0;
        let ghost all = apc_scan(data@, 0);
        let ghost mut done: Seq<Seq<u8>> = Seq::empty();
        proof {
            lemma_apc_scan_len(data@, 0);
        }
        assert(out@ + apc_scan(data@, 0).0 =~= all.0);
        assert(done + apc_scan(data@, 0).1 =~= all.1);
        while i < n
            invariant
                n == data@.len(),
                i <= n,
                all == apc_scan(data@, 0),
                out@ + apc_scan(data@, i as int).0 == all.0,
                done + apc_scan(data@, i as int).1 == all.1,
                self@ == old(self)@.apcs_dispatched(done),
                self@.graphics.next_id <= old(self)@.graphics.next_id + done.len(),
                out@.len() + 2 * done.len() <= i,
                old(self)@.graphics.next_id + all.1.len() < u32::MAX,
            decreases n - i,
        {
            proof {
                lemma_apc_scan_len(data@, i as int);
            }
            if i + 1 < n && data[i] == 27 && data[i + 1] == 95 {
                let start = i + 2;
                let mut j = start;
                let mut found = false;
                while j < n && !found
                    invariant
                        n == data@.len(),
                        i + 2 == start,
                        start <= j <= n,
                        i < n,
                        !found ==> apc_body(data@, start as int, j as int) == apc_scan(data@, i as int),
                        found ==> i + 3 <= j <= n,
                        found ==> done.len() > 0,
                        all == apc_scan(data@, 0),
                        out@ + apc_scan(data@, i as int).0 == all.0 || found,
                        found ==> out@ + apc_scan(data@, j as int).0 == all.0,
                        found ==> done + apc_scan(data@, j as int).1 == all.1,
                        !found ==> done + apc_scan(data@, i as int).1 == all.1,
                        !found ==> out@ + apc_scan(data@, i as int).0 == all.0,
                        self@ == old(self)@.apcs_dispatched(done),
                        !found ==> self@.graphics.next_id <= old(self)@.graphics.next_id + done.len(),
                        found ==> self@.graphics.next_id <= old(self)@.graphics.next_id + done.len(),
                        !found ==> out@.len() + 2 * done.len() <= i,
                        found ==> out@.len() + 2 * done.len() <= j,
                        old(self)@.graphics.next_id + all.1.len() < u32::MAX,
                    decreases n - j, if found { 0int } else { 1int },
                {
                    if data[j] == 27 && j + 1 < n && data[j + 1] == 92 {
                        let payload = copy_range(data, start, j);
                        proof {
                            lemma_apc_scan_len(data@, 0);
                        }
                        self.dispatch_apc(payload.as_slice());
                        proof {
                            assert((done.push(payload@)).drop_last() =~= done);
                            done = done.push(payload@);
                        }
                        j = j + 2;
                        found = true;
                    } else if data[j] == 7 {
                        let payload = copy_range(data, start, j);
                        self.dispatch_apc(payload.as_slice());
                        proof {
                            assert((done.push(payload@)).drop_last() =~= done);
                            done = done.push(payload@);
                        }
                        j = j + 1;
                        found = true;
                    } else {
                        j = j + 1;
                    }
                }
                i = j;
            } else {
                out.push(data[i]);
                i = i + 1;
            }
        }
        assert(out@ =~= all.0);
        assert(done =~= all.1);
        out
    }
}

/// First value of parameter `i`, if there is one.
pub open spec fn param_at(ps: Seq<Vec<u16>>, i: int) -> Option<u16> {
    if 0 <= i < ps.len() {
        Some(ps[i]@[0])
    } else {
        None
    }
}

/// Parameter `i` as a number, `d` when absent.
pub open spec fn arg_or(ps: Seq<Vec<u16>>, i: int, d: usize) -> usize {
    match param_at(ps, i) {
        Some(v) => v as usize,
        None => d,
    }
}

/// A repeat count: the first parameter, default and minimum 1.
pub open spec fn count_arg(ps: Seq<Vec<u16>>) -> usize {
    let n = arg_or(ps, 0, 1);
    if n >= 1 {
        n
    } else {
        1
    }
}

/// A 1-based position parameter turned 0-based (default 1).
pub open spec fn pos_arg(ps: Seq<Vec<u16>>, i: int) -> usize {
    let v = arg_or(ps, i, 1);
    if v >= 1 {
        (v - 1) as usize
    } else {
        0
    }
}

/// A mode parameter: the first parameter, default 0.
pub open spec fn mode_arg(ps: Seq<Vec<u16>>) -> u16 {
    match param_at(ps, 0) {
        Some(v) => v,
        None => 0,
    }
}

/// One SGR code without sub-arguments applied to `a`.
pub open spec fn sgr_simple(a: CellAttributes, v: u16) -> CellAttributes {
    if v == 0 {
        plain_attrs()
    } else if v == 1 {
        CellAttributes { bold: true, ..a }
    } else if v == 2 || v == 22 {
        CellAttributes { bold: false, ..a }
    } else if v == 3 {
        CellAttributes { italic: true, ..a }
    } else if v == 4 || v == 21 {
        CellAttributes { underline: true, ..a }
    } else if v == 5 {
        CellAttributes { blink: true, ..a }
    } else if v == 7 {
        CellAttributes { inverse: true, ..a }
    } else if v == 9 {
        CellAttributes { strikethrough: true, ..a }
    } else if v == 23 {
        CellAttributes { italic: false, ..a }
    } else if v == 24 {
        CellAttributes { underline: false, ..a }
    } else if v == 25 {
        CellAttributes { blink: false, ..a }
    } else if v == 27 {
        CellAttributes { inverse: false, ..a }
    } else if v == 29 {
        CellAttributes { strikethrough: false, ..a }
    } else if 30 <= v <= 37 {
        CellAttributes { fg_color: Some((v - 30) as u8), ..a }
    } else if v == 39 {
        CellAttributes { fg_color: None, fg_rgb: None, ..a }
    } else if 40 <= v <= 47 {
        CellAttributes { bg_color: Some((v - 40) as u8), ..a }
    } else if v == 49 {
        CellAttributes { bg_color: None, bg_rgb: None, ..a }
    } else if 90 <= v <= 97 {
        CellAttributes { fg_color: Some((v - 90 + 8) as u8), ..a }
    } else if 100 <= v <= 107 {
        CellAttributes { bg_color: Some((v - 100 + 8) as u8), ..a }
    } else {
        a
    }
}

/// A 256-colour index for the foreground (`fg`) or background.
pub open spec fn with_indexed(a: CellAttributes, fg: bool, n: u8) -> CellAttributes {
    if fg {
        CellAttributes { fg_color: Some(n), fg_rgb: None, ..a }
    } else {
        CellAttributes { bg_color: Some(n), bg_rgb: None, ..a }
    }
}

/// A true colour for the foreground (`fg`) or background.
pub open spec fn with_rgb(a: CellAttributes, fg: bool, rgb: [u8; 3]) -> CellAttributes {
    if fg {
        CellAttributes { fg_rgb: Some(rgb), fg_color: None, ..a }
    } else {
        CellAttributes { bg_rgb: Some(rgb), bg_color: None, ..a }
    }
}

/// SGR parameters from index `i` applied to `a`, left to right; `38`/`48` take
/// `5;n` (palette index) or `2;r;g;b` (true colour) from the following parameters,
/// and an incomplete colour ends the sequence.
pub open spec fn sgr(a: CellAttributes, ps: Seq<Vec<u16>>, i: int) -> CellAttributes
    decreases ps.len() - i,
{
    if i < 0 || i >= ps.len() {
        a
    } else {
        let v = ps[i]@[0];
        if v == 38 || v == 48 {
            if i + 1 < ps.len() {
                let mode = ps[i + 1]@[0];
                if mode == 5 {
                    if i + 2 < ps.len() {
                        sgr(with_indexed(a, v == 38, ps[i + 2]@[0] as u8), ps, i + 3)
                    } else {
                        a
                    }
                } else if mode == 2 {
                    if i + 4 < ps.len() {
                        sgr(
                            with_rgb(a, v == 38, [ps[i + 2]@[0] as u8, ps[i + 3]@[0] as u8, ps[i + 4]@[0] as u8]),
                            ps,
                            i + 5,
                        )
                    } else {
                        a
                    }
                } else {
                    sgr(a, ps, i + 2)
                }
            } else {
                a
            }
        } else {
            sgr(sgr_simple(a, v), ps, i + 1)
        }
    }
}

/// The cells `from..to` of line `row` blanked one by one (nothing happens off the grid).
pub open spec fn blanked_span(s: ScreenModel, row: usize, from: usize, to: usize) -> ScreenModel {
    if row < s.rows && from < to {
        ScreenModel { lines: cleared_cells(s.lines, row as int, from as int, to as int), dirty: true, ..s }
    } else {
        s
    }
}

/// Deleting `n` characters at (`row`, `col`) (DCH): the rest of the line moves left
/// and the last `n` columns are blanked (all of them when `n` reaches the width).
pub open spec fn chars_deleted(s: ScreenModel, row: usize, col: usize, n: usize) -> ScreenModel {
    let cols = s.cols;
    let st: int = if cols >= n { cols - n } else { 0 };
    if row < s.rows && cols > 0 {
        ScreenModel {
            lines: s.lines.update(
                row as int,
                Seq::new(
                    cols as nat,
                    |k: int|
                        if k >= st {
                            blank_cell()
                        } else if k >= col {
                            s.lines[row as int][k + n]
                        } else {
                            s.lines[row as int][k]
                        },
                ),
            ),
            dirty: true,
            ..s
        }
    } else {
        s
    }
}

/// Inserting `n` blank characters at (`row`, `col`) (ICH): the rest of the line moves
/// right, cells pushed past the last column are lost.
pub open spec fn chars_inserted(s: ScreenModel, row: usize, col: usize, n: usize) -> ScreenModel {
    let cols = s.cols;
    let e: int = if col + n < cols { col + n } else { cols as int };
    if row < s.rows && col < cols {
        ScreenModel {
            lines: s.lines.update(
                row as int,
                Seq::new(
                    cols as nat,
                    |k: int|
                        if k < col {
                            s.lines[row as int][k]
                        } else if k < e {
                            blank_cell()
                        } else {
                            s.lines[row as int][k - n]
                        },
                ),
            ),
            dirty: true,
            ..s
        }
    } else {
        s
    }
}

/// `ESC [ 0 n`
pub open spec fn status_ok_reply() -> Seq<u8> {
    seq![27u8, 91, 48, 110]
}

/// `ESC [ <row> ; <col> R`, 1-based.
pub open spec fn cursor_report(row: usize, col: usize) -> Seq<u8> {
    seq![27u8, 91] + decimal((row + 1) as nat) + seq![59u8] + decimal((col + 1) as nat) + seq![82u8]
}

/// `ESC [ > 61 ; 20 ; 1 c`
pub open spec fn secondary_da_reply() -> Seq<u8> {
    seq![27u8, 91, 62, 54, 49, 59, 50, 48, 59, 49, 99]
}

/// `ESC [ ? 1 ; 2 c`
pub open spec fn primary_da_reply() -> Seq<u8> {
    seq![27u8, 91, 63, 49, 59, 50, 99]
}

impl AnsiModel {
    pub open spec fn with_reply(self, r: Seq<u8>) -> AnsiModel {
        AnsiModel { pending_responses: self.pending_responses.push(r), ..self }
    }

    /// DEC private modes from parameter `i` on, set (`on`) or reset: 25 cursor
    /// visibility, 47/1047 alternate screen, 1049 alternate screen with saved cursor.
    pub open spec fn dec_modes(self, ps: Seq<Vec<u16>>, i: int, on: bool) -> AnsiModel
        decreases ps.len() - i,
    {
        if i < 0 || i >= ps.len() {
            self
        } else {
            let v = ps[i]@[0];
            let m = if v == 25 {
                self.with_cursor(self.cursor.with_visible(on))
            } else if v == 47 || v == 1047 {
                if on {
                    self.to_alt(false)
                } else {
                    self.to_normal(false)
                }
            } else if v == 1049 {
                if on {
                    self.to_alt(true)
                } else {
                    self.to_normal(true)
                }
            } else {
                self
            };
            m.dec_modes(ps, i + 1, on)
        }
    }

    /// A CSI control sequence with parameters `ps`, intermediates `inter` and final
    /// character `action`; unknown sequences change nothing.
    pub open spec fn csi_applied(self, ps: Seq<Vec<u16>>, inter: Seq<u8>, action: char) -> AnsiModel {
        let cur = self.cursor;
        let n = count_arg(ps);
        let scr = self.active();
        if action == 'H' || action == 'f' {
            self.with_cursor(cur.moved_to(pos_arg(ps, 0), pos_arg(ps, 1)))
        } else if action == 'A' {
            self.with_cursor(cur.moved_up(n))
        } else if action == 'B' {
            self.with_cursor(down_n(cur, n as nat))
        } else if action == 'C' {
            self.with_cursor(right_n(cur, n as nat))
        } else if action == 'D' {
            self.with_cursor(left_n(cur, n as nat))
        } else if action == 'E' {
            let m = self.line_feeds(n as nat);
            m.with_cursor(m.cursor.moved_to_col(0))
        } else if action == 'F' {
            self.with_cursor(cur.moved_up(n).moved_to_col(0))
        } else if action == 'G' {
            self.with_cursor(cur.moved_to_col(pos_arg(ps, 0)))
        } else if action == 'd' {
            self.with_cursor(cur.moved_to_row(pos_arg(ps, 0)))
        } else if action == 'J' {
            let mode = mode_arg(ps);
            if mode == 0 {
                self.with_active(scr.erased_below(cur.row, cur.col))
            } else if mode == 1 {
                self.with_active(scr.erased_above(cur.row, cur.col))
            } else if mode == 2 || mode == 3 {
                self.with_active(scr.cleared_all())
            } else {
                self
            }
        } else if action == 'K' {
            let mode = mode_arg(ps);
            if mode == 0 {
                self.with_active(scr.erased_cells(cur.row, cur.col as int, scr.cols as int))
            } else if mode == 1 {
                self.with_active(scr.erased_cells(cur.row, 0, cur.col + 1))
            } else if mode == 2 {
                self.with_active(scr.erased_cells(cur.row, 0, scr.cols as int))
            } else {
                self
            }
        } else if action == 'X' {
            let end: usize = if cur.col + n < scr.cols { (cur.col + n) as usize } else { scr.cols };
            self.with_active(blanked_span(scr, cur.row, cur.col, end))
        } else if action == 'S' || action == 'M' {
            self.with_active(scr.region_up(self.scroll_top, self.scroll_bottom, n as nat))
        } else if action == 'T' || action == 'L' {
            self.with_active(scr.region_down(self.scroll_top, self.scroll_bottom, n as nat))
        } else if action == 'r' {
            let rows = self.screen.rows;
            let b = arg_or(ps, 1, rows);
            let bot: usize = if b >= 1 { (b - 1) as usize } else { 0 };
            AnsiModel {
                scroll_top: clamp_index(pos_arg(ps, 0), rows),
                scroll_bottom: clamp_index(bot, rows),
                cursor: cur.moved_to(0, 0),
                ..self
            }
        } else if action == 'P' {
            self.with_active(chars_deleted(scr, cur.row, cur.col, n))
        } else if action == '@' {
            self.with_active(chars_inserted(scr, cur.row, cur.col, n))
        } else if action == 'm' {
            self.with_cursor(
                cur.with_attributes(if ps.len() == 0 { plain_attrs() } else { sgr(cur.attributes, ps, 0) }),
            )
        } else if (action == 'h' || action == 'l') && inter == seq![63u8] {
            self.dec_modes(ps, 0, action == 'h')
        } else if action == 's' && inter.len() == 0 {
            self.with_cursor(cur.saved())
        } else if action == 'u' && inter.len() == 0 {
            self.with_cursor(cur.restored())
        } else if action == 'n' && inter.len() == 0 {
            let code = mode_arg(ps);
            if code == 5 {
                self.with_reply(status_ok_reply())
            } else if code == 6 {
                self.with_reply(cursor_report(cur.row, cur.col))
            } else {
                self
            }
        } else if action == 'c' {
            if inter == seq![62u8] {
                self.with_reply(secondary_da_reply())
            } else {
                self.with_reply(primary_da_reply())
            }
        } else {
            self
        }
    }
}

/// One SGR code without sub-arguments applied to `a` (see [`sgr_simple`]).
fn apply_sgr_code(a: CellAttributes, v: u16) -> (r: CellAttributes)
    ensures
        r == sgr_simple(a, v),
{
    let mut r = a;
    if v == 0 {
        r = CellAttributes::default();
    } else if v == 1 {
        r.bold = true;
    } else if v == 2 || v == 22 {
        r.bold = false;
    } else if v == 3 {
        r.italic = true;
    } else if v == 4 || v == 21 {
        r.underline = true;
    } else if v == 5 {
        r.blink = true;
    } else if v == 7 {
        r.inverse = true;
    } else if v == 9 {
        r.strikethrough = true;
    } else if v == 23 {
        r.italic = false;
    } else if v == 24 {
        r.underline = false;
    } else if v == 25 {
        r.blink = false;
    } else if v == 27 {
        r.inverse = false;
    } else if v == 29 {
        r.strikethrough = false;
    } else if 30 <= v && v <= 37 {
        r.fg_color = Some((v - 30) as u8);
    } else if v == 39 {
        r.fg_color = None;
        r.fg_rgb = None;
    } else if 40 <= v && v <= 47 {
        r.bg_color = Some((v - 40) as u8);
    } else if v == 49 {
        r.bg_color = None;
        r.bg_rgb = None;
    } else if 90 <= v && v <= 97 {
        r.fg_color = Some((v - 90 + 8) as u8);
    } else if 100 <= v && v <= 107 {
        r.bg_color = Some((v - 100 + 8) as u8);
    }
    r
}

/// The attributes after an SGR sequence (see [`sgr`]).
fn sgr_attributes(attrs: CellAttributes, ps: &Vec<Vec<u16>>) -> (r: CellAttributes)
    requires
        params_ok(ps@),
    ensures
        r == sgr(attrs, ps@, 0),
{
    let mut a = attrs;
    let mut i: usize = 0;
    let len = ps.len();
    while i < len
        invariant
            len == ps@.len(),
            i <= len,
            params_ok(ps@),
            sgr(a, ps@, i as int) == sgr(attrs, ps@, 0),
        decreases len - i,
    {
        assert(ps@[i as int]@.len() > 0);
        let v = ps[i][0];
        if v == 38 || v == 48 {
            if i + 1 < len {
                assert(ps@[i + 1]@.len() > 0);
                let mode = ps[i + 1][0];
                if mode == 5 {
                    if i + 2 < len {
                        assert(ps@[i + 2]@.len() > 0);
                        let idx = #[verifier::truncate] (ps[i + 2][0] as u8);
                        if v == 38 {
                            a.fg_color = Some(idx);
                            a.fg_rgb = None;
                        } else {
                            a.bg_color = Some(idx);
                            a.bg_rgb = None;
                        }
                        i = i + 3;
                    } else {
                        i = len;
                    }
                } else if mode == 2 {
                    if len - i > 4 {
                        assert(ps@[i + 2]@.len() > 0);
                        assert(ps@[i + 3]@.len() > 0);
                        assert(ps@[i + 4]@.len() > 0);
                        let rgb: [u8; 3] = [
                            #[verifier::truncate] (ps[i + 2][0] as u8),
                            #[verifier::truncate] (ps[i + 3][0] as u8),
                            #[verifier::truncate] (ps[i + 4][0] as u8),
                        ];
                        if v == 38 {
                            a.fg_rgb = Some(rgb);
                            a.fg_color = None;
                        } else {
                            a.bg_rgb = Some(rgb);
                            a.bg_color = None;
                        }
                        i = i + 5;
                    } else {
                        i = len;
                    }
                } else {
                    i = i + 2;
                }
            } else {
                i = len;
            }
        } else {
            a = apply_sgr_code(a, v);
            i = i + 1;
        }
    }
    a
}

/// Blanks the cells `from..to` of line `row` one by one (see [`blanked_span`]).
fn blank_span(s: &mut ScreenBuffer, row: usize, from: usize, to: usize)
    requires
        old(s)@.wf(),
        to <= old(s)@.cols,
    ensures
        final(s)@ == blanked_span(old(s)@, row, from, to),
        final(s)@.wf(),
{
    let mut c = from;
    while c < to
        invariant
            from <= c,
            c <= to || c == from,
            to <= old(s)@.cols,
            old(s)@.wf(),
            s@.wf(),
            s@ == blanked_span(old(s)@, row, from, c),
        decreases to - c,
    {
        let ghost prev = s@;
        s.write_char(row, c, ' ', CellAttributes::default());
        proof {
            if row < old(s)@.rows {
                assert(s@.lines[row as int] =~= blank_range(old(s)@.lines[row as int], from as int, c + 1));
                assert(s@.lines =~= cleared_cells(old(s)@.lines, row as int, from as int, c + 1));
            }
        }
        c = c + 1;
    }
    proof {
        if !(from < to) {
            assert(s@ == blanked_span(old(s)@, row, from, to));
        }
    }
}

/// Deletes `n` characters at (`row`, `col`) (see [`chars_deleted`]).
fn delete_chars(s: &mut ScreenBuffer, row: usize, col: usize, n: usize)
    requires
        old(s)@.wf(),
        n >= 1,
    ensures
        final(s)@ == chars_deleted(old(s)@, row, col, n),
        final(s)@.wf(),
{
    if row >= s.rows() || s.cols() == 0 {
        return;
    }
    let cols = s.cols();
    let st = cols.saturating_sub(n);
    let ghost line0 = old(s)@.lines[row as int];
    let mut c = col;
    assert(Seq::new(cols as nat, |k: int| if col <= k < c { line0[k + n] } else { line0[k] }) =~= line0);
    assert(old(s)@.lines.update(
        row as int,
        Seq::new(cols as nat, |k: int| if col <= k < c { line0[k + n] } else { line0[k] }),
    ) =~= old(s)@.lines);
    while c < st
        invariant
            col <= c,
            c <= st || c == col,
            st <= cols,
            cols == old(s)@.cols,
            st == (if cols >= n { cols - n } else { 0 }),
            row < old(s)@.rows,
            old(s)@.wf(),
            s@.wf(),
            line0 == old(s)@.lines[row as int],
            s@ == (ScreenModel {
                lines: old(s)@.lines.update(
                    row as int,
                    Seq::new(cols as nat, |k: int| if col <= k < c { line0[k + n] } else { line0[k] }),
                ),
                dirty: if c > col { true } else { old(s)@.dirty },
                ..old(s)@
            }),
        decreases st - c,
    {
        match s.cell(row, c + n) {
            Some(cell) => {
                let ch = cell.c;
                let at = cell.attrs;
                s.write_char(row, c, ch, at);
            },
            None => {},
        }
        c = c + 1;
        assert(s@.lines[row as int] =~= Seq::new(
            cols as nat,
            |k: int| if col <= k < c { line0[k + n] } else { line0[k] },
        ));
        assert(s@.lines =~= old(s)@.lines.update(
            row as int,
            Seq::new(cols as nat, |k: int| if col <= k < c { line0[k + n] } else { line0[k] }),
        ));
    }
    let ghost mid = s@;
    blank_span(s, row, st, cols);
    assert(s@.lines =~= chars_deleted(old(s)@, row, col, n).lines) by {
        assert(s@.lines[row as int] =~= chars_deleted(old(s)@, row, col, n).lines[row as int]);
    }
}

/// Inserts `n` blank characters at (`row`, `col`) (see [`chars_inserted`]).
fn insert_chars(s: &mut ScreenBuffer, row: usize, col: usize, n: usize)
    requires
        old(s)@.wf(),
        n >= 1,
    ensures
        final(s)@ == chars_inserted(old(s)@, row, col, n),
        final(s)@.wf(),
{
    if row >= s.rows() || col >= s.cols() {
        return;
    }
    let cols = s.cols();
    let st = cols.saturating_sub(n);
    let ghost line0 = old(s)@.lines[row as int];
    let mut c = st;
    assert(Seq::new(cols as nat, |k: int| if c + n <= k < st + n { line0[k - n] } else { line0[k] }) =~= line0);
    assert(old(s)@.lines.update(
        row as int,
        Seq::new(cols as nat, |k: int| if c + n <= k < st + n { line0[k - n] } else { line0[k] }),
    ) =~= old(s)@.lines);
    while c > col
        invariant
            col <= c || c == st,
            c <= st,
            st <= cols,
            cols == old(s)@.cols,
            st == (if cols >= n { cols - n } else { 0 }),
            row < old(s)@.rows,
            old(s)@.wf(),
            s@.wf(),
            line0 == old(s)@.lines[row as int],
            s@ == (ScreenModel {
                lines: old(s)@.lines.update(
                    row as int,
                    Seq::new(cols as nat, |k: int| if c + n <= k < st + n { line0[k - n] } else { line0[k] }),
                ),
                dirty: if c < st { true } else { old(s)@.dirty },
                ..old(s)@
            }),
        decreases c,
    {
        c = c - 1;
        match s.cell(row, c) {
            Some(cell) => {
                let ch = cell.c;
                let at = cell.attrs;
                s.write_char(row, c + n, ch, at);
            },
            None => {},
        }
        assert(s@.lines[row as int] =~= Seq::new(
            cols as nat,
            |k: int| if c + n <= k < st + n { line0[k - n] } else { line0[k] },
        ));
        assert(s@.lines =~= old(s)@.lines.update(
            row as int,
            Seq::new(cols as nat, |k: int| if c + n <= k < st + n { line0[k - n] } else { line0[k] }),
        ));
    }
    let end = if n < cols - col { col + n } else { cols };
    blank_span(s, row, col, end);
    assert(s@.lines =~= chars_inserted(old(s)@, row, col, n).lines) by {
        assert(s@.lines[row as int] =~= chars_inserted(old(s)@, row, col, n).lines[row as int]);
    }
}

/// First value of parameter `i`, if there is one.
fn param_value(ps: &Vec<Vec<u16>>, i: usize) -> (r: Option<u16>)
    requires
        params_ok(ps@),
    ensures
        r == param_at(ps@, i as int),
{
    if i < ps.len() {
        assert(ps@[i as int]@.len() > 0);
        Some(ps[i][0])
    } else {
        None
    }
}

/// Parameter `i` as a number, `d` when absent.
fn arg_value(ps: &Vec<Vec<u16>>, i: usize, d: usize) -> (r: usize)
    requires
        params_ok(ps@),
    ensures
        r == arg_or(ps@, i as int, d),
{
    match param_value(ps, i) {
        Some(v) => v as usize,
        None => d,
    }
}

/// The intermediates are exactly the one byte `b`.
fn is_single(inter: &[u8], b: u8) -> (r: bool)
    ensures
        r == (inter@ == seq![b]),
{
    if inter.len() == 1 && inter[0] == b {
        assert(inter@ =~= seq![b]);
        true
    } else {
        assert(inter@.len() != 1 ==> inter@ != seq![b]);
        assert(inter@.len() == 1 ==> inter@[0] != b ==> inter@ != seq![b]) by {
            if inter@.len() == 1 && inter@[0] != b {
                assert(seq![b][0] == b);
            }
        }
        false
    }
}

impl AnsiParser {
    /// DEC private modes set or reset (see [`AnsiModel::dec_modes`]).
    fn dec_private_modes(&mut self, ps: &Vec<Vec<u16>>, on: bool)
        requires
            old(self)@.wf(),
            params_ok(ps@),
        ensures
            final(self)@ == old(self)@.dec_modes(ps@, 0, on),
            final(self)@.wf(),
            same_grid(final(self)@, old(self)@),
            final(self)@.graphics == old(self)@.graphics,
    {
        let mut i: usize = 0;
        let len = ps.len();
        while i < len
            invariant
                len == ps@.len(),
                i <= len,
                params_ok(ps@),
                self@.wf(),
                same_grid(self@, old(self)@),
                self@.graphics == old(self)@.graphics,
                self@.dec_modes(ps@, i as int, on) == old(self)@.dec_modes(ps@, 0, on),
            decreases len - i,
        {
            assert(ps@[i as int]@.len() > 0);
            let v = ps[i][0];
            if v == 25 {
                self.cursor.set_visible(on);
            } else if v == 47 || v == 1047 {
                if on {
                    self.switch_to_alt(false);
                } else {
                    self.switch_to_normal(false);
                }
            } else if v == 1049 {
                if on {
                    self.switch_to_alt(true);
                } else {
                    self.switch_to_normal(true);
                }
            }
            i = i + 1;
        }
    }

    /// `n` line feeds (see [`AnsiModel::line_feeds`]).
    fn newlines(&mut self, n: usize)
        requires
            old(self)@.wf(),
        ensures
            final(self)@ == old(self)@.line_feeds(n as nat),
            final(self)@.wf(),
            same_grid(final(self)@, old(self)@),
            final(self)@.graphics == old(self)@.graphics,
    {
        let mut i: usize = 0;
        while i < n
            invariant
                i <= n,
                self@.wf(),
                same_grid(self@, old(self)@),
                self@.graphics == old(self)@.graphics,
                self@ == old(self)@.line_feeds(i as nat),
            decreases n - i,
        {
            self.newline();
            i = i + 1;
        }
    }

    /// CSI sequences that move the cursor (`H f A B C D E F G d`).
    fn csi_cursor(&mut self, ps: &Vec<Vec<u16>>, inter: &[u8], action: char)
        requires
            old(self)@.wf(),
            old(self)@.screen.cols > 0 || action != 'C',
            params_ok(ps@),
            action == 'H' || action == 'f' || action == 'A' || action == 'B' || action == 'C'
                || action == 'D' || action == 'E' || action == 'F' || action == 'G' || action == 'd',
        ensures
            final(self)@ == old(self)@.csi_applied(ps@, inter@, action),
            final(self)@.wf(),
            same_grid(final(self)@, old(self)@),
            final(self)@.graphics == old(self)@.graphics,
    {
        let first = arg_value(ps, 0, 1);
        let n = if first >= 1 { first } else { 1 };
        let p0 = first.saturating_sub(1);
        proof {
            let c = old(self)@.cursor;
            law_cursor_stays_on_grid(c, p0, 0, n, 0, 0);
            law_cursor_stays_on_grid(c.moved_up(n), 0, 0, n, 0, 0);
        }
        if action == 'H' || action == 'f' {
            let p1 = arg_value(ps, 1, 1).saturating_sub(1);
            proof {
                law_cursor_stays_on_grid(old(self)@.cursor, p0, p1, n, 0, 0);
            }
            self.cursor.move_to(p0, p1);
        } else if action == 'A' {
            self.cursor.move_up(n);
        } else if action == 'B' {
            let mut i: usize = 0;
            let ghost c0 = self.cursor@;
            while i < n
                invariant
                    i <= n,
                    self@ == old(self)@.with_cursor(down_n(c0, i as nat)),
                    c0 == old(self)@.cursor,
                decreases n - i,
            {
                self.cursor.move_down();
                i = i + 1;
            }
            proof {
                lemma_down_n_wf(c0, n as nat);
            }
        } else if action == 'C' {
            let mut i: usize = 0;
            let ghost c0 = self.cursor@;
            while i < n
                invariant
                    i <= n,
                    c0.max_cols > 0,
                    self@ == old(self)@.with_cursor(right_n(c0, i as nat)),
                    c0 == old(self)@.cursor,
                decreases n - i,
            {
                proof {
                    lemma_right_n_size(c0, i as nat);
                }
                self.cursor.move_right();
                i = i + 1;
            }
            proof {
                lemma_right_n_wf(c0, n as nat);
            }
        } else if action == 'D' {
            let mut i: usize = 0;
            let ghost c0 = self.cursor@;
            while i < n
                invariant
                    i <= n,
                    self@ == old(self)@.with_cursor(left_n(c0, i as nat)),
                    c0 == old(self)@.cursor,
                decreases n - i,
            {
                self.cursor.move_left();
                i = i + 1;
            }
            proof {
                lemma_left_n_wf(c0, n as nat);
            }
        } else if action == 'E' {
            self.newlines(n);
            proof {
                law_cursor_stays_on_grid(self@.cursor, 0, 0, n, 0, 0);
            }
            self.cursor.move_to_col(0);
        } else if action == 'F' {
            self.cursor.move_up(n);
            self.cursor.move_to_col(0);
        } else if action == 'G' {
            self.cursor.move_to_col(p0);
        } else {
            self.cursor.move_to_row(p0);
        }
    }
}

proof fn lemma_down_n_wf(c: CursorModel, n: nat)
    requires
        c.wf(),
    ensures
        down_n(c, n).wf(),
        down_n(c, n).max_rows == c.max_rows,
        down_n(c, n).max_cols == c.max_cols,
    decreases n,
{
    if n > 0 {
        lemma_down_n_wf(c, (n - 1) as nat);
    }
}

proof fn lemma_left_n_wf(c: CursorModel, n: nat)
    requires
        c.wf(),
    ensures
        left_n(c, n).wf(),
        left_n(c, n).max_rows == c.max_rows,
        left_n(c, n).max_cols == c.max_cols,
    decreases n,
{
    if n > 0 {
        lemma_left_n_wf(c, (n - 1) as nat);
    }
}

proof fn lemma_right_n_size(c: CursorModel, n: nat)
    ensures
        right_n(c, n).max_rows == c.max_rows,
        right_n(c, n).max_cols == c.max_cols,
    decreases n,
{
    if n > 0 {
        lemma_right_n_size(c, (n - 1) as nat);
    }
}

proof fn lemma_right_n_wf(c: CursorModel, n: nat)
    requires
        c.wf(),
        c.max_cols > 0,
    ensures
        right_n(c, n).wf(),
        right_n(c, n).max_rows == c.max_rows,
        right_n(c, n).max_cols == c.max_cols,
    decreases n,
{
    lemma_right_n_size(c, n);
    if n > 0 {
        lemma_right_n_wf(c, (n - 1) as nat);
        lemma_right_n_size(c, (n - 1) as nat);
    }
}

impl AnsiParser {
    /// CSI sequences that edit the screen (`J K X S T L M P @`) or set the scroll
    /// region (`r`).
    fn csi_edit(&mut self, ps: &Vec<Vec<u16>>, inter: &[u8], action: char)
        requires
            old(self)@.wf(),
            params_ok(ps@),
            action == 'J' || action == 'K' || action == 'X' || action == 'S' || action == 'T'
                || action == 'L' || action == 'M' || action == 'P' || action == '@' || action == 'r',
        ensures
            final(self)@ == old(self)@.csi_applied(ps@, inter@, action),
            final(self)@.wf(),
            same_grid(final(self)@, old(self)@),
            final(self)@.graphics == old(self)@.graphics,
    {
        let first = arg_value(ps, 0, 1);
        let n = if first >= 1 { first } else { 1 };
        let mode: u16 = match param_value(ps, 0) {
            Some(v) => v,
            None => 0,
        };
        let row = self.cursor.row();
        let col = self.cursor.col();
        let st = self.scroll_top;
        let sb = self.scroll_bottom;
        if action == 'J' {
            if mode == 0 {
                self.active_screen_mut().clear_from_cursor(row, col);
            } else if mode == 1 {
                self.active_screen_mut().clear_to_cursor(row, col);
            } else if mode == 2 || mode == 3 {
                self.active_screen_mut().clear_all();
            }
        } else if action == 'K' {
            if mode == 0 {
                self.active_screen_mut().clear_line_from_cursor(row, col);
            } else if mode == 1 {
                self.active_screen_mut().clear_line_to_cursor(row, col);
            } else if mode == 2 {
                self.active_screen_mut().clear_line(row);
            }
        } else if action == 'X' {
            let cols = self.active_screen_mut().cols();
            let end = if n < cols - col { col + n } else { cols };
            blank_span(self.active_screen_mut(), row, col, end);
        } else if action == 'S' || action == 'M' {
            self.active_screen_mut().scroll_region_up(st, sb, n);
        } else if action == 'T' || action == 'L' {
            self.active_screen_mut().scroll_region_down(st, sb, n);
        } else if action == 'r' {
            let rows = self.screen.rows();
            let top = first.saturating_sub(1);
            let bot = arg_value(ps, 1, rows).saturating_sub(1);
            self.scroll_top = top.min(rows.saturating_sub(1));
            self.scroll_bottom = bot.min(rows.saturating_sub(1));
            proof {
                law_cursor_stays_on_grid(old(self)@.cursor, 0, 0, n, 0, 0);
            }
            self.cursor.move_to(0, 0);
        } else if action == 'P' {
            delete_chars(self.active_screen_mut(), row, col, n);
        } else {
            insert_chars(self.active_screen_mut(), row, col, n);
        }
    }

    /// Pushes a reply for the application.
    fn reply(&mut self, r: Vec<u8>)
        ensures
            final(self)@ == old(self)@.with_reply(r@),
    {
        self.pending_responses.push(r);
        assert(self@.pending_responses =~= old(self)@.pending_responses.push(r@));
    }

    /// CSI sequences for attributes, modes, saved cursor and reports (`m h l s u n c`).
    fn csi_mode(&mut self, ps: &Vec<Vec<u16>>, inter: &[u8], action: char)
        requires
            old(self)@.wf(),
            params_ok(ps@),
            !(action == 'H' || action == 'f' || action == 'A' || action == 'B' || action == 'C'
                || action == 'D' || action == 'E' || action == 'F' || action == 'G' || action == 'd'),
            !(action == 'J' || action == 'K' || action == 'X' || action == 'S' || action == 'T'
                || action == 'L' || action == 'M' || action == 'P' || action == '@' || action == 'r'),
        ensures
            final(self)@ == old(self)@.csi_applied(ps@, inter@, action),
            final(self)@.wf(),
            same_grid(final(self)@, old(self)@),
            final(self)@.graphics == old(self)@.graphics,
    {
        if action == 'm' {
            let attrs = if ps.len() == 0 {
                CellAttributes::default()
            } else {
                sgr_attributes(self.cursor.attributes(), ps)
            };
            self.cursor.set_attributes(attrs);
        } else if (action == 'h' || action == 'l') && is_single(inter, 63) {
            self.dec_private_modes(ps, action == 'h');
        } else if action == 's' && inter.len() == 0 {
            self.cursor.save_position();
        } else if action == 'u' && inter.len() == 0 {
            proof {
                law_cursor_stays_on_grid(old(self)@.cursor, 0, 0, 0, 0, 0);
            }
            self.cursor.restore_position();
        } else if action == 'n' && inter.len() == 0 {
            let code: u16 = match param_value(ps, 0) {
                Some(v) => v,
                None => 0,
            };
            if code == 5 {
                let mut r: Vec<u8> = Vec::new();
                r.push(27);
                r.push(91);
                r.push(48);
                r.push(110);
                assert(r@ =~= status_ok_reply());
                self.reply(r);
            } else if code == 6 {
                let row = self.cursor.row();
                let col = self.cursor.col();
                let mut r: Vec<u8> = Vec::new();
                r.push(27);
                r.push(91);
                push_decimal(&mut r, (row + 1) as u64);
                r.push(59);
                push_decimal(&mut r, (col + 1) as u64);
                r.push(82);
                assert(r@ =~= cursor_report(row, col));
                self.reply(r);
            }
        } else if action == 'c' {
            if is_single(inter, 62) {
                let mut r: Vec<u8> = Vec::new();
                r.push(27);
                r.push(91);
                r.push(62);
                r.push(54);
                r.push(49);
                r.push(59);
                r.push(50);
                r.push(48);
                r.push(59);
                r.push(49);
                r.push(99);
                assert(r@ =~= secondary_da_reply());
                self.reply(r);
            } else {
                let mut r: Vec<u8> = Vec::new();
                r.push(27);
                r.push(91);
                r.push(63);
                r.push(49);
                r.push(59);
                r.push(50);
                r.push(99);
                assert(r@ =~= primary_da_reply());
                self.reply(r);
            }
        }
    }

    /// A CSI control sequence (see [`AnsiModel::csi_applied`]).
    pub fn csi_dispatch(&mut self, params: &Vec<Vec<u16>>, intermediates: &[u8], _ignore: bool, action: char)
        requires
            old(self)@.wf(),
            old(self)@.screen.cols > 0 || action != 'C',
            params_ok(params@),
        ensures
            final(self)@ == old(self)@.csi_applied(params@, intermediates@, action),
            final(self)@.wf(),
            same_grid(final(self)@, old(self)@),
            final(self)@.graphics == old(self)@.graphics,
    {
        if action == 'H' || action == 'f' || action == 'A' || action == 'B' || action == 'C' || action == 'D'
            || action == 'E' || action == 'F' || action == 'G' || action == 'd' {
            self.csi_cursor(params, intermediates, action);
        } else if action == 'J' || action == 'K' || action == 'X' || action == 'S' || action == 'T'
            || action == 'L' || action == 'M' || action == 'P' || action == '@' || action == 'r' {
            self.csi_edit(params, intermediates, action);
        } else {
            self.csi_mode(params, intermediates, action);
        }
    }
}

/// The event moves the cursor right: a printed character or CUF (`CSI C`). On a
/// grid without columns there is no last column to stop at, so such an event is
/// only interpreted on a grid with columns.
pub open spec fn moves_right(e: VtEvent) -> bool {
    match e {
        VtEvent::Print(_) => true,
        VtEvent::Csi { action, .. } => action == 'C',
        _ => false,
    }
}

/// No event of `evs` moves the cursor right.
pub open spec fn no_right_moves(evs: Seq<VtEvent>) -> bool {
    forall|i: int| 0 <= i < evs.len() ==> !moves_right(#[trigger] evs[i])
}

/// Feeding `bytes` to `m` can be interpreted: there are no bytes, the grid has
/// columns, or `vte` makes no event from them that moves the cursor right.
pub open spec fn interpretable(m: AnsiModel, bytes: Seq<u8>) -> bool {
    bytes.len() == 0 || m.screen.cols > 0 || no_right_moves(vte_events(m.vte, bytes))
}

/// Whether some event of `events` moves the cursor right.
fn has_right_move(events: &Vec<VtEvent>) -> (b: bool)
    ensures
        b == !no_right_moves(events@),
{
    let mut i: usize = 0;
    while i < events.len()
        invariant
            i <= events@.len(),
            forall|k: int| 0 <= k < i ==> !moves_right(#[trigger] events@[k]),
        decreases events@.len() - i,
    {
        let hit = match &events[i] {
            VtEvent::Print(_) => true,
            VtEvent::Csi { action, .. } => *action == 'C',
            _ => false,
        };
        if hit {
            assert(moves_right(events@[i as int]));
            return true;
        }
        i = i + 1;
    }
    false
}

impl AnsiModel {
    /// The effect of one control function or character.
    #[verifier::opaque]
    pub open spec fn event_applied(self, e: VtEvent) -> AnsiModel {
        match e {
            VtEvent::Print(c) => self.printed(c),
            VtEvent::Execute(b) => self.executed(b),
            VtEvent::Csi { params, intermediates, action, .. } => self.csi_applied(
                params@,
                intermediates@,
                action,
            ),
            VtEvent::Esc { intermediates, byte, .. } => self.escaped(intermediates@, byte),
            VtEvent::Hook { action, .. } => self.hooked(action),
            VtEvent::Put(b) => self.put_byte(b),
            VtEvent::Unhook => self.unhooked(),
        }
    }

    /// The effect of a sequence of events, in order.
    pub open spec fn events_applied(self, evs: Seq<VtEvent>) -> AnsiModel
        decreases evs.len(),
    {
        if evs.len() == 0 {
            self
        } else {
            self.events_applied(evs.drop_last()).event_applied(evs.last())
        }
    }
}

proof fn lemma_unhook_count_prefix(evs: Seq<VtEvent>, i: int)
    requires
        0 <= i < evs.len(),
    ensures
        unhook_count(evs.take(i + 1)) == unhook_count(evs.take(i)) + if evs[i] is Unhook { 1nat } else { 0nat },
        unhook_count(evs.take(i + 1)) <= unhook_count(evs),
    decreases evs.len() - i,
{
    assert(evs.take(i + 1).drop_last() =~= evs.take(i));
    if i + 1 < evs.len() {
        lemma_unhook_count_prefix(evs, i + 1);
    } else {
        assert(evs.take(i + 1) =~= evs);
    }
}

impl AnsiModel {
    /// Feeding `bytes` to the `vte` state machine: it moves to its new state, then
    /// the events it made are applied in order; nothing for no bytes.
    pub open spec fn fed(self, bytes: Seq<u8>) -> AnsiModel {
        if bytes.len() == 0 {
            self
        } else {
            AnsiModel { vte: vte_after(self.vte, bytes), ..self }.events_applied(vte_events(self.vte, bytes))
        }
    }
}

impl AnsiParser {
    /// Applies one event of the `vte` state machine.
    fn apply_event(&mut self, e: &VtEvent)
        requires
            old(self)@.wf(),
            old(self)@.screen.cols > 0 || !moves_right(*e),
            events_ok(seq![*e]),
            old(self)@.graphics.next_id + (if *e is Unhook { 1int } else { 0int }) < u32::MAX,
        ensures
            final(self)@ == old(self)@.event_applied(*e),
            final(self)@.wf(),
            same_grid(final(self)@, old(self)@),
            final(self)@.graphics.next_id <= old(self)@.graphics.next_id + (if *e is Unhook { 1int } else { 0int }),
    {
        proof {
            reveal(AnsiModel::event_applied);
            assert(seq![*e][0] == *e);
        }
        match e {
            VtEvent::Print(c) => self.print(*c),
            VtEvent::Execute(b) => self.execute(*b),
            VtEvent::Csi { params, intermediates, ignore, action } => {
                self.csi_dispatch(params, intermediates.as_slice(), *ignore, *action)
            },
            VtEvent::Esc { intermediates, ignore, byte } => {
                self.esc_dispatch(intermediates.as_slice(), *ignore, *byte)
            },
            VtEvent::Hook { params, intermediates, ignore, action } => {
                self.hook(params, intermediates.as_slice(), *ignore, *action)
            },
            VtEvent::Put(b) => self.put(*b),
            VtEvent::Unhook => self.unhook(),
        }
    }

    /// Applies the events of the `vte` state machine, in order.
    pub fn apply_events(&mut self, events: &Vec<VtEvent>)
        requires
            old(self)@.wf(),
            old(self)@.screen.cols > 0 || no_right_moves(events@),
            events_ok(events@),
            old(self)@.graphics.next_id + unhook_count(events@) < u32::MAX,
        ensures
            final(self)@ == old(self)@.events_applied(events@),
            final(self)@.wf(),
            same_grid(final(self)@, old(self)@),
    {
        let mut i: usize = 0;
        assert(events@.take(0) =~= Seq::<VtEvent>::empty());
        while i < events.len()
            invariant
                i <= events@.len(),
                events_ok(events@),
                self@.wf(),
                old(self)@.screen.cols > 0 || no_right_moves(events@),
                same_grid(self@, old(self)@),
                self@ == old(self)@.events_applied(events@.take(i as int)),
                self@.graphics.next_id <= old(self)@.graphics.next_id + unhook_count(events@.take(i as int)),
                old(self)@.graphics.next_id + unhook_count(events@) < u32::MAX,
            decreases events@.len() - i,
        {
            proof {
                lemma_unhook_count_prefix(events@, i as int);
                assert(events@.take(i + 1).drop_last() =~= events@.take(i as int));
            }
            self.apply_event(&events[i]);
            i = i + 1;
        }
        assert(events@.take(i as int) =~= events@);
    }

    /// Interprets a chunk of the application's output: APC strings (`ESC _ ... ESC \`)
    /// go to the graphics state first, the remaining bytes through the `vte` state
    /// machine. Whatever control functions `vte` recognises, the result is this state
    /// after the APC strings, updated by those functions in order.
    pub fn parse(&mut self, data: &[u8]) -> (r: bool)
        requires
            old(self)@.wf(),
            interpretable(old(self)@, apc_scan(data@, 0).0),
            old(self)@.graphics.next_id + apc_scan(data@, 0).1.len() + apc_scan(data@, 0).0.len() < u32::MAX,
        ensures
            r,
            final(self)@ == old(self)@.apcs_dispatched(apc_scan(data@, 0).1).fed(apc_scan(data@, 0).0),
            final(self)@.wf(),
            same_grid(final(self)@, old(self)@),
    {
        let remaining = self.extract_apc_sequences(data);
        proof {
            lemma_apcs_dispatched_grid(old(self)@, apc_scan(data@, 0).1);
        }
        let ghost mid = self@;
        if remaining.len() > 0 {
            let events = vte_advance(&mut self.parser, remaining.as_slice());
            let ghost after_vte = self@;
            assert(after_vte == (AnsiModel { vte: vte_after(mid.vte, remaining@), ..mid }));
            self.apply_events(&events);
            assert(self@ == mid.fed(remaining@));
        }
        true
    }

    /// [`AnsiParser::parse`] for a grid that may have no columns. The APC strings are
    /// handled and `vte` takes the remaining bytes in every case; when the grid has no
    /// columns and one of `vte`'s events would move the cursor right (a printed
    /// character or CUF), no event is applied and the result is `false`.
    pub fn parse_checked(&mut self, data: &[u8]) -> (r: bool)
        requires
            old(self)@.wf(),
            old(self)@.graphics.next_id + apc_scan(data@, 0).1.len() + apc_scan(data@, 0).0.len() < u32::MAX,
        ensures
            r == interpretable(old(self)@, apc_scan(data@, 0).0),
            r ==> final(self)@ == old(self)@.apcs_dispatched(apc_scan(data@, 0).1).fed(apc_scan(data@, 0).0),
            !r ==> final(self)@ == (AnsiModel {
                vte: vte_after(old(self)@.vte, apc_scan(data@, 0).0),
                ..old(self)@.apcs_dispatched(apc_scan(data@, 0).1)
            }),
            final(self)@.wf(),
            same_grid(final(self)@, old(self)@),
    {
        let remaining = self.extract_apc_sequences(data);
        proof {
            lemma_apcs_dispatched_grid(old(self)@, apc_scan(data@, 0).1);
        }
        let ghost mid = self@;
        if remaining.len() > 0 {
            let events = vte_advance(&mut self.parser, remaining.as_slice());
            let ghost after_vte = self@;
            assert(after_vte == (AnsiModel { vte: vte_after(mid.vte, remaining@), ..mid }));
            if self.screen.cols() == 0 && has_right_move(&events) {
                return false;
            }
            self.apply_events(&events);
            assert(self@ == mid.fed(remaining@));
        }
        true
    }
}

/// Graphics commands leave screens, cursors and scroll region alone.
proof fn lemma_apcs_dispatched_grid(m: AnsiModel, payloads: Seq<Seq<u8>>)
    ensures
        m.apcs_dispatched(payloads) == (AnsiModel { graphics: m.apcs_dispatched(payloads).graphics, ..m }),
    decreases payloads.len(),
{
    if payloads.len() > 0 {
        lemma_apcs_dispatched_grid(m, payloads.drop_last());
    }
}

/// Law: entering the alternate screen with a saved cursor (mode 1049) and leaving it
/// again gives back the normal screen untouched and the cursor where it was.
pub proof fn law_alt_screen_round_trip(m: AnsiModel)
    requires
        m.wf(),
        !m.using_alt,
    ensures
        m.to_alt(true).to_normal(true).screen == m.screen,
        m.to_alt(true).to_normal(true).active() == m.active(),
        m.to_alt(true).to_normal(true).cursor.row == m.cursor.row,
        m.to_alt(true).to_normal(true).cursor.col == m.cursor.col,
        !m.to_alt(true).to_normal(true).using_alt,
{
}

/// Law: SGR 0 resets the attributes, whatever they were.
pub proof fn law_sgr_reset(a: CellAttributes, v: u16)
    requires
        v == 0,
    ensures
        sgr_simple(a, v) == plain_attrs(),
{
}

/// Law: a character of width 1 printed where it fits can be read back at the
/// position of the cursor, with the cursor's attributes.
pub proof fn law_print_then_read(m: AnsiModel, c: char)
    requires
        m.wf(),
        m.screen.rows > 0,
        print_width(c) == 1,
        m.cursor.col + 1 <= m.cursor.max_cols,
    ensures
        m.printed(c).active().lines[m.cursor.row as int][m.cursor.col as int] == (Cell {
            c,
            attrs: m.cursor.attributes,
        }),
{
}

/// Law: erase in display (`CSI J`). With no parameter or 0 every cell at or after
/// the cursor (the rest of its row and every row below) is blanked; with 1 every
/// cell before the cursor (the rows above and the start of its row, the cursor's
/// own cell excluded); with 2 or 3 every cell. Every other cell, the history and
/// the cursor are left as they were.
pub proof fn law_erase_in_display(m: AnsiModel, ps: Seq<Vec<u16>>, inter: Seq<u8>, i: int, j: int)
    requires
        m.wf(),
        0 <= i < m.active().rows,
        0 <= j < m.active().cols,
    ensures
        ({
            let r = m.csi_applied(ps, inter, 'J');
            let mode: u16 = if ps.len() == 0 { 0 } else { ps[0]@[0] };
            let row = m.cursor.row as int;
            let col = m.cursor.col as int;
            let cell = r.active().lines[i][j];
            let before = m.active().lines[i][j];
            &&& r.cursor == m.cursor
            &&& r.active().scrollback == m.active().scrollback
            &&& r.active().lines.len() == m.active().lines.len()
            &&& mode == 0 ==> cell == (if i > row || (i == row && j >= col) { blank_cell() } else { before })
            &&& mode == 1 ==> cell == (if i < row || (i == row && j < col) { blank_cell() } else { before })
            &&& (mode == 2 || mode == 3) ==> cell == blank_cell()
            &&& mode > 3 ==> cell == before
        }),
{
}

/// Law: erase in line (`CSI K`). On the cursor's row, no parameter or 0 blanks the
/// cursor's cell and those after it, 1 blanks the start of the row up to and
/// including the cursor's cell, 2 blanks the whole row; other rows, the history and
/// the cursor are left as they were.
pub proof fn law_erase_in_line(m: AnsiModel, ps: Seq<Vec<u16>>, inter: Seq<u8>, i: int, j: int)
    requires
        m.wf(),
        0 <= i < m.active().rows,
        0 <= j < m.active().cols,
    ensures
        ({
            let r = m.csi_applied(ps, inter, 'K');
            let mode: u16 = if ps.len() == 0 { 0 } else { ps[0]@[0] };
            let row = m.cursor.row as int;
            let col = m.cursor.col as int;
            let cell = r.active().lines[i][j];
            let before = m.active().lines[i][j];
            &&& r.cursor == m.cursor
            &&& r.active().scrollback == m.active().scrollback
            &&& r.active().lines.len() == m.active().lines.len()
            &&& i != row ==> cell == before
            &&& mode == 0 ==> cell == (if i == row && j >= col { blank_cell() } else { before })
            &&& mode == 1 ==> cell == (if i == row && j <= col { blank_cell() } else { before })
            &&& mode == 2 ==> cell == (if i == row { blank_cell() } else { before })
            &&& mode > 2 ==> cell == before
        }),
{
}

/// Law: one SGR parameter `v` changes exactly the attribute it names and keeps the
/// others: 0 resets everything; 1, 3, 4 (or 21), 5, 7 and 9 turn on bold, italic,
/// underline, blink, reverse video and strike-through, and 22 (or 2), 23, 24, 25,
/// 27 and 29 turn them off; 30-37 and 90-97 pick palette colours 0-7 and 8-15 for
/// the text, 40-47 and 100-107 for the background; 39 and 49 return the text and
/// background to their defaults.
pub proof fn law_sgr_single(m: AnsiModel, ps: Seq<Vec<u16>>, inter: Seq<u8>)
    requires
        ps.len() == 1,
        ps[0]@.len() >= 1,
    ensures
        ({
            let v = ps[0]@[0];
            let a = m.cursor.attributes;
            let r = m.csi_applied(ps, inter, 'm');
            let b = r.cursor.attributes;
            &&& r == m.with_cursor(CursorModel { attributes: b, ..m.cursor })
            &&& v == 0 ==> b == plain_attrs()
            &&& v == 1 ==> b == CellAttributes { bold: true, ..a }
            &&& (v == 2 || v == 22) ==> b == CellAttributes { bold: false, ..a }
            &&& v == 3 ==> b == CellAttributes { italic: true, ..a }
            &&& (v == 4 || v == 21) ==> b == CellAttributes { underline: true, ..a }
            &&& v == 5 ==> b == CellAttributes { blink: true, ..a }
            &&& v == 7 ==> b == CellAttributes { inverse: true, ..a }
            &&& v == 9 ==> b == CellAttributes { strikethrough: true, ..a }
            &&& v == 23 ==> b == CellAttributes { italic: false, ..a }
            &&& v == 24 ==> b == CellAttributes { underline: false, ..a }
            &&& v == 25 ==> b == CellAttributes { blink: false, ..a }
            &&& v == 27 ==> b == CellAttributes { inverse: false, ..a }
            &&& v == 29 ==> b == CellAttributes { strikethrough: false, ..a }
            &&& 30 <= v <= 37 ==> b == CellAttributes { fg_color: Some((v - 30) as u8), ..a }
            &&& 90 <= v <= 97 ==> b == CellAttributes { fg_color: Some((v - 82) as u8), ..a }
            &&& 40 <= v <= 47 ==> b == CellAttributes { bg_color: Some((v - 40) as u8), ..a }
            &&& 100 <= v <= 107 ==> b == CellAttributes { bg_color: Some((v - 92) as u8), ..a }
            &&& v == 39 ==> b == CellAttributes { fg_color: None, fg_rgb: None, ..a }
            &&& v == 49 ==> b == CellAttributes { bg_color: None, bg_rgb: None, ..a }
        }),
{
    let a = m.cursor.attributes;
    let v = ps[0]@[0];
    if v != 38 && v != 48 {
        assert(sgr(a, ps, 0) == sgr(sgr_simple(a, v), ps, 1));
    }
}

/// Law: `38;5;n` and `48;5;n` select palette colour `n` for the text or the
/// background, and `38;2;r;g;b` and `48;2;r;g;b` the true colour `(r, g, b)`; the
/// colour of the other kind for that layer is dropped, and nothing else changes.
pub proof fn law_sgr_extended_colours(m: AnsiModel, ps: Seq<Vec<u16>>, inter: Seq<u8>)
    requires
        ps.len() == 3 || ps.len() == 5,
        forall|k: int| 0 <= k < ps.len() ==> (#[trigger] ps[k])@.len() >= 1,
        ps[0]@[0] == 38 || ps[0]@[0] == 48,
        ps.len() == 3 ==> ps[1]@[0] == 5,
        ps.len() == 5 ==> ps[1]@[0] == 2,
    ensures
        ({
            let a = m.cursor.attributes;
            let b = m.csi_applied(ps, inter, 'm').cursor.attributes;
            let fg = ps[0]@[0] == 38;
            let n = ps[2]@[0] as u8;
            &&& (ps.len() == 3 && fg) ==> b == CellAttributes { fg_color: Some(n), fg_rgb: None, ..a }
            &&& (ps.len() == 3 && !fg) ==> b == CellAttributes { bg_color: Some(n), bg_rgb: None, ..a }
            &&& (ps.len() == 5 && fg) ==> b == CellAttributes {
                fg_rgb: Some([ps[2]@[0] as u8, ps[3]@[0] as u8, ps[4]@[0] as u8]),
                fg_color: None,
                ..a
            }
            &&& (ps.len() == 5 && !fg) ==> b == CellAttributes {
                bg_rgb: Some([ps[2]@[0] as u8, ps[3]@[0] as u8, ps[4]@[0] as u8]),
                bg_color: None,
                ..a
            }
        }),
{
    let a = m.cursor.attributes;
    if ps.len() == 3 {
        assert(sgr(a, ps, 0) == sgr(with_indexed(a, ps[0]@[0] == 38, ps[2]@[0] as u8), ps, 3));
    } else {
        assert(sgr(a, ps, 0) == sgr(
            with_rgb(a, ps[0]@[0] == 38, [ps[2]@[0] as u8, ps[3]@[0] as u8, ps[4]@[0] as u8]),
            ps,
            5,
        ));
    }
}

/// Where `n` steps down, right or left take a cursor on a grid with rows and columns.
proof fn lemma_steps(c: CursorModel, n: nat)
    requires
        c.wf(),
        c.max_rows > 0,
        c.max_cols > 0,
    ensures
        down_n(c, n) == (CursorModel {
            row: (if c.row + n < c.max_rows { c.row + n } else { c.max_rows - 1 }) as usize,
            ..c
        }),
        right_n(c, n) == (CursorModel {
            col: (if c.col + n < c.max_cols { c.col + n } else { c.max_cols - 1 }) as usize,
            ..c
        }),
        left_n(c, n) == (CursorModel { col: (if c.col >= n { c.col - n } else { 0 }) as usize, ..c }),
    decreases n,
{
    if n > 0 {
        lemma_steps(c, (n - 1) as nat);
    }
}

/// The cursor at (`row`, `col`) of `m`'s grid, nothing else changed.
pub open spec fn cursor_at(m: AnsiModel, row: int, col: int) -> AnsiModel {
    m.with_cursor(CursorModel { row: row as usize, col: col as usize, ..m.cursor })
}

/// `v` limited to the last of `n` indices.
pub open spec fn last_at_most(v: int, n: int) -> int {
    if v < n { v } else { n - 1 }
}

/// Law: the cursor-movement sequences. With `p` the first parameter (default 1, and
/// 0 counted as 1) and `q` the second: CUP (`H`, `f`) goes to row `p` and column
/// `q` (1-based); CUU (`A`), CUD (`B`), CUF (`C`) and CUB (`D`) move `p` cells up,
/// down, right and left; CPL (`F`) moves `p` rows up to the first column; CHA (`G`)
/// goes to column `p` and VPA (`d`) to row `p`. Every move stops at the edges of the
/// grid, and nothing but the cursor's position changes.
pub proof fn law_cursor_moves(m: AnsiModel, ps: Seq<Vec<u16>>, inter: Seq<u8>, p: int, q: int)
    requires
        m.wf(),
        m.screen.rows > 0,
        m.screen.cols > 0,
        p == (if ps.len() >= 1 && ps[0]@[0] >= 1 { ps[0]@[0] as int } else { 1 }),
        q == (if ps.len() >= 2 && ps[1]@[0] >= 1 { ps[1]@[0] as int } else { 1 }),
    ensures
        m.csi_applied(ps, inter, 'H') == cursor_at(m, last_at_most(p - 1, m.screen.rows as int), last_at_most(q - 1, m.screen.cols as int)),
        m.csi_applied(ps, inter, 'f') == cursor_at(m, last_at_most(p - 1, m.screen.rows as int), last_at_most(q - 1, m.screen.cols as int)),
        m.csi_applied(ps, inter, 'A') == cursor_at(m, if m.cursor.row >= p { m.cursor.row - p } else { 0 }, m.cursor.col as int),
        m.csi_applied(ps, inter, 'B') == cursor_at(m, last_at_most(m.cursor.row + p, m.screen.rows as int), m.cursor.col as int),
        m.csi_applied(ps, inter, 'C') == cursor_at(m, m.cursor.row as int, last_at_most(m.cursor.col + p, m.screen.cols as int)),
        m.csi_applied(ps, inter, 'D') == cursor_at(m, m.cursor.row as int, if m.cursor.col >= p { m.cursor.col - p } else { 0 }),
        m.csi_applied(ps, inter, 'F') == cursor_at(m, if m.cursor.row >= p { m.cursor.row - p } else { 0 }, 0),
        m.csi_applied(ps, inter, 'G') == cursor_at(m, m.cursor.row as int, last_at_most(p - 1, m.screen.cols as int)),
        m.csi_applied(ps, inter, 'd') == cursor_at(m, last_at_most(p - 1, m.screen.rows as int), m.cursor.col as int),
{
    assert(count_arg(ps) == p);
    assert(pos_arg(ps, 0) == p - 1);
    assert(pos_arg(ps, 1) == q - 1);
    lemma_steps(m.cursor, p as nat);
    assert(m.csi_applied(ps, inter, 'H') == cursor_at(m, last_at_most(p - 1, m.screen.rows as int), last_at_most(q - 1, m.screen.cols as int)));
    assert(m.csi_applied(ps, inter, 'f') == cursor_at(m, last_at_most(p - 1, m.screen.rows as int), last_at_most(q - 1, m.screen.cols as int)));
    assert(m.csi_applied(ps, inter, 'A') == cursor_at(m, if m.cursor.row >= p { m.cursor.row - p } else { 0 }, m.cursor.col as int));
    assert(m.csi_applied(ps, inter, 'B') == cursor_at(m, last_at_most(m.cursor.row + p, m.screen.rows as int), m.cursor.col as int));
    assert(m.csi_applied(ps, inter, 'C') == cursor_at(m, m.cursor.row as int, last_at_most(m.cursor.col + p, m.screen.cols as int)));
    assert(m.csi_applied(ps, inter, 'D') == cursor_at(m, m.cursor.row as int, if m.cursor.col >= p { m.cursor.col - p } else { 0 }));
    assert(m.csi_applied(ps, inter, 'F') == cursor_at(m, if m.cursor.row >= p { m.cursor.row - p } else { 0 }, 0));
    assert(m.csi_applied(ps, inter, 'G') == cursor_at(m, m.cursor.row as int, last_at_most(p - 1, m.screen.cols as int)));
}

/// Law: the replies. A device status report (`CSI n`) with 5 answers
/// `ESC [ 0 n`, with 6 answers the cursor's 1-based position `ESC [ row ; col R`;
/// primary device attributes (`CSI c`) answer `ESC [ ? 1 ; 2 c` and secondary ones
/// (`CSI > c`) `ESC [ > 61 ; 20 ; 1 c`. A reply is queued after the earlier ones
/// and nothing else changes.
pub proof fn law_replies(m: AnsiModel, ps: Seq<Vec<u16>>)
    requires
        ps.len() >= 1,
    ensures
        ps[0]@[0] == 5 ==> m.csi_applied(ps, Seq::empty(), 'n') == (AnsiModel {
            pending_responses: m.pending_responses.push(seq![0x1bu8, 0x5b, 0x30, 0x6e]),
            ..m
        }),
        ps[0]@[0] == 6 ==> m.csi_applied(ps, Seq::empty(), 'n') == (AnsiModel {
            pending_responses: m.pending_responses.push(
                seq![0x1bu8, 0x5b] + decimal((m.cursor.row + 1) as nat) + seq![0x3bu8] + decimal((m.cursor.col + 1) as nat) + seq![0x52u8],
            ),
            ..m
        }),
        m.csi_applied(ps, Seq::empty(), 'c') == (AnsiModel {
            pending_responses: m.pending_responses.push(seq![0x1bu8, 0x5b, 0x3f, 0x31, 0x3b, 0x32, 0x63]),
            ..m
        }),
        m.csi_applied(ps, seq![0x3eu8], 'c') == (AnsiModel {
            pending_responses: m.pending_responses.push(
                seq![0x1bu8, 0x5b, 0x3e, 0x36, 0x31, 0x3b, 0x32, 0x30, 0x3b, 0x31, 0x63],
            ),
            ..m
        }),
{
    assert(Seq::<u8>::empty() != seq![63u8]) by {
        assert(Seq::<u8>::empty().len() != seq![63u8].len());
    }
    assert(Seq::<u8>::empty() != seq![62u8]) by {
        assert(Seq::<u8>::empty().len() != seq![62u8].len());
    }
    assert(seq![0x3eu8] != seq![63u8]) by {
        assert(seq![0x3eu8][0] != seq![63u8][0]);
    }
}

/// The next default tab stop after `col`, searching the stops from index `k` on.
proof fn lemma_default_next_stop(cols: usize, col: usize, k: int)
    requires
        0 <= k <= default_tab_stops(cols).len(),
    ensures
        ({
            let j: int = if k > col / 8 + 1 { k } else { col / 8 + 1 };
            next_tab_stop(default_tab_stops(cols).skip(k), col) == if j * 8 < cols {
                Some((j * 8) as usize)
            } else {
                None::<usize>
            }
        }),
    decreases default_tab_stops(cols).len() - k,
{
    let stops = default_tab_stops(cols);
    let len = stops.len() as int;
    assert(len == (cols + 7) / 8);
    let j: int = if k > col / 8 + 1 { k } else { col / 8 + 1 };
    assert(j * 8 < cols <==> j < (cols + 7) / 8) by (nonlinear_arith)
        requires
            j >= 0,
    ;
    if k < len {
        assert(stops.skip(k)[0] == stops[k]);
        assert(stops.skip(k).drop_first() =~= stops.skip(k + 1));
        assert((k * 8 > col) <==> (k >= col / 8 + 1)) by (nonlinear_arith)
            requires
                k >= 0,
        ;
        if stops[k] <= col {
            lemma_default_next_stop(cols, col, k + 1);
        }
    } else {
        assert(stops.skip(k).len() == 0);
    }
}

/// Law: the C0 controls. CR returns to the first column, BS moves one column left
/// (not past the first), and HT moves to the next multiple of 8 (with the default
/// tab stops), or to the last column when there is none; LF, VT and FF move one row
/// down while the cursor is above the bottom of the scroll region; BEL and the
/// other bytes change nothing.
pub proof fn law_c0_controls(m: AnsiModel, byte: u8)
    requires
        m.wf(),
        m.screen.cols > 0,
    ensures
        m.executed(13) == cursor_at(m, m.cursor.row as int, 0),
        m.executed(8) == cursor_at(m, m.cursor.row as int, if m.cursor.col >= 1 { m.cursor.col - 1 } else { 0 }),
        m.tab_stops == default_tab_stops(m.screen.cols) ==> m.executed(9) == cursor_at(
            m,
            m.cursor.row as int,
            last_at_most((m.cursor.col / 8 + 1) * 8, m.screen.cols as int),
        ),
        (byte == 10 || byte == 11 || byte == 12) && m.cursor.row < m.scroll_bottom ==> m.executed(byte) == cursor_at(
            m,
            m.cursor.row + 1,
            m.cursor.col as int,
        ),
        !(byte == 8 || byte == 9 || byte == 10 || byte == 11 || byte == 12 || byte == 13) ==> m.executed(byte) == m,
{
    lemma_default_next_stop(m.screen.cols, m.cursor.col, 0);
    assert(default_tab_stops(m.screen.cols).skip(0) =~= default_tab_stops(m.screen.cols));
}

/// Law: the ESC sequences relate to the controls they abbreviate. IND (`ESC D`) is
/// a line feed and NEL (`ESC E`) a carriage return followed by a line feed; DECSC
/// (`ESC 7`) saves the cursor's position and DECRC (`ESC 8`) brings a saved on-grid
/// position back; a sequence with intermediates changes nothing.
pub proof fn law_esc_sequences(m: AnsiModel, inter: Seq<u8>, byte: u8)
    requires
        m.wf(),
    ensures
        m.escaped(Seq::empty(), 68) == m.executed(10),
        m.escaped(Seq::empty(), 69) == m.executed(13).executed(10),
        m.escaped(Seq::empty(), 55).cursor.saved_row == m.cursor.row,
        m.escaped(Seq::empty(), 55).cursor.saved_col == m.cursor.col,
        m.escaped(Seq::empty(), 55).escaped(Seq::empty(), 56) == m.escaped(Seq::empty(), 55),
        inter.len() > 0 ==> m.escaped(inter, byte) == m,
{
}

/// Law: the DEC private modes. `CSI ? 25 l` hides the cursor and `CSI ? 25 h` shows
/// it; `CSI ? 1049 h` switches to a blank alternate screen, saving the cursor, and
/// `CSI ? 1049 l` then returns to the normal screen, unchanged, with the cursor
/// where it was.
pub proof fn law_dec_modes(m: AnsiModel, ps: Seq<Vec<u16>>)
    requires
        m.wf(),
        ps.len() == 1,
        ps[0]@.len() >= 1,
    ensures
        ps[0]@[0] == 25 ==> m.csi_applied(ps, seq![63u8], 'l') == m.with_cursor(
            CursorModel { visible: false, ..m.cursor },
        ),
        ps[0]@[0] == 25 ==> m.csi_applied(ps, seq![63u8], 'h') == m.with_cursor(
            CursorModel { visible: true, ..m.cursor },
        ),
        ps[0]@[0] == 1049 && !m.using_alt ==> {
            let alt = m.csi_applied(ps, seq![63u8], 'h');
            let back = alt.csi_applied(ps, seq![63u8], 'l');
            &&& alt.using_alt
            &&& alt.active().lines == blank_lines(m.screen.rows as nat, m.screen.cols as nat)
            &&& alt.active().scrollback.len() == 0
            &&& !back.using_alt
            &&& back.screen == m.screen
            &&& back.cursor.row == m.cursor.row
            &&& back.cursor.col == m.cursor.col
        },
{
    let v = ps[0]@[0];
    assert forall|x: AnsiModel, on: bool| #[trigger] x.dec_modes(ps, 1, on) == x by {}
    if v == 25 {
        assert(m.dec_modes(ps, 0, false) == m.with_cursor(m.cursor.with_visible(false)).dec_modes(ps, 1, false));
        assert(m.dec_modes(ps, 0, true) == m.with_cursor(m.cursor.with_visible(true)).dec_modes(ps, 1, true));
    }
    if v == 1049 && !m.using_alt {
        assert(m.dec_modes(ps, 0, true) == m.to_alt(true).dec_modes(ps, 1, true));
        assert(m.to_alt(true).dec_modes(ps, 0, false) == m.to_alt(true).to_normal(true).dec_modes(ps, 1, false));
        let alt = m.csi_applied(ps, seq![63u8], 'h');
        assert(alt == m.to_alt(true));
        assert(alt.csi_applied(ps, seq![63u8], 'l') == alt.to_normal(true));
        law_alt_screen_round_trip(m);
    }
}

/// Law: the character edits on the cursor's row, with `p` the first parameter
/// (default 1, and 0 counted as 1). DCH (`P`) moves the cells after the cursor `p`
/// columns left and blanks the last `p` columns of the row; ICH (`@`) moves the
/// cursor's cell and those after it `p` columns right (dropping what passes the
/// edge) and blanks the `p` cells from the cursor; ECH (`X`) blanks `p` cells from
/// the cursor. Other rows and the cursor do not change.
pub proof fn law_char_edits(m: AnsiModel, ps: Seq<Vec<u16>>, inter: Seq<u8>, p: int, i: int, j: int)
    requires
        m.wf(),
        p == (if ps.len() >= 1 && ps[0]@[0] >= 1 { ps[0]@[0] as int } else { 1 }),
        0 <= i < m.active().rows,
        0 <= j < m.active().cols,
    ensures
        ({
            let cols = m.active().cols as int;
            let row = m.cursor.row as int;
            let col = m.cursor.col as int;
            let old_line = m.active().lines[i];
            let del = m.csi_applied(ps, inter, 'P');
            let ins = m.csi_applied(ps, inter, '@');
            let ech = m.csi_applied(ps, inter, 'X');
            &&& del.cursor == m.cursor && ins.cursor == m.cursor && ech.cursor == m.cursor
            &&& i != row ==> del.active().lines[i] == old_line && ins.active().lines[i] == old_line
                && ech.active().lines[i] == old_line
            &&& i == row ==> del.active().lines[i][j] == if j >= cols - p {
                blank_cell()
            } else if j >= col {
                old_line[j + p]
            } else {
                old_line[j]
            }
            &&& i == row ==> ins.active().lines[i][j] == if j < col {
                old_line[j]
            } else if j < col + p {
                blank_cell()
            } else {
                old_line[j - p]
            }
            &&& i == row ==> ech.active().lines[i][j] == if col <= j < col + p { blank_cell() } else { old_line[j] }
        }),
{
    assert(count_arg(ps) == p);
}

/// Law: scrolling the scroll region by one line. SU (`S`) and DL (`M`) move the
/// lines below the region's top up by one, dropping its top line, and blank its
/// bottom line; SD (`T`) and IL (`L`) move the lines down by one, dropping its
/// bottom line, and blank its top line. Lines outside the region and the cursor
/// stay as they were.
pub proof fn law_region_scroll(m: AnsiModel, ps: Seq<Vec<u16>>, inter: Seq<u8>, i: int)
    requires
        m.wf(),
        ps.len() == 0 || ps[0]@[0] <= 1,
        m.scroll_top < m.scroll_bottom,
        0 <= i < m.screen.rows,
    ensures
        ({
            let t = m.scroll_top as int;
            let b = m.scroll_bottom as int;
            let old_lines = m.active().lines;
            let up = m.csi_applied(ps, inter, 'S');
            let down = m.csi_applied(ps, inter, 'T');
            &&& up == m.csi_applied(ps, inter, 'M')
            &&& down == m.csi_applied(ps, inter, 'L')
            &&& up.cursor == m.cursor && down.cursor == m.cursor
            &&& up.active().lines.len() == old_lines.len() && down.active().lines.len() == old_lines.len()
            &&& (i < t || i > b) ==> up.active().lines[i] == old_lines[i] && down.active().lines[i] == old_lines[i]
            &&& t <= i < b ==> up.active().lines[i] == old_lines[i + 1]
            &&& i == b ==> up.active().lines[i] == blank_line(m.screen.cols as nat)
            &&& i == t ==> down.active().lines[i] == blank_line(m.screen.cols as nat)
            &&& t < i <= b ==> down.active().lines[i] == old_lines[i - 1]
        }),
{
    let s = m.active();
    let t = m.scroll_top as int;
    let b = m.scroll_bottom as int;
    assert(count_arg(ps) == 1);
    assert(s.region_scrolled_up(t, b, 1) == s.region_scrolled_up(t, b, 0).region_step_up(t, b));
    assert(s.region_scrolled_down(t, b, 1) == s.region_scrolled_down(t, b, 0).region_step_down(t, b));
    let ul = s.lines.remove(t).insert(b, blank_line(s.cols as nat));
    let dl = s.lines.remove(b).insert(t, blank_line(s.cols as nat));
    assert(ul.len() == s.lines.len());
    assert(dl.len() == s.lines.len());
    if i < t || i > b {
        assert(ul[i] == s.lines[i]);
        assert(dl[i] == s.lines[i]);
    } else {
        if i < b {
            assert(ul[i] == s.lines.remove(t)[i]);
            assert(ul[i] == s.lines[i + 1]);
        }
        if i > t {
            assert(dl[i] == s.lines.remove(b)[i - 1]);
            assert(dl[i] == s.lines[i - 1]);
        }
    }
}

/// Law: DECSTBM (`CSI top ; bottom r`) sets the scroll region to rows `top` to
/// `bottom` (1-based; the top defaults to the first row, the bottom to the last;
/// each limited to the grid) and homes the cursor; nothing else changes.
pub proof fn law_set_scroll_region(m: AnsiModel, ps: Seq<Vec<u16>>, inter: Seq<u8>, p: int, q: int)
    requires
        m.wf(),
        m.screen.rows > 0,
        m.screen.cols > 0,
        p == (if ps.len() >= 1 && ps[0]@[0] >= 1 { ps[0]@[0] as int } else { 1 }),
        q == (if ps.len() >= 2 { ps[1]@[0] as int } else { m.screen.rows as int }),
    ensures
        m.csi_applied(ps, inter, 'r') == (AnsiModel {
            scroll_top: last_at_most(p - 1, m.screen.rows as int) as usize,
            scroll_bottom: last_at_most(if q >= 1 { q - 1 } else { 0 }, m.screen.rows as int) as usize,
            cursor: CursorModel { row: 0, col: 0, ..m.cursor },
            ..m
        }),
{
    assert(pos_arg(ps, 0) == p - 1);
}
} // verus!
