//! Which colour a cell is drawn in: the choice among a direct colour, a palette
//! index and the configured defaults, with inverse video swapping the two.
use vstd::prelude::*;
use crate::terminal::buffer::CellAttributes;
use crate::utils::color::{xterm_rgb, xterm_color};

verus! {

/// Where one of a cell's two colours comes from.
#[derive(Debug, Clone, Copy, PartialEq, Eq, Structural)]
pub enum ColorChoice {
    /// A direct 24-bit colour.
    Rgb(u8, u8, u8),
    /// An entry of the 256-colour palette.
    Indexed(u8),
    /// The configured text colour.
    DefaultForeground,
    /// The configured text colour, brightened for bold text.
    BoldForeground,
    /// The configured background colour.
    DefaultBackground,
}

/// The text colour the attributes ask for: a direct colour first, then a
/// palette index, then the default (brightened when bold).
pub open spec fn fg_raw(a: CellAttributes) -> ColorChoice {
    match a.fg_rgb {
        Some(rgb) => ColorChoice::Rgb(rgb[0], rgb[1], rgb[2]),
        None => match a.fg_color {
            Some(i) => ColorChoice::Indexed(i),
            None => if a.bold { ColorChoice::BoldForeground } else { ColorChoice::DefaultForeground },
        },
    }
}

/// The background colour the attributes ask for.
pub open spec fn bg_raw(a: CellAttributes) -> ColorChoice {
    match a.bg_rgb {
        Some(rgb) => ColorChoice::Rgb(rgb[0], rgb[1], rgb[2]),
        None => match a.bg_color {
            Some(i) => ColorChoice::Indexed(i),
            None => ColorChoice::DefaultBackground,
        },
    }
}

fn fg_raw_exec(a: &CellAttributes) -> (r: ColorChoice)
    ensures
        r == fg_raw(*a),
{
    match a.fg_rgb {
        Some(rgb) => ColorChoice::Rgb(rgb[0], rgb[1], rgb[2]),
        None => match a.fg_color {
            Some(i) => ColorChoice::Indexed(i),
            None => if a.bold { ColorChoice::BoldForeground } else { ColorChoice::DefaultForeground },
        },
    }
}

fn bg_raw_exec(a: &CellAttributes) -> (r: ColorChoice)
    ensures
        r == bg_raw(*a),
{
    match a.bg_rgb {
        Some(rgb) => ColorChoice::Rgb(rgb[0], rgb[1], rgb[2]),
        None => match a.bg_color {
            Some(i) => ColorChoice::Indexed(i),
            None => ColorChoice::DefaultBackground,
        },
    }
}

/// The colour a cell's character is drawn in; inverse video takes the background's.
pub open spec fn drawn_fg(a: CellAttributes) -> ColorChoice {
    if a.inverse { bg_raw(a) } else { fg_raw(a) }
}

/// The colour a cell's background is filled with; inverse video takes the text's.
pub open spec fn drawn_bg(a: CellAttributes) -> ColorChoice {
    if a.inverse { fg_raw(a) } else { bg_raw(a) }
}

/// See [`drawn_fg`].
pub fn foreground_choice(a: &CellAttributes) -> (r: ColorChoice)
    ensures
        r == drawn_fg(*a),
{
    if a.inverse {
        bg_raw_exec(a)
    } else {
        fg_raw_exec(a)
    }
}

/// See [`drawn_bg`].
pub fn background_choice(a: &CellAttributes) -> (r: ColorChoice)
    ensures
        r == drawn_bg(*a),
{
    if a.inverse {
        fg_raw_exec(a)
    } else {
        bg_raw_exec(a)
    }
}

/// A cell needs its own background quad when it names a background colour or
/// is in inverse video; the others show the cleared window.
pub fn has_custom_background(a: &CellAttributes) -> (r: bool)
    ensures
        r == (a.bg_color is Some || a.bg_rgb is Some || a.inverse),
{
    a.bg_color.is_some() || a.bg_rgb.is_some() || a.inverse
}

/// Entry `idx` of the 256-colour palette: the first 16 from the configured
/// palette, the rest the fixed xterm colours.
pub open spec fn palette_entry(palette: Seq<[u8; 3]>, idx: u8) -> [u8; 3] {
    if idx < 16 { palette[idx as int] } else { xterm_rgb(idx)->0 }
}

/// The colour of palette entry `idx` (see [`palette_entry`]).
pub fn palette_rgb(palette: &[[u8; 3]; 16], idx: u8) -> (c: [u8; 3])
    ensures
        c == palette_entry(palette@, idx),
{
    if idx < 16 {
        palette[idx as usize]
    } else {
        match xterm_color(idx) {
            Some(c) => c,
            None => [0, 0, 0],
        }
    }
}

/// Law: turning inverse video on swaps the colours a cell is drawn in.
pub proof fn law_inverse_swaps(a: CellAttributes)
    ensures
        drawn_fg(CellAttributes { inverse: true, ..a }) == drawn_bg(CellAttributes { inverse: false, ..a }),
        drawn_bg(CellAttributes { inverse: true, ..a }) == drawn_fg(CellAttributes { inverse: false, ..a }),
{
}


/// Law: colour precedence outside inverse video. A direct colour wins over a
/// palette index, which wins over the defaults; text without a colour is drawn in
/// the default text colour, brightened when bold, and a background without one is
/// the default background.
pub proof fn law_colour_precedence(a: CellAttributes)
    requires
        !a.inverse,
    ensures
        a.fg_rgb matches Some(c) ==> drawn_fg(a) == ColorChoice::Rgb(c[0], c[1], c[2]),
        a.fg_rgb is None ==> (a.fg_color matches Some(i) ==> drawn_fg(a) == ColorChoice::Indexed(i)),
        a.fg_rgb is None && a.fg_color is None && a.bold ==> drawn_fg(a) == ColorChoice::BoldForeground,
        a.fg_rgb is None && a.fg_color is None && !a.bold ==> drawn_fg(a) == ColorChoice::DefaultForeground,
        a.bg_rgb matches Some(c) ==> drawn_bg(a) == ColorChoice::Rgb(c[0], c[1], c[2]),
        a.bg_rgb is None ==> (a.bg_color matches Some(i) ==> drawn_bg(a) == ColorChoice::Indexed(i)),
        a.bg_rgb is None && a.bg_color is None ==> drawn_bg(a) == ColorChoice::DefaultBackground,
{
}
} // verus!
