//! RGBA colours, their `#rrggbb[aa]` notation and the 16-colour ANSI palette.
use vstd::prelude::*;
use vstd::string::StringSliceAdditionalSpecFns;

verus! {

/// An 8-bit-per-channel RGBA colour.
#[derive(Clone, Copy, Debug)]
pub struct Color {
    pub r: u8,
    pub g: u8,
    pub b: u8,
    pub a: u8,
}

/// Number of leading `#` characters of `s`.
pub open spec fn hash_prefix_len(s: Seq<u8>) -> nat
    decreases s.len(),
{
    if s.len() > 0 && s[0] == 35 {
        1 + hash_prefix_len(s.drop_first())
    } else {
        0
    }
}

/// `s` without its leading `#` characters (`trim_start_matches('#')`).
pub open spec fn strip_hashes(s: Seq<u8>) -> Seq<u8> {
    s.skip(hash_prefix_len(s) as int)
}

/// Value of a hexadecimal digit (either case).
pub open spec fn hex_value(b: u8) -> Option<u8> {
    if 48 <= b <= 57 {
        Some((b - 48) as u8)
    } else if 97 <= b <= 102 {
        Some((b - 87) as u8)
    } else if 65 <= b <= 70 {
        Some((b - 55) as u8)
    } else {
        None
    }
}

/// What `u8::from_str_radix` gives for the two-character text `a b` in base 16:
/// two hex digits, or `+` and one digit.
pub open spec fn hex_pair(a: u8, b: u8) -> Option<u8> {
    if a == 43 {
        hex_value(b)
    } else {
        match (hex_value(a), hex_value(b)) {
            (Some(x), Some(y)) => Some((16 * x + y) as u8),
            _ => None,
        }
    }
}

/// A UTF-8 continuation byte (not the start of a character).
pub open spec fn continuation_byte(b: u8) -> bool {
    128 <= b < 192
}

/// The colour that `#rrggbb` or `#rrggbbaa` (any number of leading `#`) denotes.
pub open spec fn color_from_hex(s: Seq<u8>) -> Option<Color> {
    let t = strip_hashes(s);
    if t.len() != 6 && t.len() != 8 {
        None
    } else {
        match (hex_pair(t[0], t[1]), hex_pair(t[2], t[3]), hex_pair(t[4], t[5])) {
            (Some(r), Some(g), Some(b)) => {
                if t.len() == 8 {
                    match hex_pair(t[6], t[7]) {
                        Some(a) => Some(Color { r, g, b, a }),
                        None => None,
                    }
                } else {
                    Some(Color { r, g, b, a: 255 })
                }
            },
            _ => None,
        }
    }
}

/// The two-byte slices that `from_hex` takes fall on character boundaries (else
/// slicing the text panics); a slice is only taken when the previous ones parsed.
pub open spec fn hex_slices_ok(s: Seq<u8>) -> bool {
    let t = strip_hashes(s);
    (t.len() == 6 || t.len() == 8) ==> {
        &&& !continuation_byte(t[2])
        &&& hex_pair(t[0], t[1]) is Some ==> !continuation_byte(t[4])
        &&& (t.len() == 8 && hex_pair(t[0], t[1]) is Some && hex_pair(t[2], t[3]) is Some)
            ==> !continuation_byte(t[6])
    }
}

fn hex_value_exec(b: u8) -> (r: Option<u8>)
    ensures
        r == hex_value(b),
{
    if 48 <= b && b <= 57 {
        Some(b - 48)
    } else if 97 <= b && b <= 102 {
        Some(b - 87)
    } else if 65 <= b && b <= 70 {
        Some(b - 55)
    } else {
        None
    }
}

fn hex_pair_exec(a: u8, b: u8) -> (r: Option<u8>)
    ensures
        r == hex_pair(a, b),
{
    if a == 43 {
        hex_value_exec(b)
    } else {
        match (hex_value_exec(a), hex_value_exec(b)) {
            (Some(x), Some(y)) => Some(16 * x + y),
            _ => None,
        }
    }
}

/// Number of leading `#` of `s`.
fn count_hashes(s: &[u8]) -> (n: usize)
    ensures
        n == hash_prefix_len(s@),
        n <= s@.len(),
{
    let mut n: usize = 0;
    assert(s@.skip(0) =~= s@);
    while n < s.len() && s[n] == 35
        invariant
            n <= s@.len(),
            hash_prefix_len(s@) == n + hash_prefix_len(s@.skip(n as int)),
        decreases s@.len() - n,
    {
        assert(s@.skip(n as int).drop_first() =~= s@.skip(n + 1));
        n = n + 1;
    }
    n
}

impl Color {
    pub fn new(r: u8, g: u8, b: u8) -> (c: Self)
        ensures
            c == (Color { r, g, b, a: 255 }),
    {
        Color { r, g, b, a: 255 }
    }

    /// Parses `#rrggbb` or `#rrggbbaa` (the `#` optional, repeated ones allowed);
    /// `None` for any other length or a pair that is not hexadecimal.
    pub fn from_hex(hex: &str) -> (c: Option<Self>)
        requires
            hex_slices_ok(hex.spec_bytes()),
        ensures
            c == color_from_hex(hex.spec_bytes()),
    {
        let s = hex.as_bytes();
        let start = count_hashes(s);
        let len = s.len() - start;
        let ghost t = strip_hashes(s@);
        assert(t =~= s@.skip(start as int));
        if len != 6 && len != 8 {
            return None;
        }
        let r = hex_pair_exec(s[start], s[start + 1]);
        let g = hex_pair_exec(s[start + 2], s[start + 3]);
        let b = hex_pair_exec(s[start + 4], s[start + 5]);
        match (r, g, b) {
            (Some(r), Some(g), Some(b)) => {
                if len == 8 {
                    match hex_pair_exec(s[start + 6], s[start + 7]) {
                        Some(a) => Some(Color { r, g, b, a }),
                        None => None,
                    }
                } else {
                    Some(Color { r, g, b, a: 255 })
                }
            },
            _ => None,
        }
    }
}

impl Default for Color {
    fn default() -> (c: Self)
        ensures
            c == (Color { r: 255, g: 255, b: 255, a: 255 }),
    {
        Color { r: 255, g: 255, b: 255, a: 255 }
    }
}

/// The standard 16-colour ANSI palette (xterm values).
pub struct ColorPalette;

/// Red, green and blue of ANSI colour `i` (0..16).
pub open spec fn ansi_rgb(i: int) -> (u8, u8, u8) {
    if i == 0 {
        (0, 0, 0)
    } else if i == 1 {
        (205, 0, 0)
    } else if i == 2 {
        (0, 205, 0)
    } else if i == 3 {
        (205, 205, 0)
    } else if i == 4 {
        (0, 0, 238)
    } else if i == 5 {
        (205, 0, 205)
    } else if i == 6 {
        (0, 205, 205)
    } else if i == 7 {
        (229, 229, 229)
    } else if i == 8 {
        (127, 127, 127)
    } else if i == 9 {
        (255, 0, 0)
    } else if i == 10 {
        (0, 255, 0)
    } else if i == 11 {
        (255, 255, 0)
    } else if i == 12 {
        (0, 0, 255)
    } else if i == 13 {
        (255, 0, 255)
    } else if i == 14 {
        (0, 255, 255)
    } else {
        (255, 255, 255)
    }
}

impl ColorPalette {
    /// ANSI colour `index` modulo 16, opaque.
    pub fn ansi_color(index: u8) -> (c: Color)
        ensures
            c == (Color {
                r: ansi_rgb((index % 16) as int).0,
                g: ansi_rgb((index % 16) as int).1,
                b: ansi_rgb((index % 16) as int).2,
                a: 255,
            }),
    {
        let i = index % 16;
        let (r, g, b): (u8, u8, u8) = if i == 0 {
            (0, 0, 0)
        } else if i == 1 {
            (205, 0, 0)
        } else if i == 2 {
            (0, 205, 0)
        } else if i == 3 {
            (205, 205, 0)
        } else if i == 4 {
            (0, 0, 238)
        } else if i == 5 {
            (205, 0, 205)
        } else if i == 6 {
            (0, 205, 205)
        } else if i == 7 {
            (229, 229, 229)
        } else if i == 8 {
            (127, 127, 127)
        } else if i == 9 {
            (255, 0, 0)
        } else if i == 10 {
            (0, 255, 0)
        } else if i == 11 {
            (255, 255, 0)
        } else if i == 12 {
            (0, 0, 255)
        } else if i == 13 {
            (255, 0, 255)
        } else if i == 14 {
            (0, 255, 255)
        } else {
            (255, 255, 255)
        };
        Color { r, g, b, a: 255 }
    }
}


/// Channel levels of the xterm 6x6x6 colour cube.
pub open spec fn cube_level(i: int) -> u8 {
    if i == 0 {
        0
    } else if i == 1 {
        95
    } else if i == 2 {
        135
    } else if i == 3 {
        175
    } else if i == 4 {
        215
    } else {
        255
    }
}

/// The fixed colours of the 256-colour palette: the 6x6x6 cube (16..=231) and the
/// grey ramp (232..=255); the first 16 come from the configured palette (`None`).
pub open spec fn xterm_rgb(idx: u8) -> Option<[u8; 3]> {
    if idx < 16 {
        None
    } else if idx <= 231 {
        let n = idx - 16;
        Some([cube_level(n / 36 % 6), cube_level(n / 6 % 6), cube_level(n % 6)])
    } else {
        let v = (8 + (idx - 232) * 10) as u8;
        Some([v, v, v])
    }
}

fn cube_level_exec(i: u8) -> (v: u8)
    ensures
        v == cube_level(i as int),
{
    if i == 0 {
        0
    } else if i == 1 {
        95
    } else if i == 2 {
        135
    } else if i == 3 {
        175
    } else if i == 4 {
        215
    } else {
        255
    }
}

/// The fixed colour of 256-colour index `idx` (see [`xterm_rgb`]).
pub fn xterm_color(idx: u8) -> (c: Option<[u8; 3]>)
    ensures
        c == xterm_rgb(idx),
{
    if idx < 16 {
        None
    } else if idx <= 231 {
        let n = idx - 16;
        Some([cube_level_exec(n / 36 % 6), cube_level_exec(n / 6 % 6), cube_level_exec(n % 6)])
    } else {
        let v = 8 + (idx - 232) * 10;
        Some([v, v, v])
    }
}

/// Lower-case hexadecimal digit of `v` (below 16).
pub open spec fn hex_digit(v: u8) -> u8 {
    if v < 10 { (48 + v) as u8 } else { (87 + v) as u8 }
}

/// `#rrggbb` in lower-case hexadecimal.
pub open spec fn hex_text(r: u8, g: u8, b: u8) -> Seq<u8> {
    seq![35u8, hex_digit(r / 16), hex_digit(r % 16), hex_digit(g / 16), hex_digit(g % 16), hex_digit(b / 16), hex_digit(b % 16)]
}

/// The two lower-case hexadecimal digits of a byte read back as the byte.
pub proof fn lemma_hex_byte(v: u8)
    ensures
        hex_pair(hex_digit(v / 16), hex_digit(v % 16)) == Some(v),
        hex_digit(v / 16) != 35 && hex_digit(v / 16) != 43,
{
    assert(v == 16 * (v / 16) + v % 16);
}

/// Law: a colour written as `#rrggbb` reads back as that colour, fully opaque.
pub proof fn law_hex_round_trip(r: u8, g: u8, b: u8)
    ensures
        color_from_hex(hex_text(r, g, b)) == Some(Color { r, g, b, a: 255 }),
{
    lemma_hex_byte(r);
    lemma_hex_byte(g);
    lemma_hex_byte(b);
    let s = hex_text(r, g, b);
    assert(s.drop_first()[0] == hex_digit(r / 16));
    assert(hash_prefix_len(s.drop_first()) == 0);
    assert(hash_prefix_len(s) == 1);
    assert(strip_hashes(s) =~= s.drop_first());
}

/// Law: the 256-colour palette. Index `16 + 36 r + 6 g + b` (each of `r`, `g`, `b`
/// below 6) is the cube colour whose channels take the levels 0, 95, 135, 175, 215,
/// 255 (`55 + 40 k` for level `k` above 0); index `232 + k` is the grey
/// `8 + 10 k`; the first 16 indices have no fixed colour.
pub proof fn law_xterm_palette(r: u8, g: u8, b: u8, k: u8, low: u8)
    requires
        r < 6 && g < 6 && b < 6,
        k < 24,
        low < 16,
    ensures
        ({
            let level = |c: u8| if c == 0 { 0u8 } else { (55 + 40 * c) as u8 };
            xterm_rgb((16 + 36 * r + 6 * g + b) as u8) == Some([level(r), level(g), level(b)])
        }),
        xterm_rgb((232 + k) as u8) == Some([(8 + 10 * k) as u8, (8 + 10 * k) as u8, (8 + 10 * k) as u8]),
        xterm_rgb(low) is None,
{
    let n = 36 * r + 6 * g + b;
    assert(n / 36 % 6 == r && n / 6 % 6 == g && n % 6 == b) by (nonlinear_arith)
        requires
            r < 6 && g < 6 && b < 6,
            n == 36 * r + 6 * g + b,
    ;
}
} // verus!
