//! The configuration file (`key value` lines, kitty.conf style): its grammar, the
//! value syntaxes and the defaults that need no floating point.
use vstd::prelude::*;
use vstd::string::StringSliceAdditionalSpecFns;
use crate::shell::shell_integration::{to_lowercase, unicode_lowercase};
use crate::utils::color::{strip_hashes, hex_pair, hex_value, continuation_byte};

verus! {

#[derive(Debug, Clone, Copy, PartialEq, Eq, Structural)]
pub enum CursorShape {
    Block,
    Underline,
    Beam,
}

#[derive(Debug, Clone, Copy, PartialEq, Eq, Structural)]
pub enum UrlStyle {
    /// No underline (the value `none`).
    Off,
    Curly,
    Single,
    Double,
    Strikethrough,
}

/// The default 16-colour palette (Dracula-like).
pub open spec fn palette_spec() -> Seq<[u8; 3]> {
    seq![
        [0x28u8, 0x29, 0x3f], [0xffu8, 0x55, 0x55], [0x50u8, 0xfa, 0x7b], [0xf1u8, 0xfa, 0x8c],
        [0xbdu8, 0x93, 0xf9], [0xffu8, 0x79, 0xc6], [0x8bu8, 0xe9, 0xfd], [0xf8u8, 0xf8, 0xf2],
        [0x44u8, 0x47, 0x5a], [0xffu8, 0x6e, 0x6e], [0x69u8, 0xff, 0x94], [0xffu8, 0xff, 0xa5],
        [0xd6u8, 0xac, 0xff], [0xffu8, 0x92, 0xdf], [0xa4u8, 0xff, 0xff], [0xffu8, 0xff, 0xff],
    ]
}

pub fn default_palette() -> (p: [[u8; 3]; 16])
    ensures
        p@ == palette_spec(),
{
    let p: [[u8; 3]; 16] = [
        [0x28, 0x29, 0x3f], [0xff, 0x55, 0x55], [0x50, 0xfa, 0x7b], [0xf1, 0xfa, 0x8c],
        [0xbd, 0x93, 0xf9], [0xff, 0x79, 0xc6], [0x8b, 0xe9, 0xfd], [0xf8, 0xf8, 0xf2],
        [0x44, 0x47, 0x5a], [0xff, 0x6e, 0x6e], [0x69, 0xff, 0x94], [0xff, 0xff, 0xa5],
        [0xd6, 0xac, 0xff], [0xff, 0x92, 0xdf], [0xa4, 0xff, 0xff], [0xff, 0xff, 0xff],
    ];
    assert(p@ =~= palette_spec());
    p
}

/// A true value: `yes`, `true`, `1` or `on`, ignoring case.
pub open spec fn bool_word(lower: Seq<char>) -> bool {
    lower == "yes"@ || lower == "true"@ || lower == "1"@ || lower == "on"@
}

/// The text reads as true (see [`bool_word`]).
pub fn parse_bool(s: &str) -> (b: bool)
    ensures
        b == bool_word(unicode_lowercase(s@)),
{
    let lower = to_lowercase(s);
    let l = lower.as_str();
    crate::shell::shell_integration::same_text(l, "yes") || crate::shell::shell_integration::same_text(l, "true")
        || crate::shell::shell_integration::same_text(l, "1") || crate::shell::shell_integration::same_text(l, "on")
}

/// The colour that `#rrggbb` or `#rgb` (any number of leading `#`) denotes; `#rgb`
/// repeats each digit.
pub open spec fn hex_color(s: Seq<u8>) -> Option<[u8; 3]> {
    let t = strip_hashes(s);
    if t.len() == 6 {
        match (hex_pair(t[0], t[1]), hex_pair(t[2], t[3]), hex_pair(t[4], t[5])) {
            (Some(r), Some(g), Some(b)) => Some([r, g, b]),
            _ => None,
        }
    } else if t.len() == 3 {
        match (hex_value(t[0]), hex_value(t[1]), hex_value(t[2])) {
            (Some(r), Some(g), Some(b)) => Some([(r * 17) as u8, (g * 17) as u8, (b * 17) as u8]),
            _ => None,
        }
    } else {
        None
    }
}

/// The slices that `parse_hex_color` takes fall on character boundaries (else the
/// slicing panics); a slice is only taken when the previous ones parsed.
pub open spec fn color_slices_ok(s: Seq<u8>) -> bool {
    let t = strip_hashes(s);
    &&& t.len() == 6 ==> {
        &&& !continuation_byte(t[2])
        &&& hex_pair(t[0], t[1]) is Some ==> !continuation_byte(t[4])
    }
    &&& t.len() == 3 ==> {
        &&& !continuation_byte(t[1])
        &&& hex_value(t[0]) is Some ==> !continuation_byte(t[2])
    }
}

/// Parses `#rrggbb` or `#rgb` (see [`hex_color`]).
pub fn parse_hex_color(s: &str) -> (c: Option<[u8; 3]>)
    requires
        color_slices_ok(s.spec_bytes()),
    ensures
        c == hex_color(s.spec_bytes()),
{
    let b = s.as_bytes();
    let mut start: usize = 0;
    assert(b@.skip(0) =~= b@);
    while start < b.len() && b[start] == 35
        invariant
            start <= b@.len(),
            crate::utils::color::hash_prefix_len(b@) == start + crate::utils::color::hash_prefix_len(b@.skip(start as int)),
        decreases b@.len() - start,
    {
        assert(b@.skip(start as int).drop_first() =~= b@.skip(start + 1));
        start = start + 1;
    }
    let ghost t = strip_hashes(b@);
    assert(t =~= b@.skip(start as int));
    let len = b.len() - start;
    if len == 6 {
        let r = hex_pair_of(b[start], b[start + 1]);
        let g = hex_pair_of(b[start + 2], b[start + 3]);
        let bl = hex_pair_of(b[start + 4], b[start + 5]);
        match (r, g, bl) {
            (Some(r), Some(g), Some(bl)) => Some([r, g, bl]),
            _ => None,
        }
    } else if len == 3 {
        let r = hex_digit_of(b[start]);
        let g = hex_digit_of(b[start + 1]);
        let bl = hex_digit_of(b[start + 2]);
        match (r, g, bl) {
            (Some(r), Some(g), Some(bl)) => Some([r * 17, g * 17, bl * 17]),
            _ => None,
        }
    } else {
        None
    }
}

/// Whether [`parse_hex_color`] can take `s` (see [`color_slices_ok`]).
pub fn color_slices_ok_exec(s: &str) -> (r: bool)
    ensures
        r == color_slices_ok(s.spec_bytes()),
{
    let b = s.as_bytes();
    let mut start: usize = 0;
    assert(b@.skip(0) =~= b@);
    while start < b.len() && b[start] == 35
        invariant
            start <= b@.len(),
            crate::utils::color::hash_prefix_len(b@) == start + crate::utils::color::hash_prefix_len(b@.skip(start as int)),
        decreases b@.len() - start,
    {
        assert(b@.skip(start as int).drop_first() =~= b@.skip(start + 1));
        start = start + 1;
    }
    let ghost t = strip_hashes(b@);
    assert(t =~= b@.skip(start as int));
    let len = b.len() - start;
    if len == 6 {
        let c2 = 128 <= b[start + 2] && b[start + 2] < 192;
        let c4 = 128 <= b[start + 4] && b[start + 4] < 192;
        !c2 && (hex_pair_of(b[start], b[start + 1]).is_none() || !c4)
    } else if len == 3 {
        let c1 = 128 <= b[start + 1] && b[start + 1] < 192;
        let c2 = 128 <= b[start + 2] && b[start + 2] < 192;
        !c1 && (hex_digit_of(b[start]).is_none() || !c2)
    } else {
        true
    }
}

fn hex_digit_of(b: u8) -> (r: Option<u8>)
    ensures
        r == hex_value(b),
        r matches Some(v) ==> v < 16,
{
    if 48 <= b && b <= 57 {
        Some(b - 48)
    } else if 97 <= b && b <= 102 {
        Some(b - 87)
    } else if 65 <= b && b <= 70 {
        Some(b - 55)
    } else {
        None
    }
}

fn hex_pair_of(a: u8, b: u8) -> (r: Option<u8>)
    ensures
        r == hex_pair(a, b),
{
    if a == 43 {
        hex_digit_of(b)
    } else {
        match (hex_digit_of(a), hex_digit_of(b)) {
            (Some(x), Some(y)) => Some(16 * x + y),
            _ => None,
        }
    }
}

/// The cursor shape a configuration value names (`beam`, `underline`, else block).
pub open spec fn cursor_shape_named(lower: Seq<char>) -> CursorShape {
    if lower == "beam"@ {
        CursorShape::Beam
    } else if lower == "underline"@ {
        CursorShape::Underline
    } else {
        CursorShape::Block
    }
}

pub fn parse_cursor_shape(val: &str) -> (c: CursorShape)
    ensures
        c == cursor_shape_named(unicode_lowercase(val@)),
{
    let lower = to_lowercase(val);
    let l = lower.as_str();
    if crate::shell::shell_integration::same_text(l, "beam") {
        CursorShape::Beam
    } else if crate::shell::shell_integration::same_text(l, "underline") {
        CursorShape::Underline
    } else {
        CursorShape::Block
    }
}

/// The URL underline style a configuration value names (default curly).
pub open spec fn url_style_named(lower: Seq<char>) -> UrlStyle {
    if lower == "none"@ {
        UrlStyle::Off
    } else if lower == "curly"@ {
        UrlStyle::Curly
    } else if lower == "single"@ {
        UrlStyle::Single
    } else if lower == "double"@ {
        UrlStyle::Double
    } else if lower == "strikethrough"@ {
        UrlStyle::Strikethrough
    } else {
        UrlStyle::Curly
    }
}

pub fn parse_url_style(val: &str) -> (u: UrlStyle)
    ensures
        u == url_style_named(unicode_lowercase(val@)),
{
    let lower = to_lowercase(val);
    let l = lower.as_str();
    if crate::shell::shell_integration::same_text(l, "none") {
        UrlStyle::Off
    } else if crate::shell::shell_integration::same_text(l, "curly") {
        UrlStyle::Curly
    } else if crate::shell::shell_integration::same_text(l, "single") {
        UrlStyle::Single
    } else if crate::shell::shell_integration::same_text(l, "double") {
        UrlStyle::Double
    } else if crate::shell::shell_integration::same_text(l, "strikethrough") {
        UrlStyle::Strikethrough
    } else {
        UrlStyle::Curly
    }
}


/// Unicode `White_Space` (`char::is_whitespace`).
pub open spec fn ws_char(c: char) -> bool {
    ||| '\t' <= c <= '\r'
    ||| c == ' ' || c == '\u{85}' || c == '\u{a0}' || c == '\u{1680}'
    ||| '\u{2000}' <= c <= '\u{200a}'
    ||| c == '\u{2028}' || c == '\u{2029}' || c == '\u{202f}' || c == '\u{205f}' || c == '\u{3000}'
}

pub(crate) fn is_ws_char(c: char) -> (b: bool)
    ensures
        b == ws_char(c),
{
    ('\t' <= c && c <= '\r') || c == ' ' || c == '\u{85}' || c == '\u{a0}' || c == '\u{1680}'
        || ('\u{2000}' <= c && c <= '\u{200a}') || c == '\u{2028}' || c == '\u{2029}' || c == '\u{202f}'
        || c == '\u{205f}' || c == '\u{3000}'
}

/// Number of leading whitespace characters.
pub open spec fn lead_ws(s: Seq<char>) -> nat
    decreases s.len(),
{
    if s.len() > 0 && ws_char(s[0]) {
        1 + lead_ws(s.drop_first())
    } else {
        0
    }
}

/// Number of trailing whitespace characters.
pub open spec fn trail_ws(s: Seq<char>) -> nat
    decreases s.len(),
{
    if s.len() > 0 && ws_char(s.last()) {
        1 + trail_ws(s.drop_last())
    } else {
        0
    }
}

/// `s` without surrounding whitespace (`str::trim`).
pub open spec fn trim_chars(s: Seq<char>) -> Seq<char> {
    let a = s.skip(lead_ws(s) as int);
    a.take(a.len() - trail_ws(a))
}

/// Index of the first `a` or `b` in `s`.
pub open spec fn first_of(s: Seq<char>, a: char, b: char) -> Option<int>
    decreases s.len(),
{
    if s.len() == 0 {
        None
    } else if s[0] == a || s[0] == b {
        Some(0)
    } else {
        match first_of(s.drop_first(), a, b) {
            Some(i) => Some(i + 1),
            None => None,
        }
    }
}

/// A `#` at `i` that follows whitespace starts an inline comment.
pub open spec fn comment_at(s: Seq<char>, i: int) -> bool {
    1 <= i < s.len() && s[i] == '#' && ws_char(s[i - 1])
}

/// Index of the first inline comment of `s` at or after `i`.
pub open spec fn comment_from(s: Seq<char>, i: int) -> Option<int>
    decreases s.len() - i,
{
    if i < 0 || i >= s.len() {
        None
    } else if comment_at(s, i) {
        Some(i)
    } else {
        comment_from(s, i + 1)
    }
}

/// One configuration line as `(key, value)`: blank lines and `#` comments give
/// nothing; the key ends at the first space or tab; the value is the rest up to
/// an inline comment (a `#` after whitespace, so that `#rrggbb` colours stay),
/// trimmed, and must not be empty.
pub open spec fn conf_line(line: Seq<char>) -> Option<(Seq<char>, Seq<char>)> {
    let t = trim_chars(line);
    if t.len() == 0 || t[0] == '#' {
        None
    } else {
        match first_of(t, ' ', '\t') {
            None => None,
            Some(p) => {
                let key = trim_chars(t.take(p));
                let rest = trim_chars(t.skip(p + 1));
                let before = match comment_from(rest, 1) {
                    Some(h) => rest.take(h),
                    None => rest,
                };
                let val = trim_chars(before);
                if val.len() == 0 {
                    None
                } else {
                    Some((key, val))
                }
            },
        }
    }
}

/// The lines of `s` (pieces between `\n`).
pub open spec fn conf_lines(s: Seq<char>) -> Seq<Seq<char>>
    decreases s.len(),
{
    match first_of(s, '\n', '\n') {
        Some(i) => if 0 <= i < s.len() {
            seq![s.take(i)] + conf_lines(s.skip(i + 1))
        } else {
            seq![s]
        },
        None => seq![s],
    }
}

/// The entries of the lines, in order.
pub open spec fn entries_of(lines: Seq<Seq<char>>) -> Seq<(Seq<char>, Seq<char>)>
    decreases lines.len(),
{
    if lines.len() == 0 {
        Seq::empty()
    } else {
        match conf_line(lines.last()) {
            Some(e) => entries_of(lines.drop_last()).push(e),
            None => entries_of(lines.drop_last()),
        }
    }
}

proof fn lemma_lead_ws_step(s: Seq<char>, i: int)
    requires
        0 <= i < s.len(),
        ws_char(s[i]),
    ensures
        lead_ws(s.skip(i)) == 1 + lead_ws(s.skip(i + 1)),
{
    assert(s.skip(i).drop_first() =~= s.skip(i + 1));
}

proof fn lemma_trail_ws_step(s: Seq<char>, j: int)
    requires
        0 < j <= s.len(),
        ws_char(s[j - 1]),
    ensures
        trail_ws(s.take(j)) == 1 + trail_ws(s.take(j - 1)),
{
    assert(s.take(j).drop_last() =~= s.take(j - 1));
}

/// Bounds of `s[from..to]` trimmed.
pub(crate) fn trim_span(s: &Vec<char>, from: usize, to: usize) -> (r: (usize, usize))
    requires
        from <= to <= s@.len(),
    ensures
        from <= r.0 <= r.1 <= to,
        s@.subrange(r.0 as int, r.1 as int) == trim_chars(s@.subrange(from as int, to as int)),
{
    let ghost t = s@.subrange(from as int, to as int);
    let mut a = from;
    assert(t.skip(0) =~= t);
    while a < to && is_ws_char(s[a])
        invariant
            from <= a <= to <= s@.len(),
            t == s@.subrange(from as int, to as int),
            lead_ws(t) == (a - from) + lead_ws(t.skip(a - from)),
        decreases to - a,
    {
        proof {
            lemma_lead_ws_step(t, a - from);
        }
        a = a + 1;
    }
    proof {
        if a < to {
            assert(t.skip(a - from)[0] == s@[a as int]);
        }
    }
    let ghost u = t.skip(lead_ws(t) as int);
    assert(u =~= s@.subrange(a as int, to as int));
    let mut b = to;
    assert(u.take(u.len() as int) =~= u);
    while b > a && is_ws_char(s[b - 1])
        invariant
            from <= a <= b <= to <= s@.len(),
            u == s@.subrange(a as int, to as int),
            trail_ws(u) == (to - b) + trail_ws(u.take(b - a)),
        decreases b - a,
    {
        proof {
            lemma_trail_ws_step(u, b - a);
        }
        b = b - 1;
    }
    proof {
        if b > a {
            assert(u.take(b - a).last() == s@[b - 1]);
        }
    }
    assert(u.take(u.len() - trail_ws(u)) =~= s@.subrange(a as int, b as int));
    (a, b)
}

/// Index of the first `x` or `y` in `s[from..to]`, counted from `from`.
pub(crate) fn find_either(s: &Vec<char>, from: usize, to: usize, x: char, y: char) -> (r: Option<usize>)
    requires
        from <= to <= s@.len(),
    ensures
        match r {
            Some(i) => first_of(s@.subrange(from as int, to as int), x, y) == Some(i as int) && from + i < to,
            None => first_of(s@.subrange(from as int, to as int), x, y) is None,
        },
{
    let ghost t = s@.subrange(from as int, to as int);
    let mut i = from;
    assert(t.skip(0) =~= t);
    while i < to
        invariant
            from <= i <= to <= s@.len(),
            t == s@.subrange(from as int, to as int),
            first_of(t, x, y) == match first_of(t.skip(i - from), x, y) {
                Some(k) => Some(k + (i - from)),
                None => None,
            },
        decreases to - i,
    {
        if s[i] == x || s[i] == y {
            assert(t.skip(i - from)[0] == s@[i as int]);
            return Some(i - from);
        }
        assert(t.skip(i - from).drop_first() =~= t.skip(i - from + 1));
        i = i + 1;
    }
    None
}

/// Index (from `from`) of the first inline comment of `s[from..to]` (see [`comment_from`]).
fn find_comment(s: &Vec<char>, from: usize, to: usize) -> (r: Option<usize>)
    requires
        from <= to <= s@.len(),
    ensures
        match r {
            Some(i) => comment_from(s@.subrange(from as int, to as int), 1) == Some(i as int) && from + i < to,
            None => comment_from(s@.subrange(from as int, to as int), 1) is None,
        },
{
    let ghost t = s@.subrange(from as int, to as int);
    if from == to {
        return None;
    }
    let mut i = from + 1;
    while i < to
        invariant
            from + 1 <= i <= to <= s@.len(),
            t == s@.subrange(from as int, to as int),
            comment_from(t, 1) == comment_from(t, i - from),
        decreases to - i,
    {
        if s[i] == '#' && is_ws_char(s[i - 1]) {
            assert(comment_at(t, i - from));
            return Some(i - from);
        }
        assert(!comment_at(t, i - from));
        i = i + 1;
    }
    None
}

/// A string holding `s[from..to]`.
pub(crate) fn chars_text(s: &Vec<char>, from: usize, to: usize) -> (r: String)
    requires
        from <= to <= s@.len(),
    ensures
        r@ == s@.subrange(from as int, to as int),
{
    let mut r = String::new();
    let mut i = from;
    while i < to
        invariant
            from <= i <= to <= s@.len(),
            r@ == s@.subrange(from as int, i as int),
        decreases to - i,
    {
        r.push(s[i]);
        i = i + 1;
        assert(r@ =~= s@.subrange(from as int, i as int));
    }
    r
}

/// The entry of line `s[from..to]` (see [`conf_line`]).
fn line_entry(s: &Vec<char>, from: usize, to: usize) -> (r: Option<(String, String)>)
    requires
        from <= to <= s@.len(),
    ensures
        match r {
            Some((k, v)) => conf_line(s@.subrange(from as int, to as int)) == Some((k@, v@)),
            None => conf_line(s@.subrange(from as int, to as int)) is None,
        },
{
    let ghost line = s@.subrange(from as int, to as int);
    let (a, b) = trim_span(s, from, to);
    let ghost t = trim_chars(line);
    if a == b || s[a] == '#' {
        return None;
    }
    assert(t[0] == s@[a as int]);
    match find_either(s, a, b, ' ', '\t') {
        None => None,
        Some(p) => {
            assert(t.take(p as int) =~= s@.subrange(a as int, (a + p) as int));
            assert(t.skip(p + 1) =~= s@.subrange((a + p + 1) as int, b as int));
            let (k0, k1) = trim_span(s, a, a + p);
            let (r0, r1) = trim_span(s, a + p + 1, b);
            let ghost rest = trim_chars(t.skip(p + 1));
            assert(s@.subrange(r0 as int, r1 as int) == rest);
            let end = match find_comment(s, r0, r1) {
                Some(h) => {
                    assert(rest.take(h as int) =~= s@.subrange(r0 as int, (r0 + h) as int));
                    r0 + h
                },
                None => r1,
            };
            let (v0, v1) = trim_span(s, r0, end);
            if v0 == v1 {
                return None;
            }
            Some((chars_text(s, k0, k1), chars_text(s, v0, v1)))
        },
    }
}

/// The `(key, value)` entries of a configuration text, in order.
pub fn parse_conf_entries(content: &str) -> (r: Vec<(String, String)>)
    ensures
        r@.len() == entries_of(conf_lines(content@)).len(),
        forall|i: int| 0 <= i < r@.len() ==> (#[trigger] r@[i]).0@ == entries_of(conf_lines(content@))[i].0
            && r@[i].1@ == entries_of(conf_lines(content@))[i].1,
{
    let mut cs: Vec<char> = Vec::new();
    for c in it: content.chars()
        invariant
            it.seq() == content@,
            cs@ == content@.take(it.index() as int),
    {
        cs.push(c);
        assert(cs@ =~= content@.take(it.index() + 1));
    }
    assert(cs@ =~= content@);
    let ghost all = cs@;
    let mut out: Vec<(String, String)> = Vec::new();
    let mut start: usize = 0;
    let ghost mut done: Seq<Seq<char>> = Seq::empty();
    assert(all.skip(0) =~= all);
    loop
        invariant
            start <= all.len(),
            all == cs@,
            all == content@,
            done + conf_lines(all.skip(start as int)) == conf_lines(all),
            out@.len() == entries_of(done).len(),
            forall|i: int| 0 <= i < out@.len() ==> (#[trigger] out@[i]).0@ == entries_of(done)[i].0
                && out@[i].1@ == entries_of(done)[i].1,
        decreases all.len() - start,
    {
        let n = cs.len();
        let rest_end = match find_either(&cs, start, n, '\n', '\n') {
            Some(i) => start + i,
            None => n,
        };
        let ghost rest = all.skip(start as int);
        assert(rest =~= all.subrange(start as int, n as int));
        assert(rest.take(rest_end - start) =~= all.subrange(start as int, rest_end as int));
        let e = line_entry(&cs, start, rest_end);
        let ghost line = all.subrange(start as int, rest_end as int);
        let ghost prev_out = out@;
        let ghost prev_done = done;
        match e {
            Some(kv) => {
                out.push(kv);
            },
            None => {},
        }
        proof {
            done = done.push(line);
            assert(done.drop_last() =~= prev_done);
            assert(done.last() == line);
            assert(out@.len() == entries_of(done).len());
            assert forall|i: int| 0 <= i < out@.len() implies (#[trigger] out@[i]).0@ == entries_of(done)[i].0
                && out@[i].1@ == entries_of(done)[i].1 by {
                if i < prev_out.len() {
                    assert(out@[i] == prev_out[i]);
                }
            }
        }
        if rest_end == n {
            proof {
                assert(conf_lines(rest) == seq![line]);
                assert(done =~= conf_lines(all));
            }
            return out;
        }
        proof {
            assert(rest.skip(rest_end - start + 1) =~= all.skip(rest_end + 1));
            assert(conf_lines(rest) == seq![line] + conf_lines(all.skip(rest_end + 1)));
            assert(done + conf_lines(all.skip(rest_end + 1)) =~= prev_done + conf_lines(rest));
        }
        start = rest_end + 1;
    }
}

/// The first character of `s`, if any.
fn first_char(s: &str) -> (c: Option<char>)
    ensures
        c == (if s@.len() > 0 { Some(s@[0]) } else { None::<char> }),
{
    let mut first: Option<char> = None;
    for c in it: s.chars()
        invariant
            it.seq() == s@,
            it.index() > 0 ==> first == Some(s@[0]),
            it.index() == 0 ==> first is None,
    {
        if first.is_none() {
            first = Some(c);
        }
    }
    first
}

/// Where a shell named `name` is looked for, in order: nowhere when the name is an
/// absolute path (it is used as it is), else `/usr/bin`, `/usr/local/bin`, `/bin`.
pub fn shell_candidates(name: &str) -> (r: Vec<String>)
    ensures
        name@.len() > 0 && name@[0] == '/' ==> r@.len() == 0,
        !(name@.len() > 0 && name@[0] == '/') ==> {
            &&& r@.len() == 3
            &&& r@[0]@ == "/usr/bin/"@ + name@
            &&& r@[1]@ == "/usr/local/bin/"@ + name@
            &&& r@[2]@ == "/bin/"@ + name@
        },
{
    let mut r: Vec<String> = Vec::new();
    match first_char(name) {
        Some(c) => {
            if c == '/' {
                return r;
            }
        },
        None => {},
    }
    let mut a = "/usr/bin/".to_owned();
    a.push_str(name);
    let mut b = "/usr/local/bin/".to_owned();
    b.push_str(name);
    let mut c = "/bin/".to_owned();
    c.push_str(name);
    r.push(a);
    r.push(b);
    r.push(c);
    r
}
} // verus!
