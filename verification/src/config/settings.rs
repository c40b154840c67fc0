//! The configuration settings that need no floating point, and what one
//! `key value` entry of the configuration file does to them.
use vstd::prelude::*;
use vstd::string::StringSliceAdditionalSpecFns;
use crate::config::config::{
    CursorShape, UrlStyle, palette_spec, default_palette, bool_word, parse_bool, hex_color,
    color_slices_ok, color_slices_ok_exec, parse_hex_color, cursor_shape_named, parse_cursor_shape, url_style_named,
    parse_url_style, ws_char, lead_ws, is_ws_char, chars_text,
};
use crate::shell::shell_integration::{same_text, unicode_lowercase};
use crate::text::{parse_unsigned, parse_unsigned_exec, parse_usize_exec, copy_range, decimal, lemma_parse_decimal};
use crate::utils::color::{hex_text, hex_digit, hex_value, hash_prefix_len, strip_hashes, lemma_hex_byte};

verus! {

/// Abstract state of [`Settings`]: its fields, texts as character sequences.
pub struct SettingsModel {
    pub font_family: Seq<char>,
    pub bold_font: Seq<char>,
    pub italic_font: Seq<char>,
    pub bold_italic_font: Seq<char>,
    pub font_size: u32,
    pub bold_is_bright: bool,
    pub cursor_shape: CursorShape,
    pub cursor_color: Option<[u8; 3]>,
    pub cursor_text_color: Option<[u8; 3]>,
    pub initial_window_width: u32,
    pub initial_window_height: u32,
    pub foreground: [u8; 3],
    pub background: [u8; 3],
    pub selection_foreground: Option<[u8; 3]>,
    pub selection_background: [u8; 3],
    pub color_palette: Seq<[u8; 3]>,
    pub scrollback_lines: usize,
    pub url_color: [u8; 3],
    pub url_style: UrlStyle,
    pub enable_audio_bell: bool,
}

/// The settings of the configuration file that take no fractional value.
#[derive(Clone, Debug)]
pub struct Settings {
    pub font_family: String,
    pub bold_font: String,
    pub italic_font: String,
    pub bold_italic_font: String,
    pub font_size: u32,
    pub bold_is_bright: bool,
    pub cursor_shape: CursorShape,
    pub cursor_color: Option<[u8; 3]>,
    pub cursor_text_color: Option<[u8; 3]>,
    pub initial_window_width: u32,
    pub initial_window_height: u32,
    pub foreground: [u8; 3],
    pub background: [u8; 3],
    pub selection_foreground: Option<[u8; 3]>,
    pub selection_background: [u8; 3],
    pub color_palette: [[u8; 3]; 16],
    pub scrollback_lines: usize,
    pub url_color: [u8; 3],
    pub url_style: UrlStyle,
    pub enable_audio_bell: bool,
}

impl View for Settings {
    type V = SettingsModel;

    open spec fn view(&self) -> SettingsModel {
        SettingsModel {
            font_family: self.font_family@,
            bold_font: self.bold_font@,
            italic_font: self.italic_font@,
            bold_italic_font: self.bold_italic_font@,
            font_size: self.font_size,
            bold_is_bright: self.bold_is_bright,
            cursor_shape: self.cursor_shape,
            cursor_color: self.cursor_color,
            cursor_text_color: self.cursor_text_color,
            initial_window_width: self.initial_window_width,
            initial_window_height: self.initial_window_height,
            foreground: self.foreground,
            background: self.background,
            selection_foreground: self.selection_foreground,
            selection_background: self.selection_background,
            color_palette: self.color_palette@,
            scrollback_lines: self.scrollback_lines,
            url_color: self.url_color,
            url_style: self.url_style,
            enable_audio_bell: self.enable_audio_bell,
        }
    }
}

/// What applying an entry did, and what is left to the caller.
#[derive(Debug, Clone, Copy, PartialEq, Eq, Structural)]
pub enum SettingKind {
    /// The entry changed (or deliberately kept) a setting here.
    Applied,
    /// The `shell` key: the caller resolves [`shell_word`] of the value.
    Shell,
    /// A key whose value is fractional; the caller parses it.
    Fractional,
    /// A key this terminal does not know; ignored.
    Unknown,
}

/// The keys whose values are fractional numbers.
pub open spec fn fractional_key(k: Seq<char>) -> bool {
    ||| k == "letter_spacing"@
    ||| k == "cursor_beam_thickness"@
    ||| k == "cursor_underline_thickness"@
    ||| k == "cursor_blink_interval"@
    ||| k == "cursor_stop_blinking_after"@
    ||| k == "background_opacity"@
    ||| k == "window_padding_width"@
    ||| k == "mouse_hide_wait"@
}

/// The bytes of `color`.
pub open spec fn color_prefix() -> Seq<u8> {
    seq![99u8, 111, 108, 111, 114]
}

/// The palette slot that a key `color<n>` names, for `n` below 16.
pub open spec fn palette_slot(kb: Seq<u8>) -> Option<int> {
    if kb.len() >= 5 && kb.take(5) == color_prefix() {
        match parse_unsigned(kb.skip(5), usize::MAX as nat) {
            Some(n) => if n < 16 { Some(n as int) } else { None },
            None => None,
        }
    } else {
        None
    }
}

/// The keys whose value is parsed as a colour.
pub open spec fn color_key(kc: Seq<char>, kb: Seq<u8>) -> bool {
    ||| kc == "cursor"@
    ||| kc == "cursor_text_color"@
    ||| kc == "foreground"@
    ||| kc == "background"@
    ||| kc == "selection_foreground"@
    ||| kc == "selection_background"@
    ||| kc == "url_color"@
    ||| palette_slot(kb) is Some
}

/// The entry's colour value parses without slicing inside a character, which
/// the colour parser needs (see [`color_slices_ok`]).
pub open spec fn entry_ok(kc: Seq<char>, kb: Seq<u8>, vb: Seq<u8>) -> bool {
    color_key(kc, kb) ==> color_slices_ok(vb)
}

/// A `u32` value, or `dflt` when the text is no `u32`.
pub open spec fn u32_or(vb: Seq<u8>, dflt: u32) -> u32 {
    match parse_unsigned(vb, u32::MAX as nat) {
        Some(n) => n as u32,
        None => dflt,
    }
}

/// Entry `key value` (key as characters `kc` and bytes `kb`, value as characters
/// `vc` and bytes `vb`) applied to `m`: texts are taken as they are, numbers
/// that do not parse keep the old size or fall back to a default, colours that
/// do not parse leave a required colour unchanged and clear an optional one,
/// and `color0` to `color15` set the palette.
pub open spec fn setting_applied(
    m: SettingsModel,
    kc: Seq<char>,
    kb: Seq<u8>,
    vc: Seq<char>,
    vb: Seq<u8>,
) -> (SettingsModel, SettingKind) {
    let lower = unicode_lowercase(vc);
    if kc == "font_family"@ {
        (SettingsModel { font_family: vc, ..m }, SettingKind::Applied)
    } else if kc == "bold_font"@ {
        (SettingsModel { bold_font: vc, ..m }, SettingKind::Applied)
    } else if kc == "italic_font"@ {
        (SettingsModel { italic_font: vc, ..m }, SettingKind::Applied)
    } else if kc == "bold_italic_font"@ {
        (SettingsModel { bold_italic_font: vc, ..m }, SettingKind::Applied)
    } else if kc == "font_size"@ {
        (SettingsModel { font_size: u32_or(vb, m.font_size), ..m }, SettingKind::Applied)
    } else if kc == "bold_is_bright"@ {
        (SettingsModel { bold_is_bright: bool_word(lower), ..m }, SettingKind::Applied)
    } else if kc == "cursor"@ {
        (SettingsModel { cursor_color: hex_color(vb), ..m }, SettingKind::Applied)
    } else if kc == "cursor_text_color"@ {
        (SettingsModel { cursor_text_color: hex_color(vb), ..m }, SettingKind::Applied)
    } else if kc == "cursor_shape"@ {
        (SettingsModel { cursor_shape: cursor_shape_named(lower), ..m }, SettingKind::Applied)
    } else if kc == "initial_window_width"@ {
        (SettingsModel { initial_window_width: u32_or(vb, 800), ..m }, SettingKind::Applied)
    } else if kc == "initial_window_height"@ {
        (SettingsModel { initial_window_height: u32_or(vb, 600), ..m }, SettingKind::Applied)
    } else if kc == "foreground"@ {
        (SettingsModel { foreground: match hex_color(vb) { Some(c) => c, None => m.foreground }, ..m }, SettingKind::Applied)
    } else if kc == "background"@ {
        (SettingsModel { background: match hex_color(vb) { Some(c) => c, None => m.background }, ..m }, SettingKind::Applied)
    } else if kc == "selection_foreground"@ {
        (SettingsModel { selection_foreground: hex_color(vb), ..m }, SettingKind::Applied)
    } else if kc == "selection_background"@ {
        (
            SettingsModel {
                selection_background: match hex_color(vb) { Some(c) => c, None => m.selection_background },
                ..m
            },
            SettingKind::Applied,
        )
    } else if kb.len() >= 5 && kb.take(5) == color_prefix() {
        match palette_slot(kb) {
            Some(n) => match hex_color(vb) {
                Some(c) => (SettingsModel { color_palette: m.color_palette.update(n, c), ..m }, SettingKind::Applied),
                None => (m, SettingKind::Applied),
            },
            None => (m, SettingKind::Applied),
        }
    } else if kc == "shell"@ {
        (m, SettingKind::Shell)
    } else if kc == "scrollback_lines"@ {
        (
            SettingsModel {
                scrollback_lines: match parse_unsigned(vb, usize::MAX as nat) {
                    Some(n) => n as usize,
                    None => 10000,
                },
                ..m
            },
            SettingKind::Applied,
        )
    } else if kc == "url_color"@ {
        (SettingsModel { url_color: match hex_color(vb) { Some(c) => c, None => m.url_color }, ..m }, SettingKind::Applied)
    } else if kc == "url_style"@ {
        (SettingsModel { url_style: url_style_named(lower), ..m }, SettingKind::Applied)
    } else if kc == "enable_audio_bell"@ {
        (SettingsModel { enable_audio_bell: bool_word(lower), ..m }, SettingKind::Applied)
    } else if fractional_key(kc) {
        (m, SettingKind::Fractional)
    } else {
        (m, SettingKind::Unknown)
    }
}

/// The defaults of the settings.
pub open spec fn default_settings() -> SettingsModel {
    SettingsModel {
        font_family: "JetBrains Mono Nerd Font"@,
        bold_font: "auto"@,
        italic_font: "auto"@,
        bold_italic_font: "auto"@,
        font_size: 12,
        bold_is_bright: false,
        cursor_shape: CursorShape::Beam,
        cursor_color: None,
        cursor_text_color: Some([0x11u8, 0x11, 0x11]),
        initial_window_width: 800,
        initial_window_height: 600,
        foreground: [0xf8u8, 0xf8, 0xf2],
        background: [0x1eu8, 0x1f, 0x29],
        selection_foreground: None,
        selection_background: [0x44u8, 0x47, 0x5a],
        color_palette: palette_spec(),
        scrollback_lines: 10000,
        url_color: [0x00u8, 0x87, 0xbd],
        url_style: UrlStyle::Curly,
        enable_audio_bell: false,
    }
}

/// Number of leading characters that are not whitespace.
pub open spec fn word_chars(s: Seq<char>) -> nat
    decreases s.len(),
{
    if s.len() > 0 && !ws_char(s[0]) {
        1 + word_chars(s.drop_first())
    } else {
        0
    }
}

/// The first whitespace-separated word of `s` (`split_whitespace`), or `s`
/// itself when it holds none.
pub open spec fn shell_word(s: Seq<char>) -> Seq<char> {
    let rest = s.skip(lead_ws(s) as int);
    if rest.len() == 0 { s } else { rest.take(word_chars(rest) as int) }
}

/// The shell program named by the value of the `shell` key (see [`shell_word`]).
pub fn shell_word_of(val: &str) -> (r: String)
    ensures
        r@ == shell_word(val@),
{
    let mut cs: Vec<char> = Vec::new();
    for c in it: val.chars()
        invariant
            it.seq() == val@,
            cs@ == val@.take(it.index() as int),
    {
        cs.push(c);
        assert(cs@ =~= val@.take(it.index() + 1));
    }
    assert(cs@ =~= val@);
    let ghost s = cs@;
    let mut a: usize = 0;
    assert(s.skip(0) =~= s);
    while a < cs.len() && is_ws_char(cs[a])
        invariant
            a <= s.len(),
            s == cs@,
            lead_ws(s) == a + lead_ws(s.skip(a as int)),
        decreases s.len() - a,
    {
        assert(s.skip(a as int).drop_first() =~= s.skip(a + 1));
        a = a + 1;
    }
    proof {
        if a < s.len() {
            assert(s.skip(a as int)[0] == s[a as int]);
        }
    }
    if a == cs.len() {
        return chars_text(&cs, 0, cs.len());
    }
    let ghost rest = s.skip(a as int);
    let mut b: usize = a;
    assert(rest.skip(0) =~= rest);
    while b < cs.len() && !is_ws_char(cs[b])
        invariant
            a <= b <= s.len(),
            s == cs@,
            rest == s.skip(a as int),
            word_chars(rest) == (b - a) + word_chars(rest.skip(b - a)),
        decreases s.len() - b,
    {
        assert(rest.skip(b - a).drop_first() =~= rest.skip(b - a + 1));
        b = b + 1;
    }
    proof {
        if b < s.len() {
            assert(rest.skip(b - a)[0] == s[b as int]);
        }
    }
    assert(rest.take((b - a) as int) =~= s.subrange(a as int, b as int));
    chars_text(&cs, a, b)
}

/// The palette slot of a `color…` key (see [`palette_slot`]).
fn palette_slot_of(kb: &[u8]) -> (r: Option<usize>)
    ensures
        match r {
            Some(n) => palette_slot(kb@) == Some(n as int),
            None => palette_slot(kb@) is None,
        },
{
    if kb.len() < 5 || kb[0] != 99 || kb[1] != 111 || kb[2] != 108 || kb[3] != 111 || kb[4] != 114 {
        proof {
            if kb@.len() >= 5 && kb@.take(5) == color_prefix() {
                assert(kb@.take(5)[1] == kb@[1]);
                assert(kb@.take(5)[2] == kb@[2]);
                assert(kb@.take(5)[3] == kb@[3]);
                assert(kb@.take(5)[4] == kb@[4]);
                assert(kb@.take(5)[0] == kb@[0]);
            }
        }
        return None;
    }
    assert(kb@.take(5) =~= color_prefix());
    let rest = copy_range(kb, 5, kb.len());
    assert(rest@ =~= kb@.skip(5));
    match parse_unsigned_exec(rest.as_slice(), 0xFFFF_FFFF) {
        Some(n) => if n < 16 { Some(n as usize) } else { None },
        None => None,
    }
}

/// Whether [`Settings::apply_setting`] can take the entry (see [`entry_ok`]).
pub fn entry_ok_exec(key: &str, val: &str) -> (r: bool)
    ensures
        r == entry_ok(key@, key.spec_bytes(), val.spec_bytes()),
{
    let colour = same_text(key, "cursor") || same_text(key, "cursor_text_color") || same_text(key, "foreground")
        || same_text(key, "background") || same_text(key, "selection_foreground")
        || same_text(key, "selection_background") || same_text(key, "url_color")
        || palette_slot_of(key.as_bytes()).is_some();
    !colour || color_slices_ok_exec(val)
}

impl Settings {
    /// The default settings (see [`default_settings`]).
    pub fn new() -> (s: Self)
        ensures
            s@ == default_settings(),
    {
        Settings {
            font_family: "JetBrains Mono Nerd Font".to_owned(),
            bold_font: "auto".to_owned(),
            italic_font: "auto".to_owned(),
            bold_italic_font: "auto".to_owned(),
            font_size: 12,
            bold_is_bright: false,
            cursor_shape: CursorShape::Beam,
            cursor_color: None,
            cursor_text_color: Some([0x11, 0x11, 0x11]),
            initial_window_width: 800,
            initial_window_height: 600,
            foreground: [0xf8, 0xf8, 0xf2],
            background: [0x1e, 0x1f, 0x29],
            selection_foreground: None,
            selection_background: [0x44, 0x47, 0x5a],
            color_palette: default_palette(),
            scrollback_lines: 10000,
            url_color: [0x00, 0x87, 0xbd],
            url_style: UrlStyle::Curly,
            enable_audio_bell: false,
        }
    }

    /// Applies the entry `key val` (see [`setting_applied`]).
    pub fn apply_setting(&mut self, key: &str, val: &str) -> (k: SettingKind)
        requires
            entry_ok(key@, key.spec_bytes(), val.spec_bytes()),
        ensures
            (final(self)@, k) == setting_applied(old(self)@, key@, key.spec_bytes(), val@, val.spec_bytes()),
    {
        let vb = val.as_bytes();
        let kb = key.as_bytes();
        let is_color_key = kb.len() >= 5 && kb[0] == 99 && kb[1] == 111 && kb[2] == 108 && kb[3] == 111
            && kb[4] == 114;
        proof {
            if kb@.len() >= 5 {
                assert(kb@.take(5) =~= seq![kb@[0], kb@[1], kb@[2], kb@[3], kb@[4]]);
            }
            assert(is_color_key == (kb@.len() >= 5 && kb@.take(5) == color_prefix()));
        }
        if same_text(key, "font_family") {
            self.font_family = val.to_owned();
        } else if same_text(key, "bold_font") {
            self.bold_font = val.to_owned();
        } else if same_text(key, "italic_font") {
            self.italic_font = val.to_owned();
        } else if same_text(key, "bold_italic_font") {
            self.bold_italic_font = val.to_owned();
        } else if same_text(key, "font_size") {
            if let Some(n) = parse_unsigned_exec(vb, 0xFFFF_FFFF) {
                self.font_size = n as u32;
            }
        } else if same_text(key, "bold_is_bright") {
            self.bold_is_bright = parse_bool(val);
        } else if same_text(key, "cursor") {
            self.cursor_color = parse_hex_color(val);
        } else if same_text(key, "cursor_text_color") {
            self.cursor_text_color = parse_hex_color(val);
        } else if same_text(key, "cursor_shape") {
            self.cursor_shape = parse_cursor_shape(val);
        } else if same_text(key, "initial_window_width") {
            self.initial_window_width = match parse_unsigned_exec(vb, 0xFFFF_FFFF) {
                Some(n) => n as u32,
                None => 800,
            };
        } else if same_text(key, "initial_window_height") {
            self.initial_window_height = match parse_unsigned_exec(vb, 0xFFFF_FFFF) {
                Some(n) => n as u32,
                None => 600,
            };
        } else if same_text(key, "foreground") {
            if let Some(c) = parse_hex_color(val) {
                self.foreground = c;
            }
        } else if same_text(key, "background") {
            if let Some(c) = parse_hex_color(val) {
                self.background = c;
            }
        } else if same_text(key, "selection_foreground") {
            self.selection_foreground = parse_hex_color(val);
        } else if same_text(key, "selection_background") {
            if let Some(c) = parse_hex_color(val) {
                self.selection_background = c;
            }
        } else if is_color_key {
            if let Some(n) = palette_slot_of(kb) {
                if let Some(c) = parse_hex_color(val) {
                    self.color_palette[n] = c;
                    assert(self.color_palette@ =~= old(self)@.color_palette.update(n as int, c));
                }
            }
        } else if same_text(key, "shell") {
            return SettingKind::Shell;
        } else if same_text(key, "scrollback_lines") {
            self.scrollback_lines = match parse_usize_exec(vb) {
                Some(n) => n,
                None => 10000,
            };
        } else if same_text(key, "url_color") {
            if let Some(c) = parse_hex_color(val) {
                self.url_color = c;
            }
        } else if same_text(key, "url_style") {
            self.url_style = parse_url_style(val);
        } else if same_text(key, "enable_audio_bell") {
            self.enable_audio_bell = parse_bool(val);
        } else if same_text(key, "letter_spacing") || same_text(key, "cursor_beam_thickness")
            || same_text(key, "cursor_underline_thickness") || same_text(key, "cursor_blink_interval")
            || same_text(key, "cursor_stop_blinking_after") || same_text(key, "background_opacity")
            || same_text(key, "window_padding_width") || same_text(key, "mouse_hide_wait") {
            return SettingKind::Fractional;
        } else {
            return SettingKind::Unknown;
        }
        SettingKind::Applied
    }
}

/// Law: an entry sets values rather than stepping them, so repeating an entry
/// changes nothing more.
pub proof fn law_setting_idempotent(m: SettingsModel, kc: Seq<char>, kb: Seq<u8>, vc: Seq<char>, vb: Seq<u8>)
    requires
        m.color_palette.len() == 16,
    ensures
        setting_applied(setting_applied(m, kc, kb, vc, vb).0, kc, kb, vc, vb) == setting_applied(m, kc, kb, vc, vb),
{
    if let Some(n) = palette_slot(kb) {
        if let Some(c) = hex_color(vb) {
            assert(m.color_palette.update(n, c).update(n, c) =~= m.color_palette.update(n, c));
        }
    }
}

/// The value of an entry sets its setting on its own: a number that parses
/// for `font_size` (whose fallback is the old size) and a colour that parses for
/// the colours that keep their old value otherwise; any value for other keys.
pub open spec fn value_stands_alone(kc: Seq<char>, kb: Seq<u8>, vb: Seq<u8>) -> bool {
    &&& kc == "font_size"@ ==> parse_unsigned(vb, u32::MAX as nat) is Some
    &&& (kc == "foreground"@ || kc == "background"@ || kc == "selection_background"@ || kc == "url_color"@
        || palette_slot(kb) is Some) ==> hex_color(vb) is Some
}

/// Law: as in kitty.conf, a later entry for a key overrides an earlier one
/// whenever its value sets the setting on its own.
#[verifier::rlimit(80)]
pub proof fn law_later_entry_wins(
    m: SettingsModel,
    kc: Seq<char>,
    kb: Seq<u8>,
    v1c: Seq<char>,
    v1b: Seq<u8>,
    v2c: Seq<char>,
    v2b: Seq<u8>,
)
    requires
        m.color_palette.len() == 16,
        value_stands_alone(kc, kb, v2b),
    ensures
        setting_applied(setting_applied(m, kc, kb, v1c, v1b).0, kc, kb, v2c, v2b) == setting_applied(m, kc, kb, v2c, v2b),
{
    if let Some(n) = palette_slot(kb) {
        if let Some(c2) = hex_color(v2b) {
            if let Some(c1) = hex_color(v1b) {
                assert(m.color_palette.update(n, c1).update(n, c2) =~= m.color_palette.update(n, c2));
            }
        }
    }
}


/// Law: the colour settings. `#rrggbb` (and the short `#rgb`, each digit doubled)
/// reads as that colour; `foreground`, `background` and `selection_background` take
/// it, `cursor`, `cursor_text_color` and `selection_foreground` take it as their
/// optional colour, and nothing else changes.
pub proof fn law_colour_settings(m: SettingsModel, kb: Seq<u8>, vc: Seq<char>, r: u8, g: u8, b: u8)
    ensures
        hex_color(hex_text(r, g, b)) == Some([r, g, b]),
        r < 16 && g < 16 && b < 16 ==> hex_color(seq![35u8, hex_digit(r), hex_digit(g), hex_digit(b)]) == Some(
            [(r * 17) as u8, (g * 17) as u8, (b * 17) as u8],
        ),
        setting_applied(m, "foreground"@, kb, vc, hex_text(r, g, b)).0 == (SettingsModel { foreground: [r, g, b], ..m }),
        setting_applied(m, "background"@, kb, vc, hex_text(r, g, b)).0 == (SettingsModel { background: [r, g, b], ..m }),
        setting_applied(m, "selection_background"@, kb, vc, hex_text(r, g, b)).0 == (SettingsModel {
            selection_background: [r, g, b],
            ..m
        }),
        setting_applied(m, "cursor"@, kb, vc, hex_text(r, g, b)).0 == (SettingsModel { cursor_color: Some([r, g, b]), ..m }),
        setting_applied(m, "cursor_text_color"@, kb, vc, hex_text(r, g, b)).0 == (SettingsModel {
            cursor_text_color: Some([r, g, b]),
            ..m
        }),
        setting_applied(m, "selection_foreground"@, kb, vc, hex_text(r, g, b)).0 == (SettingsModel {
            selection_foreground: Some([r, g, b]),
            ..m
        }),
{
    reveal_strlit("font_family");
    assert("font_family"@.len() == 11);
    reveal_strlit("bold_font");
    assert("bold_font"@.len() == 9);
    reveal_strlit("italic_font");
    assert("italic_font"@.len() == 11);
    reveal_strlit("bold_italic_font");
    assert("bold_italic_font"@.len() == 16);
    reveal_strlit("font_size");
    assert("font_size"@.len() == 9);
    reveal_strlit("bold_is_bright");
    assert("bold_is_bright"@.len() == 14);
    reveal_strlit("cursor");
    assert("cursor"@.len() == 6);
    reveal_strlit("cursor_text_color");
    assert("cursor_text_color"@.len() == 17);
    reveal_strlit("cursor_shape");
    assert("cursor_shape"@.len() == 12);
    reveal_strlit("initial_window_width");
    assert("initial_window_width"@.len() == 20);
    reveal_strlit("initial_window_height");
    assert("initial_window_height"@.len() == 21);
    reveal_strlit("foreground");
    assert("foreground"@.len() == 10);
    reveal_strlit("background");
    assert("background"@.len() == 10);
    reveal_strlit("selection_foreground");
    assert("selection_foreground"@.len() == 20);
    reveal_strlit("selection_background");
    assert("selection_background"@.len() == 20);
    reveal_strlit("selection_background");
    reveal_strlit("selection_foreground");
    assert("selection_background"@ != "initial_window_width"@) by {
        assert("selection_background"@[0] != "initial_window_width"@[0]);
    }
    assert("selection_foreground"@ != "initial_window_width"@) by {
        assert("selection_foreground"@[0] != "initial_window_width"@[0]);
    }
    assert("selection_background"@ != "selection_foreground"@) by {
        assert("selection_background"@[10] != "selection_foreground"@[10]);
    }
    assert("background"@ != "foreground"@) by {
        assert("background"@[0] != "foreground"@[0]);
    }
    assert(hex_color(hex_text(r, g, b)) == Some([r, g, b])) by {
        lemma_hex_byte(r);
        lemma_hex_byte(g);
        lemma_hex_byte(b);
        let s = hex_text(r, g, b);
        assert(s.drop_first()[0] == hex_digit(r / 16));
        assert(hash_prefix_len(s.drop_first()) == 0);
        assert(strip_hashes(s) =~= s.drop_first());
    }
    let s = hex_text(r, g, b);
    assert(s.drop_first()[0] == hex_digit(r / 16));
    assert(hash_prefix_len(s.drop_first()) == 0);
    assert(strip_hashes(s) =~= s.drop_first());
    let t = seq![35u8, hex_digit(r), hex_digit(g), hex_digit(b)];
    if r < 16 && g < 16 && b < 16 {
        assert(t.drop_first()[0] == hex_digit(r));
        assert(hash_prefix_len(t.drop_first()) == 0);
        assert(strip_hashes(t) =~= t.drop_first());
    }
}

/// Law: `font_size N` sets the font size to `N` for every `u32` value written in
/// decimal, and changes nothing else.
pub proof fn law_font_size(m: SettingsModel, kb: Seq<u8>, vc: Seq<char>, n: u32)
    ensures
        setting_applied(m, "font_size"@, kb, vc, decimal(n as nat)).0 == (SettingsModel { font_size: n, ..m }),
{
    reveal_strlit("font_family");
    assert("font_family"@.len() == 11);
    reveal_strlit("bold_font");
    assert("bold_font"@.len() == 9);
    reveal_strlit("italic_font");
    assert("italic_font"@.len() == 11);
    reveal_strlit("bold_italic_font");
    assert("bold_italic_font"@.len() == 16);
    reveal_strlit("font_size");
    assert("font_size"@.len() == 9);
    reveal_strlit("bold_is_bright");
    assert("bold_is_bright"@.len() == 14);
    reveal_strlit("cursor");
    assert("cursor"@.len() == 6);
    reveal_strlit("cursor_text_color");
    assert("cursor_text_color"@.len() == 17);
    reveal_strlit("cursor_shape");
    assert("cursor_shape"@.len() == 12);
    reveal_strlit("initial_window_width");
    assert("initial_window_width"@.len() == 20);
    reveal_strlit("initial_window_height");
    assert("initial_window_height"@.len() == 21);
    reveal_strlit("foreground");
    assert("foreground"@.len() == 10);
    reveal_strlit("background");
    assert("background"@.len() == 10);
    reveal_strlit("selection_foreground");
    assert("selection_foreground"@.len() == 20);
    reveal_strlit("selection_background");
    assert("selection_background"@.len() == 20);
    assert("font_size"@ != "bold_font"@) by {
        assert("font_size"@[0] != "bold_font"@[0]);
    }
    lemma_parse_decimal(n as nat, u32::MAX as nat);
}
} // verus!
