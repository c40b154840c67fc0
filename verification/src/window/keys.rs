//! Key bindings: what a key press asks of the terminal (a shortcut, bytes for the
//! shell, or text to type).
use vstd::prelude::*;

verus! {

pub const MOD_CTRL: u32 = 0x01;
pub const MOD_ALT: u32 = 0x02;
pub const MOD_SHIFT: u32 = 0x04;
pub const MOD_SUPER_KEY: u32 = 0x08;

/// Keys without text that the bindings know.
#[derive(Clone, Copy, Debug, PartialEq, Eq, Structural)]
pub enum NamedKey {
    Escape,
    Enter,
    Tab,
    Backspace,
    Delete,
    Home,
    End,
    PageUp,
    PageDown,
    ArrowUp,
    ArrowDown,
    ArrowRight,
    ArrowLeft,
    F1,
    F2,
    F3,
    F4,
    F5,
    F6,
    F7,
    F8,
    F9,
    F10,
    F11,
    F12,
    Other,
}

/// The logical key of a press: the text it stands for, or a named key.
#[derive(Clone, Debug)]
pub enum LogicalKey {
    Character(Vec<char>),
    Named(NamedKey),
}

/// What a key press asks for.
#[derive(Clone, Debug)]
pub enum KeyAction {
    Exit,
    CopySelection,
    Paste,
    IncreaseFontSize,
    DecreaseFontSize,
    ResetFontSize,
    ScrollLines(i32),
    ScrollToTop,
    ScrollToBottom,
    /// Bytes to send to the shell.
    Write(Vec<u8>),
    /// Characters to type, one key event each.
    Type(Vec<char>),
    Ignore,
}

/// Abstract [`KeyAction`].
pub enum KeyActionModel {
    Exit,
    CopySelection,
    Paste,
    IncreaseFontSize,
    DecreaseFontSize,
    ResetFontSize,
    ScrollLines(i32),
    ScrollToTop,
    ScrollToBottom,
    Write(Seq<u8>),
    Type(Seq<char>),
    Ignore,
}

impl View for KeyAction {
    type V = KeyActionModel;

    open spec fn view(&self) -> KeyActionModel {
        match self {
            KeyAction::Exit => KeyActionModel::Exit,
            KeyAction::CopySelection => KeyActionModel::CopySelection,
            KeyAction::Paste => KeyActionModel::Paste,
            KeyAction::IncreaseFontSize => KeyActionModel::IncreaseFontSize,
            KeyAction::DecreaseFontSize => KeyActionModel::DecreaseFontSize,
            KeyAction::ResetFontSize => KeyActionModel::ResetFontSize,
            KeyAction::ScrollLines(n) => KeyActionModel::ScrollLines(*n),
            KeyAction::ScrollToTop => KeyActionModel::ScrollToTop,
            KeyAction::ScrollToBottom => KeyActionModel::ScrollToBottom,
            KeyAction::Write(b) => KeyActionModel::Write(b@),
            KeyAction::Type(c) => KeyActionModel::Type(c@),
            KeyAction::Ignore => KeyActionModel::Ignore,
        }
    }
}

/// The modifier bits of a modifier state.
pub fn modifier_mask(super_key: bool, ctrl: bool, alt: bool, shift: bool) -> (m: u32)
    ensures
        m == (if super_key { MOD_SUPER_KEY } else { 0 }) + (if ctrl { MOD_CTRL } else { 0 }) + (if alt {
            MOD_ALT
        } else {
            0
        }) + (if shift { MOD_SHIFT } else { 0 }),
{
    let mut m: u32 = 0;
    if super_key {
        m = m + MOD_SUPER_KEY;
    }
    if ctrl {
        m = m + MOD_CTRL;
    }
    if alt {
        m = m + MOD_ALT;
    }
    if shift {
        m = m + MOD_SHIFT;
    }
    m
}

/// The key text is the one letter `lower`, in either case (`eq_ignore_ascii_case`).
pub open spec fn is_letter(c: Seq<char>, lower: char, upper: char) -> bool {
    c.len() == 1 && (c[0] == lower || c[0] == upper)
}

/// The key text is exactly `ch`.
pub open spec fn is_text(c: Seq<char>, ch: char) -> bool {
    c.len() == 1 && c[0] == ch
}

/// The control code Ctrl+`c` sends: the first character (NUL when none), upper-cased
/// when an ASCII letter, taken as a byte (its low 8 bits) minus `@`, wrapping.
pub open spec fn ctrl_code(c: Seq<char>) -> u8 {
    let ch: u32 = if c.len() > 0 { c[0] as u32 } else { 0 };
    let u: int = if 97 <= ch <= 122 { ch - 32 } else { ch as int };
    ((u % 256 + 192) % 256) as u8
}

/// The bytes a named key sends to the shell (xterm sequences), if any.
pub open spec fn named_key_bytes(k: NamedKey) -> Option<Seq<u8>> {
    match k {
        NamedKey::Escape => Some(seq![27u8]),
        NamedKey::Enter => Some(seq![13u8]),
        NamedKey::Tab => Some(seq![9u8]),
        NamedKey::Backspace => Some(seq![127u8]),
        NamedKey::Delete => Some(seq![27u8, 91, 51, 126]),
        NamedKey::Home => Some(seq![27u8, 91, 72]),
        NamedKey::End => Some(seq![27u8, 91, 70]),
        NamedKey::PageUp => Some(seq![27u8, 91, 53, 126]),
        NamedKey::PageDown => Some(seq![27u8, 91, 54, 126]),
        NamedKey::ArrowUp => Some(seq![27u8, 91, 65]),
        NamedKey::ArrowDown => Some(seq![27u8, 91, 66]),
        NamedKey::ArrowRight => Some(seq![27u8, 91, 67]),
        NamedKey::ArrowLeft => Some(seq![27u8, 91, 68]),
        NamedKey::F1 => Some(seq![27u8, 79, 80]),
        NamedKey::F2 => Some(seq![27u8, 79, 81]),
        NamedKey::F3 => Some(seq![27u8, 79, 82]),
        NamedKey::F4 => Some(seq![27u8, 79, 83]),
        NamedKey::F5 => Some(seq![27u8, 91, 49, 53, 126]),
        NamedKey::F6 => Some(seq![27u8, 91, 49, 55, 126]),
        NamedKey::F7 => Some(seq![27u8, 91, 49, 56, 126]),
        NamedKey::F8 => Some(seq![27u8, 91, 49, 57, 126]),
        NamedKey::F9 => Some(seq![27u8, 91, 50, 48, 126]),
        NamedKey::F10 => Some(seq![27u8, 91, 50, 49, 126]),
        NamedKey::F11 => Some(seq![27u8, 91, 50, 51, 126]),
        NamedKey::F12 => Some(seq![27u8, 91, 50, 52, 126]),
        NamedKey::Other => None,
    }
}

/// What a key press with `modifiers` held asks for; `text` is the text the press
/// produced. Shortcuts (Ctrl+Shift, or Super for quitting) come first; Ctrl with a
/// key whose control code is below 32 sends that code; other keys send their xterm
/// sequence or type their text.
pub open spec fn key_action_of(key: LogicalKey, text: Option<Seq<char>>, modifiers: u32) -> KeyActionModel {
    let ctrl = modifiers & MOD_CTRL != 0;
    let shift = modifiers & MOD_SHIFT != 0;
    let sup = modifiers & MOD_SUPER_KEY != 0;
    match key {
        LogicalKey::Character(cv) => {
            let c = cv@;
            if (ctrl && shift && is_letter(c, 'q', 'Q')) || (sup && is_letter(c, 'q', 'Q')) {
                KeyActionModel::Exit
            } else if ctrl && shift && is_letter(c, 'c', 'C') {
                KeyActionModel::CopySelection
            } else if ctrl && shift && is_letter(c, 'v', 'V') {
                KeyActionModel::Paste
            } else if ctrl && is_letter(c, 'v', 'V') && !shift {
                KeyActionModel::Paste
            } else if ctrl && shift && (is_text(c, '=') || is_text(c, '+')) {
                KeyActionModel::IncreaseFontSize
            } else if ctrl && shift && is_text(c, '-') {
                KeyActionModel::DecreaseFontSize
            } else if ctrl && shift && is_text(c, '0') {
                KeyActionModel::ResetFontSize
            } else if ctrl && shift && is_letter(c, 'k', 'K') {
                KeyActionModel::ScrollLines(-1i32)
            } else if ctrl && shift && is_letter(c, 'j', 'J') {
                KeyActionModel::ScrollLines(1i32)
            } else if ctrl && !shift && ctrl_code(c) < 32 {
                KeyActionModel::Write(seq![ctrl_code(c)])
            } else {
                KeyActionModel::Type(c)
            }
        },
        LogicalKey::Named(k) => {
            if k == NamedKey::ArrowUp && ctrl && shift {
                KeyActionModel::ScrollLines(-1i32)
            } else if k == NamedKey::ArrowDown && ctrl && shift {
                KeyActionModel::ScrollLines(1i32)
            } else if k == NamedKey::Home && ctrl && shift {
                KeyActionModel::ScrollToTop
            } else if k == NamedKey::End && ctrl && shift {
                KeyActionModel::ScrollToBottom
            } else {
                match named_key_bytes(k) {
                    Some(b) => KeyActionModel::Write(b),
                    None => match text {
                        Some(t) => KeyActionModel::Type(t),
                        None => KeyActionModel::Ignore,
                    },
                }
            }
        },
    }
}

fn letter(c: &Vec<char>, lower: char, upper: char) -> (b: bool)
    ensures
        b == is_letter(c@, lower, upper),
{
    c.len() == 1 && (c[0] == lower || c[0] == upper)
}

fn text_is(c: &Vec<char>, ch: char) -> (b: bool)
    ensures
        b == is_text(c@, ch),
{
    c.len() == 1 && c[0] == ch
}

fn control_code(c: &Vec<char>) -> (b: u8)
    ensures
        b == ctrl_code(c@),
{
    let ch: u32 = if c.len() > 0 { c[0] as u32 } else { 0 };
    let u: u32 = if 97 <= ch && ch <= 122 { ch - 32 } else { ch };
    let low = u % 256;
    let code = if low >= 64 { low - 64 } else { low + 192 };
    assert(code as int == (u as int % 256 + 192) % 256);
    code as u8
}

fn named_bytes(k: NamedKey) -> (r: Option<Vec<u8>>)
    ensures
        match r {
            Some(b) => named_key_bytes(k) == Some(b@),
            None => named_key_bytes(k) is None,
        },
{
    let v: Vec<u8> = match k {
        NamedKey::Escape => vec![27u8],
        NamedKey::Enter => vec![13u8],
        NamedKey::Tab => vec![9u8],
        NamedKey::Backspace => vec![127u8],
        NamedKey::Delete => vec![27u8, 91, 51, 126],
        NamedKey::Home => vec![27u8, 91, 72],
        NamedKey::End => vec![27u8, 91, 70],
        NamedKey::PageUp => vec![27u8, 91, 53, 126],
        NamedKey::PageDown => vec![27u8, 91, 54, 126],
        NamedKey::ArrowUp => vec![27u8, 91, 65],
        NamedKey::ArrowDown => vec![27u8, 91, 66],
        NamedKey::ArrowRight => vec![27u8, 91, 67],
        NamedKey::ArrowLeft => vec![27u8, 91, 68],
        NamedKey::F1 => vec![27u8, 79, 80],
        NamedKey::F2 => vec![27u8, 79, 81],
        NamedKey::F3 => vec![27u8, 79, 82],
        NamedKey::F4 => vec![27u8, 79, 83],
        NamedKey::F5 => vec![27u8, 91, 49, 53, 126],
        NamedKey::F6 => vec![27u8, 91, 49, 55, 126],
        NamedKey::F7 => vec![27u8, 91, 49, 56, 126],
        NamedKey::F8 => vec![27u8, 91, 49, 57, 126],
        NamedKey::F9 => vec![27u8, 91, 50, 48, 126],
        NamedKey::F10 => vec![27u8, 91, 50, 49, 126],
        NamedKey::F11 => vec![27u8, 91, 50, 51, 126],
        NamedKey::F12 => vec![27u8, 91, 50, 52, 126],
        NamedKey::Other => {
            return None;
        },
    };
    assert(named_key_bytes(k) == Some(v@));
    Some(v)
}

/// What a key press asks for (see [`key_action_of`]).
pub fn key_action(key: &LogicalKey, text: &Option<Vec<char>>, modifiers: u32) -> (a: KeyAction)
    ensures
        a@ == key_action_of(*key, match text {
            Some(t) => Some(t@),
            None => None,
        }, modifiers),
{
    let ctrl = modifiers & MOD_CTRL != 0;
    let shift = modifiers & MOD_SHIFT != 0;
    let sup = modifiers & MOD_SUPER_KEY != 0;
    match key {
        LogicalKey::Character(c) => {
            if (ctrl && shift && letter(c, 'q', 'Q')) || (sup && letter(c, 'q', 'Q')) {
                KeyAction::Exit
            } else if ctrl && shift && letter(c, 'c', 'C') {
                KeyAction::CopySelection
            } else if ctrl && shift && letter(c, 'v', 'V') {
                KeyAction::Paste
            } else if ctrl && letter(c, 'v', 'V') && !shift {
                KeyAction::Paste
            } else if ctrl && shift && (text_is(c, '=') || text_is(c, '+')) {
                KeyAction::IncreaseFontSize
            } else if ctrl && shift && text_is(c, '-') {
                KeyAction::DecreaseFontSize
            } else if ctrl && shift && text_is(c, '0') {
                KeyAction::ResetFontSize
            } else if ctrl && shift && letter(c, 'k', 'K') {
                KeyAction::ScrollLines(-1)
            } else if ctrl && shift && letter(c, 'j', 'J') {
                KeyAction::ScrollLines(1)
            } else if ctrl && !shift && control_code(c) < 32 {
                let code = control_code(c);
                let v = vec![code];
                assert(v@ =~= seq![ctrl_code(c@)]);
                KeyAction::Write(v)
            } else {
                let mut t: Vec<char> = Vec::new();
                let mut i: usize = 0;
                while i < c.len()
                    invariant
                        i <= c@.len(),
                        t@ == c@.take(i as int),
                    decreases c@.len() - i,
                {
                    t.push(c[i]);
                    i = i + 1;
                    assert(t@ =~= c@.take(i as int));
                }
                assert(c@.take(i as int) =~= c@);
                KeyAction::Type(t)
            }
        },
        LogicalKey::Named(k) => {
            if *k == NamedKey::ArrowUp && ctrl && shift {
                KeyAction::ScrollLines(-1)
            } else if *k == NamedKey::ArrowDown && ctrl && shift {
                KeyAction::ScrollLines(1)
            } else if *k == NamedKey::Home && ctrl && shift {
                KeyAction::ScrollToTop
            } else if *k == NamedKey::End && ctrl && shift {
                KeyAction::ScrollToBottom
            } else {
                match named_bytes(*k) {
                    Some(b) => KeyAction::Write(b),
                    None => match text {
                        Some(t) => {
                            let mut v: Vec<char> = Vec::new();
                            let mut i: usize = 0;
                            while i < t.len()
                                invariant
                                    i <= t@.len(),
                                    v@ == t@.take(i as int),
                                decreases t@.len() - i,
                            {
                                v.push(t[i]);
                                i = i + 1;
                                assert(v@ =~= t@.take(i as int));
                            }
                            assert(t@.take(i as int) =~= t@);
                            KeyAction::Type(v)
                        },
                        None => KeyAction::Ignore,
                    },
                }
            }
        },
    }
}


/// Law: Escape always goes to the shell as one ESC byte, whatever the modifiers; it
/// never closes the window.
pub proof fn law_escape_goes_to_shell(text: Option<Seq<char>>, modifiers: u32)
    ensures
        key_action_of(LogicalKey::Named(NamedKey::Escape), text, modifiers) == KeyActionModel::Write(seq![27u8]),
{
}

/// Law: with Ctrl (and not Shift) held, an ASCII letter sends its control code
/// (`a`/`A` is 1, ..., `z`/`Z` is 26) unless it is one of the clipboard bindings.
pub proof fn law_ctrl_letter_code(key: Vec<char>, modifiers: u32)
    requires
        key@.len() == 1,
        ('a' <= key@[0] <= 'z') || ('A' <= key@[0] <= 'Z'),
        key@[0] != 'v' && key@[0] != 'V',
        modifiers & MOD_CTRL != 0,
        modifiers & MOD_SHIFT == 0,
        modifiers & MOD_SUPER_KEY == 0 || (key@[0] != 'q' && key@[0] != 'Q'),
    ensures
        key_action_of(LogicalKey::Character(key), None, modifiers) == KeyActionModel::Write(
            seq![(if 'a' <= key@[0] <= 'z' { key@[0] as int - 96 } else { key@[0] as int - 64 }) as u8],
        ),
{
}


/// Law: the arrow keys send the cursor-key sequences `ESC [ A`, `ESC [ B`, `ESC [ C`
/// and `ESC [ D` for up, down, right and left, whatever text the press produced;
/// only up and down with Ctrl+Shift (which scroll the view) send nothing.
pub proof fn law_arrow_keys(text: Option<Seq<char>>, modifiers: u32)
    ensures
        !(modifiers & MOD_CTRL != 0 && modifiers & MOD_SHIFT != 0) ==> key_action_of(
            LogicalKey::Named(NamedKey::ArrowUp),
            text,
            modifiers,
        ) == KeyActionModel::Write(seq![0x1bu8, 0x5b, 0x41]),
        !(modifiers & MOD_CTRL != 0 && modifiers & MOD_SHIFT != 0) ==> key_action_of(
            LogicalKey::Named(NamedKey::ArrowDown),
            text,
            modifiers,
        ) == KeyActionModel::Write(seq![0x1bu8, 0x5b, 0x42]),
        key_action_of(LogicalKey::Named(NamedKey::ArrowRight), text, modifiers) == KeyActionModel::Write(
            seq![0x1bu8, 0x5b, 0x43],
        ),
        key_action_of(LogicalKey::Named(NamedKey::ArrowLeft), text, modifiers) == KeyActionModel::Write(
            seq![0x1bu8, 0x5b, 0x44],
        ),
{
}

/// Law: the editing and function keys send their xterm sequences with any
/// modifiers: Enter CR, Tab HT, Backspace DEL, Delete `ESC [ 3 ~`, Page Up and Page
/// Down `ESC [ 5 ~` and `ESC [ 6 ~`, F1-F4 `ESC O P` to `ESC O S`, F5-F12
/// `ESC [ 15 ~`, `17`, `18`, `19`, `20`, `21`, `23`, `24` `~`; Home and End send
/// `ESC [ H` and `ESC [ F` unless Ctrl+Shift is held (which scrolls the view).
pub proof fn law_named_keys(text: Option<Seq<char>>, modifiers: u32)
    ensures
        key_action_of(LogicalKey::Named(NamedKey::Enter), text, modifiers) == KeyActionModel::Write(seq![0x0du8]),
        key_action_of(LogicalKey::Named(NamedKey::Tab), text, modifiers) == KeyActionModel::Write(seq![0x09u8]),
        key_action_of(LogicalKey::Named(NamedKey::Backspace), text, modifiers) == KeyActionModel::Write(seq![0x7fu8]),
        key_action_of(LogicalKey::Named(NamedKey::Delete), text, modifiers) == KeyActionModel::Write(seq![0x1bu8, 0x5b, 0x33, 0x7e]),
        key_action_of(LogicalKey::Named(NamedKey::PageUp), text, modifiers) == KeyActionModel::Write(seq![0x1bu8, 0x5b, 0x35, 0x7e]),
        key_action_of(LogicalKey::Named(NamedKey::PageDown), text, modifiers) == KeyActionModel::Write(seq![0x1bu8, 0x5b, 0x36, 0x7e]),
        key_action_of(LogicalKey::Named(NamedKey::F1), text, modifiers) == KeyActionModel::Write(seq![0x1bu8, 0x4f, 0x50]),
        key_action_of(LogicalKey::Named(NamedKey::F2), text, modifiers) == KeyActionModel::Write(seq![0x1bu8, 0x4f, 0x51]),
        key_action_of(LogicalKey::Named(NamedKey::F3), text, modifiers) == KeyActionModel::Write(seq![0x1bu8, 0x4f, 0x52]),
        key_action_of(LogicalKey::Named(NamedKey::F4), text, modifiers) == KeyActionModel::Write(seq![0x1bu8, 0x4f, 0x53]),
        key_action_of(LogicalKey::Named(NamedKey::F5), text, modifiers) == KeyActionModel::Write(seq![0x1bu8, 0x5b, 0x31, 0x35, 0x7e]),
        key_action_of(LogicalKey::Named(NamedKey::F6), text, modifiers) == KeyActionModel::Write(seq![0x1bu8, 0x5b, 0x31, 0x37, 0x7e]),
        key_action_of(LogicalKey::Named(NamedKey::F7), text, modifiers) == KeyActionModel::Write(seq![0x1bu8, 0x5b, 0x31, 0x38, 0x7e]),
        key_action_of(LogicalKey::Named(NamedKey::F8), text, modifiers) == KeyActionModel::Write(seq![0x1bu8, 0x5b, 0x31, 0x39, 0x7e]),
        key_action_of(LogicalKey::Named(NamedKey::F9), text, modifiers) == KeyActionModel::Write(seq![0x1bu8, 0x5b, 0x32, 0x30, 0x7e]),
        key_action_of(LogicalKey::Named(NamedKey::F10), text, modifiers) == KeyActionModel::Write(seq![0x1bu8, 0x5b, 0x32, 0x31, 0x7e]),
        key_action_of(LogicalKey::Named(NamedKey::F11), text, modifiers) == KeyActionModel::Write(seq![0x1bu8, 0x5b, 0x32, 0x33, 0x7e]),
        key_action_of(LogicalKey::Named(NamedKey::F12), text, modifiers) == KeyActionModel::Write(seq![0x1bu8, 0x5b, 0x32, 0x34, 0x7e]),
        !(modifiers & MOD_CTRL != 0 && modifiers & MOD_SHIFT != 0) ==> key_action_of(
            LogicalKey::Named(NamedKey::Home),
            text,
            modifiers,
        ) == KeyActionModel::Write(seq![0x1bu8, 0x5b, 0x48]),
        !(modifiers & MOD_CTRL != 0 && modifiers & MOD_SHIFT != 0) ==> key_action_of(
            LogicalKey::Named(NamedKey::End),
            text,
            modifiers,
        ) == KeyActionModel::Write(seq![0x1bu8, 0x5b, 0x46]),
{
}

/// Law: the Ctrl+Shift shortcuts. With Ctrl and Shift held, `q` quits, `c` copies
/// the selection, `v` pastes, `=` or `+` enlarges the font, `-` shrinks it, `0`
/// restores it, `k` and Up scroll the view one line back, `j` and Down one line
/// forward, Home and End scroll to the top and bottom of the history (letters in
/// either case); Super with `q` quits, and Ctrl with `v` (no Shift) pastes.
pub proof fn law_shortcuts(key: Vec<char>, text: Option<Seq<char>>, modifiers: u32)
    requires
        key@.len() == 1,
    ensures
        ({
            let cs = modifiers & MOD_CTRL != 0 && modifiers & MOD_SHIFT != 0;
            let k = key@[0];
            let act = key_action_of(LogicalKey::Character(key), text, modifiers);
            &&& (cs && (k == 'q' || k == 'Q')) ==> act == KeyActionModel::Exit
            &&& (modifiers & MOD_SUPER_KEY != 0 && (k == 'q' || k == 'Q')) ==> act == KeyActionModel::Exit
            &&& (cs && (k == 'c' || k == 'C')) ==> act == KeyActionModel::CopySelection
            &&& (modifiers & MOD_CTRL != 0 && (k == 'v' || k == 'V') && modifiers & MOD_SUPER_KEY == 0) ==> act
                == KeyActionModel::Paste
            &&& (cs && (k == '=' || k == '+')) ==> act == KeyActionModel::IncreaseFontSize
            &&& (cs && k == '-') ==> act == KeyActionModel::DecreaseFontSize
            &&& (cs && k == '0') ==> act == KeyActionModel::ResetFontSize
            &&& (cs && (k == 'k' || k == 'K')) ==> act == KeyActionModel::ScrollLines(-1i32)
            &&& (cs && (k == 'j' || k == 'J')) ==> act == KeyActionModel::ScrollLines(1i32)
        }),
        ({
            let cs = modifiers & MOD_CTRL != 0 && modifiers & MOD_SHIFT != 0;
            &&& cs ==> key_action_of(LogicalKey::Named(NamedKey::ArrowUp), text, modifiers) == KeyActionModel::ScrollLines(-1i32)
            &&& cs ==> key_action_of(LogicalKey::Named(NamedKey::ArrowDown), text, modifiers) == KeyActionModel::ScrollLines(1i32)
            &&& cs ==> key_action_of(LogicalKey::Named(NamedKey::Home), text, modifiers) == KeyActionModel::ScrollToTop
            &&& cs ==> key_action_of(LogicalKey::Named(NamedKey::End), text, modifiers) == KeyActionModel::ScrollToBottom
        }),
{
}
} // verus!
