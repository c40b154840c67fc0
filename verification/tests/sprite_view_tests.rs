use foxix::config::config::{CursorShape, UrlStyle};
use foxix::config::settings::{entry_ok_exec, shell_word_of, SettingKind, Settings};
use foxix::renderer::cell_color::{background_choice, foreground_choice, has_custom_background, palette_rgb, ColorChoice};
use foxix::renderer::sprite::{
    box_sprite, cell_sprite, composite_bitmap, fallback_sprite, icon_sprite, software_sprite, SoftwareSprite,
    SpriteShelf,
};
use foxix::renderer::frame::{frame_quads, CellFill, TextColor};
use foxix::terminal::buffer::{CellAttributes, ScreenBuffer};
use foxix::window::input::InputHandler;
use foxix::ui::timing::{frame_due, next_wake_ms, CursorBlink, ResizeDebounce};
use foxix::ui::viewport::ViewState;

#[test]
fn grey_bitmap_is_clipped_onto_the_canvas() {
    // 2x2 bitmap, pitch 3, drawn at (1, 1) on a 2x2 canvas: only its top-left pixel lands.
    let raw = [10u8, 20, 99, 30, 40, 99];
    let c = composite_bitmap(&raw, 2, 2, 3, false, 1, 1, 2, 2);
    assert_eq!(c, vec![0, 0, 0, 10]);
    // At (0, 0) the whole bitmap lands, skipping the padding byte of each row.
    let c = composite_bitmap(&raw, 2, 2, 3, false, 0, 0, 2, 2);
    assert_eq!(c, vec![10, 20, 30, 40]);
    // A negative offset shifts the bitmap left and up.
    let c = composite_bitmap(&raw, 2, 2, 3, false, -1, -1, 2, 2);
    assert_eq!(c, vec![40, 0, 0, 0]);
}

#[test]
fn mono_bitmap_expands_bits() {
    // One row of 3 pixels: bits 1,0,1 (most significant first).
    let raw = [0b1010_0000u8];
    let c = composite_bitmap(&raw, 3, 1, 1, true, 0, 0, 4, 1);
    assert_eq!(c, vec![255, 0, 255, 0]);
}

#[test]
fn cell_sprite_places_by_baseline() {
    let raw = [7u8];
    // 1x1 glyph whose top is 2 pixels above a baseline at row 3: lands on row 1.
    let s = cell_sprite(&raw, 1, 1, 1, false, 1, 2, 3, 3, 3).unwrap();
    assert_eq!(s, vec![0, 0, 0, 0, 7, 0, 0, 0, 0]);
    assert!(cell_sprite(&raw, 0, 1, 1, false, 0, 0, 0, 3, 3).is_none());
}

#[test]
fn wide_icon_gets_two_cells_and_is_centred() {
    let raw = [1u8, 2, 3];
    // 3 pixels wide in a 2-pixel cell: canvas 4 wide, centred at offset 0 (1/2 rounds to 0).
    let (v, w) = icon_sprite(&raw, 3, 1, 3, 2, 1).unwrap();
    assert_eq!(w, 4);
    assert_eq!(v, vec![1, 2, 3, 0]);
    // 1 pixel in a 3-pixel cell: centred at 1.
    let (v, w) = icon_sprite(&[9u8], 1, 1, 1, 3, 1).unwrap();
    assert_eq!(w, 3);
    assert_eq!(v, vec![0, 9, 0]);
    assert!(icon_sprite(&raw, 0, 0, 0, 2, 1).is_none());
}

#[test]
fn software_sprites_by_range() {
    assert_eq!(software_sprite('─'), SoftwareSprite::BoxDrawing);
    assert_eq!(software_sprite('█'), SoftwareSprite::BlockElement);
    assert_eq!(software_sprite('⠿'), SoftwareSprite::BlockElement);
    assert_eq!(software_sprite('a'), SoftwareSprite::Unavailable);
    assert!(box_sprite('─', 0, 4).is_none());
    let full = fallback_sprite('█', 2, 2).unwrap();
    assert_eq!(full, vec![255, 255, 255, 255]);
    let none = fallback_sprite('x', 2, 2).unwrap();
    assert_eq!(none, vec![0, 0, 0, 0]);
    let line = box_sprite('─', 4, 4).unwrap();
    assert_eq!(line.len(), 16);
    assert!(line.iter().any(|&b| b == 255));
}

#[test]
fn sprites_are_placed_with_a_gutter() {
    let mut s = SpriteShelf::new();
    assert_eq!(s.place(10, 20), Some((1, 1)));
    assert_eq!(s.place(10, 5), Some((12, 1)));
    // Does not fit across: next shelf below the tallest sprite plus gutter.
    assert_eq!(s.place(4080, 5), Some((1, 22)));
    // Too tall for what is left.
    assert_eq!(s.place(10, 4080), None);
}

#[test]
fn cell_colours_follow_attributes() {
    let mut a = CellAttributes::default();
    assert_eq!(foreground_choice(&a), ColorChoice::DefaultForeground);
    assert_eq!(background_choice(&a), ColorChoice::DefaultBackground);
    assert!(!has_custom_background(&a));
    a.bold = true;
    assert_eq!(foreground_choice(&a), ColorChoice::BoldForeground);
    a.fg_color = Some(3);
    assert_eq!(foreground_choice(&a), ColorChoice::Indexed(3));
    a.fg_rgb = Some([1, 2, 3]);
    assert_eq!(foreground_choice(&a), ColorChoice::Rgb(1, 2, 3));
    a.inverse = true;
    assert_eq!(background_choice(&a), ColorChoice::Rgb(1, 2, 3));
    assert_eq!(foreground_choice(&a), ColorChoice::DefaultBackground);
    assert!(has_custom_background(&a));
}

#[test]
fn palette_entries() {
    let mut p = [[0u8; 3]; 16];
    p[5] = [9, 8, 7];
    assert_eq!(palette_rgb(&p, 5), [9, 8, 7]);
    assert_eq!(palette_rgb(&p, 16), [0, 0, 0]);
    assert_eq!(palette_rgb(&p, 21), [0, 0, 255]);
    assert_eq!(palette_rgb(&p, 196), [255, 0, 0]);
    assert_eq!(palette_rgb(&p, 232), [8, 8, 8]);
    assert_eq!(palette_rgb(&p, 255), [238, 238, 238]);
}

#[test]
fn zoom_is_clamped() {
    let mut v = ViewState::new(12);
    v.increase_font_size(1);
    assert_eq!(v.font_size(), 13);
    v.increase_font_size(100);
    assert_eq!(v.font_size(), 72);
    v.decrease_font_size(200);
    assert_eq!(v.font_size(), 6);
    v.reset_font_size();
    assert_eq!(v.font_size(), 12);
}

#[test]
fn scrolling_stays_within_history() {
    let mut v = ViewState::new(12);
    v.scroll_lines(-5, Some(3));
    assert_eq!(v.scroll_offset(), 3);
    v.scroll_lines(2, Some(3));
    assert_eq!(v.scroll_offset(), 1);
    v.scroll_lines(5, None);
    assert_eq!(v.scroll_offset(), 0);
    v.scroll_to_top(Some(40));
    assert_eq!(v.scroll_offset(), 40);
    v.scroll_to_bottom();
    assert_eq!(v.scroll_offset(), 0);
}

#[test]
fn settings_entries_apply() {
    let mut s = Settings::new();
    assert_eq!(s.font_size, 12);
    assert_eq!(s.apply_setting("font_family", "Fira Code"), SettingKind::Applied);
    assert_eq!(s.font_family, "Fira Code");
    assert_eq!(s.apply_setting("font_size", "14"), SettingKind::Applied);
    assert_eq!(s.font_size, 14);
    s.apply_setting("font_size", "big");
    assert_eq!(s.font_size, 14);
    s.apply_setting("initial_window_width", "wide");
    assert_eq!(s.initial_window_width, 800);
    s.apply_setting("cursor_shape", "UNDERLINE");
    assert_eq!(s.cursor_shape, CursorShape::Underline);
    s.apply_setting("url_style", "none");
    assert_eq!(s.url_style, UrlStyle::Off);
    s.apply_setting("color3", "#102030");
    assert_eq!(s.color_palette[3], [0x10, 0x20, 0x30]);
    s.apply_setting("color16", "#102030");
    assert_eq!(s.color_palette[15], [0xff, 0xff, 0xff]);
    s.apply_setting("foreground", "#abc");
    assert_eq!(s.foreground, [0xaa, 0xbb, 0xcc]);
    s.apply_setting("foreground", "nope");
    assert_eq!(s.foreground, [0xaa, 0xbb, 0xcc]);
    s.apply_setting("cursor", "nope");
    assert_eq!(s.cursor_color, None);
    s.apply_setting("scrollback_lines", "x");
    assert_eq!(s.scrollback_lines, 10000);
    s.apply_setting("enable_audio_bell", "Yes");
    assert!(s.enable_audio_bell);
    assert_eq!(s.apply_setting("shell", "zsh -l"), SettingKind::Shell);
    assert_eq!(s.apply_setting("background_opacity", "0.5"), SettingKind::Fractional);
    assert_eq!(s.apply_setting("allow_remote_control", "yes"), SettingKind::Unknown);
}

#[test]
fn shell_word_and_entry_checks() {
    assert_eq!(shell_word_of("zsh -l"), "zsh");
    assert_eq!(shell_word_of("  fish"), "fish");
    assert_eq!(shell_word_of("   "), "   ");
    assert!(entry_ok_exec("foreground", "#aabbcc"));
    assert!(!entry_ok_exec("foreground", "aé"));
    assert!(entry_ok_exec("font_family", "aé"));
}

#[test]
fn repeating_an_entry_changes_nothing_more() {
    let mut once = Settings::new();
    once.apply_setting("color4", "#010203");
    once.apply_setting("font_size", "15");
    let mut twice = once.clone();
    twice.apply_setting("color4", "#010203");
    twice.apply_setting("font_size", "15");
    assert_eq!(once.color_palette, twice.color_palette);
    assert_eq!(once.font_size, twice.font_size);
}

#[test]
fn physical_keys_need_focus_and_a_press() {
    let mut h = InputHandler::new();
    h.set_modifiers(4);
    let e = h.handle_key_code(Some(17), true).unwrap();
    assert_eq!(e.keycode, 17);
    assert_eq!(e.characters, "");
    assert_eq!(e.modifiers, 4);
    assert!(h.handle_key_code(Some(17), false).is_none());
    assert!(h.handle_key_code(None, true).is_none());
    h.set_focus(false);
    assert!(h.handle_key_code(Some(17), true).is_none());
}

#[test]
fn frame_lists_backgrounds_and_glyphs() {
    let mut s = ScreenBuffer::new(2, 3);
    let mut red = CellAttributes::default();
    red.bg_color = Some(1);
    s.write_char(0, 1, 'x', red);
    s.write_char(1, 2, 'y', CellAttributes::default());
    let (bgs, gls) = frame_quads(&s, 10, 10, Some((1, 2, 1, 2)));
    assert_eq!(bgs.len(), 2);
    assert_eq!((bgs[0].row, bgs[0].col), (0, 1));
    assert_eq!(bgs[0].fill, CellFill::Color(ColorChoice::Indexed(1)));
    assert_eq!((bgs[1].row, bgs[1].col), (1, 2));
    assert_eq!(bgs[1].fill, CellFill::Selection);
    assert_eq!(gls.len(), 2);
    assert_eq!((gls[0].row, gls[0].col, gls[0].c), (0, 1, 'x'));
    assert_eq!(gls[0].color, TextColor::Color(ColorChoice::DefaultForeground));
    assert_eq!(gls[1].color, TextColor::Selected);
    // Clipped to a 1x1 view: only the blank top-left cell, which draws nothing.
    let (bgs, gls) = frame_quads(&s, 1, 1, None);
    assert!(bgs.is_empty() && gls.is_empty());
}

#[test]
fn later_entries_override_earlier_ones() {
    let mut s = Settings::new();
    s.apply_setting("font_family", "A");
    s.apply_setting("font_family", "B");
    assert_eq!(s.font_family, "B");
    s.apply_setting("background", "#000000");
    s.apply_setting("background", "#ffffff");
    assert_eq!(s.background, [255, 255, 255]);
    s.apply_setting("color1", "#111111");
    s.apply_setting("color1", "#222222");
    assert_eq!(s.color_palette[1], [0x22, 0x22, 0x22]);
}

#[test]
fn resizes_wait_for_the_size_to_settle() {
    let mut d = ResizeDebounce::new();
    assert_eq!(d.due(1000), None);
    d.on_resize(800, 600, 100);
    d.on_resize(1024, 768, 150);
    assert!(d.is_pending());
    assert_eq!(d.due(229), None);
    assert_eq!(d.due(230), Some((1024, 768)));
    assert_eq!(d.due(1000), None);
    assert!(!d.is_pending());
}

#[test]
fn frames_and_blinking() {
    assert!(frame_due(false, false, 33, false));
    assert!(!frame_due(false, false, 34, false));
    assert!(frame_due(true, false, 34, false));
    assert!(frame_due(false, false, 34, true));
    assert_eq!(next_wake_ms(true), 8);
    assert_eq!(next_wake_ms(false), 16);
    let mut b = CursorBlink::new(0);
    b.tick(600);
    assert!(b.on);
    b.tick(601);
    assert!(!b.on);
    b.tick(100);
    assert!(!b.on && b.last == 601);
}
