use foxix::renderer::blocks::{fill_block_element, fill_braille_pattern};
use foxix::renderer::box_drawing::fill_box_drawing;
use foxix::renderer::texture::TextureAtlas;
use foxix::window::backend::WindowBackend;
use foxix::window::input::InputHandler;
use foxix::window::keys::{key_action, modifier_mask, KeyAction, LogicalKey, NamedKey, MOD_CTRL, MOD_SHIFT};
use foxix::window::x11::X11Window;

fn bytes(a: KeyAction) -> Vec<u8> {
    match a {
        KeyAction::Write(b) => b,
        _ => panic!("expected bytes"),
    }
}

#[test]
fn ctrl_letters_send_control_codes() {
    assert_eq!(bytes(key_action(&LogicalKey::Character(vec!['c']), &None, MOD_CTRL)), vec![3]);
    assert_eq!(bytes(key_action(&LogicalKey::Character(vec!['A']), &None, MOD_CTRL)), vec![1]);
    assert_eq!(bytes(key_action(&LogicalKey::Character(vec!['[']), &None, MOD_CTRL)), vec![27]);
}

#[test]
fn named_keys_send_xterm_sequences() {
    assert_eq!(bytes(key_action(&LogicalKey::Named(NamedKey::Escape), &None, MOD_CTRL | MOD_SHIFT)), vec![27]);
    assert_eq!(bytes(key_action(&LogicalKey::Named(NamedKey::F5), &None, 0)), b"\x1b[15~".to_vec());
    assert_eq!(bytes(key_action(&LogicalKey::Named(NamedKey::ArrowLeft), &None, 0)), b"\x1b[D".to_vec());
    assert_eq!(bytes(key_action(&LogicalKey::Named(NamedKey::Backspace), &None, 0)), vec![0x7f]);
}

#[test]
fn shortcuts_take_precedence() {
    assert!(matches!(key_action(&LogicalKey::Character(vec!['Q']), &None, MOD_CTRL | MOD_SHIFT), KeyAction::Exit));
    assert!(matches!(key_action(&LogicalKey::Character(vec!['v']), &None, MOD_CTRL), KeyAction::Paste));
    assert!(matches!(key_action(&LogicalKey::Character(vec!['+']), &None, MOD_CTRL | MOD_SHIFT), KeyAction::IncreaseFontSize));
    assert!(matches!(key_action(&LogicalKey::Named(NamedKey::ArrowUp), &None, MOD_CTRL | MOD_SHIFT), KeyAction::ScrollLines(-1)));
    assert!(matches!(key_action(&LogicalKey::Named(NamedKey::Other), &None, 0), KeyAction::Ignore));
    match key_action(&LogicalKey::Named(NamedKey::Other), &Some(vec!['é']), 0) {
        KeyAction::Type(c) => assert_eq!(c, vec!['é']),
        _ => panic!("expected text"),
    }
    match key_action(&LogicalKey::Character(vec!['x', 'y']), &None, 0) {
        KeyAction::Type(c) => assert_eq!(c, vec!['x', 'y']),
        _ => panic!("expected text"),
    }
}

#[test]
fn modifier_bits() {
    assert_eq!(modifier_mask(true, true, false, true), 0x08 | 0x01 | 0x04);
    assert_eq!(modifier_mask(false, false, true, false), 0x02);
}

#[test]
fn input_handler_state() {
    let mut h = InputHandler::new();
    assert!(h.has_focus());
    h.set_modifiers(0x08);
    assert!(h.is_super_pressed());
    let e = h.handle_char('x');
    assert_eq!(e.characters, "x");
    assert_eq!(e.modifiers, 0x08);
    assert!(h.pop_event().is_none());
    assert_eq!(h.mouse_position(), (0, 0));
}

#[test]
fn x11_window_tracks_size() {
    let mut w = X11Window::new().unwrap();
    assert_eq!(w.get_size(), (800, 600));
    w.resize(1024, 768);
    assert_eq!(w.get_size(), (1024, 768));
    assert!(!w.should_close());
    assert!(w.poll_events().is_none());
}

#[test]
fn box_drawing_horizontal_line() {
    let mut buf = vec![0u8; 10 * 20];
    fill_box_drawing('─', &mut buf, 10, 20);
    for y in 0..20 {
        for x in 0..10 {
            assert_eq!(buf[y * 10 + x], if y == 10 { 255 } else { 0 });
        }
    }
}

#[test]
fn box_drawing_corner() {
    let mut buf = vec![0u8; 8 * 28];
    fill_box_drawing('╭', &mut buf, 8, 28);
    assert_eq!(buf[14 * 8 + 4], 255);
    assert_eq!(buf[14 * 8 + 7], 255);
    assert_eq!(buf[14 * 8 + 3], 0);
    assert_eq!(buf[27 * 8 + 4], 255);
    assert_eq!(buf[13 * 8 + 4], 0);
}

#[test]
fn block_elements() {
    let mut buf = vec![0u8; 8 * 16];
    fill_block_element('\u{2580}', &mut buf, 8, 16);
    assert_eq!(buf.iter().filter(|&&b| b == 255).count(), 8 * 8);
    assert_eq!(buf[7 * 8], 255);
    assert_eq!(buf[8 * 8], 0);
    let mut full = vec![0u8; 4 * 4];
    fill_block_element('\u{2588}', &mut full, 4, 4);
    assert!(full.iter().all(|&b| b == 255));
    let mut shade = vec![0u8; 4 * 2];
    fill_block_element('\u{2592}', &mut shade, 4, 2);
    assert_eq!(shade, vec![255, 0, 255, 0, 0, 255, 0, 255]);
}

#[test]
fn braille_single_dot() {
    let mut buf = vec![0u8; 10 * 20];
    fill_braille_pattern(0x2801, &mut buf, 10, 20);
    let lit = buf.iter().filter(|&&b| b == 255).count();
    assert_eq!(lit, 3 * 4);
    let mut none = vec![0u8; 10 * 20];
    fill_braille_pattern(0x2800, &mut none, 10, 20);
    assert!(none.iter().all(|&b| b == 0));
}

#[test]
fn atlas_shelves() {
    let mut a = TextureAtlas::new(10, 10).unwrap();
    assert_eq!(a.allocate(4, 3), Some((0, 0)));
    assert_eq!(a.allocate(4, 5), Some((4, 0)));
    assert_eq!(a.allocate(4, 2), Some((0, 5)));
    assert_eq!(a.allocate(4, 9), None);
    a.reset();
    assert_eq!(a.allocate(1, 1), Some((0, 0)));
    a.set_texture_id(7);
    assert_eq!((a.width(), a.height(), a.texture_id()), (10, 10, 7));
}
