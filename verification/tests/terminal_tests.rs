use foxix::terminal::ansi::AnsiParser;
use foxix::terminal::buffer::{CellAttributes, ScreenBuffer};
use foxix::terminal::cursor::Cursor;
use foxix::terminal::graphics::{decode_base64, decode_to_rgba, GraphicsManager, ImageJob};

fn parser() -> AnsiParser {
    AnsiParser::new(24, 80)
}

fn row_text(p: &AnsiParser, row: usize, n: usize) -> String {
    let mut s = String::new();
    for col in 0..n {
        s.push(p.screen().cell(row, col).unwrap().c);
    }
    s
}

#[test]
fn prints_text_and_advances_cursor() {
    let mut p = parser();
    assert!(p.parse(b"hello"));
    assert_eq!(row_text(&p, 0, 5), "hello");
    assert_eq!(p.cursor().col(), 5);
    assert_eq!(p.cursor().row(), 0);
}

#[test]
fn carriage_return_and_line_feed() {
    let mut p = parser();
    p.parse(b"ab\r\ncd");
    assert_eq!(row_text(&p, 0, 2), "ab");
    assert_eq!(row_text(&p, 1, 2), "cd");
    assert_eq!(p.cursor().row(), 1);
    assert_eq!(p.cursor().col(), 2);
}

#[test]
fn cursor_position_is_one_based() {
    let mut p = parser();
    p.parse(b"\x1b[5;10H");
    assert_eq!(p.cursor().row(), 4);
    assert_eq!(p.cursor().col(), 9);
    p.parse(b"\x1b[2A\x1b[3C");
    assert_eq!(p.cursor().row(), 2);
    assert_eq!(p.cursor().col(), 12);
    p.parse(b"\x1b[200;200H");
    assert_eq!(p.cursor().row(), 23);
    assert_eq!(p.cursor().col(), 79);
}

#[test]
fn sgr_sets_and_resets_attributes() {
    let mut p = parser();
    p.parse(b"\x1b[1;31mX");
    let a = p.screen().cell(0, 0).unwrap().attrs;
    assert!(a.bold);
    assert_eq!(a.fg_color, Some(1));
    p.parse(b"\x1b[38;5;200m");
    assert_eq!(p.cursor().attributes().fg_color, Some(200));
    p.parse(b"\x1b[48;2;1;2;3m");
    assert_eq!(p.cursor().attributes().bg_rgb, Some([1, 2, 3]));
    assert_eq!(p.cursor().attributes().bg_color, None);
    p.parse(b"\x1b[0m");
    let d = p.cursor().attributes();
    assert!(!d.bold);
    assert_eq!(d.fg_color, None);
    assert_eq!(d.bg_rgb, None);
    p.parse(b"\x1b[95m");
    assert_eq!(p.cursor().attributes().fg_color, Some(13));
}

#[test]
fn device_status_and_attributes_replies() {
    let mut p = parser();
    p.parse(b"\x1b[3;7H\x1b[6n");
    assert_eq!(p.pending_responses.last().unwrap().as_slice(), b"\x1b[3;7R");
    p.parse(b"\x1b[5n");
    assert_eq!(p.pending_responses.last().unwrap().as_slice(), b"\x1b[0n");
    p.parse(b"\x1b[c");
    assert_eq!(p.pending_responses.last().unwrap().as_slice(), b"\x1b[?1;2c");
    p.parse(b"\x1b[>c");
    assert_eq!(p.pending_responses.last().unwrap().as_slice(), b"\x1b[>61;20;1c");
    assert_eq!(p.pending_responses.len(), 4);
}

#[test]
fn alternate_screen_round_trip_keeps_normal_screen() {
    let mut p = parser();
    p.parse(b"main");
    p.parse(b"\x1b[?1049h");
    p.parse(b"\x1b[Hvim");
    assert_eq!(row_text(&p, 0, 3), "vim");
    p.parse(b"\x1b[?1049l");
    assert_eq!(row_text(&p, 0, 4), "main");
    assert_eq!(p.cursor().col(), 4);
}

#[test]
fn erase_display_and_line() {
    let mut p = parser();
    p.parse(b"abcdef\x1b[1;3H\x1b[K");
    assert_eq!(row_text(&p, 0, 6), "ab    ");
    p.parse(b"xyz\x1b[2J");
    assert_eq!(row_text(&p, 0, 6), "      ");
}

#[test]
fn erase_delete_and_insert_characters() {
    let mut p = parser();
    p.parse(b"abcdef\x1b[1;2H\x1b[2X");
    assert_eq!(row_text(&p, 0, 6), "a  def");
    p.parse(b"\x1b[1;1Habcdef\x1b[1;2H\x1b[2P");
    assert_eq!(row_text(&p, 0, 6), "adef  ");
    p.parse(b"\x1b[1;2H\x1b[2@");
    assert_eq!(row_text(&p, 0, 6), "a  def");
}

#[test]
fn tab_moves_to_next_stop() {
    let mut p = parser();
    p.parse(b"ab\t");
    assert_eq!(p.cursor().col(), 8);
    p.parse(b"\t\t");
    assert_eq!(p.cursor().col(), 24);
}

#[test]
fn last_column_is_overwritten_by_narrow_chars() {
    let mut p = AnsiParser::new(3, 4);
    p.parse(b"abcdef");
    assert_eq!(row_text(&p, 0, 4), "abcf");
    assert_eq!(p.cursor().row(), 0);
}

#[test]
fn wide_char_that_does_not_fit_wraps() {
    let mut p = AnsiParser::new(3, 4);
    p.parse("abc\u{4e16}".as_bytes());
    assert_eq!(p.screen().cell(1, 0).unwrap().c, '\u{4e16}');
    assert_eq!(p.screen().cell(1, 1).unwrap().c, '\0');
    assert_eq!(p.cursor().row(), 1);
    assert_eq!(p.cursor().col(), 2);
}

#[test]
fn scroll_region_limits_line_feeds() {
    let mut p = AnsiParser::new(4, 4);
    p.parse(b"1\r\n2\r\n3\r\n4");
    p.parse(b"\x1b[2;3r");
    p.parse(b"\x1b[3;1H\n");
    assert_eq!(row_text(&p, 0, 1), "1");
    assert_eq!(row_text(&p, 1, 1), "3");
    assert_eq!(row_text(&p, 2, 1), " ");
    assert_eq!(row_text(&p, 3, 1), "4");
}

#[test]
fn graphics_query_gets_ok_reply() {
    let mut p = parser();
    p.parse(b"\x1bPGa=q,i=31\x1b\\");
    assert_eq!(p.pending_responses.last().unwrap().as_slice(), b"\x1b_Gi=31;OK\x1b\\");
}

#[test]
fn apc_graphics_command_queues_image() {
    let mut p = parser();
    p.parse(b"\x1b_Gf=32,s=1,v=1,a=T;AQIDBA==\x1b\\");
    let jobs = p.graphics.take_jobs();
    assert_eq!(jobs.len(), 1);
    match &jobs[0] {
        ImageJob::Decode(img) => {
            assert_eq!(img.payload, vec![1, 2, 3, 4]);
            assert_eq!(img.id, 1);
        }
        _ => panic!("expected a decode job"),
    }
}

#[test]
fn reset_clears_everything() {
    let mut p = parser();
    p.parse(b"text\x1b[?1049h\x1bc");
    assert_eq!(row_text(&p, 0, 4), "    ");
    assert_eq!(p.cursor().col(), 0);
}

#[test]
fn resize_reflows_normal_screen() {
    let mut p = AnsiParser::new(2, 6);
    p.parse(b"abcdef");
    p.resize(3, 3);
    assert_eq!(p.screen().rows(), 3);
    assert_eq!(p.screen().cols(), 3);
}

#[test]
fn screen_write_then_read() {
    let mut s = ScreenBuffer::new(2, 3);
    s.write_char(1, 2, 'z', CellAttributes::default());
    assert_eq!(s.cell(1, 2).unwrap().c, 'z');
    assert!(s.cell(2, 0).is_none());
}

#[test]
fn screen_scroll_up_fills_history() {
    let mut s = ScreenBuffer::new(2, 2);
    s.write_char(0, 0, 'a', CellAttributes::default());
    s.scroll_up(1);
    assert_eq!(s.scrollback_len(), 1);
    assert_eq!(s.get_scrollback_line(0).unwrap()[0].c, 'a');
    s.scroll_down(1);
    assert_eq!(s.cell(0, 0).unwrap().c, 'a');
    assert_eq!(s.scrollback_len(), 0);
}

#[test]
fn cursor_moves_are_clamped() {
    let mut c = Cursor::new(5, 5);
    c.move_to(10, 10);
    assert_eq!((c.row(), c.col()), (4, 4));
    c.move_up(10);
    assert_eq!(c.row(), 0);
    c.move_left();
    c.move_left();
    assert_eq!(c.col(), 2);
    c.save_position();
    c.move_to(0, 0);
    c.restore_position();
    assert_eq!((c.row(), c.col()), (0, 2));
}

#[test]
fn graphics_manager_places_and_clears() {
    let mut g = GraphicsManager::new();
    assert_eq!(g.next_id(), 1);
    let removed = g.clear();
    assert!(removed.is_empty());
}

#[test]
fn chunked_image_payload_is_decoded_per_chunk() {
    let mut g = GraphicsManager::new();
    g.handle_apc("a=T,f=24,s=1,v=2,m=1;AAAA", 0, 0);
    assert!(g.take_jobs().is_empty());
    g.handle_apc("m=0;AAAA", 0, 0);
    let jobs = g.take_jobs();
    assert_eq!(jobs.len(), 1);
    match &jobs[0] {
        ImageJob::Decode(img) => {
            assert_eq!(img.payload, vec![0u8; 6]);
            let (rgba, w, h) = decode_to_rgba(img).unwrap();
            assert_eq!((w, h), (1, 2));
            assert_eq!(rgba, vec![0, 0, 0, 255, 0, 0, 0, 255]);
        }
        _ => panic!("expected a decode job"),
    }
}

#[test]
fn base64_decodes_standard_text() {
    assert_eq!(decode_base64(b"TWFu"), b"Man".to_vec());
    assert_eq!(decode_base64(b"TWE="), b"Ma".to_vec());
    assert_eq!(decode_base64(b"TQ=="), b"M".to_vec());
    assert_eq!(decode_base64(b""), Vec::<u8>::new());
    assert_eq!(decode_base64(b"/+8A"), vec![0xff, 0xef, 0x00]);
}

#[test]
fn parse_without_escapes_prints_each_byte() {
    let mut p = parser();
    p.parse(b"abc");
    assert_eq!(row_text(&p, 0, 3), "abc");
    assert_eq!(p.cursor().col(), 3);
}

#[test]
fn scroll_up_n_then_down_n_restores_screen() {
    let mut s = ScreenBuffer::new(3, 2);
    s.write_char(0, 0, 'a', CellAttributes::default());
    s.write_char(1, 1, 'b', CellAttributes::default());
    s.write_char(2, 0, 'c', CellAttributes::default());
    s.scroll_up(2);
    assert_eq!(s.scrollback_len(), 2);
    assert_eq!(s.cell(0, 0).unwrap().c, 'c');
    s.scroll_down(2);
    assert_eq!(s.scrollback_len(), 0);
    assert_eq!(s.cell(0, 0).unwrap().c, 'a');
    assert_eq!(s.cell(1, 1).unwrap().c, 'b');
    assert_eq!(s.cell(2, 0).unwrap().c, 'c');
}

#[test]
fn dirty_flag_follows_changes() {
    let c = Cursor::new(2, 2);
    let mut s = ScreenBuffer::new(2, 2);
    s.mark_clean();
    assert!(!s.has_changes(&c));
    s.write_char(5, 5, 'x', CellAttributes::default());
    assert!(!s.has_changes(&c));
    s.scroll_region_up(1, 1, 1);
    assert!(!s.has_changes(&c));
    s.resize(2, 2);
    assert!(!s.has_changes(&c));
    s.write_char(1, 1, 'x', CellAttributes::default());
    assert!(s.has_changes(&c));
    s.mark_clean();
    s.clear_line(0);
    assert!(s.has_changes(&c));
    s.mark_clean();
    s.scroll_up(1);
    assert!(s.has_changes(&c));
}

#[test]
fn saved_position_survives_other_calls() {
    let mut c = Cursor::new(5, 5);
    c.move_to(3, 2);
    c.save_position();
    c.move_to(0, 0);
    c.move_down();
    c.newline();
    c.reset();
    c.set_visible(false);
    c.move_right();
    c.restore_position();
    assert_eq!((c.row(), c.col()), (3, 2));
}

#[test]
fn zero_width_resize_only_for_empty_screen() {
    let mut s = ScreenBuffer::new(2, 2);
    assert!(s.can_resize(2, 0));
    assert!(s.can_resize(3, 5));
    s.write_char(0, 0, 'x', CellAttributes::default());
    assert!(!s.can_resize(2, 0));
    assert!(s.can_resize(2, 2));
    let p = parser();
    assert!(p.can_resize(10, 10));
}

#[test]
fn zero_width_grid_takes_moves_but_not_printing() {
    let mut p = AnsiParser::new(3, 0);
    assert!(p.parse_checked(b"\x1b[2;1H\x1b[1m\x1b[2P\x1b[3@\r\n"));
    assert_eq!(p.cursor().row(), 2);
    assert_eq!(p.cursor().col(), 0);
    assert!(p.cursor().attributes().bold);
    assert!(!p.parse_checked(b"x"));
    assert!(!p.parse_checked(b"\x1b[C"));
    assert_eq!(p.cursor().col(), 0);
    let mut q = AnsiParser::new(2, 4);
    assert!(q.parse_checked(b"ab"));
    assert_eq!(row_text(&q, 0, 2), "ab");
}
