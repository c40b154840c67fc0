use foxix::utils::color::{xterm_color, Color, ColorPalette};
use foxix::utils::ring_buffer::RingBuffer;
use foxix::text::{find_byte, parse_unsigned_exec, split_bytes, push_decimal};

#[test]
fn ring_buffer_drops_oldest() {
    let mut r: RingBuffer<u32> = RingBuffer::new(3);
    for i in 1..=5 {
        r.push(i);
    }
    assert_eq!(r.len(), 3);
    assert_eq!(r.get(0), Some(&3));
    assert_eq!(r.iter().into_iter().copied().collect::<Vec<u32>>(), vec![3, 4, 5]);
    assert_eq!(r.capacity(), 3);
}

#[test]
fn ring_buffer_drains() {
    let mut r: RingBuffer<u32> = RingBuffer::new(10);
    for i in 0..6 {
        r.push(i);
    }
    assert_eq!(r.drain_from_back(2), vec![4, 5]);
    assert_eq!(r.drain_from_front(10), vec![0, 1, 2, 3]);
    assert!(r.is_empty());
}

#[test]
fn ring_buffer_of_capacity_zero_keeps_last() {
    let mut r: RingBuffer<u32> = RingBuffer::new(0);
    r.push(1);
    r.push(2);
    assert_eq!(r.len(), 1);
    assert_eq!(r.get(0), Some(&2));
}

#[test]
fn color_from_hex_forms() {
    let c = Color::from_hex("#ff8000").unwrap();
    assert_eq!((c.r, c.g, c.b, c.a), (255, 128, 0, 255));
    let c = Color::from_hex("11223380").unwrap();
    assert_eq!((c.r, c.g, c.b, c.a), (0x11, 0x22, 0x33, 0x80));
    assert!(Color::from_hex("#12345").is_none());
    assert!(Color::from_hex("#gg0000").is_none());
    let c = Color::from_hex("##+f0000").unwrap();
    assert_eq!(c.r, 15);
}

#[test]
fn ansi_palette_wraps_modulo_16() {
    let c = ColorPalette::ansi_color(1);
    assert_eq!((c.r, c.g, c.b), (205, 0, 0));
    let c = ColorPalette::ansi_color(17);
    assert_eq!((c.r, c.g, c.b), (205, 0, 0));
    let d = Color::default();
    assert_eq!((d.r, d.g, d.b, d.a), (255, 255, 255, 255));
}

#[test]
fn xterm_cube_and_greys() {
    assert_eq!(xterm_color(5), None);
    assert_eq!(xterm_color(16), Some([0, 0, 0]));
    assert_eq!(xterm_color(196), Some([255, 0, 0]));
    assert_eq!(xterm_color(231), Some([255, 255, 255]));
    assert_eq!(xterm_color(232), Some([8, 8, 8]));
    assert_eq!(xterm_color(255), Some([238, 238, 238]));
}

#[test]
fn byte_text_helpers() {
    assert_eq!(find_byte(b"a,b", b','), Some(1));
    assert_eq!(parse_unsigned_exec(b"+42", 255), Some(42));
    assert_eq!(parse_unsigned_exec(b"256", 255), None);
    let parts = split_bytes(b"a,,b", b',');
    assert_eq!(parts, vec![b"a".to_vec(), b"".to_vec(), b"b".to_vec()]);
    let mut out = Vec::new();
    push_decimal(&mut out, 1207);
    assert_eq!(out, b"1207".to_vec());
}

#[test]
fn ring_buffer_length_stays_within_capacity() {
    let mut r: RingBuffer<u32> = RingBuffer::new(2);
    for i in 0..10 {
        r.push(i);
        assert!(r.len() <= r.capacity());
    }
    assert_eq!(r.len(), 2);
    assert_eq!(r.get(1), Some(&9));
}
