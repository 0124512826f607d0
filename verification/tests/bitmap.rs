use firmware::bitmap::{draw_page_format_frame, Pixel};
use firmware::text::decimal_digits;

fn px(x: i32, y: i32) -> Pixel {
    Pixel { x, y }
}

#[test]
fn page_format_bits_become_pixels() {
    // Two columns, two pages.
    let data = [0b0000_0101u8, 0x80, 0x00, 0x01];
    let mut pixels = Vec::new();
    draw_page_format_frame(&mut pixels, &data, 2, 0, 0);
    assert_eq!(pixels, vec![px(0, 0), px(0, 2), px(1, 7), px(1, 8)]);
}

#[test]
fn page_format_offsets_and_partial_page() {
    // Three columns; the last two bytes do not fill a page and are not drawn.
    let data = [0xFFu8, 0x00, 0x02, 0x01, 0x01];
    let mut pixels = vec![px(-1, -1)];
    draw_page_format_frame(&mut pixels, &data, 3, 9, 33);
    let mut want = vec![px(-1, -1)];
    for bit in 0..8 {
        want.push(px(9, 33 + bit));
    }
    want.push(px(11, 34));
    assert_eq!(pixels, want);
}

#[test]
fn page_format_empty_data_draws_nothing() {
    let mut pixels = Vec::new();
    draw_page_format_frame(&mut pixels, &[], 128, 0, 0);
    assert!(pixels.is_empty());
}

#[test]
fn decimal_digits_of_numbers() {
    assert_eq!(decimal_digits(0), b"0".to_vec());
    assert_eq!(decimal_digits(7), b"7".to_vec());
    assert_eq!(decimal_digits(42), b"42".to_vec());
    assert_eq!(decimal_digits(100), b"100".to_vec());
    assert_eq!(decimal_digits(65535), b"65535".to_vec());
}

fn draw(data: &[u8], cols: usize, x: i32, y: i32) -> Vec<Pixel> {
    let mut pixels = Vec::new();
    draw_page_format_frame(&mut pixels, data, cols, x, y);
    pixels
}

#[test]
fn or_of_bitmaps_draws_union_of_pixels() {
    let a = [0x01u8, 0x10, 0x00, 0x81];
    let b = [0x03u8, 0x00, 0x40, 0x80];
    let o: Vec<u8> = a.iter().zip(b.iter()).map(|(x, y)| x | y).collect();
    let (pa, pb, po) = (draw(&a, 2, 0, 0), draw(&b, 2, 0, 0), draw(&o, 2, 0, 0));
    for p in &po {
        assert!(pa.contains(p) || pb.contains(p));
    }
    for p in pa.iter().chain(pb.iter()) {
        assert!(po.contains(p));
    }
    assert_eq!(po.len(), 6);
}

#[test]
fn moving_offsets_moves_every_pixel() {
    let data = [0x81u8, 0x02, 0x40, 0x00, 0x01, 0xF0];
    let base = draw(&data, 3, 0, 0);
    let moved = draw(&data, 3, 40, -5);
    let want: Vec<Pixel> = base.iter().map(|p| px(p.x + 40, p.y - 5)).collect();
    assert_eq!(moved, want);
}

#[test]
fn trailing_partial_page_is_ignored() {
    let data = [0x01u8, 0x02, 0x04, 0xFF];
    assert_eq!(draw(&data, 3, 1, 2), draw(&data[..3], 3, 1, 2));
}

#[test]
fn zero_bitmap_draws_nothing() {
    assert!(draw(&[0u8; 512], 128, 9, 33).is_empty());
}
