use target_shooter::renderer::RGBColor;

#[test]
fn white_is_all_ones() {
    assert_eq!(RGBColor::from_rgb(255, 255, 255), 0xFFFF);
}

#[test]
fn black_opaque_is_top_bit() {
    assert_eq!(RGBColor::from_rgb(0, 0, 0), 0x8000);
}

#[test]
fn transparent_below_threshold() {
    assert_eq!(RGBColor::from_rgb_with_alpha(41, 255, 0, 0), 0x7C00);
    assert_eq!(RGBColor::from_rgb_with_alpha(42, 255, 0, 0), 0xFC00);
}

#[test]
fn hex_channels() {
    assert_eq!(RGBColor::from_hex(0x0012_3456), 0x88CA);
    assert_eq!(RGBColor::from_hex(0xFF12_3456), 0x88CA);
    assert_eq!(RGBColor::from_hex_with_alpha(0x0012_3456), 0x08CA);
    assert_eq!(RGBColor::from_hex_with_alpha(0x2A12_3456), 0x88CA);
}

use target_shooter::renderer::{draw, draw_dump, fill};

#[test]
fn dump_pixels_row_by_row() {
    let dump = vec![255, 0, 0, 255, 0, 0, 255, 0, 8, 16, 24, 50];
    let w = draw_dump(10, 20, (2, 2), &[dump.clone(), vec![0; 4]].concat());
    assert_eq!(w.len(), 4);
    assert_eq!(w[0], (10, 20, 0xFC00));
    assert_eq!(w[1], (11, 20, 0x001F));
    assert_eq!(w[2], (10, 21, 0x8000 | (1 << 10) | (2 << 5) | 3));
    assert_eq!(w[3], (11, 21, 0));
}

#[test]
fn fill_rectangle() {
    assert_eq!(fill(5, 5, (2, 2), 7), vec![(5, 5, 7), (6, 5, 7), (5, 6, 7), (6, 6, 7)]);
    assert!(fill(5, 5, (3, 0), 7).is_empty());
}

#[test]
fn two_byte_image() {
    let img = vec![0x12, 0x34, 0xAB, 0xCD, 0xFF, 0xFF, 0x01];
    assert_eq!(draw(0, 0, 2, &img), vec![(0, 0, 0x1234), (1, 0, 0xABCD), (0, 1, 0xFFFF)]);
}

use target_shooter::renderer::draw_u16;

#[test]
fn packed_colour_image() {
    assert_eq!(
        draw_u16(3, 4, 2, &[1, 2, 3]),
        vec![(3, 4, 1), (4, 4, 2), (3, 5, 3)]
    );
}

use target_shooter::renderer::cursor;

#[test]
fn cursor_cross() {
    let w = cursor(100, 50, 7);
    assert_eq!(w.len(), 4 * 13);
    assert_eq!(w[0..4].to_vec(), vec![(100, 50, 7); 4]);
    assert_eq!(w[4..8].to_vec(), vec![(101, 50, 7), (99, 50, 7), (100, 51, 7), (100, 49, 7)]);
    assert_eq!(w[48..52].to_vec(), vec![(112, 50, 7), (88, 50, 7), (100, 62, 7), (100, 38, 7)]);
    // near the edge the arms wrap around
    let e = cursor(0, 0, 1);
    assert_eq!(e[5], (65535, 0, 1));
}
