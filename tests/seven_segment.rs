use target_shooter::seven_segment::{flip, get_segment_indices, u16_to_bcd, SSDisplay};

#[test]
fn bcd_digits() {
    assert_eq!(u16_to_bcd(12345), [5, 4, 3, 2, 1]);
    assert_eq!(u16_to_bcd(0), [0, 0, 0, 0, 0]);
    assert_eq!(u16_to_bcd(65535), [5, 3, 5, 5, 6]);
    assert_eq!(u16_to_bcd(907), [7, 0, 9, 0, 0]);
}

#[test]
fn segments_of_digits() {
    assert_eq!(get_segment_indices(8), (vec![0, 1, 2, 3, 4, 5, 6], vec![]));
    assert_eq!(get_segment_indices(1), (vec![1, 2], vec![0, 3, 4, 5, 6]));
    assert_eq!(get_segment_indices(10), (vec![6], vec![0, 1, 2, 3, 4, 5]));
}

#[test]
fn display_widths() {
    assert_eq!(SSDisplay::calculate_width(12, 3), 72);
    assert_eq!(SSDisplay::calculate_height(12), 24);
    assert_eq!(SSDisplay::calculate_hs_prefix_width(24, 3), 87);
    assert_eq!(SSDisplay::calculate_hs_width(24, 3), 87 + 132);
}

#[test]
fn flip_swaps() {
    assert_eq!(flip((3, 9)), (9, 3));
}

use target_shooter::seven_segment::Segment;

#[test]
fn segment_block_column_by_column() {
    let s = Segment::new((1, 2), (2, 3));
    assert_eq!(s.pixel, vec![(1, 2), (1, 3), (1, 4), (2, 2), (2, 3), (2, 4)]);
    assert!(Segment::new((5, 5), (0, 4)).pixel.is_empty());
}

#[test]
fn display_layout_small() {
    let d = SSDisplay::new((100, 7), 12, 3);
    assert_eq!(d.segs.len(), 7);
    assert_eq!((d.pos, d.elem_width, d.gap), ((100, 7), 12, 3));
    // top segment: 6 long, 3 thick, starting right of the upper-left segment
    assert_eq!(d.segs[0].pixel.len(), 18);
    assert_eq!(d.segs[0].pixel[0], (3, 0));
    assert_eq!(d.segs[0].pixel[17], (8, 2));
    // upper-right segment: 3 wide, 6 high
    assert_eq!(d.segs[1].pixel[0], (9, 3));
    assert_eq!(d.segs[1].pixel[17], (11, 8));
    // middle segment
    assert_eq!(d.segs[6].pixel[0], (3, 9));
}

#[test]
fn render_number_paints_every_segment_once_per_digit() {
    let d = SSDisplay::new((0, 0), 12, 3);
    let writes = d.render(8, 0x1234);
    assert_eq!(writes.len(), 5 * 7 * 18);
    let lit = writes.iter().filter(|w| w.2 == 0x1234).count();
    let dark = writes.iter().filter(|w| w.2 == 0).count();
    // four leading zeros light six segments each; the eight lights all seven
    assert_eq!(lit, (4 * 6 + 7) * 18);
    assert_eq!(dark, 4 * 18);
    // the last digit starts four digit widths and gaps to the right
    assert!(writes.iter().any(|w| *w == (60 + 3, 0, 0x1234)));
}

#[test]
fn render_offset_shifts_right() {
    let d = SSDisplay::new((10, 20), 12, 3);
    let a = d.render(42, 5);
    let b = d.render_offset(42, 5, 7);
    assert_eq!(a.len(), b.len());
    for (p, q) in a.iter().zip(b.iter()) {
        assert_eq!((p.0 + 7, p.1, p.2), *q);
    }
}

#[test]
fn render_highscore_prefix() {
    let d = SSDisplay::new((0, 0), 12, 3);
    let writes = d.render_hs(0, 9);
    assert_eq!(writes.len(), (3 + 5) * 7 * 18);
    // H lights the upper-right segment first
    assert_eq!(writes[0], (9, 3, 9));
    // the digits begin after H, S and the dash: 15 + 18 + 18 pixels in
    let digits = d.render_offset(0, 9, 51);
    assert_eq!(writes[writes.len() - digits.len()..].to_vec(), digits);
}
