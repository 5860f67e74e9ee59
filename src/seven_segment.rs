//! Seven-segment number displays: their geometry, the digits of a number,
//! and the pixels that show it.
use vstd::prelude::*;
use crate::constants::{HEIGHT_TO_WIDTH_SCALING, HS_SPACE_SIZE};
use crate::renderer::PixelWrite;

verus! {

/// Width of a five-digit display.
pub open spec fn digits_width(elem_width: int, gap: int) -> int {
    5 * elem_width + 4 * gap
}

/// Width of the "HS-" prefix of a highscore display.
pub open spec fn hs_prefix_width(elem_width: int, gap: int) -> int {
    3 * elem_width + gap + 2 * HS_SPACE_SIZE
}

/// The pixels of a `size.0` by `size.1` block whose upper-left pixel is
/// `offset`, column by column.
pub open spec fn block(offset: (u16, u16), size: (u16, u16)) -> Seq<(u16, u16)> {
    Seq::new(
        (size.0 * size.1) as nat,
        |i: int| ((offset.0 + i / (size.1 as int)) as u16, (offset.1 + i % (size.1 as int)) as u16),
    )
}

/// Length and thickness of a segment for a given element width.
pub open spec fn seg_size(elem_width: u16) -> (u16, u16) {
    (
        (elem_width as int / HEIGHT_TO_WIDTH_SCALING as int) as u16,
        (elem_width as int / (HEIGHT_TO_WIDTH_SCALING * 2) as int) as u16,
    )
}

/// Offset and size of segment `k` of a digit: top, upper right, lower
/// right, bottom, lower left, upper left, middle.
pub open spec fn segment_layout(elem_width: u16, k: int) -> ((u16, u16), (u16, u16)) {
    let len = seg_size(elem_width).0;
    let thick = seg_size(elem_width).1;
    let across = (len, thick);
    let upright = (thick, len);
    if k == 0 {
        ((thick, 0), across)
    } else if k == 1 {
        (((thick + len) as u16, thick), upright)
    } else if k == 2 {
        (((thick + len) as u16, (len * 2) as u16), upright)
    } else if k == 3 {
        ((thick, (len * 3) as u16), across)
    } else if k == 4 {
        ((0, (len * 2) as u16), upright)
    } else if k == 5 {
        ((0, thick), upright)
    } else {
        ((thick, (len + thick) as u16), across)
    }
}

/// Colour of the segments left dark.
pub const DARK: u16 = 0x0000;

/// The writes that paint `pixels` in `color`, moved right by `offset` and
/// then by `pos`; coordinates wrap around.
pub open spec fn shifted_writes(
    pixels: Seq<(u16, u16)>,
    offset: u16,
    pos: (u16, u16),
    color: u16,
) -> Seq<PixelWrite> {
    Seq::new(
        pixels.len(),
        |i: int|
            (
                pixels[i].0.wrapping_add(offset).wrapping_add(pos.0),
                pixels[i].1.wrapping_add(pos.1),
                color,
            ),
    )
}

/// The segments lit and left dark for the letter H.
pub open spec fn letter_h() -> (Seq<usize>, Seq<usize>) {
    (seq![1, 2, 4, 5, 6], seq![0, 3])
}

/// The segments lit and left dark for the letter S.
pub open spec fn letter_s() -> (Seq<usize>, Seq<usize>) {
    (seq![0, 2, 3, 5, 6], seq![1, 4])
}

/// The segments lit and left dark for a dash.
pub open spec fn dash() -> (Seq<usize>, Seq<usize>) {
    (seq![6], seq![0, 1, 2, 3, 4, 5])
}

/// A segment of a digit: the pixels it covers, relative to the digit.
pub struct Segment {
    pub pixel: Vec<(u16, u16)>,
}

/// A five-digit seven-segment display at a fixed position.
pub struct SSDisplay {
    pub segs: Vec<Segment>,
    pub pos: (u16, u16),
    pub elem_width: u16,
    pub gap: u16,
}

impl Segment {
    /// The segment covering the `size.0` by `size.1` block at `offset`.
    pub fn new(offset: (u16, u16), size: (u16, u16)) -> (r: Self)
        requires
            offset.0 + size.0 <= u16::MAX,
            offset.1 + size.1 <= u16::MAX,
        ensures
            r.pixel@ == block(offset, size),
    {
        let ghost h = size.1 as int;
        let mut result: Vec<(u16, u16)> = Vec::new();
        let mut x: u16 = 0;
        while x < size.0
            invariant
                x <= size.0,
                offset.0 + size.0 <= u16::MAX,
                offset.1 + size.1 <= u16::MAX,
                h == size.1,
                result@.len() == x * h,
                forall|i: int|
                    0 <= i < result@.len() ==> #[trigger] result@[i] == (
                        (offset.0 + i / h) as u16,
                        (offset.1 + i % h) as u16,
                    ),
            decreases size.0 - x,
        {
            let mut y: u16 = 0;
            while y < size.1
                invariant
                    x < size.0,
                    y <= size.1,
                    offset.0 + size.0 <= u16::MAX,
                    offset.1 + size.1 <= u16::MAX,
                    h == size.1,
                    result@.len() == x * h + y,
                    forall|i: int|
                        0 <= i < result@.len() ==> #[trigger] result@[i] == (
                            (offset.0 + i / h) as u16,
                            (offset.1 + i % h) as u16,
                        ),
                decreases size.1 - y,
            {
                proof {
                    vstd::arithmetic::div_mod::lemma_fundamental_div_mod_converse(
                        x * h + y,
                        h,
                        x as int,
                        y as int,
                    );
                }
                result.push((x + offset.0, y + offset.1));
                y = y + 1;
            }
            assert(result@.len() == (x + 1) * h) by (nonlinear_arith)
                requires
                    result@.len() == x * h + h,
            ;
            x = x + 1;
        }
        assert(result@ =~= block(offset, size));
        Segment { pixel: result }
    }
}

impl SSDisplay {
    /// The seven segments of a digit are well formed for `elem_width`.
    pub open spec fn wf(&self) -> bool {
        &&& self.segs@.len() == 7
        &&& forall|k: int|
            0 <= k < 7 ==> (#[trigger] self.segs@[k]).pixel@ == block(
                segment_layout(self.elem_width, k).0,
                segment_layout(self.elem_width, k).1,
            )
    }

    /// The writes that paint the segments `nums` in turn.
    pub open spec fn segments_writes(&self, nums: Seq<usize>, color: u16, offset: u16) -> Seq<
        PixelWrite,
    >
        decreases nums.len(),
    {
        if nums.len() == 0 {
            Seq::empty()
        } else {
            self.segments_writes(nums.drop_last(), color, offset) + shifted_writes(
                self.segs@[nums.last() as int].pixel@,
                offset,
                self.pos,
                color,
            )
        }
    }

    /// The writes for a glyph: its lit segments in `color`, then its dark
    /// segments in `DARK`.
    pub open spec fn glyph_writes(
        &self,
        glyph: (Seq<usize>, Seq<usize>),
        color: u16,
        offset: u16,
    ) -> Seq<PixelWrite> {
        self.segments_writes(glyph.0, color, offset) + self.segments_writes(glyph.1, DARK, offset)
    }

    /// The writes for the `k` most significant of the five digits of `n`,
    /// the first at `offset`, each next one a digit width and a gap further.
    pub open spec fn number_writes(&self, n: u16, color: u16, offset: u16, k: nat) -> Seq<
        PixelWrite,
    >
        decreases k,
    {
        if k == 0 {
            Seq::empty()
        } else {
            self.glyph_writes(
                (lit_segments(digit(n, k - 1)), dark_segments(digit(n, k - 1))),
                color,
                offset,
            ) + self.number_writes(
                n,
                color,
                offset.wrapping_add(self.elem_width.wrapping_add(self.gap)),
                (k - 1) as nat,
            )
        }
    }

    /// The writes for "HS-" followed by the five digits of `n`.
    pub open spec fn highscore_writes(&self, n: u16, color: u16) -> Seq<PixelWrite> {
        let o1 = self.elem_width.wrapping_add(self.gap);
        let o2 = o1.wrapping_add(self.elem_width.wrapping_add(HS_SPACE_SIZE));
        let o3 = o2.wrapping_add(self.elem_width.wrapping_add(HS_SPACE_SIZE));
        self.glyph_writes(letter_h(), color, 0) + self.glyph_writes(letter_s(), color, o1)
            + self.glyph_writes(dash(), color, o2) + self.number_writes(n, color, o3, 5)
    }

    /// Writes that paint the segments `segs` in `color` at `offset`.
    fn render_segments(&self, segs: &Vec<usize>, color: u16, offset: u16) -> (r: Vec<PixelWrite>)
        requires
            self.wf(),
            forall|i: int| 0 <= i < segs@.len() ==> segs@[i] < 7,
        ensures
            r@ == self.segments_writes(segs@, color, offset),
    {
        let mut out: Vec<PixelWrite> = Vec::new();
        let mut i: usize = 0;
        while i < segs.len()
            invariant
                self.wf(),
                forall|k: int| 0 <= k < segs@.len() ==> segs@[k] < 7,
                i <= segs@.len(),
                out@ == self.segments_writes(segs@.take(i as int), color, offset),
            decreases segs@.len() - i,
        {
            let seg = &self.segs[segs[i]];
            let ghost before = out@;
            let mut j: usize = 0;
            while j < seg.pixel.len()
                invariant
                    j <= seg.pixel@.len(),
                    out@ == before + shifted_writes(seg.pixel@.take(j as int), offset, self.pos, color),
                decreases seg.pixel@.len() - j,
            {
                let p = seg.pixel[j];
                out.push((p.0.wrapping_add(offset).wrapping_add(self.pos.0), p.1.wrapping_add(self.pos.1), color));
                assert(out@ =~= before + shifted_writes(seg.pixel@.take(j + 1), offset, self.pos, color));
                j = j + 1;
            }
            assert(seg.pixel@.take(seg.pixel@.len() as int) =~= seg.pixel@);
            assert(segs@.take(i + 1).drop_last() =~= segs@.take(i as int));
            i = i + 1;
        }
        assert(segs@.take(segs@.len() as int) =~= segs@);
        out
    }

    /// Writes for a glyph: its lit segments in `color`, then its dark ones.
    fn render_glyph(&self, print: &Vec<usize>, alpha: &Vec<usize>, color: u16, offset: u16) -> (r:
        Vec<PixelWrite>)
        requires
            self.wf(),
            forall|i: int| 0 <= i < print@.len() ==> print@[i] < 7,
            forall|i: int| 0 <= i < alpha@.len() ==> alpha@[i] < 7,
        ensures
            r@ == self.glyph_writes((print@, alpha@), color, offset),
    {
        let mut out = self.render_segments(print, color, offset);
        let mut dark = self.render_segments(alpha, DARK, offset);
        out.append(&mut dark);
        out
    }

    /// The pixel writes that show `n` in `color`, starting `offset` pixels
    /// right of the display's position.
    pub fn render_offset(&self, n: u16, color: u16, offset: u16) -> (r: Vec<PixelWrite>)
        requires
            self.wf(),
        ensures
            r@ == self.number_writes(n, color, offset, 5),
    {
        let bcd = u16_to_bcd(n);
        let mut out: Vec<PixelWrite> = Vec::new();
        let mut offs = offset;
        let mut i: usize = 5;
        while i > 0
            invariant
                self.wf(),
                i <= 5,
                bcd@ == seq![digit(n, 0), digit(n, 1), digit(n, 2), digit(n, 3), digit(n, 4)],
                out@ + self.number_writes(n, color, offs, i as nat) == self.number_writes(
                    n,
                    color,
                    offset,
                    5,
                ),
            decreases i,
        {
            i = i - 1;
            let (print, alpha) = get_segment_indices(bcd[i]);
            assert forall|k: int| 0 <= k < print@.len() implies print@[k] < 7 by {
                lemma_segments_in_range(bcd[i as int]);
            }
            assert forall|k: int| 0 <= k < alpha@.len() implies alpha@[k] < 7 by {
                lemma_segments_in_range(bcd[i as int]);
            }
            let mut glyph = self.render_glyph(&print, &alpha, color, offs);
            let ghost rest = self.number_writes(
                n,
                color,
                offs.wrapping_add(self.elem_width.wrapping_add(self.gap)),
                i as nat,
            );
            assert(out@ + glyph@ + rest =~= out@ + (glyph@ + rest));
            out.append(&mut glyph);
            offs = offs.wrapping_add(self.elem_width.wrapping_add(self.gap));
        }
        assert(out@ + Seq::<PixelWrite>::empty() =~= out@);
        out
    }

    /// The pixel writes that show `n` in `color`.
    pub fn render(&self, n: u16, color: u16) -> (r: Vec<PixelWrite>)
        requires
            self.wf(),
        ensures
            r@ == self.number_writes(n, color, 0, 5),
    {
        self.render_offset(n, color, 0)
    }

    /// The pixel writes that show "HS-" and then `n`, in `color`.
    pub fn render_hs(&self, n: u16, color: u16) -> (r: Vec<PixelWrite>)
        requires
            self.wf(),
        ensures
            r@ == self.highscore_writes(n, color),
    {
        let h_print: Vec<usize> = vec![1, 2, 4, 5, 6];
        let h_alpha: Vec<usize> = vec![0, 3];
        let s_print: Vec<usize> = vec![0, 2, 3, 5, 6];
        let s_alpha: Vec<usize> = vec![1, 4];
        let minus_print: Vec<usize> = vec![6];
        let minus_alpha: Vec<usize> = vec![0, 1, 2, 3, 4, 5];
        assert(h_print@ =~= letter_h().0 && h_alpha@ =~= letter_h().1);
        assert(s_print@ =~= letter_s().0 && s_alpha@ =~= letter_s().1);
        assert(minus_print@ =~= dash().0 && minus_alpha@ =~= dash().1);
        let mut offset: u16 = 0;
        let mut out = self.render_glyph(&h_print, &h_alpha, color, offset);
        offset = offset.wrapping_add(self.elem_width.wrapping_add(self.gap));
        let mut s = self.render_glyph(&s_print, &s_alpha, color, offset);
        out.append(&mut s);
        offset = offset.wrapping_add(self.elem_width.wrapping_add(HS_SPACE_SIZE));
        let mut minus = self.render_glyph(&minus_print, &minus_alpha, color, offset);
        out.append(&mut minus);
        offset = offset.wrapping_add(self.elem_width.wrapping_add(HS_SPACE_SIZE));
        let mut digits = self.render_offset(n, color, offset);
        out.append(&mut digits);
        out
    }

    /// A display at `pos` whose digits are `elem_width` wide and twice as
    /// high, `gap` apart.
    pub fn new(pos: (u16, u16), elem_width: u16, gap: u16) -> (r: Self)
        requires
            2 * elem_width <= u16::MAX,
        ensures
            r.wf(),
            r.pos == pos,
            r.elem_width == elem_width,
            r.gap == gap,
    {
        let seg = (
            elem_width / HEIGHT_TO_WIDTH_SCALING,
            elem_width / (HEIGHT_TO_WIDTH_SCALING * 2),
        );
        let len = seg.0;
        let thick = seg.1;
        assert(2 * len <= elem_width && 4 * thick <= elem_width) by (nonlinear_arith)
            requires
                len == elem_width / 2,
                thick == elem_width / 4,
        ;
        let mut segs: Vec<Segment> = Vec::new();
        segs.push(Segment::new((thick, 0), seg));
        segs.push(Segment::new((thick + len, thick), flip(seg)));
        segs.push(Segment::new((thick + len, len * 2), flip(seg)));
        segs.push(Segment::new((thick, len * 3), seg));
        segs.push(Segment::new((0, len * 2), flip(seg)));
        segs.push(Segment::new((0, thick), flip(seg)));
        segs.push(Segment::new((thick, len + thick), seg));
        let r = SSDisplay { segs, pos, elem_width, gap };
        assert forall|k: int| 0 <= k < 7 implies (#[trigger] r.segs@[k]).pixel@ == block(
            segment_layout(elem_width, k).0,
            segment_layout(elem_width, k).1,
        ) by {
            if k == 0 {
            } else if k == 1 {
            } else if k == 2 {
            } else if k == 3 {
            } else if k == 4 {
            } else if k == 5 {
            } else {
            }
        }
        r
    }

    /// Width of a five-digit display.
    pub fn calculate_width(elem_width: u16, gap: u16) -> (r: u16)
        requires
            digits_width(elem_width as int, gap as int) <= u16::MAX,
        ensures
            r == digits_width(elem_width as int, gap as int),
    {
        5 * elem_width + 4 * gap
    }

    /// Height of a display: twice its element width.
    pub fn calculate_height(elem_width: u16) -> (r: u16)
        requires
            2 * elem_width <= u16::MAX,
        ensures
            r == 2 * elem_width,
    {
        2 * elem_width
    }

    /// Width of the "HS-" prefix of a highscore display.
    pub fn calculate_hs_prefix_width(elem_width: u16, gap: u16) -> (r: u16)
        requires
            hs_prefix_width(elem_width as int, gap as int) <= u16::MAX,
        ensures
            r == hs_prefix_width(elem_width as int, gap as int),
    {
        3 * elem_width + gap + 2 * HS_SPACE_SIZE
    }

    /// Width of a highscore display: prefix and five digits.
    pub fn calculate_hs_width(elem_width: u16, gap: u16) -> (r: u16)
        requires
            hs_prefix_width(elem_width as int, gap as int) + digits_width(
                elem_width as int,
                gap as int,
            ) <= u16::MAX,
        ensures
            r == hs_prefix_width(elem_width as int, gap as int) + digits_width(
                elem_width as int,
                gap as int,
            ),
    {
        Self::calculate_hs_prefix_width(elem_width, gap) + Self::calculate_width(elem_width, gap)
    }
}

/// Decimal digit `k` of `n`, counting from the least significant; the
/// fifth holds whatever is left above the fourth.
pub open spec fn digit(n: u16, k: int) -> u16 {
    if k == 0 {
        n % 10
    } else if k == 1 {
        (n / 10) % 10
    } else if k == 2 {
        (n / 100) % 10
    } else if k == 3 {
        (n / 1000) % 10
    } else {
        n / 10000
    }
}

/// The segments lit to show digit `d`; anything above nine shows a dash.
pub open spec fn lit_segments(d: u16) -> Seq<usize> {
    if d == 0 {
        seq![0, 1, 2, 3, 4, 5]
    } else if d == 1 {
        seq![1, 2]
    } else if d == 2 {
        seq![0, 1, 3, 4, 6]
    } else if d == 3 {
        seq![0, 1, 2, 3, 6]
    } else if d == 4 {
        seq![1, 2, 5, 6]
    } else if d == 5 {
        seq![0, 2, 3, 5, 6]
    } else if d == 6 {
        seq![0, 2, 3, 4, 5, 6]
    } else if d == 7 {
        seq![0, 1, 2]
    } else if d == 8 {
        seq![0, 1, 2, 3, 4, 5, 6]
    } else if d == 9 {
        seq![0, 1, 2, 3, 5, 6]
    } else {
        seq![6]
    }
}

/// The segments left dark when showing digit `d`: the other segments.
pub open spec fn dark_segments(d: u16) -> Seq<usize> {
    if d == 0 {
        seq![6]
    } else if d == 1 {
        seq![0, 3, 4, 5, 6]
    } else if d == 2 {
        seq![2, 5]
    } else if d == 3 {
        seq![4, 5]
    } else if d == 4 {
        seq![0, 3, 4]
    } else if d == 5 {
        seq![1, 4]
    } else if d == 6 {
        seq![1]
    } else if d == 7 {
        seq![3, 4, 5, 6]
    } else if d == 8 {
        seq![]
    } else if d == 9 {
        seq![4]
    } else {
        seq![0, 1, 2, 3, 4, 5]
    }
}

/// A pair with its two components swapped.
pub fn flip(tuple: (u16, u16)) -> (r: (u16, u16))
    ensures
        r == (tuple.1, tuple.0),
{
    (tuple.1, tuple.0)
}

/// The five decimal digits of `n`, least significant first.
pub fn u16_to_bcd(n: u16) -> (r: [u16; 5])
    ensures
        r@ == seq![digit(n, 0), digit(n, 1), digit(n, 2), digit(n, 3), digit(n, 4)],
        n == r@[0] + 10 * r@[1] + 100 * r@[2] + 1000 * r@[3] + 10000 * r@[4],
{
    let mut tmp = n;
    let d4 = tmp / 10000;
    tmp = tmp - d4 * 10000;
    let d3 = tmp / 1000;
    tmp = tmp - d3 * 1000;
    let d2 = tmp / 100;
    tmp = tmp - d2 * 100;
    let d1 = tmp / 10;
    tmp = tmp - d1 * 10;
    let d0 = tmp;
    let r = [d0, d1, d2, d3, d4];
    assert(r@[0] == digit(n, 0) && r@[1] == digit(n, 1) && r@[2] == digit(n, 2) && r@[3] == digit(
        n,
        3,
    ) && r@[4] == digit(n, 4)) by (nonlinear_arith)
        requires
            d4 == n / 10000,
            d3 == (n - d4 * 10000) / 1000,
            d2 == (n - d4 * 10000 - d3 * 1000) / 100,
            d1 == (n - d4 * 10000 - d3 * 1000 - d2 * 100) / 10,
            d0 == n - d4 * 10000 - d3 * 1000 - d2 * 100 - d1 * 10,
            r@ == seq![d0, d1, d2, d3, d4],
    ;
    assert(r@ =~= seq![digit(n, 0), digit(n, 1), digit(n, 2), digit(n, 3), digit(n, 4)]);
    r
}

/// The segments lit and the segments left dark to show digit `num`.
pub fn get_segment_indices(num: u16) -> (r: (Vec<usize>, Vec<usize>))
    ensures
        r.0@ == lit_segments(num),
        r.1@ == dark_segments(num),
{
    let (print, alpha) = match num {
        0 => (vec![0, 1, 2, 3, 4, 5], vec![6]),
        1 => (vec![1, 2], vec![0, 3, 4, 5, 6]),
        2 => (vec![0, 1, 3, 4, 6], vec![2, 5]),
        3 => (vec![0, 1, 2, 3, 6], vec![4, 5]),
        4 => (vec![1, 2, 5, 6], vec![0, 3, 4]),
        5 => (vec![0, 2, 3, 5, 6], vec![1, 4]),
        6 => (vec![0, 2, 3, 4, 5, 6], vec![1]),
        7 => (vec![0, 1, 2], vec![3, 4, 5, 6]),
        8 => (vec![0, 1, 2, 3, 4, 5, 6], vec![]),
        9 => (vec![0, 1, 2, 3, 5, 6], vec![4]),
        _ => (vec![6], vec![0, 1, 2, 3, 4, 5]),
    };
    assert(print@ =~= lit_segments(num));
    assert(alpha@ =~= dark_segments(num));
    (print, alpha)
}

/// Every segment that a digit lights or leaves dark is one of the seven.
proof fn lemma_segments_in_range(d: u16)
    ensures
        forall|k: int| 0 <= k < lit_segments(d).len() ==> lit_segments(d)[k] < 7,
        forall|k: int| 0 <= k < dark_segments(d).len() ==> dark_segments(d)[k] < 7,
{
}

} // verus!
