//! Colour packing for the display (1-bit alpha and 5 bits per channel) and
//! the pixel writes that show images, dumps and filled rectangles.
use vstd::prelude::*;

verus! {

/// A pixel to paint: its column, its row and its colour.
pub type PixelWrite = (u16, u16, u16);

/// Alpha values from this one up are opaque.
pub const ALPHA_OPAQUE_FROM: u8 = 42;

/// The packed colour: the opacity bit on top, then the top five bits of red,
/// green and blue.
pub open spec fn argb1555(a: u8, r: u8, g: u8, b: u8) -> int {
    (if a >= ALPHA_OPAQUE_FROM {
        0x8000int
    } else {
        0
    }) + (r / 8) * 0x400 + (g / 8) * 0x20 + b / 8
}

/// Byte `k` of `color`, counting from the least significant.
pub open spec fn byte_of(color: u32, k: nat) -> u8 {
    if k == 0 {
        (color % 0x100) as u8
    } else if k == 1 {
        ((color / 0x100) % 0x100) as u8
    } else if k == 2 {
        ((color / 0x1_0000) % 0x100) as u8
    } else {
        (color / 0x100_0000) as u8
    }
}

/// Conversions of colours to the display's packed format.
pub struct RGBColor;

impl RGBColor {
    /// An opaque colour from its channels.
    pub fn from_rgb(r: u8, g: u8, b: u8) -> (c: u16)
        ensures
            c == argb1555(ALPHA_OPAQUE_FROM, r, g, b),
    {
        Self::from_rgb_with_alpha(ALPHA_OPAQUE_FROM, r, g, b)
    }

    /// A colour from its alpha and channels.
    pub fn from_rgb_with_alpha(a: u8, r: u8, g: u8, b: u8) -> (c: u16)
        ensures
            c == argb1555(a, r, g, b),
    {
        let r_f = (r / 8) as u16;
        let g_f = (g / 8) as u16;
        let b_f = (b / 8) as u16;
        let top: u16 = if a >= ALPHA_OPAQUE_FROM {
            1 << 15u16
        } else {
            0
        };
        assert(1u16 << 15u16 == 0x8000) by (bit_vector);
        assert((top == 0 || top == 0x8000) && r_f < 32 && g_f < 32 && b_f < 32 ==> top | (r_f
            << 10u16) | (g_f << 5u16) | b_f == top + r_f * 0x400 + g_f * 0x20 + b_f)
            by (bit_vector);
        top | (r_f << 10u16) | (g_f << 5u16) | b_f
    }

    /// A colour from `0xAARRGGBB`.
    pub fn from_hex_with_alpha(color: u32) -> (c: u16)
        ensures
            c == argb1555(byte_of(color, 3), byte_of(color, 2), byte_of(color, 1), byte_of(color, 0)),
    {
        let a = (color >> 24u32) as u8;
        let r = (color >> 16u32) as u8;
        let g = (color >> 8u32) as u8;
        let b = color as u8;
        assert(a == byte_of(color, 3)) by {
            assert((color >> 24u32) as u8 == (color / 0x100_0000) as u8) by (bit_vector);
        }
        assert(r == byte_of(color, 2)) by {
            assert((color >> 16u32) as u8 == ((color / 0x1_0000) % 0x100) as u8) by (bit_vector);
        }
        assert(g == byte_of(color, 1)) by {
            assert((color >> 8u32) as u8 == ((color / 0x100) % 0x100) as u8) by (bit_vector);
        }
        assert(b == byte_of(color, 0)) by {
            assert(color as u8 == (color % 0x100) as u8) by (bit_vector);
        }
        Self::from_rgb_with_alpha(a, r, g, b)
    }

    /// An opaque colour from `0xRRGGBB`; the top byte is ignored.
    pub fn from_hex(color: u32) -> (c: u16)
        ensures
            c == argb1555(ALPHA_OPAQUE_FROM, byte_of(color, 2), byte_of(color, 1), byte_of(color, 0)),
    {
        let r = (color >> 16u32) as u8;
        let g = (color >> 8u32) as u8;
        let b = color as u8;
        assert(r == byte_of(color, 2)) by {
            assert((color >> 16u32) as u8 == ((color / 0x1_0000) % 0x100) as u8) by (bit_vector);
        }
        assert(g == byte_of(color, 1)) by {
            assert((color >> 8u32) as u8 == ((color / 0x100) % 0x100) as u8) by (bit_vector);
        }
        assert(b == byte_of(color, 0)) by {
            assert(color as u8 == (color % 0x100) as u8) by (bit_vector);
        }
        Self::from_rgb(r, g, b)
    }
}

/// Position of pixel `i` of a rectangle `width` pixels wide at `(x, y)`,
/// filled row by row; coordinates wrap around.
pub open spec fn raster_pos(x: u16, y: u16, width: u16, i: int) -> (u16, u16) {
    (x.wrapping_add((i % width as int) as u16), y.wrapping_add((i / width as int) as u16))
}

/// The writes that show a `size.0` by `size.1` dump at `(x, y)`: four bytes
/// per pixel (red, green, blue, alpha), row by row.
pub open spec fn dump_writes(x: u16, y: u16, size: (u16, u16), dump: Seq<u8>) -> Seq<PixelWrite> {
    Seq::new(
        (size.0 * size.1) as nat,
        |i: int|
            (
                raster_pos(x, y, size.0, i).0,
                raster_pos(x, y, size.0, i).1,
                argb1555(dump[4 * i + 3], dump[4 * i], dump[4 * i + 1], dump[4 * i + 2]) as u16,
            ),
    )
}

/// The writes that paint a `size.0` by `size.1` rectangle at `(x, y)` in
/// one colour, row by row.
pub open spec fn fill_writes(x: u16, y: u16, size: (u16, u16), color: u16) -> Seq<PixelWrite> {
    Seq::new(
        (size.0 * size.1) as nat,
        |i: int| (raster_pos(x, y, size.0, i).0, raster_pos(x, y, size.0, i).1, color),
    )
}

/// The writes that show an image `width` pixels wide at `(x, y)`: two bytes
/// per pixel, most significant first, row by row. The pixel index is taken
/// modulo 2^16 before it is split into column and row.
pub open spec fn image_writes(x: u16, y: u16, width: u16, img: Seq<u8>) -> Seq<PixelWrite> {
    Seq::new(
        img.len() / 2,
        |i: int|
            (
                raster_pos(x, y, width, (i as u16) as int).0,
                raster_pos(x, y, width, (i as u16) as int).1,
                (img[2 * i] * 0x100 + img[2 * i + 1]) as u16,
            ),
    )
}

/// The writes that show an image of packed colours `width` pixels wide at
/// `(x, y)`, row by row, with the pixel index taken modulo 2^16.
pub open spec fn image_u16_writes(x: u16, y: u16, width: u16, img: Seq<u16>) -> Seq<PixelWrite> {
    Seq::new(
        img.len(),
        |i: int|
            (
                raster_pos(x, y, width, (i as u16) as int).0,
                raster_pos(x, y, width, (i as u16) as int).1,
                img[i],
            ),
    )
}

/// The pixel writes that show an image of packed colours `width` pixels
/// wide at `(x, y)`.
pub fn draw_u16(x: u16, y: u16, width: u16, img: &[u16]) -> (r: Vec<PixelWrite>)
    requires
        width > 0,
    ensures
        r@ == image_u16_writes(x, y, width, img@),
{
    let mut out: Vec<PixelWrite> = Vec::new();
    let mut i: usize = 0;
    while i < img.len()
        invariant
            width > 0,
            i <= img@.len(),
            out@ == image_u16_writes(x, y, width, img@).take(i as int),
        decreases img@.len() - i,
    {
        let k = #[verifier::truncate] (i as u16);
        out.push((x.wrapping_add(k % width), y.wrapping_add(k / width), img[i]));
        assert(out@ =~= image_u16_writes(x, y, width, img@).take(i + 1));
        i = i + 1;
    }
    assert(image_u16_writes(x, y, width, img@).take(img@.len() as int) =~= image_u16_writes(
        x,
        y,
        width,
        img@,
    ));
    out
}

/// The pixel writes that show a `size.0` by `size.1` image dump at `(x, y)`.
pub fn draw_dump(x: u16, y: u16, size: (u16, u16), dump: &[u8]) -> (r: Vec<PixelWrite>)
    requires
        size.0 > 0,
        4 * (size.0 * size.1) <= dump@.len(),
    ensures
        r@ == dump_writes(x, y, size, dump@),
{
    assert(size.0 * size.1 <= 0xffff * 0xffff) by (nonlinear_arith)
        requires
            size.0 <= 0xffff,
            size.1 <= 0xffff,
    ;
    let img_cnt = size.0 as usize * size.1 as usize;
    let dump_len = dump.len();
    let mut out: Vec<PixelWrite> = Vec::new();
    let mut i: usize = 0;
    while i < img_cnt
        invariant
            size.0 > 0,
            img_cnt == size.0 * size.1,
            dump_len == dump@.len(),
            4 * img_cnt <= dump@.len(),
            i <= img_cnt,
            out@ == dump_writes(x, y, size, dump@).take(i as int),
        decreases img_cnt - i,
    {
        let idx = i * 4;
        let dsp_x = x.wrapping_add((i % size.0 as usize) as u16);
        let dsp_y = y.wrapping_add(#[verifier::truncate] ((i / size.0 as usize) as u16));
        let c = RGBColor::from_rgb_with_alpha(dump[idx + 3], dump[idx], dump[idx + 1], dump[idx + 2]);
        out.push((dsp_x, dsp_y, c));
        assert(out@ =~= dump_writes(x, y, size, dump@).take(i + 1));
        i = i + 1;
    }
    assert(dump_writes(x, y, size, dump@).take(img_cnt as int) =~= dump_writes(x, y, size, dump@));
    out
}

/// The pixel writes that paint a `size.0` by `size.1` rectangle at `(x, y)`
/// in `color`.
pub fn fill(x: u16, y: u16, size: (u16, u16), color: u16) -> (r: Vec<PixelWrite>)
    requires
        size.0 > 0,
    ensures
        r@ == fill_writes(x, y, size, color),
{
    assert(size.0 * size.1 <= 0xffff * 0xffff) by (nonlinear_arith)
        requires
            size.0 <= 0xffff,
            size.1 <= 0xffff,
    ;
    let img_cnt = size.0 as usize * size.1 as usize;
    let mut out: Vec<PixelWrite> = Vec::new();
    let mut i: usize = 0;
    while i < img_cnt
        invariant
            size.0 > 0,
            img_cnt == size.0 * size.1,
            i <= img_cnt,
            out@ == fill_writes(x, y, size, color).take(i as int),
        decreases img_cnt - i,
    {
        let dsp_x = x.wrapping_add((i % size.0 as usize) as u16);
        let dsp_y = y.wrapping_add(#[verifier::truncate] ((i / size.0 as usize) as u16));
        out.push((dsp_x, dsp_y, color));
        assert(out@ =~= fill_writes(x, y, size, color).take(i + 1));
        i = i + 1;
    }
    assert(fill_writes(x, y, size, color).take(img_cnt as int) =~= fill_writes(x, y, size, color));
    out
}

/// The pixel writes that show a two-byte-per-pixel image `width` pixels
/// wide at `(x, y)`.
pub fn draw(x: u16, y: u16, width: u16, img: &[u8]) -> (r: Vec<PixelWrite>)
    requires
        width > 0,
    ensures
        r@ == image_writes(x, y, width, img@),
{
    let img_len = img.len();
    let n = img_len / 2;
    let mut out: Vec<PixelWrite> = Vec::new();
    let mut i: usize = 0;
    while i < n
        invariant
            width > 0,
            img_len == img@.len(),
            n == img@.len() / 2,
            i <= n,
            out@ == image_writes(x, y, width, img@).take(i as int),
        decreases n - i,
    {
        let img_idx = i * 2;
        let k = #[verifier::truncate] (i as u16);
        let dsp_y = y.wrapping_add(k / width);
        let dsp_x = x.wrapping_add(k % width);
        let hi = img[img_idx] as u16;
        let lo = img[img_idx + 1] as u16;
        assert((hi << 8u16) | lo == hi * 0x100 + lo) by (bit_vector)
            requires
                hi < 0x100,
                lo < 0x100,
        ;
        let p = (hi << 8u16) | lo;
        out.push((dsp_x, dsp_y, p));
        assert(out@ =~= image_writes(x, y, width, img@).take(i + 1));
        i = i + 1;
    }
    assert(image_writes(x, y, width, img@).take(n as int) =~= image_writes(x, y, width, img@));
    out
}

/// Arm length of the cursor cross.
pub const CURSOR_ARM: u16 = 13;

/// The writes of step `i` of the cursor cross at `(x, y)`: right, left,
/// down and up of the centre by `i`, wrapping around.
pub open spec fn cross_step(x: u16, y: u16, i: u16, color: u16) -> Seq<PixelWrite> {
    seq![
        (x.wrapping_add(i), y, color),
        (x.wrapping_sub(i), y, color),
        (x, y.wrapping_add(i), color),
        (x, y.wrapping_sub(i), color),
    ]
}

/// The writes of the first `n` steps of the cursor cross at `(x, y)`.
pub open spec fn cross_writes(x: u16, y: u16, n: nat, color: u16) -> Seq<PixelWrite>
    decreases n,
{
    if n == 0 {
        Seq::empty()
    } else {
        cross_writes(x, y, (n - 1) as nat, color) + cross_step(x, y, (n - 1) as u16, color)
    }
}

/// The pixel writes of a cross-shaped cursor centred on `(x, y)`.
pub fn cursor(x: u16, y: u16, color: u16) -> (r: Vec<PixelWrite>)
    ensures
        r@ == cross_writes(x, y, CURSOR_ARM as nat, color),
{
    let mut out: Vec<PixelWrite> = Vec::new();
    let mut i: u16 = 0;
    while i < CURSOR_ARM
        invariant
            i <= CURSOR_ARM,
            out@ == cross_writes(x, y, i as nat, color),
        decreases CURSOR_ARM - i,
    {
        out.push((x.wrapping_add(i), y, color));
        out.push((x.wrapping_sub(i), y, color));
        out.push((x, y.wrapping_add(i), color));
        out.push((x, y.wrapping_sub(i), color));
        assert(out@ =~= cross_writes(x, y, (i + 1) as nat, color));
        i = i + 1;
    }
    out
}

} // verus!
