use vstd::arithmetic::div_mod::{
    lemma_fundamental_div_mod_converse_div, lemma_fundamental_div_mod_converse_mod,
};
use vstd::arithmetic::mul::{lemma_mul_inequality, lemma_mul_is_distributive_add};
use vstd::prelude::*;

use crate::color::{rgba_value, Color};

verus! {

/// How the bytes of a rasterized glyph image encode its pixels
#[derive(Clone, Copy, Debug, PartialEq, Eq, Structural)]
pub enum ImageContent {
    /// One coverage byte per pixel
    Mask,
    /// Three coverage bytes per pixel, one per subpixel
    SubpixelMask,
    /// Four bytes per pixel: red, green, blue, alpha
    Color,
}

/// Where a rasterized glyph image lies relative to the pen position
#[derive(Clone, Copy, Debug, PartialEq, Eq, Structural)]
pub struct Placement {
    /// Horizontal offset of the left edge
    pub left: i32,
    /// Vertical offset of the top edge, upwards
    pub top: i32,
    /// Width in pixels
    pub width: u32,
    /// Height in pixels
    pub height: u32,
}

/// Number of rows or columns walked for an extent: an extent that does not
/// fit in `i32` counts as none.
pub open spec fn walked(n: u32) -> int {
    if n <= i32::MAX {
        n as int
    } else {
        0
    }
}

/// Color of the pixel at `i` (row-major) of an image: a coverage mask puts
/// its byte in the alpha channel of `base`; a color image gives the four
/// components itself.
pub open spec fn pixel_color(content: ImageContent, data: Seq<u8>, base: Color, i: int) -> Color {
    match content {
        ImageContent::Mask => Color((data[i] * 0x100_0000 + base.0 % 0x100_0000) as u32),
        _ => Color(
            rgba_value(data[4 * i], data[4 * i + 1], data[4 * i + 2], data[4 * i + 3]) as u32,
        ),
    }
}

/// Every pixel of a rasterized glyph image, row by row, as `(x, y, color)`
/// with `x` and `y` relative to the pen position (`y` downwards). A
/// subpixel mask yields no pixel.
pub fn image_pixels(placement: Placement, content: ImageContent, data: &[u8], base: Color) -> (r:
    Vec<(i32, i32, Color)>)
    requires
        placement.top > i32::MIN,
        content != ImageContent::SubpixelMask && walked(placement.width) > 0 && walked(
            placement.height,
        ) > 0 ==> placement.left + walked(placement.width) - 1 <= i32::MAX && -placement.top
            + walked(placement.height) - 1 <= i32::MAX,
        content == ImageContent::Mask ==> walked(placement.width) * walked(placement.height)
            <= data@.len(),
        content == ImageContent::Color ==> 4 * walked(placement.width) * walked(placement.height)
            <= data@.len(),
    ensures
        content == ImageContent::SubpixelMask ==> r.len() == 0,
        content != ImageContent::SubpixelMask ==> r.len() == walked(placement.width) * walked(
            placement.height,
        ),
        content != ImageContent::SubpixelMask ==> forall|i: int|
            0 <= i < r.len() ==> #[trigger] r[i] == (
                (placement.left + i % walked(placement.width)) as i32,
                (-placement.top + i / walked(placement.width)) as i32,
                pixel_color(content, data@, base, i),
            ),
{
    let x = placement.left;
    let y = -placement.top;
    let mut out: Vec<(i32, i32, Color)> = Vec::new();
    if content == ImageContent::SubpixelMask {
        return out;
    }
    let w: i32 = if placement.width <= 0x7fff_ffff {
        placement.width as i32
    } else {
        0
    };
    let h: i32 = if placement.height <= 0x7fff_ffff {
        placement.height as i32
    } else {
        0
    };
    let ghost gw = w as int;
    let ghost gh = h as int;
    assert(gw == walked(placement.width) && gh == walked(placement.height));
    let n = data.len();
    let mut off_y: i32 = 0;
    let mut count: usize = 0;
    assert(0 * gw == 0) by (nonlinear_arith);
    while off_y < h
        invariant
            gw == w && gh == h && 0 <= w && 0 <= h,
            content != ImageContent::SubpixelMask,
            x == placement.left,
            y == -placement.top,
            w > 0 && h > 0 ==> x + w - 1 <= i32::MAX && y + h - 1 <= i32::MAX,
            content == ImageContent::Mask ==> gw * gh <= data@.len(),
            content == ImageContent::Color ==> 4 * gw * gh <= data@.len(),
            n == data@.len(),
            0 <= off_y <= h,
            count == off_y * gw,
            out.len() == count,
            forall|i: int|
                0 <= i < out.len() ==> #[trigger] out[i] == (
                    (x + i % gw) as i32,
                    (y + i / gw) as i32,
                    pixel_color(content, data@, base, i),
                ),
        decreases h - off_y,
    {
        let mut off_x: i32 = 0;
        proof {
            lemma_mul_inequality(off_y + 1, gh, gw);
            lemma_mul_is_distributive_add(gw, off_y as int, 1);
            assert((off_y + 1) * gw == off_y * gw + gw) by (nonlinear_arith);
        }
        while off_x < w
            invariant
                gw == w && gh == h && 0 <= w && 0 <= h,
                content != ImageContent::SubpixelMask,
                x == placement.left,
                y == -placement.top,
                w > 0 ==> x + w - 1 <= i32::MAX && y + h - 1 <= i32::MAX,
                content == ImageContent::Mask ==> gw * gh <= data@.len(),
                content == ImageContent::Color ==> 4 * gw * gh <= data@.len(),
                n == data@.len(),
                0 <= off_y < h,
                0 <= off_x <= w,
                (off_y + 1) * gw <= gh * gw,
                (off_y + 1) * gw == off_y * gw + gw,
                count == off_y * gw + off_x,
                out.len() == count,
                forall|i: int|
                    0 <= i < out.len() ==> #[trigger] out[i] == (
                        (x + i % gw) as i32,
                        (y + i / gw) as i32,
                        pixel_color(content, data@, base, i),
                    ),
            decreases w - off_x,
        {
            proof {
                lemma_fundamental_div_mod_converse_mod(count as int, gw, off_y as int, off_x as int);
                lemma_fundamental_div_mod_converse_div(count as int, gw, off_y as int, off_x as int);
                assert(gh * gw == gw * gh) by (nonlinear_arith);
                assert(4 * gw * gh == 4 * (gw * gh)) by (nonlinear_arith);
                assert(count + 1 <= gw * gh);
            }
            let color = if content == ImageContent::Mask {
                let v = data[count];
                let b = base.0;
                let c = ((v as u32) << 24) | (b & 0xFF_FF_FF);
                assert(c == v * 0x100_0000 + b % 0x100_0000) by (bit_vector)
                    requires
                        c == ((v as u32) << 24) | (b & 0xFF_FF_FF),
                ;
                Color(c)
            } else {
                let i = 4 * count;
                Color::rgba(data[i], data[i + 1], data[i + 2], data[i + 3])
            };
            out.push((x + off_x, y + off_y, color));
            count = count + 1;
            off_x = off_x + 1;
        }
        off_y = off_y + 1;
    }
    proof {
        assert(count == gh * gw);
        assert(gh * gw == gw * gh) by (nonlinear_arith);
    }
    out
}

} // verus!
