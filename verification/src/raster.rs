//! RGBA images and the integer pixel work of framing: rounding a window's
//! corners, laying out its drop-shadow mask, and alpha-compositing layers.

use vstd::prelude::*;

use crate::style::PresentationStyle;
use vstd::arithmetic::div_mod::{
    lemma_fundamental_div_mod_converse, lemma_mod_pos_bound, lemma_multiply_divide_lt,
};

verus! {

/// An RGBA image: `width`×`height` pixels, four bytes each, row by row.
#[derive(Debug, Clone)]
pub struct Image {
    pub width: u32,
    pub height: u32,
    pub data: Vec<u8>,
}

impl Image {
    /// The buffer holds exactly four bytes per pixel.
    pub open spec fn wf(&self) -> bool {
        self.data@.len() == self.width as int * self.height as int * 4
    }

    /// An image over `data` when it holds four bytes for each of the
    /// `width`×`height` pixels, as `RgbaImage::from_raw` accepts it.
    pub fn from_raw(width: u32, height: u32, data: Vec<u8>) -> (r: Option<Image>)
        ensures
            r is Some <==> data@.len() == width as int * height as int * 4,
            r matches Some(img) ==> img.wf() && img.width == width && img.height == height
                && img.data@ == data@,
    {
        assert(width as u128 * height as u128 <= 0xffff_ffff * 0xffff_ffff) by (nonlinear_arith)
            requires
                width <= 0xffff_ffff,
                height <= 0xffff_ffff,
        ;
        let need = width as u128 * height as u128 * 4;
        if data.len() as u128 == need {
            Some(Image { width, height, data })
        } else {
            None
        }
    }

    /// A fully transparent black image.
    pub fn transparent(width: u32, height: u32) -> (img: Image)
        requires
            width as int * height as int * 4 <= usize::MAX,
        ensures
            img.wf(),
            img.width == width,
            img.height == height,
            forall|i: int| 0 <= i < img.data@.len() ==> img.data@[i] == 0,
    {
        let n = (width as usize) * (height as usize) * 4;
        let mut data: Vec<u8> = Vec::new();
        while data.len() < n
            invariant
                data@.len() <= n,
                forall|i: int| 0 <= i < data@.len() ==> data@[i] == 0,
            decreases n - data@.len(),
        {
            data.push(0);
        }
        Image { width, height, data }
    }
}

/// The center of the corner circle that coordinate `v` (on an axis of length
/// `size`) falls under, if it falls under one.
pub open spec fn corner_center(v: int, size: int, r: int) -> Option<int> {
    if v < r {
        Some(r)
    } else if v >= size - r {
        Some(size - r - 1)
    } else {
        None
    }
}

/// `n` is `√m` rounded to the nearest integer (`n - ½ < √m < n + ½`).
pub open spec fn is_rounded_sqrt(m: int, n: int) -> bool {
    0 <= n && n * n < m + n && m <= n * n + n
}

/// `√m` rounded to the nearest integer.
pub open spec fn rounded_sqrt(m: int) -> int {
    choose|n: int| is_rounded_sqrt(m, n)
}

/// The opacity (0–255) of pixel `(x, y)` of a `width`×`height` window with
/// corners rounded to `radius`: opaque away from the corners and inside the
/// corner circles, transparent outside them, and on the one-pixel band at the
/// circle's edge `255·(radius − distance)`, rounded. No rounding when the
/// radius is zero or the window is not wider and taller than two radii.
///
/// The edge value is the exactly rounded one; single-precision evaluation of
/// the same formula agrees with it for every radius up to 50.
pub open spec fn rounded_alpha_spec(x: int, y: int, width: int, height: int, radius: int) -> u8 {
    if radius == 0 || width <= radius * 2 || height <= radius * 2 {
        255
    } else {
        match (corner_center(x, width, radius), corner_center(y, height, radius)) {
            (Some(cx), Some(cy)) => {
                let d2 = (x - cx) * (x - cx) + (y - cy) * (y - cy);
                if d2 <= (radius - 1) * (radius - 1) {
                    255
                } else if d2 >= radius * radius {
                    0
                } else {
                    (255 * radius - rounded_sqrt(65025 * d2)) as u8
                }
            },
            _ => 255,
        }
    }
}

proof fn lemma_rounded_sqrt_unique(m: int, a: int, b: int)
    requires
        is_rounded_sqrt(m, a),
        is_rounded_sqrt(m, b),
    ensures
        a == b,
{
    if a < b {
        assert(b * b - b >= (a + 1) * (a + 1) - (a + 1)) by (nonlinear_arith)
            requires
                0 <= a,
                a + 1 <= b,
        ;
        assert(false) by (nonlinear_arith)
            requires
                b * b < m + b,
                m <= a * a + a,
                b * b - b >= (a + 1) * (a + 1) - (a + 1),
        ;
    } else if b < a {
        assert(a * a - a >= (b + 1) * (b + 1) - (b + 1)) by (nonlinear_arith)
            requires
                0 <= b,
                b + 1 <= a,
        ;
        assert(false) by (nonlinear_arith)
            requires
                a * a < m + a,
                m <= b * b + b,
                a * a - a >= (b + 1) * (b + 1) - (b + 1),
        ;
    }
}

/// The opacity of pixel `(x, y)` of a window with rounded corners.
pub fn rounded_alpha(x: u32, y: u32, width: u32, height: u32, radius: u32) -> (a: u8)
    ensures
        a == rounded_alpha_spec(x as int, y as int, width as int, height as int, radius as int),
{
    if radius == 0 || width as u64 <= radius as u64 * 2 || height as u64 <= radius as u64 * 2 {
        return 255;
    }
    let cx: u32 = if x < radius {
        radius
    } else if x >= width - radius {
        width - radius - 1
    } else {
        return 255;
    };
    let cy: u32 = if y < radius {
        radius
    } else if y >= height - radius {
        height - radius - 1
    } else {
        return 255;
    };
    let dx: u128 = if x >= cx {
        (x - cx) as u128
    } else {
        (cx - x) as u128
    };
    let dy: u128 = if y >= cy {
        (y - cy) as u128
    } else {
        (cy - y) as u128
    };
    assert(dx * dx == (x - cx) * (x - cx)) by (nonlinear_arith)
        requires
            dx == x - cx || dx == cx - x,
    ;
    assert(dy * dy == (y - cy) * (y - cy)) by (nonlinear_arith)
        requires
            dy == y - cy || dy == cy - y,
    ;
    assert(dx * dx <= 0xffff_ffff * 0xffff_ffff) by (nonlinear_arith)
        requires
            dx <= 0xffff_ffff,
    ;
    assert(dy * dy <= 0xffff_ffff * 0xffff_ffff) by (nonlinear_arith)
        requires
            dy <= 0xffff_ffff,
    ;
    let d2: u128 = dx * dx + dy * dy;
    let r: u128 = radius as u128;
    assert(r * r <= 0xffff_ffff * 0xffff_ffff) by (nonlinear_arith)
        requires
            r <= 0xffff_ffff,
    ;
    assert((r - 1) * (r - 1) <= r * r) by (nonlinear_arith)
        requires
            1 <= r,
    ;
    if d2 <= (r - 1) * (r - 1) {
        return 255;
    }
    if d2 >= r * r {
        return 0;
    }
    let m: u128 = 65025 * d2;
    let mut n: u128 = 255 * r - 255;
    assert(n * n < m + n) by (nonlinear_arith)
        requires
            n == 255 * r - 255,
            m == 65025 * d2,
            d2 > (r - 1) * (r - 1),
            r >= 1,
    ;
    assert(m <= 255 * r * (255 * r) + 255 * r) by (nonlinear_arith)
        requires
            m == 65025 * d2,
            d2 < r * r,
    ;
    while n * n + n < m
        invariant
            255 * r - 255 <= n <= 255 * r,
            r <= 0xffff_ffff,
            n * n < m + n,
            m <= 255 * r * (255 * r) + 255 * r,
            m < 0x1_0000_0000_0000_0000_0000_0000,
        decreases 255 * r - n,
    {
        assert(n * n <= 255 * r * (255 * r)) by (nonlinear_arith)
            requires
                0 <= n <= 255 * r,
        ;
        if n == 255 * r {
            assert(false);
        }
        assert((n + 1) * (n + 1) == n * n + 2 * n + 1) by (nonlinear_arith);
        n = n + 1;
    }
    assert(n * n <= 255 * r * (255 * r)) by (nonlinear_arith)
        requires
            0 <= n <= 255 * r,
    ;
    proof {
        assert(is_rounded_sqrt(m as int, n as int));
        lemma_rounded_sqrt_unique(m as int, n as int, rounded_sqrt(m as int));
    }
    (255 * r - n) as u8
}

/// Pixel `q` of a row-major image `w` pixels wide lies in column `q % w` of
/// row `q / w`.
proof fn lemma_pixel_position(q: int, w: int, h: int)
    requires
        0 <= w,
        0 <= h,
        0 <= q < w * h,
    ensures
        0 < w,
        0 <= q % w < w,
        0 <= q / w < h,
{
    if w == 0 {
        assert(w * h == 0);
    }
    lemma_mod_pos_bound(q, w);
    lemma_multiply_divide_lt(q, w, h);
    assert(0 <= q / w) by (nonlinear_arith)
        requires
            0 <= q,
            0 < w,
    ;
}

proof fn lemma_index_in_image(x: int, y: int, w: int, h: int)
    requires
        0 <= x < w,
        0 <= y < h,
    ensures
        0 <= y * w,
        0 <= y * w + x,
        (y * w + x) * 4 + 3 < w * h * 4,
{
    assert(0 <= y * w && 0 <= y * w + x && y * w + x < w * h) by (nonlinear_arith)
        requires
            0 <= x < w,
            0 <= y < h,
    ;
}

/// Byte `c` of pixel `q` of `img` with its corners rounded to `radius`: the
/// opacity is scaled by the corner opacity where that is below 255; color
/// bytes are kept.
pub open spec fn rounded_window_byte(img: Image, radius: u32, q: int, c: int) -> u8 {
    let w = img.width as int;
    let old = img.data@[4 * q + c];
    if c == 3 {
        let a = rounded_alpha_spec(q % w, q / w, w, img.height as int, radius as int);
        if a < 255 {
            (old * a / 255) as u8
        } else {
            old
        }
    } else {
        old
    }
}

/// A copy of `input` with its corners rounded to `radius`.
pub fn rounded_window(input: &Image, radius: u32) -> (out: Image)
    requires
        input.wf(),
    ensures
        out.wf(),
        out.width == input.width,
        out.height == input.height,
        forall|q: int, c: int|
            #![trigger rounded_window_byte(*input, radius, q, c)]
            0 <= q < input.width * input.height && 0 <= c < 4 ==> out.data@[4 * q + c]
                == rounded_window_byte(*input, radius, q, c),
{
    let w = input.width;
    let h = input.height;
    assert(input.data@.len() == input.data.len());
    let n = (w as usize) * (h as usize);
    let mut data: Vec<u8> = Vec::new();
    let mut q: usize = 0;
    while q < n
        invariant
            input.wf(),
            w == input.width,
            h == input.height,
            n == w * h,
            n * 4 <= usize::MAX,
            q <= n,
            data@.len() == 4 * q,
            forall|p: int, c: int|
                #![trigger rounded_window_byte(*input, radius, p, c)]
                0 <= p < q && 0 <= c < 4 ==> data@[4 * p + c] == rounded_window_byte(
                    *input,
                    radius,
                    p,
                    c,
                ),
        decreases n - q,
    {
        proof {
            lemma_pixel_position(q as int, w as int, h as int);
        }
        let x = (q % (w as usize)) as u32;
        let y = (q / (w as usize)) as u32;
        let a = rounded_alpha(x, y, w, h, radius);
        let i = 4 * q;
        let b0 = input.data[i];
        let b1 = input.data[i + 1];
        let b2 = input.data[i + 2];
        let b3 = input.data[i + 3];
        assert(b3 * a <= 65025) by (nonlinear_arith)
            requires
                b3 <= 255,
                a <= 255,
        ;
        let alpha: u8 = if a < 255 {
            ((b3 as u16 * a as u16) / 255) as u8
        } else {
            b3
        };
        let ghost before = data@;
        data.push(b0);
        data.push(b1);
        data.push(b2);
        data.push(alpha);
        assert forall|p: int, c: int|
            #![trigger rounded_window_byte(*input, radius, p, c)]
            0 <= p < q + 1 && 0 <= c < 4 implies data@[4 * p + c] == rounded_window_byte(
                *input,
                radius,
                p,
                c,
            ) by {
            if p < q {
                assert(data@[4 * p + c] == before[4 * p + c]);
            }
        }
        q = q + 1;
    }
    Image { width: w, height: h, data }
}

/// Byte `c` of canvas pixel `q` of the shadow mask of a `win_w`×`win_h`
/// window placed at `(sx, sy)` on a canvas `canvas_w` wide: black, with the
/// window's corner opacity scaled to at most 95 under the window, and
/// transparent elsewhere.
pub open spec fn shadow_byte(
    win_w: int,
    win_h: int,
    canvas_w: int,
    radius: int,
    sx: int,
    sy: int,
    q: int,
    c: int,
) -> u8 {
    if c != 3 {
        0
    } else {
        let x = q % canvas_w - sx;
        let y = q / canvas_w - sy;
        if 0 <= x < win_w && 0 <= y < win_h {
            (rounded_alpha_spec(x, y, win_w, win_h, radius) * 95 / 255) as u8
        } else {
            0
        }
    }
}

/// The drop-shadow mask of a `win_w`×`win_h` window on a
/// `canvas_w`×`canvas_h` canvas, before blurring: the window's rounded shape
/// in black at opacity up to 95, offset by the padding and, downward, by the
/// shadow offset.
pub fn shadow_mask(
    win_w: u32,
    win_h: u32,
    canvas_w: u32,
    canvas_h: u32,
    style: &PresentationStyle,
) -> (mask: Image)
    requires
        canvas_w as int * canvas_h as int * 4 <= usize::MAX,
        style.padding <= i32::MAX,
        i32::MIN <= style.padding + style.shadow_offset_y <= i32::MAX,
    ensures
        mask.wf(),
        mask.width == canvas_w,
        mask.height == canvas_h,
        forall|q: int, c: int|
            #![trigger shadow_byte(
                win_w as int,
                win_h as int,
                canvas_w as int,
                style.corner_radius as int,
                style.padding as int,
                style.padding + style.shadow_offset_y,
                q,
                c,
            )]
            0 <= q < canvas_w * canvas_h && 0 <= c < 4 ==> mask.data@[4 * q + c] == shadow_byte(
                win_w as int,
                win_h as int,
                canvas_w as int,
                style.corner_radius as int,
                style.padding as int,
                style.padding + style.shadow_offset_y,
                q,
                c,
            ),
{
    let sx: i64 = style.padding as i64;
    let sy: i64 = style.padding as i64 + style.shadow_offset_y as i64;
    let radius = style.corner_radius;
    let n = (canvas_w as usize) * (canvas_h as usize);
    let mut data: Vec<u8> = Vec::new();
    let mut q: usize = 0;
    while q < n
        invariant
            n == canvas_w * canvas_h,
            n * 4 <= usize::MAX,
            q <= n,
            sx == style.padding,
            sy == style.padding + style.shadow_offset_y,
            radius == style.corner_radius,
            data@.len() == 4 * q,
            forall|p: int, c: int|
                #![trigger shadow_byte(
                    win_w as int,
                    win_h as int,
                    canvas_w as int,
                    radius as int,
                    sx as int,
                    sy as int,
                    p,
                    c,
                )]
                0 <= p < q && 0 <= c < 4 ==> data@[4 * p + c] == shadow_byte(
                    win_w as int,
                    win_h as int,
                    canvas_w as int,
                    radius as int,
                    sx as int,
                    sy as int,
                    p,
                    c,
                ),
        decreases n - q,
    {
        proof {
            lemma_pixel_position(q as int, canvas_w as int, canvas_h as int);
        }
        let x = (q % (canvas_w as usize)) as i64 - sx;
        let y = (q / (canvas_w as usize)) as i64 - sy;
        let sa: u8 = if 0 <= x && x < win_w as i64 && 0 <= y && y < win_h as i64 {
            let a = rounded_alpha(x as u32, y as u32, win_w, win_h, radius);
            ((a as u16 * 95) / 255) as u8
        } else {
            0
        };
        let ghost before = data@;
        data.push(0);
        data.push(0);
        data.push(0);
        data.push(sa);
        assert forall|p: int, c: int|
            #![trigger shadow_byte(
                win_w as int,
                win_h as int,
                canvas_w as int,
                radius as int,
                sx as int,
                sy as int,
                p,
                c,
            )]
            0 <= p < q + 1 && 0 <= c < 4 implies data@[4 * p + c] == shadow_byte(
                win_w as int,
                win_h as int,
                canvas_w as int,
                radius as int,
                sx as int,
                sy as int,
                p,
                c,
            ) by {
            if p < q {
                assert(data@[4 * p + c] == before[4 * p + c]);
            }
        }
        q = q + 1;
    }
    Image { width: canvas_w, height: canvas_h, data }
}

/// `s` over `d` at opacity `a` (of 255), rounded to the nearest integer.
pub open spec fn blend(s: u8, d: u8, a: u8) -> u8 {
    ((2 * (s * a + d * (255 - a)) + 255) / 510) as u8
}

/// Byte `c` of base pixel `q` after `overlay` is composited onto `base` at
/// `(ox, oy)`: where an overlay pixel of nonzero opacity covers it, the
/// overlay color blended over the base by that opacity and full opacity;
/// elsewhere the base unchanged.
pub open spec fn composite_byte(base: Image, overlay: Image, ox: int, oy: int, q: int, c: int) -> u8 {
    let d = base.data@[4 * q + c];
    let x = q % (base.width as int) - ox;
    let y = q / (base.width as int) - oy;
    if 0 <= x < overlay.width && 0 <= y < overlay.height {
        let sq = y * overlay.width + x;
        let a = overlay.data@[4 * sq + 3];
        if a == 0 {
            d
        } else if c == 3 {
            255
        } else {
            blend(overlay.data@[4 * sq + c], d, a)
        }
    } else {
        d
    }
}

fn blend_exec(s: u8, d: u8, a: u8) -> (r: u8)
    ensures
        r == blend(s, d, a),
{
    assert(s * a + d * (255 - a) <= 65025) by (nonlinear_arith)
        requires
            s <= 255,
            d <= 255,
            a <= 255,
    ;
    let n = s as u32 * a as u32 + d as u32 * (255 - a as u32);
    ((2 * n + 255) / 510) as u8
}

/// Composites `overlay` onto `base` with its top-left corner at
/// `(offset_x, offset_y)`: overlay pixels outside the base are dropped,
/// transparent ones leave the base as it is, and the others are blended over
/// it by their opacity, leaving the pixel opaque.
pub fn alpha_composite(base: &mut Image, overlay: &Image, offset_x: i32, offset_y: i32)
    requires
        old(base).wf(),
        overlay.wf(),
        overlay.width <= 0x8000_0000,
        overlay.height <= 0x8000_0000,
        offset_x + overlay.width <= 0x8000_0000,
        offset_y + overlay.height <= 0x8000_0000,
    ensures
        final(base).wf(),
        final(base).width == old(base).width,
        final(base).height == old(base).height,
        forall|q: int, c: int|
            #![trigger composite_byte(*old(base), *overlay, offset_x as int, offset_y as int, q, c)]
            0 <= q < old(base).width * old(base).height && 0 <= c < 4 ==> final(base).data@[4 * q
                + c] == composite_byte(
                *old(base),
                *overlay,
                offset_x as int,
                offset_y as int,
                q,
                c,
            ),
{
    let ghost b0 = *base;
    let w = base.width;
    let h = base.height;
    let ow = overlay.width;
    let oh = overlay.height;
    assert(base.data@.len() == base.data.len());
    assert(overlay.data@.len() == overlay.data.len());
    let n = (w as usize) * (h as usize);
    let mut data: Vec<u8> = Vec::new();
    let mut q: usize = 0;
    while q < n
        invariant
            b0.wf(),
            overlay.wf(),
            n * 4 <= usize::MAX,
            overlay.data@.len() <= usize::MAX,
            b0.data@ == base.data@,
            w == b0.width,
            h == b0.height,
            ow == overlay.width,
            oh == overlay.height,
            n == w * h,
            q <= n,
            data@.len() == 4 * q,
            forall|p: int, c: int|
                #![trigger composite_byte(b0, *overlay, offset_x as int, offset_y as int, p, c)]
                0 <= p < q && 0 <= c < 4 ==> data@[4 * p + c] == composite_byte(
                    b0,
                    *overlay,
                    offset_x as int,
                    offset_y as int,
                    p,
                    c,
                ),
        decreases n - q,
    {
        proof {
            lemma_pixel_position(q as int, w as int, h as int);
        }
        let i = 4 * q;
        let d0 = base.data[i];
        let d1 = base.data[i + 1];
        let d2 = base.data[i + 2];
        let d3 = base.data[i + 3];
        let x = (q % (w as usize)) as i64 - offset_x as i64;
        let y = (q / (w as usize)) as i64 - offset_y as i64;
        let ghost before = data@;
        if 0 <= x && x < ow as i64 && 0 <= y && y < oh as i64 {
            proof {
                lemma_index_in_image(x as int, y as int, ow as int, oh as int);
            }
            let j = ((y as usize) * (ow as usize) + (x as usize)) * 4;
            let a = overlay.data[j + 3];
            if a == 0 {
                data.push(d0);
                data.push(d1);
                data.push(d2);
                data.push(d3);
            } else {
                let c0 = blend_exec(overlay.data[j], d0, a);
                let c1 = blend_exec(overlay.data[j + 1], d1, a);
                let c2 = blend_exec(overlay.data[j + 2], d2, a);
                data.push(c0);
                data.push(c1);
                data.push(c2);
                data.push(255);
            }
        } else {
            data.push(d0);
            data.push(d1);
            data.push(d2);
            data.push(d3);
        }
        assert forall|p: int, c: int|
            #![trigger composite_byte(b0, *overlay, offset_x as int, offset_y as int, p, c)]
            0 <= p < q + 1 && 0 <= c < 4 implies data@[4 * p + c] == composite_byte(
                b0,
                *overlay,
                offset_x as int,
                offset_y as int,
                p,
                c,
            ) by {
            if p < q {
                assert(data@[4 * p + c] == before[4 * p + c]);
            }
        }
        q = q + 1;
    }
    base.data = data;
}

proof fn lemma_corner_mirror(v: int, size: int, r: int)
    requires
        0 <= v < size,
        0 <= r,
        size > 2 * r,
    ensures
        corner_center(v, size, r) is Some <==> corner_center(size - 1 - v, size, r) is Some,
        corner_center(v, size, r) is Some ==> (v - corner_center(v, size, r)->0) == -((size - 1
            - v) - corner_center(size - 1 - v, size, r)->0),
{
}

/// The four corners of a window are rounded alike: a pixel's opacity is the
/// same as that of its mirror image across the vertical and across the
/// horizontal center line.
pub proof fn law_rounded_corners_mirror(x: int, y: int, width: int, height: int, radius: int)
    requires
        0 <= x < width,
        0 <= y < height,
        0 <= radius,
    ensures
        rounded_alpha_spec(x, y, width, height, radius) == rounded_alpha_spec(
            width - 1 - x,
            y,
            width,
            height,
            radius,
        ),
        rounded_alpha_spec(x, y, width, height, radius) == rounded_alpha_spec(
            x,
            height - 1 - y,
            width,
            height,
            radius,
        ),
{
    if !(radius == 0 || width <= radius * 2 || height <= radius * 2) {
        lemma_corner_mirror(x, width, radius);
        lemma_corner_mirror(y, height, radius);
        let cx = corner_center(x, width, radius);
        let cy = corner_center(y, height, radius);
        if cx is Some && cy is Some {
            let dx = x - cx->0;
            let dy = y - cy->0;
            assert((-dx) * (-dx) == dx * dx) by (nonlinear_arith);
            assert((-dy) * (-dy) == dy * dy) by (nonlinear_arith);
        }
    }
}

/// Rounding a window's corners keeps every color byte, and it keeps the
/// opacity of every pixel whose column lies at least `radius` from the left
/// and right edges or whose row lies at least `radius` from the top and
/// bottom edges. When the window is wider and taller than two radii, its four
/// corner tips become fully transparent.
pub proof fn law_rounded_window_shape(img: Image, radius: u32, x: int, y: int)
    requires
        img.wf(),
        0 <= x < img.width,
        0 <= y < img.height,
    ensures
        forall|c: int|
            0 <= c < 3 ==> #[trigger] rounded_window_byte(img, radius, y * img.width + x, c)
                == img.data@[4 * (y * img.width + x) + c],
        (radius <= x < img.width - radius || radius <= y < img.height - radius)
            ==> rounded_window_byte(img, radius, y * img.width + x, 3) == img.data@[4 * (y
            * img.width + x) + 3],
        (radius > 0 && img.width > 2 * radius && img.height > 2 * radius && (x == 0 || x
            == img.width - 1) && (y == 0 || y == img.height - 1)) ==> rounded_window_byte(
            img,
            radius,
            y * img.width + x,
            3,
        ) == 0,
{
    let w = img.width as int;
    let h = img.height as int;
    let r = radius as int;
    let q = y * w + x;
    lemma_fundamental_div_mod_converse(q, w, y, x);
    assert(q % w == x && q / w == y);
    if r > 0 && w > 2 * r && h > 2 * r && (x == 0 || x == w - 1) && (y == 0 || y == h - 1) {
        let cx = corner_center(x, w, r)->0;
        let cy = corner_center(y, h, r)->0;
        assert(x - cx == r || x - cx == -r);
        assert(y - cy == r || y - cy == -r);
        assert((x - cx) * (x - cx) == r * r) by (nonlinear_arith)
            requires
                x - cx == r || x - cx == -r,
        ;
        assert((y - cy) * (y - cy) == r * r) by (nonlinear_arith)
            requires
                y - cy == r || y - cy == -r,
        ;
        assert(r * r >= 0) by (nonlinear_arith);
        assert(corner_center(x, w, r) == Some(cx) && corner_center(y, h, r) == Some(cy));
        assert((x - cx) * (x - cx) + (y - cy) * (y - cy) >= r * r);
        assert(!((x - cx) * (x - cx) + (y - cy) * (y - cy) <= (r - 1) * (r - 1))) by (nonlinear_arith)
            requires
                (x - cx) * (x - cx) + (y - cy) * (y - cy) >= r * r,
                r > 0,
        ;
        assert(rounded_alpha_spec(x, y, w, h, r) == 0);
    }
}

/// The drop-shadow mask is black; it is transparent outside the window's
/// rectangle at `(sx, sy)`, at opacity 95 under every window pixel whose
/// column lies at least `radius` from the window's left and right edges or
/// whose row lies at least `radius` from its top and bottom edges, and
/// transparent under the window's four corner tips when the window is wider
/// and taller than two radii.
pub proof fn law_shadow_mask_shape(
    win_w: int,
    win_h: int,
    canvas_w: int,
    radius: int,
    sx: int,
    sy: int,
    cx: int,
    cy: int,
)
    requires
        0 <= win_w,
        0 <= win_h,
        0 <= radius,
        0 <= cx < canvas_w,
        0 <= cy,
    ensures
        forall|c: int|
            0 <= c < 3 ==> #[trigger] shadow_byte(
                win_w,
                win_h,
                canvas_w,
                radius,
                sx,
                sy,
                cy * canvas_w + cx,
                c,
            ) == 0,
        !(sx <= cx < sx + win_w && sy <= cy < sy + win_h) ==> shadow_byte(
            win_w,
            win_h,
            canvas_w,
            radius,
            sx,
            sy,
            cy * canvas_w + cx,
            3,
        ) == 0,
        (sx <= cx < sx + win_w && sy <= cy < sy + win_h && (radius <= cx - sx < win_w - radius
            || radius <= cy - sy < win_h - radius)) ==> shadow_byte(
            win_w,
            win_h,
            canvas_w,
            radius,
            sx,
            sy,
            cy * canvas_w + cx,
            3,
        ) == 95,
        (radius > 0 && win_w > 2 * radius && win_h > 2 * radius && (cx - sx == 0 || cx - sx
            == win_w - 1) && (cy - sy == 0 || cy - sy == win_h - 1)) ==> shadow_byte(
            win_w,
            win_h,
            canvas_w,
            radius,
            sx,
            sy,
            cy * canvas_w + cx,
            3,
        ) == 0,
{
    let q = cy * canvas_w + cx;
    lemma_fundamental_div_mod_converse(q, canvas_w, cy, cx);
    let x = cx - sx;
    let y = cy - sy;
    let r = radius;
    if r > 0 && win_w > 2 * r && win_h > 2 * r && (x == 0 || x == win_w - 1) && (y == 0 || y
        == win_h - 1) {
        let ccx = corner_center(x, win_w, r)->0;
        let ccy = corner_center(y, win_h, r)->0;
        assert((x - ccx) * (x - ccx) == r * r) by (nonlinear_arith)
            requires
                x - ccx == r || x - ccx == -r,
        ;
        assert((y - ccy) * (y - ccy) == r * r) by (nonlinear_arith)
            requires
                y - ccy == r || y - ccy == -r,
        ;
        assert(!((x - ccx) * (x - ccx) + (y - ccy) * (y - ccy) <= (r - 1) * (r - 1)))
            by (nonlinear_arith)
            requires
                (x - ccx) * (x - ccx) + (y - ccy) * (y - ccy) >= r * r,
                r > 0,
        ;
        assert(rounded_alpha_spec(x, y, win_w, win_h, r) == 0);
    }
}

/// Compositing onto an opaque image leaves it opaque.
pub proof fn law_composite_keeps_base_opaque(base: Image, overlay: Image, ox: int, oy: int)
    requires
        base.wf(),
        overlay.wf(),
        forall|q: int| 0 <= q < base.width * base.height ==> #[trigger] base.data@[4 * q + 3] == 255,
    ensures
        forall|q: int|
            0 <= q < base.width * base.height ==> #[trigger] composite_byte(base, overlay, ox, oy, q, 3)
                == 255,
{
}

} // verus!
