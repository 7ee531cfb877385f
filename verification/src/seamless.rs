//! Seamless textures: the mirror-padded canvas that surrounds a tile with
//! reflections of itself, so that its edges continue across the seams.

use vstd::prelude::*;
use crate::image::{Rgb, RgbImage};

verus! {

/// The source coordinate shown at `v` on an axis of `n` source pixels padded
/// by `pad` on both sides: the source itself in the middle, reflected across
/// each edge in the padding.
pub open spec fn mirror_coord(v: int, pad: int, n: int) -> int {
    if v < pad {
        pad - 1 - v
    } else if v < pad + n {
        v - pad
    } else {
        n - 1 - (v - pad - n)
    }
}

fn mirror_coord_exec(v: u32, pad: u32, n: u32) -> (r: u32)
    requires
        pad <= n,
        n + 2 * pad <= u32::MAX,
        v < n + 2 * pad,
    ensures
        r == mirror_coord(v as int, pad as int, n as int),
        r < n,
{
    if v < pad {
        pad - 1 - v
    } else if v < pad + n {
        v - pad
    } else {
        n - 1 - (v - pad - n)
    }
}

/// Builds the mirror-padded canvas: the image centered on a canvas `pad`
/// pixels larger on every side, with each edge strip and corner filled by the
/// image reflected across the nearest edges.
pub fn mirror_canvas(img: &RgbImage, pad: u32) -> (out: RgbImage)
    requires
        img.inv(),
        pad > 0 ==> pad <= img.spec_width() && pad <= img.spec_height(),
        img.spec_width() + 2 * pad <= u32::MAX,
        img.spec_height() + 2 * pad <= u32::MAX,
        (img.spec_width() + 2 * pad) * (img.spec_height() + 2 * pad) <= usize::MAX,
    ensures
        out.inv(),
        out.spec_width() == img.spec_width() + 2 * pad,
        out.spec_height() == img.spec_height() + 2 * pad,
        forall|x: int, y: int|
            0 <= x < out.spec_width() && 0 <= y < out.spec_height() ==> #[trigger] out.pixel_at(x, y) == img.pixel_at(
                mirror_coord(x, pad as int, img.spec_width() as int),
                mirror_coord(y, pad as int, img.spec_height() as int),
            ),
{
    let w = img.width();
    let h = img.height();
    let out_w = w + 2 * pad;
    let out_h = h + 2 * pad;
    let mut out = RgbImage::new(out_w, out_h);
    let mut y: u32 = 0;
    while y < out_h
        invariant
            img.inv(),
            out.inv(),
            w == img.spec_width(),
            h == img.spec_height(),
            pad > 0 ==> pad <= w && pad <= h,
            out_w == w + 2 * pad,
            out_h == h + 2 * pad,
            out.spec_width() == out_w,
            out.spec_height() == out_h,
            y <= out_h,
            forall|i: int, j: int|
                0 <= i < out_w && 0 <= j < y ==> #[trigger] out.pixel_at(i, j) == img.pixel_at(
                    mirror_coord(i, pad as int, w as int),
                    mirror_coord(j, pad as int, h as int),
                ),
        decreases out_h - y,
    {
        let mut x: u32 = 0;
        while x < out_w
            invariant
                img.inv(),
                out.inv(),
                w == img.spec_width(),
                h == img.spec_height(),
                pad > 0 ==> pad <= w && pad <= h,
                out_w == w + 2 * pad,
                out_h == h + 2 * pad,
                out.spec_width() == out_w,
                out.spec_height() == out_h,
                y < out_h,
                x <= out_w,
                forall|i: int, j: int|
                    0 <= i < out_w && 0 <= j < out_h && (j < y || (j == y && i < x)) ==> #[trigger] out.pixel_at(i, j)
                        == img.pixel_at(mirror_coord(i, pad as int, w as int), mirror_coord(j, pad as int, h as int)),
            decreases out_w - x,
        {
            let sx = mirror_coord_exec(x, pad, w);
            let sy = mirror_coord_exec(y, pad, h);
            let p = img.get_pixel(sx, sy);
            out.put_pixel(x, y, p);
            x = x + 1;
        }
        y = y + 1;
    }
    out
}

/// The center `w` x `h` of a canvas padded by `pad`: the inverse of the padding.
pub fn crop_center(canvas: &RgbImage, pad: u32, w: u32, h: u32) -> (out: RgbImage)
    requires
        canvas.inv(),
        pad + w <= canvas.spec_width(),
        pad + h <= canvas.spec_height(),
    ensures
        out.inv(),
        out.spec_width() == w,
        out.spec_height() == h,
        forall|x: int, y: int| 0 <= x < w && 0 <= y < h ==> #[trigger] out.pixel_at(x, y) == canvas.pixel_at(pad + x, pad + y),
{
    proof {
        canvas.lemma_inv_size();
        assert(w as int * h as int <= canvas.spec_width() * canvas.spec_height()) by (nonlinear_arith)
            requires
                w <= canvas.spec_width(),
                h <= canvas.spec_height(),
        ;
    }
    let mut out = RgbImage::new(w, h);
    let mut y: u32 = 0;
    while y < h
        invariant
            canvas.inv(),
            out.inv(),
            pad + w <= canvas.spec_width(),
            pad + h <= canvas.spec_height(),
            out.spec_width() == w,
            out.spec_height() == h,
            y <= h,
            forall|i: int, j: int| 0 <= i < w && 0 <= j < y ==> #[trigger] out.pixel_at(i, j) == canvas.pixel_at(pad + i, pad + j),
        decreases h - y,
    {
        let mut x: u32 = 0;
        while x < w
            invariant
                canvas.inv(),
                out.inv(),
                pad + w <= canvas.spec_width(),
                pad + h <= canvas.spec_height(),
                out.spec_width() == w,
                out.spec_height() == h,
                y < h,
                x <= w,
                forall|i: int, j: int|
                    0 <= i < w && 0 <= j < h && (j < y || (j == y && i < x)) ==> #[trigger] out.pixel_at(i, j)
                        == canvas.pixel_at(pad + i, pad + j),
            decreases w - x,
        {
            proof {
                canvas.lemma_inv_size();
            }
            let p = canvas.get_pixel(pad + x, pad + y);
            out.put_pixel(x, y, p);
            x = x + 1;
        }
        y = y + 1;
    }
    out
}

/// Cropping the center of the mirror-padded canvas gives back the image.
pub proof fn lemma_mirror_center_is_image(img: RgbImage, canvas: RgbImage, pad: u32, x: int, y: int)
    requires
        0 <= x < img.spec_width(),
        0 <= y < img.spec_height(),
        canvas.spec_width() == img.spec_width() + 2 * pad,
        canvas.spec_height() == img.spec_height() + 2 * pad,
        forall|i: int, j: int|
            0 <= i < canvas.spec_width() && 0 <= j < canvas.spec_height() ==> #[trigger] canvas.pixel_at(i, j)
                == img.pixel_at(
                mirror_coord(i, pad as int, img.spec_width() as int),
                mirror_coord(j, pad as int, img.spec_height() as int),
            ),
    ensures
        canvas.pixel_at(pad + x, pad + y) == img.pixel_at(x, y),
{
    assert(canvas.pixel_at(pad + x, pad + y) == img.pixel_at(
        mirror_coord(pad + x, pad as int, img.spec_width() as int),
        mirror_coord(pad + y, pad as int, img.spec_height() as int),
    ));
}

} // verus!
