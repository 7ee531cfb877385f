//! A plain in-memory RGBA image: row-major pixels with their dimensions.

use vstd::prelude::*;

verus! {

/// An 8-bit RGBA pixel.
#[derive(Debug, Clone, Copy, PartialEq, Eq, Structural)]
pub struct Rgba {
    pub r: u8,
    pub g: u8,
    pub b: u8,
    pub a: u8,
}

/// An RGBA image stored row by row.
#[derive(Debug, Clone)]
pub struct RgbaImage {
    width: u32,
    height: u32,
    pixels: Vec<Rgba>,
}

impl RgbaImage {
    pub closed spec fn spec_width(&self) -> nat {
        self.width as nat
    }

    pub closed spec fn spec_height(&self) -> nat {
        self.height as nat
    }

    /// The pixel at column `x`, row `y`.
    pub closed spec fn pixel_at(&self, x: int, y: int) -> Rgba {
        self.pixels@[y * self.width + x]
    }

    /// The pixels, row by row.
    pub closed spec fn pixels_seq(&self) -> Seq<Rgba> {
        self.pixels@
    }

    /// A pixel is the row-major entry of the pixel sequence.
    pub proof fn lemma_pixel_at_seq(&self, x: int, y: int)
        ensures
            self.pixel_at(x, y) == self.pixels_seq()[y * self.spec_width() + x],
    {
    }

    /// The image holds exactly `w * h` pixels laid out row by row.
    pub closed spec fn inv(&self) -> bool {
        &&& self.pixels@.len() == self.width as int * self.height as int
        &&& self.width as int * self.height as int <= usize::MAX
    }

    /// Builds a `width` x `height` image with every pixel fully transparent black.
    pub fn new(width: u32, height: u32) -> (img: RgbaImage)
        requires
            width as int * height as int <= usize::MAX,
        ensures
            img.inv(),
            img.spec_width() == width,
            img.spec_height() == height,
            forall|x: int, y: int|
                0 <= x < width && 0 <= y < height ==> img.pixel_at(x, y) == (Rgba {
                    r: 0,
                    g: 0,
                    b: 0,
                    a: 0,
                }),
    {
        let n: usize = (width as usize) * (height as usize);
        let mut pixels: Vec<Rgba> = Vec::new();
        let mut i: usize = 0;
        while i < n
            invariant
                i <= n,
                pixels@.len() == i,
                forall|k: int| 0 <= k < i ==> pixels@[k] == (Rgba { r: 0, g: 0, b: 0, a: 0 }),
            decreases n - i,
        {
            pixels.push(Rgba { r: 0, g: 0, b: 0, a: 0 });
            i = i + 1;
        }
        let img = RgbaImage { width, height, pixels };
        assert forall|x: int, y: int| 0 <= x < width && 0 <= y < height implies img.pixel_at(x, y)
            == (Rgba { r: 0, g: 0, b: 0, a: 0 }) by {
            lemma_index_in_bounds(x, y, width as int, height as int);
        }
        img
    }

    /// Builds an image from row-major pixels; `None` when their number is not `width * height`.
    pub fn from_pixels(width: u32, height: u32, pixels: Vec<Rgba>) -> (r: Option<RgbaImage>)
        ensures
            r is Some <==> pixels@.len() == width as int * height as int,
            r matches Some(img) ==> img.pixels_seq() == pixels@,
            r matches Some(img) ==> img.inv() && img.spec_width() == width && img.spec_height()
                == height && forall|x: int, y: int|
                0 <= x < width && 0 <= y < height ==> img.pixel_at(x, y) == #[trigger] pixels@[y
                * width + x],
    {
        assert((width as u64) * (height as u64) <= u64::MAX) by (nonlinear_arith)
            requires
                width <= u32::MAX,
                height <= u32::MAX,
        ;
        if (pixels.len() as u64) == (width as u64) * (height as u64) {
            Some(RgbaImage { width, height, pixels })
        } else {
            None
        }
    }

    /// A valid image holds one pixel per cell.
    pub proof fn lemma_inv_len(&self)
        requires
            self.inv(),
        ensures
            self.pixels_seq().len() == self.spec_width() * self.spec_height(),
    {
    }

    /// The pixel count fits in memory.
    pub proof fn lemma_inv_size(&self)
        requires
            self.inv(),
        ensures
            self.spec_width() * self.spec_height() <= usize::MAX,
            self.spec_width() <= u32::MAX,
            self.spec_height() <= u32::MAX,
    {
    }

    /// The width in pixels.
    pub fn width(&self) -> (w: u32)
        ensures
            w == self.spec_width(),
    {
        self.width
    }

    /// The pixels, row by row.
    pub fn pixels(&self) -> (v: &Vec<Rgba>)
        ensures
            v@ == self.pixels_seq(),
    {
        &self.pixels
    }

    /// The height in pixels.
    pub fn height(&self) -> (h: u32)
        ensures
            h == self.spec_height(),
    {
        self.height
    }

    /// The pixel at column `x`, row `y`.
    pub fn get_pixel(&self, x: u32, y: u32) -> (p: Rgba)
        requires
            self.inv(),
            x < self.spec_width(),
            y < self.spec_height(),
        ensures
            p == self.pixel_at(x as int, y as int),
    {
        proof {
            lemma_index_in_bounds(x as int, y as int, self.width as int, self.height as int);
        }
        self.pixels[(y as usize) * (self.width as usize) + (x as usize)]
    }

    /// Replaces the pixel at column `x`, row `y`.
    pub fn put_pixel(&mut self, x: u32, y: u32, p: Rgba)
        requires
            old(self).inv(),
            x < old(self).spec_width(),
            y < old(self).spec_height(),
        ensures
            final(self).inv(),
            final(self).spec_width() == old(self).spec_width(),
            final(self).spec_height() == old(self).spec_height(),
            final(self).pixel_at(x as int, y as int) == p,
            forall|i: int, j: int|
                0 <= i < old(self).spec_width() && 0 <= j < old(self).spec_height() && (i != x || j
                    != y) ==> final(self).pixel_at(i, j) == old(self).pixel_at(i, j),
    {
        proof {
            lemma_index_in_bounds(x as int, y as int, self.width as int, self.height as int);
        }
        let idx = (y as usize) * (self.width as usize) + (x as usize);
        self.pixels.set(idx, p);
        proof {
            assert forall|i: int, j: int|
                0 <= i < old(self).spec_width() && 0 <= j < old(self).spec_height() && (i != x || j
                    != y) implies self.pixel_at(i, j) == old(self).pixel_at(i, j) by {
                lemma_index_in_bounds(i, j, self.width as int, self.height as int);
                lemma_index_distinct(i, j, x as int, y as int, self.width as int);
            }
        }
    }
}

/// An 8-bit RGB pixel.
#[derive(Debug, Clone, Copy, PartialEq, Eq, Structural)]
pub struct Rgb {
    pub r: u8,
    pub g: u8,
    pub b: u8,
}

/// An RGB image stored row by row.
#[derive(Debug, Clone)]
pub struct RgbImage {
    width: u32,
    height: u32,
    pixels: Vec<Rgb>,
}

impl RgbImage {
    pub closed spec fn spec_width(&self) -> nat {
        self.width as nat
    }

    pub closed spec fn spec_height(&self) -> nat {
        self.height as nat
    }

    /// The pixel at column `x`, row `y`.
    pub closed spec fn pixel_at(&self, x: int, y: int) -> Rgb {
        self.pixels@[y * self.width + x]
    }

    /// The image holds exactly `w * h` pixels laid out row by row.
    pub closed spec fn inv(&self) -> bool {
        &&& self.pixels@.len() == self.width as int * self.height as int
        &&& self.width as int * self.height as int <= usize::MAX
    }

    /// Builds a `width` x `height` image with every pixel black.
    pub fn new(width: u32, height: u32) -> (img: RgbImage)
        requires
            width as int * height as int <= usize::MAX,
        ensures
            img.inv(),
            img.spec_width() == width,
            img.spec_height() == height,
            forall|x: int, y: int|
                0 <= x < width && 0 <= y < height ==> img.pixel_at(x, y) == (Rgb {
                    r: 0,
                    g: 0,
                    b: 0,
                }),
    {
        let n: usize = (width as usize) * (height as usize);
        let mut pixels: Vec<Rgb> = Vec::new();
        let mut i: usize = 0;
        while i < n
            invariant
                i <= n,
                pixels@.len() == i,
                forall|k: int| 0 <= k < i ==> pixels@[k] == (Rgb { r: 0, g: 0, b: 0 }),
            decreases n - i,
        {
            pixels.push(Rgb { r: 0, g: 0, b: 0 });
            i = i + 1;
        }
        let img = RgbImage { width, height, pixels };
        assert forall|x: int, y: int| 0 <= x < width && 0 <= y < height implies img.pixel_at(x, y)
            == (Rgb { r: 0, g: 0, b: 0 }) by {
            lemma_index_in_bounds(x, y, width as int, height as int);
        }
        img
    }

    /// Builds an image from row-major pixels; `None` when their number is not `width * height`.
    pub fn from_pixels(width: u32, height: u32, pixels: Vec<Rgb>) -> (r: Option<RgbImage>)
        ensures
            r is Some <==> pixels@.len() == width as int * height as int,
            r matches Some(img) ==> img.inv() && img.spec_width() == width && img.spec_height()
                == height && forall|x: int, y: int|
                0 <= x < width && 0 <= y < height ==> img.pixel_at(x, y) == #[trigger] pixels@[y
                * width + x],
    {
        assert((width as u64) * (height as u64) <= u64::MAX) by (nonlinear_arith)
            requires
                width <= u32::MAX,
                height <= u32::MAX,
        ;
        if (pixels.len() as u64) == (width as u64) * (height as u64) {
            Some(RgbImage { width, height, pixels })
        } else {
            None
        }
    }

    /// The pixel count fits in memory.
    pub proof fn lemma_inv_size(&self)
        requires
            self.inv(),
        ensures
            self.spec_width() * self.spec_height() <= usize::MAX,
            self.spec_width() <= u32::MAX,
            self.spec_height() <= u32::MAX,
    {
    }

    /// The width in pixels.
    pub fn width(&self) -> (w: u32)
        ensures
            w == self.spec_width(),
    {
        self.width
    }

    /// The height in pixels.
    pub fn height(&self) -> (h: u32)
        ensures
            h == self.spec_height(),
    {
        self.height
    }

    /// The pixel at column `x`, row `y`.
    pub fn get_pixel(&self, x: u32, y: u32) -> (p: Rgb)
        requires
            self.inv(),
            x < self.spec_width(),
            y < self.spec_height(),
        ensures
            p == self.pixel_at(x as int, y as int),
    {
        proof {
            lemma_index_in_bounds(x as int, y as int, self.width as int, self.height as int);
        }
        self.pixels[(y as usize) * (self.width as usize) + (x as usize)]
    }

    /// Replaces the pixel at column `x`, row `y`.
    pub fn put_pixel(&mut self, x: u32, y: u32, p: Rgb)
        requires
            old(self).inv(),
            x < old(self).spec_width(),
            y < old(self).spec_height(),
        ensures
            final(self).inv(),
            final(self).spec_width() == old(self).spec_width(),
            final(self).spec_height() == old(self).spec_height(),
            final(self).pixel_at(x as int, y as int) == p,
            forall|i: int, j: int|
                0 <= i < old(self).spec_width() && 0 <= j < old(self).spec_height() && (i != x || j
                    != y) ==> final(self).pixel_at(i, j) == old(self).pixel_at(i, j),
    {
        proof {
            lemma_index_in_bounds(x as int, y as int, self.width as int, self.height as int);
        }
        let idx = (y as usize) * (self.width as usize) + (x as usize);
        self.pixels.set(idx, p);
        proof {
            assert forall|i: int, j: int|
                0 <= i < old(self).spec_width() && 0 <= j < old(self).spec_height() && (i != x || j
                    != y) implies self.pixel_at(i, j) == old(self).pixel_at(i, j) by {
                lemma_index_in_bounds(i, j, self.width as int, self.height as int);
                lemma_index_distinct(i, j, x as int, y as int, self.width as int);
            }
        }
    }
}

/// A position inside a `w` x `h` grid has its row-major index inside the grid.
pub proof fn lemma_index_in_bounds(x: int, y: int, w: int, h: int)
    requires
        0 <= x < w,
        0 <= y < h,
    ensures
        0 <= y * w + x < w * h,
        y * w + x + 1 <= w * h,
{
    assert(y * w + x < w * h) by (nonlinear_arith)
        requires
            0 <= x < w,
            0 <= y < h,
    ;
    assert(0 <= y * w) by (nonlinear_arith)
        requires
            0 <= y,
            0 <= w,
    ;
}

/// Distinct positions of a grid of width `w` have distinct row-major indices.
pub proof fn lemma_index_distinct(x1: int, y1: int, x2: int, y2: int, w: int)
    requires
        0 <= x1 < w,
        0 <= x2 < w,
        x1 != x2 || y1 != y2,
    ensures
        y1 * w + x1 != y2 * w + x2,
{
    if y1 == y2 {
    } else if y1 < y2 {
        assert(y1 * w + w <= y2 * w) by (nonlinear_arith)
            requires
                y1 < y2,
                0 <= w,
        ;
    } else {
        assert(y2 * w + w <= y1 * w) by (nonlinear_arith)
            requires
                y2 < y1,
                0 <= w,
        ;
    }
}


/// What `image::imageops::resize` with `FilterType::Nearest` makes of the
/// row-major RGBA pixels of a `w` x `h` image at size `nw` x `nh`.
pub uninterp spec fn nearest_resize(pixels: Seq<Rgba>, w: u32, h: u32, nw: u32, nh: u32) -> Seq<Rgba>;

/// Resizes with `image::imageops::resize` and `FilterType::Nearest`. The
/// result has the requested size and its pixels are named `nearest_resize`
/// of the source pixels and both sizes; nothing more is claimed of them. The
/// crate panics when the new buffer's byte length overflows `usize`, which
/// `requires` rules out.
#[verifier::external_body]
pub(crate) fn resize_nearest(img: &RgbaImage, nw: u32, nh: u32) -> (out: RgbaImage)
    requires
        img.inv(),
        nw as int * nh as int * 4 <= usize::MAX,
    ensures
        out.inv(),
        out.spec_width() == nw,
        out.spec_height() == nh,
        out.pixels_seq() == nearest_resize(img.pixels_seq(), img.spec_width() as u32, img.spec_height() as u32, nw, nh),
{
    let raw: Vec<u8> = img.pixels.iter().flat_map(|p| [p.r, p.g, p.b, p.a]).collect();
    let src = image::RgbaImage::from_raw(img.width, img.height, raw).unwrap();
    let dst = image::imageops::resize(&src, nw, nh, image::imageops::FilterType::Nearest);
    let pixels: Vec<Rgba> = dst.pixels().map(|p| Rgba { r: p[0], g: p[1], b: p[2], a: p[3] }).collect();
    RgbaImage { width: nw, height: nh, pixels }
}

} // verus!
