//! Pixel-art conversion: fixed retro palettes, nearest-color mapping with a
//! weighted distance, Floyd-Steinberg error diffusion, and the canvas
//! expansion that prepares an image for outpainting.

use vstd::prelude::*;
use crate::image::{Rgb, Rgba, RgbImage, RgbaImage, lemma_index_in_bounds, nearest_resize, resize_nearest};

verus! {

/// An RGB color as (red, green, blue).
pub type Color = (u8, u8, u8);

/// Palette mode for pixel art conversion.
#[derive(Debug, Clone, Copy, PartialEq, Eq, Structural)]
pub enum PaletteMode {
    Pico8,
    GameBoy,
    Nes,
    Custom,
}

/// Dithering mode for pixel art conversion.
#[derive(Debug, Clone, Copy, PartialEq, Eq, Structural)]
pub enum DitheringMode {
    /// No dithering: each pixel maps straight to its nearest color.
    Off,
    FloydSteinberg,
    Bayer,
    Atkinson,
}

impl DitheringMode {
    /// The default dithering mode: none.
    pub fn default() -> (m: DitheringMode)
        ensures
            m == DitheringMode::Off,
    {
        DitheringMode::Off
    }
}

/// Direction for outpainting canvas extension.
#[derive(Debug, Clone, Copy, PartialEq, Eq, Structural)]
pub enum OutpaintDirection {
    Left,
    Right,
    Top,
    Bottom,
}

/// The Pico-8 palette (16 colors).
pub open spec fn pico8_palette() -> Seq<Color> {
    seq![
        (0x00, 0x00, 0x00), (0x1D, 0x2B, 0x53), (0x7E, 0x25, 0x53), (0x00, 0x87, 0x51),
        (0xAB, 0x52, 0x36), (0x5F, 0x57, 0x4F), (0xC2, 0xC3, 0xC7), (0xFF, 0xF1, 0xE8),
        (0xFF, 0x00, 0x4D), (0xFF, 0xA3, 0x00), (0xFF, 0xEC, 0x27), (0x00, 0xE4, 0x36),
        (0x29, 0xAD, 0xFF), (0x83, 0x76, 0x9C), (0xFF, 0x77, 0xA8), (0xFF, 0xCC, 0xAA),
    ]
}

/// The GameBoy palette (4 colors, the classic green tint).
pub open spec fn gameboy_palette() -> Seq<Color> {
    seq![
        (0x0F, 0x38, 0x0F), (0x30, 0x62, 0x30), (0x8B, 0xAC, 0x0F), (0x9B, 0xBC, 0x0F),
    ]
}

/// The NES palette: 54 colors, every other color of the full palette.
pub open spec fn nes_palette() -> Seq<Color> {
    seq![
        (0x7C, 0x7C, 0x7C), (0x00, 0x00, 0xFC), (0x00, 0x00, 0xBC), (0x44, 0x28, 0xFC),
        (0x94, 0x00, 0xFC), (0xA8, 0x00, 0x7C), (0xA8, 0x10, 0x00), (0x88, 0x18, 0x00),
        (0x50, 0x30, 0x00), (0x00, 0x68, 0x00), (0x00, 0x58, 0x00), (0x00, 0x40, 0x40),
        (0x00, 0x00, 0xBC), (0x68, 0x54, 0xFC), (0xD8, 0xD8, 0xD8),
        (0x3C, 0xBC, 0xFC), (0x68, 0x88, 0xFC), (0x98, 0x78, 0xFC), (0xF8, 0x78, 0xF8),
        (0xF8, 0x58, 0x98), (0xF8, 0x38, 0x48), (0xF8, 0x3C, 0x18), (0xF8, 0x5C, 0x00),
        (0xF8, 0x7C, 0x34), (0x54, 0xD8, 0x54), (0x74, 0xD8, 0x58), (0xD8, 0xD8, 0x78),
        (0xD8, 0xF8, 0x78), (0x58, 0xF8, 0xB8), (0x00, 0xFC, 0xD8), (0x00, 0xD8, 0xF8),
        (0x00, 0xBC, 0xFC), (0x00, 0x78, 0xE8), (0x30, 0x78, 0xFC), (0x80, 0x58, 0xFC),
        (0xF8, 0x58, 0xFC), (0xF8, 0x78, 0xD8), (0xF8, 0x98, 0xA8), (0xF8, 0xB8, 0x78),
        (0xFC, 0xE8, 0x48), (0xFC, 0xF8, 0x58), (0xFC, 0xFC, 0x78), (0x00, 0xFC, 0x58),
        (0x00, 0xD8, 0x00), (0x00, 0xBC, 0x00), (0x00, 0xA8, 0x00), (0x00, 0x88, 0x00),
        (0x30, 0x30, 0xFC), (0x00, 0x00, 0xA8), (0x68, 0x00, 0x88), (0xA8, 0x00, 0x58),
        (0x88, 0x18, 0x00), (0x00, 0x38, 0x00), (0x00, 0x2C, 0x00),
    ]
}

fn pico8_colors() -> (v: Vec<Color>)
    ensures
        v@ == pico8_palette(),
{
    let mut v: Vec<Color> = Vec::new();
    v.push((0x00, 0x00, 0x00));
    v.push((0x1D, 0x2B, 0x53));
    v.push((0x7E, 0x25, 0x53));
    v.push((0x00, 0x87, 0x51));
    v.push((0xAB, 0x52, 0x36));
    v.push((0x5F, 0x57, 0x4F));
    v.push((0xC2, 0xC3, 0xC7));
    v.push((0xFF, 0xF1, 0xE8));
    v.push((0xFF, 0x00, 0x4D));
    v.push((0xFF, 0xA3, 0x00));
    v.push((0xFF, 0xEC, 0x27));
    v.push((0x00, 0xE4, 0x36));
    v.push((0x29, 0xAD, 0xFF));
    v.push((0x83, 0x76, 0x9C));
    v.push((0xFF, 0x77, 0xA8));
    v.push((0xFF, 0xCC, 0xAA));
    assert(v@ =~= pico8_palette());
    v
}

fn gameboy_colors() -> (v: Vec<Color>)
    ensures
        v@ == gameboy_palette(),
{
    let mut v: Vec<Color> = Vec::new();
    v.push((0x0F, 0x38, 0x0F));
    v.push((0x30, 0x62, 0x30));
    v.push((0x8B, 0xAC, 0x0F));
    v.push((0x9B, 0xBC, 0x0F));
    assert(v@ =~= gameboy_palette());
    v
}

#[verifier::rlimit(40)]
fn nes_colors() -> (v: Vec<Color>)
    ensures
        v@ == nes_palette(),
{
    let mut v: Vec<Color> = Vec::new();
    v.push((0x7C, 0x7C, 0x7C));
    v.push((0x00, 0x00, 0xFC));
    v.push((0x00, 0x00, 0xBC));
    v.push((0x44, 0x28, 0xFC));
    v.push((0x94, 0x00, 0xFC));
    v.push((0xA8, 0x00, 0x7C));
    v.push((0xA8, 0x10, 0x00));
    v.push((0x88, 0x18, 0x00));
    v.push((0x50, 0x30, 0x00));
    v.push((0x00, 0x68, 0x00));
    v.push((0x00, 0x58, 0x00));
    v.push((0x00, 0x40, 0x40));
    v.push((0x00, 0x00, 0xBC));
    v.push((0x68, 0x54, 0xFC));
    v.push((0xD8, 0xD8, 0xD8));
    v.push((0x3C, 0xBC, 0xFC));
    v.push((0x68, 0x88, 0xFC));
    v.push((0x98, 0x78, 0xFC));
    v.push((0xF8, 0x78, 0xF8));
    v.push((0xF8, 0x58, 0x98));
    v.push((0xF8, 0x38, 0x48));
    v.push((0xF8, 0x3C, 0x18));
    v.push((0xF8, 0x5C, 0x00));
    v.push((0xF8, 0x7C, 0x34));
    v.push((0x54, 0xD8, 0x54));
    v.push((0x74, 0xD8, 0x58));
    v.push((0xD8, 0xD8, 0x78));
    v.push((0xD8, 0xF8, 0x78));
    v.push((0x58, 0xF8, 0xB8));
    v.push((0x00, 0xFC, 0xD8));
    v.push((0x00, 0xD8, 0xF8));
    v.push((0x00, 0xBC, 0xFC));
    v.push((0x00, 0x78, 0xE8));
    v.push((0x30, 0x78, 0xFC));
    v.push((0x80, 0x58, 0xFC));
    v.push((0xF8, 0x58, 0xFC));
    v.push((0xF8, 0x78, 0xD8));
    v.push((0xF8, 0x98, 0xA8));
    v.push((0xF8, 0xB8, 0x78));
    v.push((0xFC, 0xE8, 0x48));
    v.push((0xFC, 0xF8, 0x58));
    v.push((0xFC, 0xFC, 0x78));
    v.push((0x00, 0xFC, 0x58));
    v.push((0x00, 0xD8, 0x00));
    v.push((0x00, 0xBC, 0x00));
    v.push((0x00, 0xA8, 0x00));
    v.push((0x00, 0x88, 0x00));
    v.push((0x30, 0x30, 0xFC));
    v.push((0x00, 0x00, 0xA8));
    v.push((0x68, 0x00, 0x88));
    v.push((0xA8, 0x00, 0x58));
    v.push((0x88, 0x18, 0x00));
    v.push((0x00, 0x38, 0x00));
    v.push((0x00, 0x2C, 0x00));
    assert(v@ =~= nes_palette());
    v
}

/// The colors of a palette mode (custom palettes fall back to Pico-8).
pub open spec fn palette_of(mode: PaletteMode) -> Seq<Color> {
    match mode {
        PaletteMode::Pico8 => pico8_palette(),
        PaletteMode::GameBoy => gameboy_palette(),
        PaletteMode::Nes => nes_palette(),
        PaletteMode::Custom => pico8_palette(),
    }
}

/// Returns the palette for the given mode.
pub fn get_palette(mode: &PaletteMode) -> (r: Vec<Color>)
    ensures
        r@ == palette_of(*mode),
{
    match mode {
        PaletteMode::Pico8 => pico8_colors(),
        PaletteMode::GameBoy => gameboy_colors(),
        PaletteMode::Nes => nes_colors(),
        PaletteMode::Custom => pico8_colors(),
    }
}

/// Weighted squared distance between a color and a palette entry
/// (weights 2, 4, 3 for red, green, blue, after the eye's sensitivity).
pub open spec fn color_distance(r: u8, g: u8, b: u8, c: Color) -> int {
    2 * ((r - c.0) * (r - c.0)) + 4 * ((g - c.1) * (g - c.1)) + 3 * ((b - c.2) * (b - c.2))
}

/// Entry `i` is the first entry of `palette` at the smallest distance from the color.
pub open spec fn is_nearest_index(r: u8, g: u8, b: u8, palette: Seq<Color>, i: int) -> bool {
    &&& 0 <= i < palette.len()
    &&& forall|j: int|
        0 <= j < palette.len() ==> color_distance(r, g, b, #[trigger] palette[j]) >= color_distance(
            r,
            g,
            b,
            palette[i],
        )
    &&& forall|j: int|
        0 <= j < i ==> color_distance(r, g, b, #[trigger] palette[j]) > color_distance(r, g, b, palette[i])
}

/// The palette entry nearest to the color; ties go to the earliest entry.
pub open spec fn nearest_color(r: u8, g: u8, b: u8, palette: Seq<Color>) -> Color {
    palette[choose|i: int| is_nearest_index(r, g, b, palette, i)]
}

fn distance(r: u8, g: u8, b: u8, c: Color) -> (d: u32)
    ensures
        d == color_distance(r, g, b, c),
{
    let dr: i32 = r as i32 - c.0 as i32;
    let dg: i32 = g as i32 - c.1 as i32;
    let db: i32 = b as i32 - c.2 as i32;
    assert(0 <= dr * dr <= 65025 && 0 <= dg * dg <= 65025 && 0 <= db * db <= 65025) by (nonlinear_arith)
        requires
            -255 <= dr <= 255,
            -255 <= dg <= 255,
            -255 <= db <= 255,
    ;
    let sr: i32 = dr * dr;
    let sg: i32 = dg * dg;
    let sb: i32 = db * db;
    (2 * sr + 4 * sg + 3 * sb) as u32
}

/// The nearest entry is unique: two first-nearest indices coincide.
pub proof fn lemma_nearest_index_unique(r: u8, g: u8, b: u8, palette: Seq<Color>, i: int, k: int)
    requires
        is_nearest_index(r, g, b, palette, i),
        is_nearest_index(r, g, b, palette, k),
    ensures
        i == k,
{
    if i < k {
        assert(color_distance(r, g, b, palette[i]) > color_distance(r, g, b, palette[k]));
    } else if k < i {
        assert(color_distance(r, g, b, palette[k]) > color_distance(r, g, b, palette[i]));
    }
}

/// Index of the nearest palette entry (the first one on ties).
pub fn nearest_palette_index(r: u8, g: u8, b: u8, palette: &[Color]) -> (i: usize)
    requires
        palette@.len() > 0,
    ensures
        is_nearest_index(r, g, b, palette@, i as int),
{
    let mut best_idx: usize = 0;
    let mut best_dist: u32 = distance(r, g, b, palette[0]);
    let mut i: usize = 1;
    while i < palette.len()
        invariant
            1 <= i <= palette@.len(),
            best_idx < i,
            best_dist == color_distance(r, g, b, palette@[best_idx as int]),
            forall|j: int| 0 <= j < i ==> color_distance(r, g, b, #[trigger] palette@[j]) >= best_dist,
            forall|j: int| 0 <= j < best_idx ==> color_distance(r, g, b, #[trigger] palette@[j]) > best_dist,
        decreases palette.len() - i,
    {
        let d = distance(r, g, b, palette[i]);
        if d < best_dist {
            best_dist = d;
            best_idx = i;
        }
        i = i + 1;
    }
    best_idx
}

/// Finds the nearest color in a palette to a given RGB color.
pub fn nearest_palette_color(r: u8, g: u8, b: u8, palette: &[Color]) -> (c: Color)
    requires
        palette@.len() > 0,
    ensures
        c == nearest_color(r, g, b, palette@),
        palette@.contains(c),
{
    let i = nearest_palette_index(r, g, b, palette);
    proof {
        let k = choose|k: int| is_nearest_index(r, g, b, palette@, k);
        lemma_nearest_index_unique(r, g, b, palette@, i as int, k);
    }
    palette[i]
}

/// Maps every pixel to its nearest palette color (conversion without dithering).
pub fn map_to_palette(img: &RgbImage, palette: &[Color]) -> (out: RgbImage)
    requires
        img.inv(),
        palette@.len() > 0,
    ensures
        out.inv(),
        out.spec_width() == img.spec_width(),
        out.spec_height() == img.spec_height(),
        forall|x: int, y: int|
            0 <= x < img.spec_width() && 0 <= y < img.spec_height() ==> {
                let p = img.pixel_at(x, y);
                let c = nearest_color(p.r, p.g, p.b, palette@);
                #[trigger] out.pixel_at(x, y) == (Rgb { r: c.0, g: c.1, b: c.2 })
            },
{
    let w = img.width();
    let h = img.height();
    proof {
        img.lemma_inv_size();
    }
    let mut out = RgbImage::new(w, h);
    let mut y: u32 = 0;
    while y < h
        invariant
            img.inv(),
            out.inv(),
            palette@.len() > 0,
            w == img.spec_width(),
            h == img.spec_height(),
            out.spec_width() == w,
            out.spec_height() == h,
            y <= h,
            forall|i: int, j: int|
                0 <= i < w && 0 <= j < y ==> {
                    let p = img.pixel_at(i, j);
                    let c = nearest_color(p.r, p.g, p.b, palette@);
                    #[trigger] out.pixel_at(i, j) == (Rgb { r: c.0, g: c.1, b: c.2 })
                },
        decreases h - y,
    {
        let mut x: u32 = 0;
        while x < w
            invariant
                img.inv(),
                out.inv(),
                palette@.len() > 0,
                w == img.spec_width(),
                h == img.spec_height(),
                out.spec_width() == w,
                out.spec_height() == h,
                y < h,
                x <= w,
                forall|i: int, j: int|
                    0 <= i < w && 0 <= j < h && (j < y || (j == y && i < x)) ==> {
                        let p = img.pixel_at(i, j);
                        let c = nearest_color(p.r, p.g, p.b, palette@);
                        #[trigger] out.pixel_at(i, j) == (Rgb { r: c.0, g: c.1, b: c.2 })
                    },
            decreases w - x,
        {
            let p = img.get_pixel(x, y);
            let c = nearest_palette_color(p.r, p.g, p.b, palette);
            out.put_pixel(x, y, Rgb { r: c.0, g: c.1, b: c.2 });
            x = x + 1;
        }
        y = y + 1;
    }
    out
}


/// A channel value moved into 0..=255.
pub open spec fn clamp_channel(v: int) -> u8 {
    if v < 0 {
        0
    } else if v > 255 {
        255
    } else {
        v as u8
    }
}

/// `v / 16` rounded toward zero, as integer division does.
pub open spec fn div16(v: int) -> int {
    if v >= 0 {
        v / 16
    } else {
        -((-v) / 16)
    }
}

/// The quantization error carried to each pixel, one sequence per channel,
/// indexed row by row.
pub struct CarriedError {
    pub r: Seq<int>,
    pub g: Seq<int>,
    pub b: Seq<int>,
}

/// Error `q` of the pixel at (`x`, `y`) spread to its unvisited neighbors with
/// the Floyd-Steinberg weights: 7/16 right, 3/16 below left, 5/16 below,
/// 1/16 below right, each share rounded toward zero.
pub open spec fn spread(e: Seq<int>, q: int, x: int, y: int, w: int, h: int) -> Seq<int> {
    let p = y * w + x;
    let e1 = if x + 1 < w {
        e.update(p + 1, e[p + 1] + div16(q * 7))
    } else {
        e
    };
    let e2 = if x > 0 && y + 1 < h {
        e1.update(p + w - 1, e1[p + w - 1] + div16(q * 3))
    } else {
        e1
    };
    let e3 = if y + 1 < h {
        e2.update(p + w, e2[p + w] + div16(q * 5))
    } else {
        e2
    };
    if x + 1 < w && y + 1 < h {
        e3.update(p + w + 1, e3[p + w + 1] + div16(q))
    } else {
        e3
    }
}

/// The Floyd-Steinberg weights, neighbor by neighbor: in a `w` x `h` image
/// whose errors are kept row by row, the error `q` of the pixel at (`x`, `y`)
/// adds 7/16 of `q` to the pixel on its right, 3/16 to the pixel below on the
/// left, 5/16 to the pixel straight below and 1/16 to the pixel below on the
/// right, each share rounded toward zero. Neighbors outside the image get
/// nothing, and no other entry changes.
pub proof fn lemma_spread_weights(e: Seq<int>, q: int, x: int, y: int, w: int, h: int)
    requires
        0 <= x < w,
        0 <= y < h,
        e.len() == w * h,
    ensures
        ({
            let s = spread(e, q, x, y, w, h);
            let right = y * w + (x + 1);
            let below_left = (y + 1) * w + (x - 1);
            let below = (y + 1) * w + x;
            let below_right = (y + 1) * w + (x + 1);
            &&& s.len() == e.len()
            &&& x + 1 < w ==> s[right] == e[right] + (if q >= 0 { (q * 7) / 16 } else { -((-q * 7) / 16) })
            &&& x > 0 && y + 1 < h ==> s[below_left] == e[below_left] + (if q >= 0 {
                (q * 3) / 16
            } else {
                -((-q * 3) / 16)
            })
            &&& y + 1 < h ==> s[below] == e[below] + (if q >= 0 { (q * 5) / 16 } else { -((-q * 5) / 16) })
            &&& x + 1 < w && y + 1 < h ==> s[below_right] == e[below_right] + (if q >= 0 {
                q / 16
            } else {
                -((-q) / 16)
            })
            &&& forall|j: int|
                0 <= j < e.len() && !(x + 1 < w && j == right) && !(x > 0 && y + 1 < h && j == below_left) && !(
                y + 1 < h && j == below) && !(x + 1 < w && y + 1 < h && j == below_right) ==> #[trigger] s[j]
                    == e[j]
        }),
{
    let p = y * w + x;
    assert(y * w + (x + 1) == p + 1);
    assert((y + 1) * w + (x - 1) == p + w - 1 && (y + 1) * w + x == p + w && (y + 1) * w + (x + 1) == p + w + 1)
        by (nonlinear_arith)
        requires
            p == y * w + x,
    ;
    assert(0 <= y * w && y * w + w <= w * h) by (nonlinear_arith)
        requires
            0 <= y < h,
            0 < w,
    ;
    if y + 1 < h {
        assert((y + 1) * w + w <= w * h) by (nonlinear_arith)
            requires
                0 <= y,
                y + 1 < h,
                0 < w,
        ;
    }
    assert(q * 7 >= 0 <==> q >= 0);
    assert(-(q * 7) == -q * 7 && -(q * 3) == -q * 3 && -(q * 5) == -q * 5);
}

/// Dithering starts at the top-left pixel with no error carried in, and the
/// second pixel of the top row is quantized after 7/16 of the first pixel's
/// error (its color minus the palette color it got, per channel, rounded
/// toward zero) was added to it, clamped to 0..=255.
pub proof fn lemma_first_error_carried_right(img: RgbImage, palette: Seq<Color>)
    requires
        img.spec_width() >= 2,
        img.spec_height() >= 1,
    ensures
        ({
            let p0 = img.pixel_at(0, 0);
            let p1 = img.pixel_at(1, 0);
            let c0 = nearest_color(p0.r, p0.g, p0.b, palette);
            let (qr, qg, qb) = (p0.r - c0.0, p0.g - c0.1, p0.b - c0.2);
            let r1 = p1.r + (if qr >= 0 { (qr * 7) / 16 } else { -((-qr * 7) / 16) });
            let g1 = p1.g + (if qg >= 0 { (qg * 7) / 16 } else { -((-qg * 7) / 16) });
            let b1 = p1.b + (if qb >= 0 { (qb * 7) / 16 } else { -((-qb * 7) / 16) });
            &&& dithered_color(img, palette, 0) == c0
            &&& dithered_color(img, palette, 1) == nearest_color(
                (if r1 < 0 { 0 } else if r1 > 255 { 255 } else { r1 }) as u8,
                (if g1 < 0 { 0 } else if g1 > 255 { 255 } else { g1 }) as u8,
                (if b1 < 0 { 0 } else if b1 > 255 { 255 } else { b1 }) as u8,
                palette,
            )
        }),
{
    let w = img.spec_width() as int;
    let h = img.spec_height() as int;
    assert(w * h >= 2) by (nonlinear_arith)
        requires
            w >= 2,
            h >= 1,
    ;
    let e0 = carried_error(img, palette, 0);
    let e1 = carried_error(img, palette, 1);
    assert(0int % w == 0 && 0int / w == 0 && 1int % w == 1 && 1int / w == 0) by (nonlinear_arith)
        requires
            w >= 2,
    ;
    let a0 = adjusted_color(img, e0, 0);
    assert(e0.r[0] == 0 && e0.g[0] == 0 && e0.b[0] == 0);
    assert(a0 == (img.pixel_at(0, 0).r, img.pixel_at(0, 0).g, img.pixel_at(0, 0).b));
    lemma_spread_weights(e0.r, a0.0 - nearest_color(a0.0, a0.1, a0.2, palette).0, 0, 0, w, h);
    lemma_spread_weights(e0.g, a0.1 - nearest_color(a0.0, a0.1, a0.2, palette).1, 0, 0, w, h);
    lemma_spread_weights(e0.b, a0.2 - nearest_color(a0.0, a0.1, a0.2, palette).2, 0, 0, w, h);
    assert(e0.r[1] == 0 && e0.g[1] == 0 && e0.b[1] == 0);
}

/// The color of pixel `p` (row-major) with its carried error added, clamped.
pub open spec fn adjusted_color(img: RgbImage, e: CarriedError, p: int) -> Color {
    let w = img.spec_width() as int;
    let px = img.pixel_at(p % w, p / w);
    (clamp_channel(px.r + e.r[p]), clamp_channel(px.g + e.g[p]), clamp_channel(px.b + e.b[p]))
}

/// The carried error after the first `k` pixels (row-major) were quantized.
pub open spec fn carried_error(img: RgbImage, palette: Seq<Color>, k: nat) -> CarriedError
    decreases k,
{
    let w = img.spec_width() as int;
    let h = img.spec_height() as int;
    if k == 0 {
        let z = Seq::new((w * h) as nat, |i: int| 0int);
        CarriedError { r: z, g: z, b: z }
    } else {
        let p = k - 1;
        let e = carried_error(img, palette, (k - 1) as nat);
        let a = adjusted_color(img, e, p);
        let c = nearest_color(a.0, a.1, a.2, palette);
        CarriedError {
            r: spread(e.r, a.0 - c.0, p % w, p / w, w, h),
            g: spread(e.g, a.1 - c.1, p % w, p / w, w, h),
            b: spread(e.b, a.2 - c.2, p % w, p / w, w, h),
        }
    }
}

/// The palette color Floyd-Steinberg dithering gives pixel `p` (row-major).
pub open spec fn dithered_color(img: RgbImage, palette: Seq<Color>, p: int) -> Color {
    let a = adjusted_color(img, carried_error(img, palette, p as nat), p);
    nearest_color(a.0, a.1, a.2, palette)
}

/// The sources that may have sent error to entry `j` before step `k`.
pub open spec fn senders(j: int, k: int, w: int) -> int {
    (if 0 <= j - 1 < k { 1int } else { 0int }) + (if 0 <= j - w + 1 < k { 1int } else { 0int }) + (if 0
        <= j - w < k {
        1int
    } else {
        0int
    }) + (if 0 <= j - w - 1 < k { 1int } else { 0int })
}

/// Every carried error stays within 255 per sender so far.
pub open spec fn errors_bounded(e: Seq<i32>, k: int, w: int) -> bool {
    forall|j: int| 0 <= j < e.len() ==> -255 * senders(j, k, w) <= #[trigger] e[j] <= 255 * senders(j, k, w)
}

/// The integer values of a sequence of `i32`.
pub open spec fn ints(s: Seq<i32>) -> Seq<int> {
    s.map_values(|v: i32| v as int)
}

fn div16_exec(v: i32) -> (r: i32)
    requires
        -4096 <= v <= 4096,
    ensures
        r == div16(v as int),
        -256 <= r <= 256,
{
    if v >= 0 {
        v / 16
    } else {
        -((-v) / 16)
    }
}

proof fn lemma_div16_bound(q: int, wt: int)
    requires
        -255 <= q <= 255,
        0 <= wt <= 7,
    ensures
        -255 <= div16(q * wt) <= 255,
        -4096 <= q * wt <= 4096,
{
    assert(-1785 <= q * wt <= 1785) by (nonlinear_arith)
        requires
            -255 <= q <= 255,
            0 <= wt <= 7,
    ;
}

fn add_error(e: &mut Vec<i32>, j: usize, v: i32, Ghost(k): Ghost<int>, Ghost(w): Ghost<int>)
    requires
        j < old(e)@.len(),
        -255 <= v <= 255,
        errors_bounded(old(e)@, k + 1, w),
        -255 * senders(j as int, k, w) <= old(e)@[j as int] <= 255 * senders(j as int, k, w),
        senders(j as int, k + 1, w) >= senders(j as int, k, w) + 1,
    ensures
        final(e)@ == old(e)@.update(j as int, (old(e)@[j as int] + v) as i32),
        ints(final(e)@) == ints(old(e)@).update(j as int, ints(old(e)@)[j as int] + v),
        forall|i: int| 0 <= i < final(e)@.len() && i != j ==> #[trigger] final(e)@[i] == old(e)@[i],
        errors_bounded(final(e)@, k + 1, w),
{
    let cur = e[j];
    proof {
        lemma_senders_grow(j as int, k, w);
    }
    e.set(j, cur + v);
    assert(ints(e@) =~= ints(old(e)@).update(j as int, ints(old(e)@)[j as int] + v));
}

proof fn lemma_senders_grow(j: int, k: int, w: int)
    ensures
        senders(j, k + 1, w) >= senders(j, k, w),
        0 <= senders(j, k, w) <= 4,
{
}

/// Spreads the error `q` of pixel (`x`, `y`) over its neighbors' carried error.
fn spread_error(e: &mut Vec<i32>, q: i32, x: u32, y: u32, w: u32, h: u32)
    requires
        old(e)@.len() == w as int * h as int,
        w as int * h as int <= usize::MAX,
        x < w,
        y < h,
        -255 <= q <= 255,
        errors_bounded(old(e)@, y * w + x, w as int),
    ensures
        final(e)@.len() == old(e)@.len(),
        ints(final(e)@) == spread(ints(old(e)@), q as int, x as int, y as int, w as int, h as int),
        errors_bounded(final(e)@, y * w + x + 1, w as int),
{
    let ghost k: int = y * w + x;
    let ghost e0 = e@;
    let ghost wi = w as int;
    proof {
        lemma_index_in_bounds(x as int, y as int, wi, h as int);
        if x + 1 < w {
            lemma_index_in_bounds(x + 1, y as int, wi, h as int);
        }
        if x > 0 && y + 1 < h {
            lemma_index_in_bounds(x - 1, y + 1, wi, h as int);
            assert((y + 1) * wi + (x - 1) == k + wi - 1) by (nonlinear_arith)
                requires
                    k == y * wi + x,
            ;
        }
        if y + 1 < h {
            lemma_index_in_bounds(x as int, y + 1, wi, h as int);
            assert((y + 1) * wi + x == k + wi) by (nonlinear_arith)
                requires
                    k == y * wi + x,
            ;
        }
        if x + 1 < w && y + 1 < h {
            lemma_index_in_bounds(x + 1, y + 1, wi, h as int);
            assert((y + 1) * wi + x + 1 == k + wi + 1) by (nonlinear_arith)
                requires
                    k == y * wi + x,
            ;
        }
        lemma_div16_bound(q as int, 7);
        lemma_div16_bound(q as int, 3);
        lemma_div16_bound(q as int, 5);
        lemma_div16_bound(q as int, 1);
        assert forall|j: int| 0 <= j < e@.len() implies -255 * senders(j, k + 1, wi) <= #[trigger] e@[j]
            <= 255 * senders(j, k + 1, wi) by {
            lemma_senders_grow(j, k, wi);
        }
    }
    assert((y as usize) * (w as usize) + (x as usize) < w as int * h as int);
    let p: usize = (y as usize) * (w as usize) + (x as usize);
    let wu: usize = w as usize;
    if x + 1 < w {
        let d = div16_exec(q * 7);
        proof {
            assert(e@[p + 1] == e0[p + 1]);
        }
        add_error(e, p + 1, d, Ghost(k), Ghost(wi));
    }
    let ghost e1 = e@;
    if x > 0 && y + 1 < h {
        let d = div16_exec(q * 3);
        proof {
            assert(e@[p + wu - 1] == e0[p + wu - 1]);
        }
        add_error(e, p + wu - 1, d, Ghost(k), Ghost(wi));
    }
    let ghost e2 = e@;
    if y + 1 < h {
        let d = div16_exec(q * 5);
        proof {
            assert(e@[p + wu] == e0[p + wu]);
        }
        add_error(e, p + wu, d, Ghost(k), Ghost(wi));
    }
    let ghost e3 = e@;
    if x + 1 < w && y + 1 < h {
        let d = div16_exec(q);
        proof {
            assert(e@[p + wu + 1] == e0[p + wu + 1]);
        }
        add_error(e, p + wu + 1, d, Ghost(k), Ghost(wi));
    }
}


fn clamp_exec(v: i32) -> (r: u8)
    ensures
        r == clamp_channel(v as int),
{
    if v < 0 {
        0
    } else if v > 255 {
        255
    } else {
        v as u8
    }
}

fn zero_errors(n: usize) -> (e: Vec<i32>)
    ensures
        e@.len() == n,
        forall|i: int| 0 <= i < n ==> #[trigger] e@[i] == 0,
{
    let mut e: Vec<i32> = Vec::new();
    let mut i: usize = 0;
    while i < n
        invariant
            i <= n,
            e@.len() == i,
            forall|j: int| 0 <= j < i ==> #[trigger] e@[j] == 0,
        decreases n - i,
    {
        e.push(0);
        i = i + 1;
    }
    e
}

/// The pixel of a palette color.
pub open spec fn color_pixel(c: Color) -> Rgb {
    Rgb { r: c.0, g: c.1, b: c.2 }
}

/// Applies Floyd-Steinberg dithering to an RGB image using the given palette:
/// pixels are visited row by row, each is replaced by the palette color nearest
/// to its value plus the error carried to it, and the difference is carried on
/// to the neighbors not yet visited.
pub fn apply_floyd_steinberg(img: &RgbImage, palette: &[Color]) -> (out: RgbImage)
    requires
        img.inv(),
        palette@.len() > 0,
    ensures
        out.inv(),
        out.spec_width() == img.spec_width(),
        out.spec_height() == img.spec_height(),
        forall|x: int, y: int|
            0 <= x < img.spec_width() && 0 <= y < img.spec_height() ==> #[trigger] out.pixel_at(x, y)
                == color_pixel(dithered_color(*img, palette@, y * img.spec_width() + x)),
{
    let w = img.width();
    let h = img.height();
    proof {
        img.lemma_inv_size();
    }
    let n: usize = (w as usize) * (h as usize);
    let mut er = zero_errors(n);
    let mut eg = zero_errors(n);
    let mut eb = zero_errors(n);
    let mut out = RgbImage::new(w, h);
    let ghost wi = w as int;
    proof {
        let e0 = carried_error(*img, palette@, 0);
        assert(ints(er@) =~= e0.r);
        assert(ints(eg@) =~= e0.g);
        assert(ints(eb@) =~= e0.b);
    }
    let mut y: u32 = 0;
    while y < h
        invariant
            img.inv(),
            out.inv(),
            palette@.len() > 0,
            w == img.spec_width(),
            h == img.spec_height(),
            wi == w,
            n == w * h,
            n <= usize::MAX,
            out.spec_width() == w,
            out.spec_height() == h,
            y <= h,
            er@.len() == n,
            eg@.len() == n,
            eb@.len() == n,
            ints(er@) == carried_error(*img, palette@, (y * wi) as nat).r,
            ints(eg@) == carried_error(*img, palette@, (y * wi) as nat).g,
            ints(eb@) == carried_error(*img, palette@, (y * wi) as nat).b,
            errors_bounded(er@, y * wi, wi),
            errors_bounded(eg@, y * wi, wi),
            errors_bounded(eb@, y * wi, wi),
            forall|i: int, j: int|
                0 <= i < w && 0 <= j < y ==> #[trigger] out.pixel_at(i, j) == color_pixel(
                    dithered_color(*img, palette@, j * wi + i),
                ),
        decreases h - y,
    {
        let mut x: u32 = 0;
        while x < w
            invariant
                img.inv(),
                out.inv(),
                palette@.len() > 0,
                w == img.spec_width(),
                h == img.spec_height(),
                wi == w,
                n == w * h,
                n <= usize::MAX,
                out.spec_width() == w,
                out.spec_height() == h,
                y < h,
                x <= w,
                er@.len() == n,
                eg@.len() == n,
                eb@.len() == n,
                ints(er@) == carried_error(*img, palette@, (y * wi + x) as nat).r,
                ints(eg@) == carried_error(*img, palette@, (y * wi + x) as nat).g,
                ints(eb@) == carried_error(*img, palette@, (y * wi + x) as nat).b,
                errors_bounded(er@, y * wi + x, wi),
                errors_bounded(eg@, y * wi + x, wi),
                errors_bounded(eb@, y * wi + x, wi),
                forall|i: int, j: int|
                    0 <= i < w && 0 <= j < h && (j < y || (j == y && i < x)) ==> #[trigger] out.pixel_at(i, j)
                        == color_pixel(dithered_color(*img, palette@, j * wi + i)),
            decreases w - x,
        {
            let ghost k: int = y * wi + x;
            proof {
                lemma_index_in_bounds(x as int, y as int, wi, h as int);
                vstd::arithmetic::div_mod::lemma_fundamental_div_mod_converse(k, wi, y as int, x as int);
                lemma_senders_grow(k, k, wi);
            }
            let p: usize = (y as usize) * (w as usize) + (x as usize);
            let px = img.get_pixel(x, y);
            let cr = er[p];
            let cg = eg[p];
            let cb = eb[p];
            let nr = clamp_exec(px.r as i32 + cr);
            let ng = clamp_exec(px.g as i32 + cg);
            let nb = clamp_exec(px.b as i32 + cb);
            let c = nearest_palette_color(nr, ng, nb, palette);
            proof {
                let e = carried_error(*img, palette@, k as nat);
                assert(ints(er@)[k] == e.r[k]);
                assert(ints(eg@)[k] == e.g[k]);
                assert(ints(eb@)[k] == e.b[k]);
                assert((nr, ng, nb) == adjusted_color(*img, e, k));
                assert(c == dithered_color(*img, palette@, k));
            }
            out.put_pixel(x, y, Rgb { r: c.0, g: c.1, b: c.2 });
            spread_error(&mut er, nr as i32 - c.0 as i32, x, y, w, h);
            spread_error(&mut eg, ng as i32 - c.1 as i32, x, y, w, h);
            spread_error(&mut eb, nb as i32 - c.2 as i32, x, y, w, h);
            proof {
                assert((k + 1) as nat - 1 == k);
            }
            x = x + 1;
        }
        proof {
            assert((y + 1) * wi == y * wi + wi) by (nonlinear_arith);
        }
        y = y + 1;
    }
    out
}


proof fn lemma_nearest_prefix(r: u8, g: u8, b: u8, palette: Seq<Color>, n: int) -> (i: int)
    requires
        0 < n <= palette.len(),
    ensures
        0 <= i < n,
        forall|j: int| 0 <= j < n ==> color_distance(r, g, b, #[trigger] palette[j]) >= color_distance(r, g, b, palette[i]),
        forall|j: int| 0 <= j < i ==> color_distance(r, g, b, #[trigger] palette[j]) > color_distance(r, g, b, palette[i]),
    decreases n,
{
    if n == 1 {
        0
    } else {
        let i = lemma_nearest_prefix(r, g, b, palette, n - 1);
        if color_distance(r, g, b, palette[n - 1]) < color_distance(r, g, b, palette[i]) {
            n - 1
        } else {
            i
        }
    }
}

/// A non-empty palette has a nearest entry for every color, and the nearest
/// color is one of the palette's colors.
pub proof fn lemma_nearest_in_palette(r: u8, g: u8, b: u8, palette: Seq<Color>)
    requires
        palette.len() > 0,
    ensures
        exists|i: int| is_nearest_index(r, g, b, palette, i),
        palette.contains(nearest_color(r, g, b, palette)),
{
    let i = lemma_nearest_prefix(r, g, b, palette, palette.len() as int);
    assert(is_nearest_index(r, g, b, palette, i));
    let k = choose|k: int| is_nearest_index(r, g, b, palette, k);
    assert(palette[k] == nearest_color(r, g, b, palette));
}

/// Dithering only ever produces colors of the palette.
pub proof fn lemma_dithered_in_palette(img: RgbImage, palette: Seq<Color>, p: int)
    requires
        palette.len() > 0,
    ensures
        palette.contains(dithered_color(img, palette, p)),
{
    let a = adjusted_color(img, carried_error(img, palette, p as nat), p);
    lemma_nearest_in_palette(a.0, a.1, a.2, palette);
}

/// A color already in the palette maps to itself.
pub proof fn lemma_palette_color_fixed(palette: Seq<Color>, i: int)
    requires
        0 <= i < palette.len(),
    ensures
        nearest_color(palette[i].0, palette[i].1, palette[i].2, palette) == palette[i],
{
    let c = palette[i];
    lemma_nearest_in_palette(c.0, c.1, c.2, palette);
    let k = choose|k: int| is_nearest_index(c.0, c.1, c.2, palette, k);
    let d = palette[k];
    assert(color_distance(c.0, c.1, c.2, palette[i]) == 0);
    assert((c.0 - d.0) * (c.0 - d.0) >= 0 && (c.1 - d.1) * (c.1 - d.1) >= 0 && (c.2 - d.2) * (c.2 - d.2) >= 0)
        by (nonlinear_arith);
    assert(color_distance(c.0, c.1, c.2, palette[i]) >= color_distance(c.0, c.1, c.2, palette[k]));
    assert(c.0 == d.0 && c.1 == d.1 && c.2 == d.2) by (nonlinear_arith)
        requires
            (c.0 - d.0) * (c.0 - d.0) == 0,
            (c.1 - d.1) * (c.1 - d.1) == 0,
            (c.2 - d.2) * (c.2 - d.2) == 0,
    ;
}


/// New width, new height and the offset of the source inside the expanded
/// canvas, for a source of `w` x `h` extended by `e` pixels.
pub open spec fn expanded_geometry(w: int, h: int, d: OutpaintDirection, e: int) -> (int, int, int, int) {
    match d {
        OutpaintDirection::Left => (w + e, h, e, 0),
        OutpaintDirection::Right => (w + e, h, 0, 0),
        OutpaintDirection::Top => (w, h + e, 0, e),
        OutpaintDirection::Bottom => (w, h + e, 0, 0),
    }
}

/// `v` moved into 0..=hi.
pub open spec fn clamp_coord(v: int, hi: int) -> int {
    if v < 0 {
        0
    } else if v > hi {
        hi
    } else {
        v
    }
}

/// The position (`x`, `y`) of the expanded canvas lies in the added strip.
pub open spec fn in_added_region(d: OutpaintDirection, w: int, h: int, e: int, x: int, y: int) -> bool {
    match d {
        OutpaintDirection::Left => x < e,
        OutpaintDirection::Right => x >= w,
        OutpaintDirection::Top => y < e,
        OutpaintDirection::Bottom => y >= h,
    }
}

/// The mask pixel: white where the canvas is to be generated, black where it is kept.
pub open spec fn mask_pixel(added: bool) -> Rgb {
    if added {
        Rgb { r: 255, g: 255, b: 255 }
    } else {
        Rgb { r: 0, g: 0, b: 0 }
    }
}

/// How an outpainting canvas lies over its source of `w` x `h` pixels: the
/// canvas grows by `e` pixels in the direction, the source keeps its own
/// pixels at offset `e` from the left (Left) or top (Top) edge and at the
/// origin otherwise, every canvas pixel the mask keeps (black) is the source
/// pixel it came from, the mask is white exactly on the added strip, and the
/// strip repeats the source's nearest edge row or column.
pub open spec fn canvas_layout(source: RgbaImage, d: OutpaintDirection, e: int, img: RgbImage, mask: RgbImage) -> bool {
    let w = source.spec_width() as int;
    let h = source.spec_height() as int;
    let black = Rgb { r: 0, g: 0, b: 0 };
    let white = Rgb { r: 255, g: 255, b: 255 };
    &&& img.spec_width() == (match d {
        OutpaintDirection::Left | OutpaintDirection::Right => w + e,
        _ => w,
    })
    &&& img.spec_height() == (match d {
        OutpaintDirection::Top | OutpaintDirection::Bottom => h + e,
        _ => h,
    })
    &&& forall|x: int, y: int|
        0 <= x < img.spec_width() && 0 <= y < img.spec_height() && #[trigger] mask.pixel_at(x, y) == black
            ==> {
            let sx = if d == OutpaintDirection::Left { x - e } else { x };
            let sy = if d == OutpaintDirection::Top { y - e } else { y };
            &&& 0 <= sx < w
            &&& 0 <= sy < h
            &&& img.pixel_at(x, y) == rgb_of(source.pixel_at(sx, sy))
        }
    &&& forall|x: int, y: int|
        0 <= x < img.spec_width() && 0 <= y < img.spec_height() ==> {
            let strip = match d {
                OutpaintDirection::Left => x < e,
                OutpaintDirection::Right => x >= w,
                OutpaintDirection::Top => y < e,
                OutpaintDirection::Bottom => y >= h,
            };
            &&& #[trigger] mask.pixel_at(x, y) == (if strip { white } else { black })
            &&& strip ==> img.pixel_at(x, y) == rgb_of(match d {
                OutpaintDirection::Left => source.pixel_at(0, y),
                OutpaintDirection::Right => source.pixel_at(w - 1, y),
                OutpaintDirection::Top => source.pixel_at(x, 0),
                OutpaintDirection::Bottom => source.pixel_at(x, h - 1),
            })
        }
}

proof fn lemma_canvas_layout(source: RgbaImage, d: OutpaintDirection, e: int, img: RgbImage, mask: RgbImage)
    requires
        e >= 0,
        img.spec_width() == expanded_geometry(source.spec_width() as int, source.spec_height() as int, d, e).0,
        img.spec_height() == expanded_geometry(source.spec_width() as int, source.spec_height() as int, d, e).1,
        (img.spec_width() > 0 && img.spec_height() > 0) ==> (source.spec_width() > 0 && source.spec_height() > 0),
        forall|x: int, y: int|
            0 <= x < img.spec_width() && 0 <= y < img.spec_height() ==> #[trigger] img.pixel_at(x, y) == rgb_of(
                source.pixel_at(
                    clamp_coord(
                        x - expanded_geometry(source.spec_width() as int, source.spec_height() as int, d, e).2,
                        source.spec_width() - 1,
                    ),
                    clamp_coord(
                        y - expanded_geometry(source.spec_width() as int, source.spec_height() as int, d, e).3,
                        source.spec_height() - 1,
                    ),
                ),
            ),
        forall|x: int, y: int|
            0 <= x < img.spec_width() && 0 <= y < img.spec_height() ==> #[trigger] mask.pixel_at(x, y)
                == mask_pixel(
                in_added_region(d, source.spec_width() as int, source.spec_height() as int, e, x, y),
            ),
    ensures
        canvas_layout(source, d, e, img, mask),
{
}

/// Expands an image canvas in the given direction and creates a mask
/// where the new region is white (to be regenerated) and the source area is
/// black (to keep). The new region repeats the nearest edge pixels of the source.
///
/// Returns (expanded_image, mask_image).
#[verifier::spinoff_prover]
#[verifier::rlimit(100)]
pub fn expand_canvas_with_mask(source: &RgbaImage, direction: &OutpaintDirection, extend_px: u32) -> (r: Result<(RgbImage, RgbImage), String>)
    requires
        source.inv(),
        ({
            let g = expanded_geometry(source.spec_width() as int, source.spec_height() as int, *direction, extend_px as int);
            &&& g.0 <= i32::MAX
            &&& g.1 <= i32::MAX
            &&& g.0 * g.1 <= usize::MAX
            &&& (g.0 > 0 && g.1 > 0) ==> (source.spec_width() > 0 && source.spec_height() > 0)
        }),
    ensures
        r matches Ok((img, mask)) && {
            let w = source.spec_width() as int;
            let h = source.spec_height() as int;
            let g = expanded_geometry(w, h, *direction, extend_px as int);
            &&& img.inv() && mask.inv()
            &&& img.spec_width() == g.0 && img.spec_height() == g.1
            &&& mask.spec_width() == g.0 && mask.spec_height() == g.1
            &&& forall|x: int, y: int|
                0 <= x < g.0 && 0 <= y < g.1 ==> {
                    let s = source.pixel_at(clamp_coord(x - g.2, w - 1), clamp_coord(y - g.3, h - 1));
                    &&& #[trigger] img.pixel_at(x, y) == (Rgb { r: s.r, g: s.g, b: s.b })
                    &&& mask.pixel_at(x, y) == mask_pixel(in_added_region(*direction, w, h, extend_px as int, x, y))
                }
            &&& canvas_layout(*source, *direction, extend_px as int, img, mask)
        },
{
    let src_width = source.width();
    let src_height = source.height();
    let (new_width, new_height, offset_x, offset_y) = match direction {
        OutpaintDirection::Left => (src_width + extend_px, src_height, extend_px, 0u32),
        OutpaintDirection::Right => (src_width + extend_px, src_height, 0u32, 0u32),
        OutpaintDirection::Top => (src_width, src_height + extend_px, 0u32, extend_px),
        OutpaintDirection::Bottom => (src_width, src_height + extend_px, 0u32, 0u32),
    };
    let ghost w = src_width as int;
    let ghost h = src_height as int;
    let ghost e = extend_px as int;
    let mut expanded = RgbImage::new(new_width, new_height);
    let mut mask = RgbImage::new(new_width, new_height);
    let mut y: u32 = 0;
    while y < new_height
        invariant
            source.inv(),
            expanded.inv(),
            mask.inv(),
            w == source.spec_width(),
            h == source.spec_height(),
            e == extend_px,
            src_width == w,
            src_height == h,
            (new_width as int, new_height as int, offset_x as int, offset_y as int) == expanded_geometry(w, h, *direction, e),
            (new_width > 0 && new_height > 0) ==> (w > 0 && h > 0),
            expanded.spec_width() == new_width,
            expanded.spec_height() == new_height,
            mask.spec_width() == new_width,
            mask.spec_height() == new_height,
            y <= new_height,
            forall|i: int, j: int|
                0 <= i < new_width && 0 <= j < y ==> {
                    let s = source.pixel_at(clamp_coord(i - offset_x, w - 1), clamp_coord(j - offset_y, h - 1));
                    &&& #[trigger] expanded.pixel_at(i, j) == (Rgb { r: s.r, g: s.g, b: s.b })
                    &&& mask.pixel_at(i, j) == mask_pixel(in_added_region(*direction, w, h, e, i, j))
                },
        decreases new_height - y,
    {
        let mut x: u32 = 0;
        while x < new_width
            invariant
                source.inv(),
                expanded.inv(),
                mask.inv(),
                w == source.spec_width(),
                h == source.spec_height(),
                e == extend_px,
                src_width == w,
                src_height == h,
                (new_width as int, new_height as int, offset_x as int, offset_y as int) == expanded_geometry(w, h, *direction, e),
                new_width > 0 ==> (w > 0 && h > 0),
                expanded.spec_width() == new_width,
                expanded.spec_height() == new_height,
                mask.spec_width() == new_width,
                mask.spec_height() == new_height,
                y < new_height,
                x <= new_width,
                forall|i: int, j: int|
                    0 <= i < new_width && 0 <= j < new_height && (j < y || (j == y && i < x)) ==> {
                        let s = source.pixel_at(clamp_coord(i - offset_x, w - 1), clamp_coord(j - offset_y, h - 1));
                        &&& #[trigger] expanded.pixel_at(i, j) == (Rgb { r: s.r, g: s.g, b: s.b })
                        &&& mask.pixel_at(i, j) == mask_pixel(in_added_region(*direction, w, h, e, i, j))
                    },
            decreases new_width - x,
        {
            let dx: i64 = x as i64 - offset_x as i64;
            let dy: i64 = y as i64 - offset_y as i64;
            let src_x: u32 = if dx < 0 {
                0
            } else if dx > (src_width - 1) as i64 {
                src_width - 1
            } else {
                dx as u32
            };
            let src_y: u32 = if dy < 0 {
                0
            } else if dy > (src_height - 1) as i64 {
                src_height - 1
            } else {
                dy as u32
            };
            let pixel = source.get_pixel(src_x, src_y);
            expanded.put_pixel(x, y, Rgb { r: pixel.r, g: pixel.g, b: pixel.b });
            let added = match direction {
                OutpaintDirection::Left => x < offset_x,
                OutpaintDirection::Right => x >= src_width,
                OutpaintDirection::Top => y < offset_y,
                OutpaintDirection::Bottom => y >= src_height,
            };
            let m = if added {
                Rgb { r: 255, g: 255, b: 255 }
            } else {
                Rgb { r: 0, g: 0, b: 0 }
            };
            mask.put_pixel(x, y, m);
            x = x + 1;
        }
        y = y + 1;
    }
    proof {
        assert forall|x: int, y: int|
            0 <= x < expanded.spec_width() && 0 <= y < expanded.spec_height() implies #[trigger] expanded.pixel_at(
            x,
            y,
        ) == rgb_of(source.pixel_at(clamp_coord(x - offset_x, w - 1), clamp_coord(y - offset_y, h - 1))) by {}
        assert forall|i: int, j: int|
            0 <= i < mask.spec_width() && 0 <= j < mask.spec_height() implies #[trigger] mask.pixel_at(i, j)
            == mask_pixel(in_added_region(*direction, w, h, e, i, j)) by {
            assert(expanded.pixel_at(i, j) == rgb_of(
                source.pixel_at(clamp_coord(i - offset_x, w - 1), clamp_coord(j - offset_y, h - 1)),
            ));
        }
        lemma_canvas_layout(*source, *direction, e, expanded, mask);
    }
    Ok((expanded, mask))
}

/// Quantizes an image to a palette: straight nearest-color mapping when
/// dithering is off, Floyd-Steinberg error diffusion for every other mode.
pub fn quantize_to_palette(img: &RgbImage, mode: PaletteMode, dithering: DitheringMode) -> (out: RgbImage)
    requires
        img.inv(),
    ensures
        out.inv(),
        out.spec_width() == img.spec_width(),
        out.spec_height() == img.spec_height(),
        forall|x: int, y: int|
            0 <= x < img.spec_width() && 0 <= y < img.spec_height() ==> #[trigger] out.pixel_at(x, y) == (if dithering
                == DitheringMode::Off {
                color_pixel(
                    nearest_color(img.pixel_at(x, y).r, img.pixel_at(x, y).g, img.pixel_at(x, y).b, palette_of(mode)),
                )
            } else {
                color_pixel(dithered_color(*img, palette_of(mode), y * img.spec_width() + x))
            }),
{
    let palette = get_palette(&mode);
    if dithering == DitheringMode::Off {
        map_to_palette(img, palette.as_slice())
    } else {
        apply_floyd_steinberg(img, palette.as_slice())
    }
}


/// The color channels of an RGBA pixel.
pub open spec fn rgb_of(p: Rgba) -> Rgb {
    Rgb { r: p.r, g: p.g, b: p.b }
}

/// Drops the alpha channel.
pub fn drop_alpha(img: &RgbaImage) -> (out: RgbImage)
    requires
        img.inv(),
    ensures
        out.inv(),
        out.spec_width() == img.spec_width(),
        out.spec_height() == img.spec_height(),
        forall|x: int, y: int|
            0 <= x < img.spec_width() && 0 <= y < img.spec_height() ==> #[trigger] out.pixel_at(x, y) == rgb_of(
                img.pixel_at(x, y),
            ),
{
    let w = img.width();
    let h = img.height();
    proof {
        img.lemma_inv_size();
    }
    let mut out = RgbImage::new(w, h);
    let mut y: u32 = 0;
    while y < h
        invariant
            img.inv(),
            out.inv(),
            w == img.spec_width(),
            h == img.spec_height(),
            out.spec_width() == w,
            out.spec_height() == h,
            y <= h,
            forall|i: int, j: int| 0 <= i < w && 0 <= j < y ==> #[trigger] out.pixel_at(i, j) == rgb_of(img.pixel_at(i, j)),
        decreases h - y,
    {
        let mut x: u32 = 0;
        while x < w
            invariant
                img.inv(),
                out.inv(),
                w == img.spec_width(),
                h == img.spec_height(),
                out.spec_width() == w,
                out.spec_height() == h,
                y < h,
                x <= w,
                forall|i: int, j: int|
                    0 <= i < w && 0 <= j < h && (j < y || (j == y && i < x)) ==> #[trigger] out.pixel_at(i, j)
                        == rgb_of(img.pixel_at(i, j)),
            decreases w - x,
        {
            let p = img.get_pixel(x, y);
            out.put_pixel(x, y, Rgb { r: p.r, g: p.g, b: p.b });
            x = x + 1;
        }
        y = y + 1;
    }
    out
}

/// The palette-mapped pixel of `img` at (`x`, `y`) for the mode and dithering.
pub open spec fn quantized_pixel(img: RgbImage, mode: PaletteMode, dithering: DitheringMode, x: int, y: int) -> Rgb {
    if dithering == DitheringMode::Off {
        color_pixel(nearest_color(img.pixel_at(x, y).r, img.pixel_at(x, y).g, img.pixel_at(x, y).b, palette_of(mode)))
    } else {
        color_pixel(dithered_color(img, palette_of(mode), y * img.spec_width() + x))
    }
}

/// Converts an image to pixel art: resized to the target size with the
/// nearest-neighbor filter, stripped of alpha, and quantized to the palette.
pub fn convert_to_pixel_art(img: &RgbaImage, target_width: u32, target_height: u32, mode: PaletteMode, dithering: DitheringMode) -> (out: RgbImage)
    requires
        img.inv(),
        target_width as int * target_height as int * 4 <= usize::MAX,
    ensures
        out.inv(),
        out.spec_width() == target_width,
        out.spec_height() == target_height,
        exists|rgb: RgbImage|
            #![trigger rgb.inv()]
            rgb.inv() && rgb.spec_width() == target_width && rgb.spec_height() == target_height && (forall|x: int, y: int|
                0 <= x < target_width && 0 <= y < target_height ==> #[trigger] rgb.pixel_at(x, y) == rgb_of(
                    nearest_resize(
                        img.pixels_seq(),
                        img.spec_width() as u32,
                        img.spec_height() as u32,
                        target_width,
                        target_height,
                    )[y * target_width + x],
                )) && (forall|x: int, y: int|
                0 <= x < target_width && 0 <= y < target_height ==> #[trigger] out.pixel_at(x, y) == quantized_pixel(
                    rgb,
                    mode,
                    dithering,
                    x,
                    y,
                )),
{
    let resized = resize_nearest(img, target_width, target_height);
    let rgb = drop_alpha(&resized);
    let out = quantize_to_palette(&rgb, mode, dithering);
    proof {
        assert forall|x: int, y: int| 0 <= x < target_width && 0 <= y < target_height implies #[trigger] rgb.pixel_at(x, y)
            == rgb_of(
            nearest_resize(img.pixels_seq(), img.spec_width() as u32, img.spec_height() as u32, target_width, target_height)[y
                * target_width + x],
        ) by {
            resized.lemma_pixel_at_seq(x, y);
        }
        assert forall|x: int, y: int| 0 <= x < target_width && 0 <= y < target_height implies #[trigger] out.pixel_at(x, y)
            == quantized_pixel(rgb, mode, dithering, x, y) by {}
        assert(rgb.inv());
    }
    out
}

} // verus!
