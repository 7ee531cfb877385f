use artifex::image::{Rgb, Rgba, RgbImage, RgbaImage};
use artifex::seamless::{crop_center, mirror_canvas};
use artifex::pixel_art::{
    convert_to_pixel_art,
    apply_floyd_steinberg, expand_canvas_with_mask, get_palette, map_to_palette, nearest_palette_color,
    quantize_to_palette, DitheringMode, OutpaintDirection, PaletteMode,
};

fn pico8() -> Vec<(u8, u8, u8)> {
    get_palette(&PaletteMode::Pico8)
}

#[test]
fn test_palette_nearest_color() {
    let nearest = nearest_palette_color(255, 0, 0, &pico8());
    assert_eq!(nearest, (0xFF, 0x00, 0x4D));

    let nearest = nearest_palette_color(0, 0, 0, &pico8());
    assert_eq!(nearest, (0x00, 0x00, 0x00));

    let nearest = nearest_palette_color(255, 255, 255, &pico8());
    assert_eq!(nearest, (0xFF, 0xF1, 0xE8));
}

#[test]
fn test_pico8_palette_has_16_colors() {
    assert_eq!(get_palette(&PaletteMode::Pico8).len(), 16, "Pico-8 palette should have 16 colors");
}

#[test]
fn test_gameboy_palette_has_4_colors() {
    assert_eq!(get_palette(&PaletteMode::GameBoy).len(), 4, "GameBoy palette should have 4 colors");
}

#[test]
fn palettes_and_custom_fallback() {
    assert_eq!(get_palette(&PaletteMode::Nes).len(), 54);
    assert_eq!(get_palette(&PaletteMode::Custom), pico8());
    assert_eq!(get_palette(&PaletteMode::GameBoy)[0], (0x0F, 0x38, 0x0F));
}

#[test]
fn nearest_color_takes_first_of_equal_distances() {
    let palette = vec![(10, 0, 0), (0, 0, 0), (20, 0, 0)];
    // Distance 2 * 10^2 from both the first and the third entry.
    assert_eq!(nearest_palette_color(10, 0, 0, &palette), (10, 0, 0));
    assert_eq!(nearest_palette_color(5, 0, 0, &palette), (10, 0, 0));
    let palette = vec![(0, 0, 0), (20, 0, 0)];
    assert_eq!(nearest_palette_color(10, 0, 0, &palette), (0, 0, 0));
}

fn rgb_image(w: u32, h: u32, f: impl Fn(u32, u32) -> Rgb) -> RgbImage {
    let mut img = RgbImage::new(w, h);
    for y in 0..h {
        for x in 0..w {
            img.put_pixel(x, y, f(x, y));
        }
    }
    img
}

#[test]
fn mapping_without_dithering_uses_nearest_colors() {
    let img = rgb_image(2, 1, |x, _| if x == 0 { Rgb { r: 250, g: 10, b: 70 } } else { Rgb { r: 3, g: 3, b: 3 } });
    let out = map_to_palette(&img, &pico8());
    assert_eq!(out.get_pixel(0, 0), Rgb { r: 0xFF, g: 0x00, b: 0x4D });
    assert_eq!(out.get_pixel(1, 0), Rgb { r: 0, g: 0, b: 0 });
}

#[test]
fn floyd_steinberg_carries_error_to_later_pixels() {
    let palette = vec![(0, 0, 0), (255, 255, 255)];
    let img = rgb_image(2, 1, |_, _| Rgb { r: 128, g: 128, b: 128 });
    let out = apply_floyd_steinberg(&img, &palette);
    // 128 rounds to white (error -127); the right pixel gets -127*7/16 = -55,
    // so 73 maps to black.
    assert_eq!(out.get_pixel(0, 0), Rgb { r: 255, g: 255, b: 255 });
    assert_eq!(out.get_pixel(1, 0), Rgb { r: 0, g: 0, b: 0 });
}

#[test]
fn floyd_steinberg_output_uses_only_palette_colors() {
    let palette = get_palette(&PaletteMode::GameBoy);
    let img = rgb_image(7, 5, |x, y| Rgb { r: (x * 37) as u8, g: (y * 51) as u8, b: ((x + y) * 20) as u8 });
    let out = apply_floyd_steinberg(&img, &palette);
    for y in 0..5 {
        for x in 0..7 {
            let p = out.get_pixel(x, y);
            assert!(palette.contains(&(p.r, p.g, p.b)));
        }
    }
}

#[test]
fn quantize_dispatches_on_dithering_mode() {
    let img = rgb_image(3, 3, |x, y| Rgb { r: (x * 90) as u8, g: (y * 90) as u8, b: 60 });
    let plain = quantize_to_palette(&img, PaletteMode::Pico8, DitheringMode::Off);
    let direct = map_to_palette(&img, &pico8());
    let dithered = quantize_to_palette(&img, PaletteMode::Pico8, DitheringMode::Bayer);
    let fs = apply_floyd_steinberg(&img, &pico8());
    for y in 0..3 {
        for x in 0..3 {
            assert_eq!(plain.get_pixel(x, y), direct.get_pixel(x, y));
            assert_eq!(dithered.get_pixel(x, y), fs.get_pixel(x, y));
        }
    }
    assert_eq!(DitheringMode::default(), DitheringMode::Off);
}

fn source(color: Rgba) -> RgbaImage {
    let mut img = RgbaImage::new(2, 2);
    for y in 0..2 {
        for x in 0..2 {
            img.put_pixel(x, y, color);
        }
    }
    img
}

#[test]
fn test_expand_canvas_right() {
    let img = source(Rgba { r: 255, g: 0, b: 0, a: 255 });
    let result = expand_canvas_with_mask(&img, &OutpaintDirection::Right, 2);
    assert!(result.is_ok());
    let (expanded, mask) = result.unwrap();
    assert_eq!(expanded.width(), 4);
    assert_eq!(expanded.height(), 2);
    assert_eq!(mask.width(), 4);
    assert_eq!(mask.height(), 2);
    for y in 0..2 {
        assert_eq!(mask.get_pixel(0, y).r, 0);
        assert_eq!(mask.get_pixel(1, y).r, 0);
        assert_eq!(mask.get_pixel(2, y).r, 255);
        assert_eq!(mask.get_pixel(3, y).r, 255);
    }
}

#[test]
fn test_expand_canvas_left() {
    let img = source(Rgba { r: 0, g: 255, b: 0, a: 255 });
    let result = expand_canvas_with_mask(&img, &OutpaintDirection::Left, 2);
    assert!(result.is_ok());
    let (expanded, mask) = result.unwrap();
    assert_eq!(expanded.width(), 4);
    assert_eq!(expanded.height(), 2);
    for y in 0..2 {
        assert_eq!(mask.get_pixel(0, y).r, 255);
        assert_eq!(mask.get_pixel(1, y).r, 255);
        assert_eq!(mask.get_pixel(2, y).r, 0);
        assert_eq!(mask.get_pixel(3, y).r, 0);
    }
}

#[test]
fn test_expand_canvas_top() {
    let img = source(Rgba { r: 0, g: 0, b: 255, a: 255 });
    let result = expand_canvas_with_mask(&img, &OutpaintDirection::Top, 2);
    assert!(result.is_ok());
    let (expanded, mask) = result.unwrap();
    assert_eq!(expanded.width(), 2);
    assert_eq!(expanded.height(), 4);
    for x in 0..2 {
        assert_eq!(mask.get_pixel(x, 0).r, 255);
        assert_eq!(mask.get_pixel(x, 1).r, 255);
        assert_eq!(mask.get_pixel(x, 2).r, 0);
        assert_eq!(mask.get_pixel(x, 3).r, 0);
    }
}

#[test]
fn test_expand_canvas_bottom() {
    let img = source(Rgba { r: 128, g: 128, b: 128, a: 255 });
    let result = expand_canvas_with_mask(&img, &OutpaintDirection::Bottom, 2);
    assert!(result.is_ok());
    let (expanded, mask) = result.unwrap();
    assert_eq!(expanded.width(), 2);
    assert_eq!(expanded.height(), 4);
    for x in 0..2 {
        assert_eq!(mask.get_pixel(x, 0).r, 0);
        assert_eq!(mask.get_pixel(x, 1).r, 0);
        assert_eq!(mask.get_pixel(x, 2).r, 255);
        assert_eq!(mask.get_pixel(x, 3).r, 255);
    }
}

#[test]
fn expanded_canvas_repeats_edge_pixels() {
    let mut img = RgbaImage::new(2, 1);
    img.put_pixel(0, 0, Rgba { r: 1, g: 2, b: 3, a: 0 });
    img.put_pixel(1, 0, Rgba { r: 9, g: 8, b: 7, a: 255 });
    let (expanded, _) = expand_canvas_with_mask(&img, &OutpaintDirection::Left, 3).unwrap();
    assert_eq!(expanded.width(), 5);
    for x in 0..4 {
        assert_eq!(expanded.get_pixel(x, 0), Rgb { r: 1, g: 2, b: 3 });
    }
    assert_eq!(expanded.get_pixel(4, 0), Rgb { r: 9, g: 8, b: 7 });
}

#[test]
fn mirror_canvas_reflects_edges_and_crops_back() {
    let img = rgb_image(3, 2, |x, y| Rgb { r: x as u8, g: y as u8, b: 7 });
    let canvas = mirror_canvas(&img, 2);
    assert_eq!((canvas.width(), canvas.height()), (7, 6));
    // Column 0 of the canvas mirrors source column 1, column 6 mirrors column 1.
    assert_eq!(canvas.get_pixel(0, 2), Rgb { r: 1, g: 0, b: 7 });
    assert_eq!(canvas.get_pixel(1, 2), Rgb { r: 0, g: 0, b: 7 });
    assert_eq!(canvas.get_pixel(5, 3), Rgb { r: 2, g: 1, b: 7 });
    assert_eq!(canvas.get_pixel(6, 5), Rgb { r: 1, g: 0, b: 7 });
    let back = crop_center(&canvas, 2, 3, 2);
    for y in 0..2 {
        for x in 0..3 {
            assert_eq!(back.get_pixel(x, y), img.get_pixel(x, y));
        }
    }
}

#[test]
fn pixel_art_conversion_resizes_then_quantizes() {
    let mut img = RgbaImage::new(4, 2);
    for y in 0..2 {
        for x in 0..4 {
            let p = if x < 2 { Rgba { r: 250, g: 5, b: 80, a: 0 } } else { Rgba { r: 250, g: 250, b: 240, a: 255 } };
            img.put_pixel(x, y, p);
        }
    }
    let out = convert_to_pixel_art(&img, 2, 1, PaletteMode::Pico8, DitheringMode::Off);
    assert_eq!((out.width(), out.height()), (2, 1));
    assert_eq!(out.get_pixel(0, 0), Rgb { r: 0xFF, g: 0x00, b: 0x4D });
    assert_eq!(out.get_pixel(1, 0), Rgb { r: 0xFF, g: 0xF1, b: 0xE8 });
}
