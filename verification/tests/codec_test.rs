use artifex::animation::{export_animation, AnimationExportOperation};
use artifex::atlas::{pack_atlas, PackAtlasOperation, PackAtlasOptions, PackAtlasSourceAsset};
use artifex::codec::{decode_rgba, load_animation_frames, load_atlas_sources, pack_frames};
use artifex::image::{Rgba, RgbaImage};
use artifex::sprites::pack_sprite_sheet;

fn png_bytes(w: u32, h: u32, px: [u8; 4]) -> Vec<u8> {
    let img = image::RgbaImage::from_pixel(w, h, image::Rgba(px));
    let mut out = std::io::Cursor::new(Vec::new());
    image::DynamicImage::ImageRgba8(img).write_to(&mut out, image::ImageFormat::Png).unwrap();
    out.into_inner()
}

fn solid(w: u32, h: u32, p: Rgba) -> RgbaImage {
    RgbaImage::from_pixels(w, h, vec![p; (w * h) as usize]).unwrap()
}

const RED: Rgba = Rgba { r: 255, g: 0, b: 0, a: 255 };

fn atlas_op(names: &[&str], max_size: u32) -> PackAtlasOperation {
    PackAtlasOperation {
        project_id: "p".to_string(),
        atlas_name: "atlas".to_string(),
        source_assets: names
            .iter()
            .map(|n| PackAtlasSourceAsset {
                asset_id: format!("id-{}", n),
                name: n.to_string(),
                file_path: format!("/assets/{}.png", n),
            })
            .collect(),
        options: PackAtlasOptions { max_size, padding: 2, allow_rotation: false, sort_mode: "none".to_string() },
    }
}

#[test]
fn decode_png_gives_its_pixels() {
    let img = decode_rgba(&png_bytes(3, 2, [1, 2, 3, 4])).unwrap();
    assert_eq!((img.width(), img.height()), (3, 2));
    assert_eq!(img.get_pixel(2, 1), Rgba { r: 1, g: 2, b: 3, a: 4 });
    assert_eq!(img.pixels().len(), 6);
}

#[test]
fn decode_garbage_fails() {
    assert!(decode_rgba(b"not an image").is_err());
}

#[test]
fn atlas_sources_report_missing_and_broken_files() {
    let op = atlas_op(&["a", "b"], 1024);
    let good = Some(png_bytes(4, 4, [9, 9, 9, 255]));
    assert_eq!(
        load_atlas_sources(&op, &vec![good.clone(), None]).err(),
        Some("Source image file not found: /assets/b.png".to_string())
    );
    let err = load_atlas_sources(&op, &vec![Some(b"xx".to_vec()), None]).unwrap_err();
    assert!(err.starts_with("Failed to load image /assets/a.png: "), "{}", err);
    assert_eq!(load_atlas_sources(&op, &vec![good.clone(), good.clone()]).unwrap().len(), 2);
    let bad_size = atlas_op(&["a"], 1000);
    assert_eq!(
        load_atlas_sources(&bad_size, &vec![None]).err(),
        Some("invalid max_size: 1000 (must be one of [512, 1024, 2048, 4096])".to_string())
    );
    assert_eq!(load_atlas_sources(&atlas_op(&[], 1024), &vec![]).err(), Some("No frames to pack".to_string()));
}

#[test]
fn animation_frames_report_missing_files() {
    let paths = vec!["/a/f1.png".to_string(), "/a/f2.png".to_string()];
    let ids = vec!["f1".to_string(), "f2".to_string()];
    assert_eq!(
        load_animation_frames(&paths, &ids, &vec![Some(png_bytes(2, 2, [0, 0, 0, 255])), None]).err(),
        Some("Frame file not found: /a/f2.png".to_string())
    );
    let err = load_animation_frames(&paths, &ids, &vec![Some(vec![1, 2, 3]), None]).unwrap_err();
    assert!(err.starts_with("Failed to open frame image f1: "), "{}", err);
    assert_eq!(load_animation_frames(&vec![], &vec![], &vec![]).err(), Some("No frames to export".to_string()));
}

#[test]
fn pack_frames_places_each_frame() {
    let frames = vec![solid(8, 8, RED), solid(4, 6, RED)];
    let keys = vec!["x".to_string(), "y".to_string()];
    let packed = pack_frames(&frames, &keys, 64, 0, false);
    assert_eq!(packed.failures, vec![None, None]);
    let p0 = packed.placements[0].unwrap();
    let p1 = packed.placements[1].unwrap();
    assert_eq!((p0.2, p0.3), (8, 8));
    assert_eq!((p1.2, p1.3), (4, 6));
    let atlas = packed.atlas.unwrap();
    assert_eq!(atlas.get_pixel(p0.0, p0.1), RED);
}

#[test]
fn pack_frames_reports_frames_too_large() {
    let frames = vec![solid(100, 100, RED)];
    let packed = pack_frames(&frames, &vec!["big".to_string()], 64, 0, false);
    assert_eq!(packed.failures[0], Some("TextureTooLargeToFitIntoAtlas".to_string()));
    assert_eq!(packed.placements[0], None);
}

#[test]
fn pack_atlas_builds_sheet_and_manifest() {
    let op = atlas_op(&["a", "b"], 512);
    let frames = vec![solid(16, 16, RED), solid(8, 4, RED)];
    let (atlas, manifest) = pack_atlas(&op, &frames).unwrap();
    assert_eq!(manifest.version, 1);
    assert_eq!(manifest.atlas_name, "atlas");
    assert_eq!((manifest.atlas_width, manifest.atlas_height), (atlas.width(), atlas.height()));
    assert_eq!(manifest.regions.len(), 2);
    assert_eq!(manifest.regions[0].name, "a");
    assert_eq!(manifest.regions[1].asset_id, "id-b");
    assert_eq!((manifest.regions[1].source_width, manifest.regions[1].source_height), (8, 4));
    assert!(!manifest.regions[0].rotated);
}

#[test]
fn pack_atlas_names_the_refused_asset() {
    let op = atlas_op(&["huge", "tiny"], 512);
    let frames = vec![solid(600, 600, RED), solid(4, 4, RED)];
    let err = pack_atlas(&op, &frames).unwrap_err();
    assert_eq!(err, "Failed to pack frame 'huge': TextureTooLargeToFitIntoAtlas");
}

#[test]
fn export_animation_packs_frames_and_times_them() {
    let op = AnimationExportOperation {
        project_id: "p".to_string(),
        animation_id: "anim".to_string(),
        animation_name: "Walk".to_string(),
        frame_asset_ids: vec!["f1".to_string(), "f2".to_string(), "f3".to_string()],
        frame_durations_ms: vec![100, 150, 50],
        loop_animation: true,
    };
    let frames = vec![solid(10, 12, RED), solid(10, 12, RED), solid(10, 12, RED)];
    let sheet = export_animation(&op, &frames).unwrap();
    assert_eq!((sheet.columns, sheet.rows), (2, 2));
    assert_eq!((sheet.frame_width, sheet.frame_height), (10, 12));
    assert_eq!(sheet.total_duration_ms, 300);
    assert_eq!(sheet.frames.len(), 3);
    assert_eq!(sheet.frames[1].duration_ms, 150);
    assert!(sheet.placements.iter().all(|p| p.is_some()));
}

#[test]
fn sprite_sheet_packing_and_its_errors() {
    assert_eq!(pack_sprite_sheet(&vec![], 256, 1).err(), Some("No frames to pack".to_string()));
    let sheet = pack_sprite_sheet(&vec![solid(8, 8, RED), solid(8, 8, RED)], 256, 1).unwrap();
    assert_eq!(sheet.rects.len(), 2);
    assert_eq!(sheet.rects[1].index, 1);
    assert_eq!((sheet.rects[0].w, sheet.rects[0].h), (8, 8));
    let err = pack_sprite_sheet(&vec![solid(300, 10, RED)], 256, 1).unwrap_err();
    assert_eq!(err, "Failed to pack frame 0: TextureTooLargeToFitIntoAtlas");
}
