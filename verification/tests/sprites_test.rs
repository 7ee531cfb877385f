use artifex::animation::{ceil_sqrt, frame_file_name, frame_timings, grid_dimensions, total_duration_ms, FrameTiming};
use artifex::atlas::{atlas_regions, check_max_size, is_valid_max_size, pack_verdict, valid_max_size_list, PackedSource};
use artifex::quick_sprites::{check_source, data_uri, image_mime_type, video_duration_secs, QuickSpritesMode, QuickSpritesOutputFormat};
use artifex::sprites::{
    aseprite_frames, aseprite_size, canonical_frame_entries, frame_duration_ms, frame_rects_from_placements, packing_key,
    sprite_file_names, sprite_pack_error, FrameRect, OutputFormat,
};

#[test]
fn sprite_worker_test_output_format_default() {
    assert_eq!(OutputFormat::default(), OutputFormat::Both);
}

#[test]
fn output_format_selects_manifests() {
    assert!(OutputFormat::Both.writes_json() && OutputFormat::Both.writes_aseprite());
    assert!(OutputFormat::Json.writes_json() && !OutputFormat::Json.writes_aseprite());
    assert!(!OutputFormat::Aseprite.writes_json() && OutputFormat::Aseprite.writes_aseprite());
    assert_eq!(OutputFormat::Aseprite.metadata_name(), "aseprite");
}

#[test]
fn frame_durations_follow_fps() {
    assert_eq!(frame_duration_ms(0), 100);
    assert_eq!(frame_duration_ms(12), 83);
    assert_eq!(frame_duration_ms(30), 33);
    let rects = vec![FrameRect { index: 0, x: 1, y: 2, w: 3, h: 4 }, FrameRect { index: 9, x: 5, y: 6, w: 7, h: 8 }];
    let entries = canonical_frame_entries(&rects, 10);
    assert_eq!(entries.len(), 2);
    assert_eq!((entries[1].index, entries[1].x, entries[1].duration_ms), (1, 5, 100));
}

#[test]
fn sprite_outputs_are_named_after_the_atlas() {
    let names = sprite_file_names("idle", "1234");
    assert_eq!(names.atlas, "idle_1234.png");
    assert_eq!(names.manifest, "idle_1234.json");
    assert_eq!(names.aseprite, "idle_1234_aseprite.json");
    let names = sprite_file_names("walk.png", "x");
    assert_eq!(names.manifest, "walk.png_x.json");
}

#[test]
fn aseprite_frames_and_size() {
    let rects = vec![FrameRect { index: 0, x: 0, y: 0, w: 32, h: 32 }, FrameRect { index: 1, x: 33, y: 0, w: 32, h: 16 }];
    let frames = aseprite_frames(&rects, 20, "run_7.png.png");
    assert_eq!(frames[0].name, "run_7_0");
    assert_eq!(frames[1].name, "run_7_1");
    assert_eq!(frames[1].duration, 50);
    assert_eq!(aseprite_size(&rects), (65, 16));
    assert_eq!(aseprite_size(&vec![]), (0, 0));
}

#[test]
fn packing_keys_and_errors() {
    assert_eq!(packing_key(7), "frame_0007");
    assert_eq!(packing_key(12345), "frame_12345");
    assert_eq!(
        sprite_pack_error(3, 64, 48, 512, 2, "TextureTooLargeToFitIntoAtlas"),
        "Failed to pack frame 3: TextureTooLargeToFitIntoAtlas"
    );
    assert_eq!(
        sprite_pack_error(3, 64, 48, 512, 2, "Geometry overflow"),
        "Atlas too small: frame 3 (64x48) cannot fit in atlas of 512x512 with 2px padding. Try increasing atlas_max_size or reducing frame count/size."
    );
    let rects = frame_rects_from_placements(&vec![Some((1, 2, 3, 4)), None]);
    assert_eq!(rects[0], FrameRect { index: 0, x: 1, y: 2, w: 3, h: 4 });
    assert_eq!(rects[1], FrameRect { index: 1, x: 0, y: 0, w: 0, h: 0 });
}

#[test]
fn test_fps_calculation() {
    let fps: f64 = 4.0 / (1000.0 / 1000.0);
    assert!((fps - 4.0).abs() < 0.01);
    let fps: f64 = 10.0 / (1000.0 / 1000.0);
    assert!((fps - 10.0).abs() < 0.01);
}

#[test]
fn animation_grid_and_timings() {
    assert_eq!(ceil_sqrt(0), 0);
    assert_eq!(ceil_sqrt(1), 1);
    assert_eq!(ceil_sqrt(10), 4);
    assert_eq!(ceil_sqrt(16), 4);
    assert_eq!(ceil_sqrt(u32::MAX), 65536);
    assert_eq!(grid_dimensions(1), (1, 1));
    assert_eq!(grid_dimensions(5), (3, 2));
    assert_eq!(grid_dimensions(9), (3, 3));
    assert_eq!(total_duration_ms(&vec![100, 200, 50]), 350);
    assert_eq!(
        frame_timings(&vec![100, 200]),
        vec![FrameTiming { index: 0, duration_ms: 100 }, FrameTiming { index: 1, duration_ms: 200 }]
    );
    assert_eq!(frame_file_name("frame-1"), "frame-1.png");
}

#[test]
fn test_valid_max_sizes() {
    let sizes = valid_max_size_list();
    assert!(sizes.contains(&512u32));
    assert!(sizes.contains(&1024u32));
    assert!(sizes.contains(&2048u32));
    assert!(sizes.contains(&4096u32));
    assert!(!sizes.contains(&256u32));
    assert!(!sizes.contains(&8192u32));
    assert!(is_valid_max_size(2048) && !is_valid_max_size(3000));
}

#[test]
fn atlas_checks_and_verdicts() {
    assert_eq!(check_max_size(1024), Ok(()));
    assert_eq!(check_max_size(100), Err("invalid max_size: 100 (must be one of [512, 1024, 2048, 4096])".to_string()));
    let names = vec!["hero".to_string(), "sword".to_string(), "shield".to_string()];
    assert_eq!(pack_verdict(&names, &vec![None, None, None]), Ok(()));
    assert_eq!(
        pack_verdict(&names, &vec![Some("too large".to_string()), None, Some("Geometry".to_string())]),
        Err("Atlas overflow: these assets could not fit: hero, shield".to_string())
    );
    assert_eq!(
        pack_verdict(&names, &vec![Some("overflow".to_string()), Some("TextureEmpty".to_string()), None]),
        Err("Failed to pack frame 'sword': TextureEmpty".to_string())
    );
}

#[test]
fn atlas_regions_skip_unplaced_assets() {
    let sources = vec![
        PackedSource { asset_id: "a1".to_string(), name: "hero".to_string(), width: 64, height: 128 },
        PackedSource { asset_id: "a2".to_string(), name: "ghost".to_string(), width: 8, height: 8 },
        PackedSource { asset_id: "a3".to_string(), name: "sword".to_string(), width: 32, height: 64 },
    ];
    let regions = atlas_regions(&sources, &vec![Some((0, 0, 64, 128)), None, Some((64, 0, 32, 64))]);
    assert_eq!(regions.len(), 2);
    assert_eq!(regions[1].name, "sword");
    assert_eq!((regions[1].x, regions[1].w, regions[1].source_height), (64, 32, 64));
    assert!(!regions[0].rotated);
}

#[test]
fn quick_sprites_choices() {
    assert_eq!(QuickSpritesOutputFormat::default(), QuickSpritesOutputFormat::Both);
    assert_eq!(QuickSpritesMode::FromPrompt.metadata_name(), "fromprompt");
    assert_eq!(check_source(QuickSpritesMode::FromImage, false, true), Err("FromImage mode requires source_file_path".to_string()));
    assert_eq!(check_source(QuickSpritesMode::FromPrompt, false, true), Ok(()));
    assert_eq!(video_duration_secs(None), 4);
    assert_eq!(video_duration_secs(Some(6)), 6);
    assert_eq!(image_mime_type(Some("JPG")), "image/jpeg");
    assert_eq!(image_mime_type(Some("tiff")), "image/png");
    assert_eq!(image_mime_type(None), "image/png");
    assert_eq!(data_uri("image/png", b"hi!"), "data:image/png;base64,aGkh");
    assert_eq!(data_uri("image/gif", b"a"), "data:image/gif;base64,YQ==");
}
