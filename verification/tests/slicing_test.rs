use artifex::components::bfs_labeling;
use artifex::image::{Rgba, RgbaImage};
use artifex::slicing::{
    build_alpha_mask, frame_file_name, is_fully_transparent, slice_auto_detect, slice_grid, stable_sort_frames,
    AutoDetectSliceParams, BoundingBox, GridSliceParams, SliceMode, SliceWorker, SortOrder,
};

const RED: Rgba = Rgba { r: 255, g: 0, b: 0, a: 255 };
const GREEN: Rgba = Rgba { r: 0, g: 255, b: 0, a: 255 };
const CLEAR: Rgba = Rgba { r: 0, g: 0, b: 0, a: 0 };

fn fill(img: &mut RgbaImage, xs: std::ops::Range<u32>, ys: std::ops::Range<u32>, p: Rgba) {
    for y in ys {
        for x in xs.clone() {
            img.put_pixel(x, y, p);
        }
    }
}

#[test]
fn slice_worker_test_can_handle() {
    let worker = SliceWorker::new("/tmp".to_string());
    assert!(worker.can_handle("sprite_slice"));
    assert!(!worker.can_handle("sprite_generate"));
    assert!(!worker.can_handle("image_generate"));
}

#[test]
fn test_is_fully_transparent() {
    let img = RgbaImage::new(10, 10);
    assert!(is_fully_transparent(&img));

    let mut img = RgbaImage::new(10, 10);
    img.put_pixel(5, 5, Rgba { r: 0, g: 0, b: 0, a: 255 });
    assert!(!is_fully_transparent(&img));
}

#[test]
fn test_build_alpha_mask() {
    let mut img = RgbaImage::new(3, 3);
    img.put_pixel(1, 1, Rgba { r: 0, g: 0, b: 0, a: 255 });
    let mask = build_alpha_mask(&img);

    assert_eq!(mask.len(), 3);
    assert_eq!(mask[0].len(), 3);
    assert!(!mask[0][0]);
    assert!(!mask[0][1]);
    assert!(!mask[0][2]);
    assert!(!mask[1][0]);
    assert!(mask[1][1]);
    assert!(!mask[1][2]);
    assert!(!mask[2][0]);
    assert!(!mask[2][1]);
    assert!(!mask[2][2]);
}

#[test]
fn test_bfs_labeling_single_component() {
    let mask = vec![vec![false, false, false], vec![false, true, false], vec![false, false, false]];
    let components = bfs_labeling(&mask);
    assert_eq!(components.len(), 1);
    let (_, bbox) = &components[0];
    assert_eq!(bbox.x, 1);
    assert_eq!(bbox.y, 1);
    assert_eq!(bbox.w, 1);
    assert_eq!(bbox.h, 1);
}

#[test]
fn test_bfs_labeling_multiple_components() {
    let mask = vec![
        vec![true, true, false, false, false],
        vec![true, true, false, false, false],
        vec![false, false, false, true, true],
        vec![false, false, false, true, true],
        vec![false, false, false, false, false],
    ];
    let components = bfs_labeling(&mask);
    assert_eq!(components.len(), 2);

    let mut sorted = components.clone();
    sorted.sort_by_key(|(label, _)| *label);

    let (_, bbox1) = &sorted[0];
    assert_eq!(bbox1.x, 0);
    assert_eq!(bbox1.y, 0);
    assert_eq!(bbox1.w, 2);
    assert_eq!(bbox1.h, 2);

    let (_, bbox2) = &sorted[1];
    assert_eq!(bbox2.x, 3);
    assert_eq!(bbox2.y, 2);
    assert_eq!(bbox2.w, 2);
    assert_eq!(bbox2.h, 2);
}

#[test]
fn test_bfs_labeling_empty() {
    let mask: Vec<Vec<bool>> = vec![];
    let components = bfs_labeling(&mask);
    assert!(components.is_empty());

    let mask = vec![vec![false, false], vec![false, false]];
    let components = bfs_labeling(&mask);
    assert!(components.is_empty());
}

#[test]
fn test_bfs_labeling_l_shaped() {
    let mask = vec![vec![true, false, false], vec![true, false, false], vec![true, true, false]];
    let components = bfs_labeling(&mask);
    assert_eq!(components.len(), 1);
    let (_, bbox) = &components[0];
    assert_eq!(bbox.x, 0);
    assert_eq!(bbox.y, 0);
    assert_eq!(bbox.w, 2);
    assert_eq!(bbox.h, 3);
}

#[test]
fn bfs_labels_count_up_in_scan_order() {
    // A U shape is one component even though its arms start on the same row.
    let mask = vec![
        vec![true, false, true, false, true],
        vec![true, false, true, false, false],
        vec![true, true, true, false, true],
    ];
    let components = bfs_labeling(&mask);
    assert_eq!(components.len(), 3);
    assert_eq!(components[0], (1, BoundingBox { x: 0, y: 0, w: 3, h: 3 }));
    assert_eq!(components[1], (2, BoundingBox { x: 4, y: 0, w: 1, h: 1 }));
    assert_eq!(components[2], (3, BoundingBox { x: 4, y: 2, w: 1, h: 1 }));
}

#[test]
fn test_grid_slice_basic() {
    let _worker = SliceWorker::new("/tmp".to_string());
    let mut img = RgbaImage::new(100, 100);
    fill(&mut img, 0..100, 0..100, RED);
    let params = GridSliceParams { rows: 2, cols: 2, margin: 0 };

    let frames = slice_grid(&img, &params).unwrap();
    assert_eq!(frames.len(), 4);
    for frame in &frames {
        assert_eq!(frame.bbox.w, 50);
        assert_eq!(frame.bbox.h, 50);
    }
}

#[test]
fn test_grid_slice_with_margin() {
    let _worker = SliceWorker::new("/tmp".to_string());
    let mut img = RgbaImage::new(100, 100);
    fill(&mut img, 0..100, 0..100, RED);
    let params = GridSliceParams { rows: 2, cols: 2, margin: 10 };

    let frames = slice_grid(&img, &params).unwrap();
    assert_eq!(frames.len(), 4);
    for frame in &frames {
        assert_eq!(frame.bbox.w, 30);
        assert_eq!(frame.bbox.h, 30);
    }
}

#[test]
fn test_grid_slice_skips_transparent() {
    let _worker = SliceWorker::new("/tmp".to_string());
    let mut img = RgbaImage::new(100, 100);
    fill(&mut img, 0..50, 0..50, CLEAR);
    fill(&mut img, 50..100, 0..50, RED);
    fill(&mut img, 0..50, 50..100, RED);
    fill(&mut img, 50..100, 50..100, RED);
    let params = GridSliceParams { rows: 2, cols: 2, margin: 0 };

    let frames = slice_grid(&img, &params).unwrap();
    assert_eq!(frames.len(), 3);
}

#[test]
fn grid_slice_errors() {
    let img = RgbaImage::new(10, 10);
    let e = slice_grid(&img, &GridSliceParams { rows: 0, cols: 2, margin: 0 }).err();
    assert_eq!(e, Some("Rows and cols must be greater than 0".to_string()));
    let e = slice_grid(&img, &GridSliceParams { rows: 20, cols: 3, margin: 0 }).err();
    assert_eq!(e, Some("Cell dimensions too small: 3x0 (image: 10x10, grid: 3x20)".to_string()));
}

#[test]
fn grid_slice_frames_are_crops() {
    let mut img = RgbaImage::new(4, 2);
    fill(&mut img, 2..4, 0..2, GREEN);
    fill(&mut img, 0..2, 0..2, RED);
    let frames = slice_grid(&img, &GridSliceParams { rows: 1, cols: 2, margin: 0 }).unwrap();
    assert_eq!(frames.len(), 2);
    assert_eq!(frames[1].bbox, BoundingBox { x: 2, y: 0, w: 2, h: 2 });
    assert_eq!(frames[1].image.get_pixel(0, 0), GREEN);
    assert_eq!(frames[0].image.get_pixel(1, 1), RED);
}

#[test]
fn test_auto_detect_single_sprite() {
    let _worker = SliceWorker::new("/tmp".to_string());
    let mut img = RgbaImage::new(100, 100);
    fill(&mut img, 0..100, 0..100, CLEAR);
    fill(&mut img, 10..40, 10..40, RED);
    let params = AutoDetectSliceParams { min_area: 100, sort_order: SortOrder::TopToBottom };

    let frames = slice_auto_detect(&img, &params).unwrap();
    assert_eq!(frames.len(), 1);
    assert_eq!(frames[0].bbox.x, 10);
    assert_eq!(frames[0].bbox.y, 10);
    assert_eq!(frames[0].bbox.w, 30);
    assert_eq!(frames[0].bbox.h, 30);
}

#[test]
fn test_auto_detect_multiple_sprites() {
    let _worker = SliceWorker::new("/tmp".to_string());
    let mut img = RgbaImage::new(200, 100);
    fill(&mut img, 0..200, 0..100, CLEAR);
    fill(&mut img, 10..40, 10..40, RED);
    fill(&mut img, 100..130, 10..40, GREEN);
    let params = AutoDetectSliceParams { min_area: 100, sort_order: SortOrder::LeftToRight };

    let frames = slice_auto_detect(&img, &params).unwrap();
    assert_eq!(frames.len(), 2);
    assert_eq!(frames[0].bbox.x, 10);
    assert_eq!(frames[1].bbox.x, 100);
}

#[test]
fn test_auto_detect_filters_small() {
    let _worker = SliceWorker::new("/tmp".to_string());
    let mut img = RgbaImage::new(100, 100);
    fill(&mut img, 0..100, 0..100, CLEAR);
    fill(&mut img, 10..15, 10..15, RED);
    let params = AutoDetectSliceParams { min_area: 100, sort_order: SortOrder::TopToBottom };

    let frames = slice_auto_detect(&img, &params).unwrap();
    assert_eq!(frames.len(), 0);
}

#[test]
fn auto_detect_orders_top_to_bottom_by_row_then_column() {
    let mut img = RgbaImage::new(60, 60);
    fill(&mut img, 40..50, 30..40, RED);
    fill(&mut img, 0..10, 30..40, RED);
    fill(&mut img, 20..30, 0..10, RED);
    let params = AutoDetectSliceParams { min_area: 1, sort_order: SortOrder::TopToBottom };
    let frames = slice_auto_detect(&img, &params).unwrap();
    let xs: Vec<(u32, u32)> = frames.iter().map(|f| (f.bbox.x, f.bbox.y)).collect();
    assert_eq!(xs, vec![(20, 0), (0, 30), (40, 30)]);
    assert_eq!(frames[2].image.width(), 10);
}

#[test]
fn stable_sort_keeps_equal_keys_in_order() {
    let boxes = vec![
        BoundingBox { x: 5, y: 9, w: 1, h: 1 },
        BoundingBox { x: 2, y: 1, w: 1, h: 1 },
        BoundingBox { x: 5, y: 0, w: 1, h: 1 },
        BoundingBox { x: 1, y: 4, w: 1, h: 1 },
    ];
    let sorted = stable_sort_frames(&boxes, SortOrder::LeftToRight);
    let ys: Vec<u32> = sorted.iter().map(|b| b.y).collect();
    assert_eq!(ys, vec![4, 1, 9, 0]);
}

#[test]
fn test_slice_mode_default() {
    assert_eq!(SliceMode::default(), SliceMode::Grid);
}

#[test]
fn test_sort_order_default() {
    assert_eq!(SortOrder::default(), SortOrder::TopToBottom);
}

#[test]
fn test_grid_params_default() {
    let params = GridSliceParams::default();
    assert_eq!(params.rows, 4);
    assert_eq!(params.cols, 4);
    assert_eq!(params.margin, 0);
}

#[test]
fn test_auto_detect_params_default() {
    let params = AutoDetectSliceParams::default();
    assert_eq!(params.min_area, 100);
    assert_eq!(params.sort_order, SortOrder::TopToBottom);
}

#[test]
fn sliced_frame_names_are_zero_padded() {
    assert_eq!(frame_file_name(0), "frame_000.png");
    assert_eq!(frame_file_name(42), "frame_042.png");
    assert_eq!(frame_file_name(1234), "frame_1234.png");
    assert_eq!(SliceMode::AutoDetect.metadata_name(), "autodetect");
}
