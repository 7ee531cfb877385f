use std::path::Path;

use artifex::sprites::{OutputFormat, SpriteWorker};

/// Helper to check if a format is supported (mirrors the command validation).
fn is_format_supported(path: &Path) -> bool {
    if let Some(ext) = path.extension() {
        let ext_lower = ext.to_string_lossy().to_lowercase();
        matches!(ext_lower.as_str(), "mp4" | "gif" | "webm")
    } else {
        false
    }
}

#[test]
fn test_supported_video_format_check() {
    let supported_paths = vec![Path::new("/tmp/video.mp4"), Path::new("/tmp/anim.gif"), Path::new("/tmp/clip.webm")];
    for path in supported_paths {
        assert!(is_format_supported(path), "Format {:?} should be supported", path.extension());
    }
}

#[test]
fn test_unsupported_video_format_check() {
    let unsupported_paths = vec![
        Path::new("/tmp/video.avi"),
        Path::new("/tmp/movie.mov"),
        Path::new("/tmp/clip.mkv"),
        Path::new("/tmp/anim.wmv"),
        Path::new("/tmp/video.flv"),
    ];
    for path in unsupported_paths {
        assert!(!is_format_supported(path), "Format {:?} should NOT be supported", path.extension());
    }
}

#[test]
fn test_no_extension_detection() {
    let path = Path::new("/tmp/video_without_extension");
    assert!(!is_format_supported(path));
}

#[test]
fn sprite_worker_test_test_output_format_default() {
    assert_eq!(OutputFormat::default(), OutputFormat::Both);
}

#[test]
fn test_sprite_worker_can_handle() {
    let worker = SpriteWorker::new("/tmp".to_string());
    assert!(worker.can_handle("sprite_generate"));
    assert!(!worker.can_handle("image_generate"));
    assert!(!worker.can_handle("tile_generate"));
    assert!(!worker.can_handle("audio_generate"));
}
