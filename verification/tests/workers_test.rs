use artifex::animation::AnimationExportWorker;
use artifex::atlas::AtlasPackWorker;
use artifex::jobs::WorkerCategory;
use artifex::renderer::Renderer3dWorker;
use artifex::sprites::SpriteWorker;
use artifex::workers::{worker_profile, WorkerKind};

#[test]
fn animation_export_worker_test_can_handle() {
    let worker = AnimationExportWorker::new("/tmp/assets".to_string());
    assert!(worker.can_handle("animation_export"));
    assert!(!worker.can_handle("image_generate"));
}

#[test]
fn atlas_pack_worker_test_can_handle() {
    let worker = AtlasPackWorker::new("/tmp/assets".to_string());
    assert!(worker.can_handle("pack_atlas"));
    assert!(!worker.can_handle("sprite_generate"));
    assert!(!worker.can_handle("animation_export"));
}

#[test]
fn renderer_3d_worker_test_can_handle() {
    let worker = Renderer3dWorker::new("/tmp/assets".to_string());
    assert!(worker.can_handle("render_3d"));
    assert!(!worker.can_handle("sprite_generate"));
}

#[test]
fn sprite_worker_test_can_handle() {
    let worker = SpriteWorker::new("/tmp".to_string());
    assert!(worker.can_handle("sprite_generate"));
    assert!(!worker.can_handle("image_generate"));
}

#[test]
fn image_process_worker_test_can_handle() {
    let worker = worker_profile(WorkerKind::ImageProcess);
    assert!(worker.can_handle("image_remove_background"));
    assert!(worker.can_handle("pixel_art_convert"));
    assert!(worker.can_handle("image_inpaint"));
    assert!(worker.can_handle("image_outpaint"));
    assert!(!worker.can_handle("image_generate"));
    assert!(!worker.can_handle("tile_generate"));
}

#[test]
fn code_worker_test_can_handle() {
    let worker = worker_profile(WorkerKind::Code);
    assert!(worker.can_handle("code_generate"));
    assert!(!worker.can_handle("image_generate"));
    assert!(!worker.can_handle("audio_generate"));
}

#[test]
fn material_worker_test_can_handle() {
    let worker = worker_profile(WorkerKind::Material);
    assert!(worker.can_handle("material_generate"));
    assert!(!worker.can_handle("image_generate"));
}

#[test]
fn quick_sprites_worker_test_can_handle() {
    let worker = worker_profile(WorkerKind::QuickSprites);
    assert!(worker.can_handle("quick_sprites"));
    assert!(!worker.can_handle("sprite_generate"));
}

#[test]
fn seamless_texture_worker_test_can_handle() {
    let worker = worker_profile(WorkerKind::SeamlessTexture);
    assert!(worker.can_handle("seamless_texture"));
    assert!(!worker.can_handle("tile_generate"));
}

#[test]
fn tile_worker_test_can_handle() {
    let worker = worker_profile(WorkerKind::Tile);
    assert!(worker.can_handle("tile_generate"));
    assert!(!worker.can_handle("image_generate"));
}

#[test]
fn worker_categories() {
    assert_eq!(worker_profile(WorkerKind::ImageProcess).category, WorkerCategory::CpuIntensive);
    assert_eq!(worker_profile(WorkerKind::Renderer3d).category, WorkerCategory::CpuIntensive);
    assert_eq!(worker_profile(WorkerKind::AudioGen).category, WorkerCategory::Async);
    let audio = worker_profile(WorkerKind::AudioGen);
    assert!(audio.can_handle("audio_generate") && audio.can_handle("tts_synthesize"));
}
