//! The job workers as the runner registers them: the job types each one
//! takes and how its jobs are scheduled, and the audio worker's routing.

use vstd::prelude::*;
use crate::jobs::{WorkerCategory, WorkerProfile, string_texts};
use crate::text::str_eq;

verus! {

/// The workers of the application.
#[derive(Debug, Clone, Copy, PartialEq, Eq, Structural)]
pub enum WorkerKind {
    ImageGen,
    ImageProcess,
    AudioGen,
    Tile,
    SeamlessTexture,
    Material,
    Code,
    AgentCode,
    Sprite,
    Slice,
    AtlasPack,
    AnimationExport,
    QuickSprites,
    Renderer3d,
}

/// The job types a worker takes.
pub open spec fn kind_job_types(k: WorkerKind) -> Seq<Seq<char>> {
    match k {
        WorkerKind::ImageGen => seq!["image_generate"@],
        WorkerKind::ImageProcess => seq![
            "image_remove_background"@,
            "pixel_art_convert"@,
            "image_inpaint"@,
            "image_outpaint"@,
        ],
        WorkerKind::AudioGen => seq!["audio_generate"@, "tts_synthesize"@],
        WorkerKind::Tile => seq!["tile_generate"@],
        WorkerKind::SeamlessTexture => seq!["seamless_texture"@],
        WorkerKind::Material => seq!["material_generate"@],
        WorkerKind::Code => seq!["code_generate"@],
        WorkerKind::AgentCode => seq!["code_agent"@],
        WorkerKind::Sprite => seq!["sprite_generate"@],
        WorkerKind::Slice => seq!["sprite_slice"@],
        WorkerKind::AtlasPack => seq!["pack_atlas"@],
        WorkerKind::AnimationExport => seq!["animation_export"@],
        WorkerKind::QuickSprites => seq!["quick_sprites"@],
        WorkerKind::Renderer3d => seq!["render_3d"@],
    }
}

/// How a worker's jobs are scheduled: image processing and 3D rendering
/// are CPU-bound, the rest wait on remote services or light work.
pub open spec fn kind_category(k: WorkerKind) -> WorkerCategory {
    match k {
        WorkerKind::ImageProcess | WorkerKind::Renderer3d => WorkerCategory::CpuIntensive,
        _ => WorkerCategory::Async,
    }
}

fn strings(items: Vec<&str>) -> (r: Vec<String>)
    ensures
        string_texts(r@) == items@.map_values(|s: &str| s@),
{
    let mut r: Vec<String> = Vec::new();
    let mut i: usize = 0;
    while i < items.len()
        invariant
            i <= items.len(),
            r@.len() == i,
            forall|j: int| 0 <= j < i ==> #[trigger] r@[j]@ == items@[j]@,
        decreases items.len() - i,
    {
        r.push(String::from_str(items[i]));
        i = i + 1;
    }
    assert(string_texts(r@) =~= items@.map_values(|s: &str| s@));
    r
}

/// The runner's view of a worker.
pub fn worker_profile(kind: WorkerKind) -> (p: WorkerProfile)
    ensures
        string_texts(p.job_types@) == kind_job_types(kind),
        p.category == kind_category(kind),
{
    let types: Vec<&str> = match kind {
        WorkerKind::ImageGen => vec!["image_generate"],
        WorkerKind::ImageProcess => vec!["image_remove_background", "pixel_art_convert", "image_inpaint", "image_outpaint"],
        WorkerKind::AudioGen => vec!["audio_generate", "tts_synthesize"],
        WorkerKind::Tile => vec!["tile_generate"],
        WorkerKind::SeamlessTexture => vec!["seamless_texture"],
        WorkerKind::Material => vec!["material_generate"],
        WorkerKind::Code => vec!["code_generate"],
        WorkerKind::AgentCode => vec!["code_agent"],
        WorkerKind::Sprite => vec!["sprite_generate"],
        WorkerKind::Slice => vec!["sprite_slice"],
        WorkerKind::AtlasPack => vec!["pack_atlas"],
        WorkerKind::AnimationExport => vec!["animation_export"],
        WorkerKind::QuickSprites => vec!["quick_sprites"],
        WorkerKind::Renderer3d => vec!["render_3d"],
    };
    let job_types = strings(types);
    proof {
        assert(string_texts(job_types@) =~= kind_job_types(kind));
    }
    let category = match kind {
        WorkerKind::ImageProcess | WorkerKind::Renderer3d => WorkerCategory::CpuIntensive,
        _ => WorkerCategory::Async,
    };
    WorkerProfile { job_types, category }
}

/// The routing key of an audio generation job: music, or sound effects for
/// any other kind.
pub fn determine_audio_operation(kind: &Option<String>) -> (r: &'static str)
    ensures
        (kind matches Some(k) && k@ == "music"@) ==> r@ == "audiogen.music"@,
        !(kind matches Some(k) && k@ == "music"@) ==> r@ == "audiogen.sfx"@,
{
    match kind {
        Some(k) => if str_eq(k.as_str(), "music") {
            "audiogen.music"
        } else {
            "audiogen.sfx"
        },
        None => "audiogen.sfx",
    }
}

/// Where generated audio is saved (a subdirectory) and its extension.
pub fn audio_output(kind: &Option<String>) -> (r: (&'static str, &'static str))
    ensures
        (kind matches Some(k) && k@ == "music"@) ==> r.0@ == "music"@ && r.1@ == "mp3"@,
        !(kind matches Some(k) && k@ == "music"@) ==> r.0@ == "audio"@ && r.1@ == "mp3"@,
{
    match kind {
        Some(k) => if str_eq(k.as_str(), "music") {
            ("music", "mp3")
        } else {
            ("audio", "mp3")
        },
        None => ("audio", "mp3"),
    }
}

/// The operations of the image-processing worker.
#[derive(Debug, Clone, Copy, PartialEq, Eq, Structural)]
pub enum ImageOperation {
    RemoveBackground,
    PixelArt,
    Inpaint,
    Outpaint,
}

/// The operation of an image-processing job type, or the refusal's message.
pub open spec fn image_operation_of(t: Seq<char>) -> Result<ImageOperation, Seq<char>> {
    if t == "image_remove_background"@ {
        Ok(ImageOperation::RemoveBackground)
    } else if t == "pixel_art_convert"@ {
        Ok(ImageOperation::PixelArt)
    } else if t == "image_inpaint"@ {
        Ok(ImageOperation::Inpaint)
    } else if t == "image_outpaint"@ {
        Ok(ImageOperation::Outpaint)
    } else {
        Err("Unknown job type for ImageProcessWorker: "@ + t)
    }
}

/// The operation an image-processing job asks for, by its job type; any
/// other type is refused as a bad request.
pub fn image_process_operation(job_type: &str) -> (r: Result<ImageOperation, String>)
    ensures
        match r {
            Ok(op) => image_operation_of(job_type@) == Ok::<ImageOperation, Seq<char>>(op),
            Err(m) => image_operation_of(job_type@) == Err::<ImageOperation, Seq<char>>(m@),
        },
{
    if str_eq(job_type, "image_remove_background") {
        Ok(ImageOperation::RemoveBackground)
    } else if str_eq(job_type, "pixel_art_convert") {
        Ok(ImageOperation::PixelArt)
    } else if str_eq(job_type, "image_inpaint") {
        Ok(ImageOperation::Inpaint)
    } else if str_eq(job_type, "image_outpaint") {
        Ok(ImageOperation::Outpaint)
    } else {
        let mut m = String::from_str("Unknown job type for ImageProcessWorker: ");
        m.append(job_type);
        Err(m)
    }
}

} // verus!
