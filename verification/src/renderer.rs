//! 3D-model-to-sprite rendering jobs: the worker, the payload defaults and
//! the choice of model loader and camera preset.

use vstd::prelude::*;
use crate::text::{lowercase, str_eq, to_lowercase};

verus! {

/// Default width of rendered frames.
pub fn default_output_width() -> (w: u32)
    ensures
        w == 256,
{
    256
}

/// Default height of rendered frames.
pub fn default_output_height() -> (h: u32)
    ensures
        h == 256,
{
    256
}

/// Default frame rate of rendered animations.
pub fn default_animation_fps() -> (f: u32)
    ensures
        f == 12,
{
    12
}

/// Worker rendering 3D models into sprite sheets.
pub struct Renderer3dWorker {
    pub assets_dir: String,
}

impl Renderer3dWorker {
    /// Creates a new Renderer3dWorker.
    pub fn new(assets_dir: String) -> (w: Renderer3dWorker)
        ensures
            w.assets_dir == assets_dir,
    {
        Renderer3dWorker { assets_dir }
    }

    /// Returns true for 3D render jobs.
    pub fn can_handle(&self, job_type: &str) -> (r: bool)
        ensures
            r == (job_type@ == "render_3d"@),
    {
        str_eq(job_type, "render_3d")
    }
}

/// How a model file is loaded.
#[derive(Debug, Clone, Copy, PartialEq, Eq, Structural)]
pub enum ModelFormat {
    /// glTF, text or binary.
    Gltf,
    /// Wavefront OBJ.
    Obj,
}

/// Chooses the loader from the model file's extension, compared without
/// regard to case.
pub fn model_format(extension: &str) -> (r: Result<ModelFormat, String>)
    ensures
        ({
            let e = lowercase(extension@);
            &&& (e == "gltf"@ || e == "glb"@) ==> r == Ok::<ModelFormat, String>(ModelFormat::Gltf)
            &&& e == "obj"@ ==> r == Ok::<ModelFormat, String>(ModelFormat::Obj)
            &&& (e != "gltf"@ && e != "glb"@ && e != "obj"@) ==> (r matches Err(m) && m@
                == "Unsupported model format: "@ + e + " (supported: gltf, glb, obj)"@)
        }),
{
    proof {
        reveal_strlit("gltf");
        reveal_strlit("glb");
        reveal_strlit("obj");
        assert("obj"@[0] != "gltf"@[0]);
        assert("obj"@[0] != "glb"@[0]);
    }
    let e = to_lowercase(extension);
    if str_eq(e.as_str(), "gltf") || str_eq(e.as_str(), "glb") {
        Ok(ModelFormat::Gltf)
    } else if str_eq(e.as_str(), "obj") {
        Ok(ModelFormat::Obj)
    } else {
        let mut m = String::from_str("Unsupported model format: ");
        m.append(e.as_str());
        m.append(" (supported: gltf, glb, obj)");
        Err(m)
    }
}

/// The camera setups a render job may ask for.
#[derive(Debug, Clone, Copy, PartialEq, Eq, Structural)]
pub enum CameraPreset {
    /// Eight views around the model at the isometric pitch.
    Isometric,
    /// Four views from straight above.
    TopDown,
    /// The angles given in the job.
    Custom,
}

/// Reads the job's camera preset name.
pub fn camera_preset(name: &str) -> (r: Result<CameraPreset, String>)
    ensures
        name@ == "isometric"@ ==> r == Ok::<CameraPreset, String>(CameraPreset::Isometric),
        name@ == "topdown"@ ==> r == Ok::<CameraPreset, String>(CameraPreset::TopDown),
        name@ == "custom"@ ==> r == Ok::<CameraPreset, String>(CameraPreset::Custom),
        (name@ != "isometric"@ && name@ != "topdown"@ && name@ != "custom"@) ==> (r matches Err(m) && m@
            == "Invalid camera preset: "@ + name@ + " (valid: isometric, topdown, custom)"@),
{
    proof {
        reveal_strlit("isometric");
        reveal_strlit("topdown");
        reveal_strlit("custom");
        assert("topdown"@.len() != "isometric"@.len());
        assert("custom"@.len() != "isometric"@.len());
        assert("custom"@[0] != "topdown"@[0]);
    }
    if str_eq(name, "isometric") {
        Ok(CameraPreset::Isometric)
    } else if str_eq(name, "topdown") {
        Ok(CameraPreset::TopDown)
    } else if str_eq(name, "custom") {
        Ok(CameraPreset::Custom)
    } else {
        let mut m = String::from_str("Invalid camera preset: ");
        m.append(name);
        m.append(" (valid: isometric, topdown, custom)");
        Err(m)
    }
}

} // verus!
