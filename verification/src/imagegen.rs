//! Image generation requests: parameter validation and results.

use vstd::prelude::*;

verus! {

/// Parameters for image generation.
#[derive(Debug)]
pub struct ImageGenParams {
    /// The prompt describing the image to generate.
    pub prompt: String,
    /// Optional negative prompt (things to avoid).
    pub negative_prompt: Option<String>,
    /// Image width in pixels.
    pub width: u32,
    /// Image height in pixels.
    pub height: u32,
    /// Number of inference steps.
    pub steps: u32,
    /// Optional seed for reproducibility.
    pub seed: Option<u64>,
    /// Number of images to generate.
    pub num_images: u32,
    /// Model identifier chosen by routing; each provider has its own default.
    pub model_id: Option<String>,
}

/// The verdict on a set of parameters: the first rule broken, if any.
pub open spec fn params_error(prompt: Seq<char>, width: u32, height: u32, steps: u32) -> Option<Seq<char>> {
    if prompt.len() == 0 {
        Some("Prompt cannot be empty"@)
    } else if width == 0 || height == 0 {
        Some("Width and height must be non-zero"@)
    } else if width > 4096 || height > 4096 {
        Some("Width and height must be at most 4096"@)
    } else if steps == 0 || steps > 500 {
        Some("Steps must be between 1 and 500"@)
    } else {
        None
    }
}

impl ImageGenParams {
    /// Validates the image generation parameters: a non-empty prompt, both
    /// dimensions between 1 and 4096, and 1 to 500 steps.
    pub fn validate(&self) -> (r: Result<(), String>)
        ensures
            r is Ok <==> params_error(self.prompt@, self.width, self.height, self.steps) is None,
            r matches Err(e) ==> params_error(self.prompt@, self.width, self.height, self.steps) == Some(e@),
    {
        if self.prompt.as_str().is_empty() {
            return Err(String::from_str("Prompt cannot be empty"));
        }
        if self.width == 0 || self.height == 0 {
            return Err(String::from_str("Width and height must be non-zero"));
        }
        if self.width > 4096 || self.height > 4096 {
            return Err(String::from_str("Width and height must be at most 4096"));
        }
        if self.steps == 0 || self.steps > 500 {
            return Err(String::from_str("Steps must be between 1 and 500"));
        }
        Ok(())
    }
}

/// Result of image generation.
#[derive(Debug)]
pub struct ImageGenResult {
    /// Raw image data (e.g., PNG bytes).
    pub image_data: Vec<u8>,
    /// Image width in pixels.
    pub width: u32,
    /// Image height in pixels.
    pub height: u32,
    /// Image format (e.g., "png", "jpeg", "webp").
    pub format: String,
}

impl ImageGenResult {
    /// Creates a new ImageGenResult.
    pub fn new(image_data: Vec<u8>, width: u32, height: u32, format: String) -> (r: ImageGenResult)
        ensures
            r.image_data@ == image_data@,
            r.width == width,
            r.height == height,
            r.format@ == format@,
    {
        ImageGenResult { image_data, width, height, format }
    }
}

} // verus!
