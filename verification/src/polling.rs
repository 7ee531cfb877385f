//! Queued generations at the remote providers: a job is submitted, then its
//! status is polled at a fixed interval until it is done, has failed, or the
//! attempts run out. The requests and the sleeping happen elsewhere; this
//! module decides what each status reply means and what comes back.

use vstd::prelude::*;
use crate::providers::{error_text, auth_failed, rate_limited, http_error, ProviderError, ProviderErrorText};
use crate::text::{decimal, decimal_string, str_eq};

verus! {

/// The polled generations, each with its own attempt budget.
#[derive(Debug, Clone, Copy, PartialEq, Eq)]
pub enum PollKind {
    ReplicateImage,
    ReplicateVideo,
    FalImage,
    FalVideo,
    KieImage,
}

/// How often and how long a generation is polled.
#[derive(Debug, Clone, Copy, PartialEq, Eq)]
pub struct PollPlan {
    /// Status requests made before giving up.
    pub max_attempts: u32,
    /// Seconds slept after a reply that says the job is still running.
    pub delay_secs: u64,
}

/// Videos take longer: more attempts, further apart.
pub open spec fn is_video(kind: PollKind) -> bool {
    kind is ReplicateVideo || kind is FalVideo
}

/// The provider's name as it appears in errors.
pub open spec fn poll_provider(kind: PollKind) -> Seq<char> {
    match kind {
        PollKind::ReplicateImage | PollKind::ReplicateVideo => "replicate"@,
        PollKind::FalImage | PollKind::FalVideo => "fal"@,
        PollKind::KieImage => "kie"@,
    }
}

/// The message given when the attempts run out.
pub open spec fn timeout_message(kind: PollKind) -> Seq<char> {
    match kind {
        PollKind::ReplicateImage => "Prediction timed out after maximum polling attempts"@,
        PollKind::FalImage => "Request timed out after maximum polling attempts"@,
        PollKind::KieImage => "Generation timed out after maximum polling attempts"@,
        PollKind::ReplicateVideo | PollKind::FalVideo => "Video generation timed out after maximum polling attempts"@,
    }
}

/// The attempt budget: 60 polls two seconds apart for images, 90 polls three
/// seconds apart for videos.
pub fn poll_plan(kind: PollKind) -> (p: PollPlan)
    ensures
        p.max_attempts == (if is_video(kind) { 90u32 } else { 60u32 }),
        p.delay_secs == (if is_video(kind) { 3u64 } else { 2u64 }),
{
    match kind {
        PollKind::ReplicateVideo | PollKind::FalVideo => PollPlan { max_attempts: 90, delay_secs: 3 },
        _ => PollPlan { max_attempts: 60, delay_secs: 2 },
    }
}

/// The error returned once every attempt came back still running.
pub fn poll_timeout(kind: PollKind) -> (e: ProviderError)
    ensures
        error_text(e) == (ProviderErrorText::Timeout { provider: poll_provider(kind), message: timeout_message(kind) }),
{
    let (provider, message) = match kind {
        PollKind::ReplicateImage => ("replicate", "Prediction timed out after maximum polling attempts"),
        PollKind::ReplicateVideo => ("replicate", "Video generation timed out after maximum polling attempts"),
        PollKind::FalImage => ("fal", "Request timed out after maximum polling attempts"),
        PollKind::FalVideo => ("fal", "Video generation timed out after maximum polling attempts"),
        PollKind::KieImage => ("kie", "Generation timed out after maximum polling attempts"),
    };
    ProviderError::Timeout { provider: String::from_str(provider), message: String::from_str(message) }
}

/// What one status reply means.
#[derive(Debug, PartialEq, Eq)]
pub enum PollStep {
    /// The job is done; its result can be fetched.
    Ready,
    /// Still running: sleep and poll again.
    Pending,
    /// The job ended without a result.
    Failed(ProviderError),
}

/// `r` is a failure whose texts are `t`.
pub open spec fn fails_with(r: PollStep, t: ProviderErrorText) -> bool {
    r matches PollStep::Failed(e) && error_text(e) == t
}

/// The provider's own message, or `default` when it sent none.
pub open spec fn message_or(m: Option<String>, default: Seq<char>) -> Seq<char> {
    match m {
        Some(s) => s@,
        None => default,
    }
}

fn failed(provider: &str, message: Option<String>, default: &str) -> (r: PollStep)
    ensures
        fails_with(r, ProviderErrorText::ProviderSpecific(provider@, message_or(message, default@))),
{
    let m = match message {
        Some(s) => s,
        None => String::from_str(default),
    };
    PollStep::Failed(ProviderError::ProviderSpecific(String::from_str(provider), m))
}

/// Reads a Replicate prediction status: `succeeded`, `failed` (with the
/// prediction's error, if any) and `canceled` end the polling; anything
/// else means it is still running.
pub fn replicate_poll_step(status: &str, error: Option<String>) -> (r: PollStep)
    ensures
        if status@ == "succeeded"@ {
            r is Ready
        } else if status@ == "failed"@ {
            fails_with(r, ProviderErrorText::ProviderSpecific("replicate"@, message_or(error, "Prediction failed"@)))
        } else if status@ == "canceled"@ {
            fails_with(r, ProviderErrorText::ProviderSpecific("replicate"@, "Prediction was canceled"@))
        } else {
            r is Pending
        },
{
    if str_eq(status, "succeeded") {
        PollStep::Ready
    } else if str_eq(status, "failed") {
        failed("replicate", error, "Prediction failed")
    } else if str_eq(status, "canceled") {
        failed("replicate", None, "Prediction was canceled")
    } else {
        PollStep::Pending
    }
}

/// Reads a Fal queue status: `COMPLETED`, `FAILED` (with the request's error,
/// if any) and `CANCELLED` end the polling; anything else means it is still
/// queued or running.
pub fn fal_poll_step(status: &str, error: Option<String>) -> (r: PollStep)
    ensures
        if status@ == "COMPLETED"@ {
            r is Ready
        } else if status@ == "FAILED"@ {
            fails_with(r, ProviderErrorText::ProviderSpecific("fal"@, message_or(error, "Request failed"@)))
        } else if status@ == "CANCELLED"@ {
            fails_with(r, ProviderErrorText::ProviderSpecific("fal"@, "Request was cancelled"@))
        } else {
            r is Pending
        },
{
    if str_eq(status, "COMPLETED") {
        PollStep::Ready
    } else if str_eq(status, "FAILED") {
        failed("fal", error, "Request failed")
    } else if str_eq(status, "CANCELLED") {
        failed("fal", None, "Request was cancelled")
    } else {
        PollStep::Pending
    }
}

/// What one Kie status reply means; a finished job carries its image URL.
#[derive(Debug, PartialEq, Eq)]
pub enum KieStep {
    Ready(String),
    Pending,
    Failed(ProviderError),
}

/// `r` holds an error whose texts are `t`.
pub open spec fn some_error(r: Option<ProviderError>, t: ProviderErrorText) -> bool {
    r matches Some(e) && error_text(e) == t
}

/// `r` is a Kie failure whose texts are `t`.
pub open spec fn kie_fails_with(r: KieStep, t: ProviderErrorText) -> bool {
    r matches KieStep::Failed(e) && error_text(e) == t
}

/// The error for a Kie reply whose HTTP status refuses the key (401, 403) or
/// asks to slow down (429); `None` for any other status.
pub fn kie_access_error(status: u16) -> (r: Option<ProviderError>)
    ensures
        status == 401 || status == 403 ==> some_error(r, ProviderErrorText::AuthFailed {
            provider: "kie"@,
            message: "Invalid or missing API key"@,
        }),
        status == 429 ==> some_error(r, ProviderErrorText::RateLimited { provider: "kie"@, retry_after_secs: None }),
        status != 401 && status != 403 && status != 429 ==> r is None,
{
    if status == 401 || status == 403 {
        Some(auth_failed("kie", "Invalid or missing API key"))
    } else if status == 429 {
        Some(rate_limited("kie"))
    } else {
        None
    }
}

/// The error for any other unsuccessful reply to a Kie submission.
pub fn kie_http_error(status: u16, body: &str) -> (e: ProviderError)
    ensures
        error_text(e) == ProviderErrorText::ProviderSpecific("kie"@, crate::providers::http_message(status, body@)),
{
    http_error("kie", status, body)
}

/// Reads Kie's `successFlag`: 0 still running, 1 done (the reply must then
/// carry the image URL), 2 and 3 failed (with Kie's message, if any); any
/// other value is an error that names it.
pub fn kie_poll_step(success_flag: u32, image_url: Option<String>, error_message: Option<String>) -> (r: KieStep)
    ensures
        success_flag == 0 ==> r is Pending,
        success_flag == 1 ==> match image_url {
            Some(u) => (r matches KieStep::Ready(v) && v@ == u@),
            None => kie_fails_with(r, ProviderErrorText::ProviderSpecific("kie"@, "No image URL in successful response"@)),
        },
        success_flag == 2 || success_flag == 3 ==> kie_fails_with(
            r,
            ProviderErrorText::ProviderSpecific("kie"@, message_or(error_message, "Generation failed"@)),
        ),
        success_flag > 3 ==> kie_fails_with(
            r,
            ProviderErrorText::ProviderSpecific("kie"@, "Unknown successFlag: "@ + decimal(success_flag as nat)),
        ),
{
    if success_flag == 0 {
        KieStep::Pending
    } else if success_flag == 1 {
        match image_url {
            Some(u) => KieStep::Ready(u),
            None => KieStep::Failed(ProviderError::ProviderSpecific(
                String::from_str("kie"),
                String::from_str("No image URL in successful response"),
            )),
        }
    } else if success_flag == 2 || success_flag == 3 {
        let m = match error_message {
            Some(s) => s,
            None => String::from_str("Generation failed"),
        };
        KieStep::Failed(ProviderError::ProviderSpecific(String::from_str("kie"), m))
    } else {
        let mut m = String::from_str("Unknown successFlag: ");
        m.append(decimal_string(success_flag as u64).as_str());
        KieStep::Failed(ProviderError::ProviderSpecific(String::from_str("kie"), m))
    }
}

/// The provider endpoints whose model can be chosen by routing.
#[derive(Debug, Clone, Copy, PartialEq, Eq)]
pub enum ModelRoute {
    FalImage,
    FalInpaint,
    FalVideo,
    ReplicateImage,
    ReplicateVideo,
}

/// The model used when routing chose none.
pub open spec fn default_model(route: ModelRoute) -> Seq<char> {
    match route {
        ModelRoute::FalImage => "fal-ai/flux-dev"@,
        ModelRoute::FalInpaint => "fal-ai/flux-fill-dev"@,
        ModelRoute::FalVideo => "fal-ai/kling-video"@,
        ModelRoute::ReplicateImage => "stability-ai/sdxl:39ed52f2a78e934b3ba6e2a89f5b1c712de7dfea535525255b1aa35c5565e08b"@,
        ModelRoute::ReplicateVideo => "minimax/minimax-hyper-svd-video-256w"@,
    }
}

/// The model a request goes to: the routed one, else the endpoint's default.
pub fn routed_model(route: ModelRoute, model_id: Option<String>) -> (m: String)
    ensures
        m@ == message_or(model_id, default_model(route)),
{
    match model_id {
        Some(id) => id,
        None => {
            let d = match route {
                ModelRoute::FalImage => "fal-ai/flux-dev",
                ModelRoute::FalInpaint => "fal-ai/flux-fill-dev",
                ModelRoute::FalVideo => "fal-ai/kling-video",
                ModelRoute::ReplicateImage => "stability-ai/sdxl:39ed52f2a78e934b3ba6e2a89f5b1c712de7dfea535525255b1aa35c5565e08b",
                ModelRoute::ReplicateVideo => "minimax/minimax-hyper-svd-video-256w",
            };
            String::from_str(d)
        },
    }
}

/// The URL of the first image of a finished Fal request.
pub fn fal_image_url(urls: &Vec<String>) -> (r: Result<String, ProviderError>)
    ensures
        urls.len() > 0 ==> (r matches Ok(u) && u@ == urls@[0]@),
        urls.len() == 0 ==> (r matches Err(e) && error_text(e)
            == ProviderErrorText::ProviderSpecific("fal"@, "No images in response"@)),
{
    if urls.len() > 0 {
        Ok(urls[0].clone())
    } else {
        Err(ProviderError::ProviderSpecific(String::from_str("fal"), String::from_str("No images in response")))
    }
}

/// The URL of the video of a finished Fal request.
pub fn fal_video_url(url: Option<String>) -> (r: Result<String, ProviderError>)
    ensures
        url matches Some(u) ==> (r matches Ok(v) && v@ == u@),
        url is None ==> (r matches Err(e) && error_text(e)
            == ProviderErrorText::ProviderSpecific("fal"@, "No video in response"@)),
{
    match url {
        Some(u) => Ok(u),
        None => Err(ProviderError::ProviderSpecific(String::from_str("fal"), String::from_str("No video in response"))),
    }
}

/// The shape of a finished Replicate prediction's `output`.
#[derive(Debug, PartialEq, Eq)]
pub enum ReplicateOutput {
    /// No output at all.
    Missing,
    /// A list; each element is `Some` where it is a string.
    List(Vec<Option<String>>),
    /// A single string.
    Text(String),
    /// Anything else.
    Other,
}

/// `r` is an error naming Replicate with message `m`.
pub open spec fn replicate_fails(r: Result<String, ProviderError>, m: Seq<char>) -> bool {
    r matches Err(e) && error_text(e) == ProviderErrorText::ProviderSpecific("replicate"@, m)
}

/// The URL of a finished Replicate prediction's result: the output string,
/// or the first element of an output list, which must be a string.
pub fn replicate_output_url(output: ReplicateOutput) -> (r: Result<String, ProviderError>)
    ensures
        match output {
            ReplicateOutput::Missing => replicate_fails(r, "No output in prediction response"@),
            ReplicateOutput::List(items) => if items.len() > 0 && items@[0] is Some {
                r matches Ok(u) && u@ == items@[0]->0@
            } else {
                replicate_fails(r, "Output array element is not a string"@)
            },
            ReplicateOutput::Text(s) => (r matches Ok(u) && u@ == s@),
            ReplicateOutput::Other => replicate_fails(r, "Output is not a valid URL string or array"@),
        },
{
    let msg = match output {
        ReplicateOutput::Missing => "No output in prediction response",
        ReplicateOutput::List(items) => {
            if items.len() > 0 {
                if let Some(s) = &items[0] {
                    return Ok(s.clone());
                }
            }
            "Output array element is not a string"
        },
        ReplicateOutput::Text(s) => {
            return Ok(s);
        },
        ReplicateOutput::Other => "Output is not a valid URL string or array",
    };
    Err(ProviderError::ProviderSpecific(String::from_str("replicate"), String::from_str(msg)))
}

/// Kie's `aspect_ratio` for a requested size: the named ratios of the sizes
/// it knows, else `width:height` as given.
pub open spec fn kie_ratio(width: u32, height: u32) -> Seq<char> {
    if (width == 1024 && height == 1024) || (width == 512 && height == 512) {
        "1:1"@
    } else if width == 768 && height == 1024 {
        "3:4"@
    } else if width == 1024 && height == 768 {
        "4:3"@
    } else if width == 640 && height == 1536 {
        "5:12"@
    } else if width == 1536 && height == 640 {
        "12:5"@
    } else if width == 640 && height == 1280 {
        "1:2"@
    } else if width == 1280 && height == 640 {
        "2:1"@
    } else {
        decimal(width as nat) + ":"@ + decimal(height as nat)
    }
}

/// The aspect ratio sent to Kie for a requested size.
pub fn kie_aspect_ratio(width: u32, height: u32) -> (r: String)
    ensures
        r@ == kie_ratio(width, height),
{
    let named = if (width == 1024 && height == 1024) || (width == 512 && height == 512) {
        "1:1"
    } else if width == 768 && height == 1024 {
        "3:4"
    } else if width == 1024 && height == 768 {
        "4:3"
    } else if width == 640 && height == 1536 {
        "5:12"
    } else if width == 1536 && height == 640 {
        "12:5"
    } else if width == 640 && height == 1280 {
        "1:2"
    } else if width == 1280 && height == 640 {
        "2:1"
    } else {
        let mut s = decimal_string(width as u64);
        s.append(":");
        s.append(decimal_string(height as u64).as_str());
        return s;
    };
    String::from_str(named)
}

/// The texture maps of a generated material, in the order Fal returns them.
#[derive(Debug, Clone, Copy, PartialEq, Eq)]
pub enum MapKind {
    Basecolor,
    Normal,
    Roughness,
    Metalness,
    Height,
}

/// The map kind at position `i` of Fal's material reply.
pub open spec fn map_kind_at(i: int) -> MapKind {
    if i == 0 {
        MapKind::Basecolor
    } else if i == 1 {
        MapKind::Normal
    } else if i == 2 {
        MapKind::Roughness
    } else if i == 3 {
        MapKind::Metalness
    } else {
        MapKind::Height
    }
}

fn map_kind(i: usize) -> (k: MapKind)
    ensures
        k == map_kind_at(i as int),
{
    if i == 0 {
        MapKind::Basecolor
    } else if i == 1 {
        MapKind::Normal
    } else if i == 2 {
        MapKind::Roughness
    } else if i == 3 {
        MapKind::Metalness
    } else {
        MapKind::Height
    }
}

/// Pairs the image URLs of a finished material request with the maps they
/// hold: the first five, in order; images past the fifth are ignored. A reply
/// with no image is an error.
pub fn material_map_urls(urls: &Vec<String>) -> (r: Result<Vec<(MapKind, String)>, ProviderError>)
    ensures
        urls.len() == 0 ==> (r matches Err(e) && error_text(e)
            == ProviderErrorText::ProviderSpecific("fal"@, "No material maps returned from PATINA"@)),
        urls.len() > 0 ==> (r matches Ok(maps) && maps.len() == (if urls.len() < 5 { urls.len() as int } else { 5 })
            && forall|i: int| 0 <= i < maps.len() ==> #[trigger] maps@[i].0 == map_kind_at(i) && maps@[i].1@ == urls@[i]@),
{
    if urls.len() == 0 {
        return Err(ProviderError::ProviderSpecific(
            String::from_str("fal"),
            String::from_str("No material maps returned from PATINA"),
        ));
    }
    let mut maps: Vec<(MapKind, String)> = Vec::new();
    let mut i: usize = 0;
    while i < urls.len() && i < 5
        invariant
            i <= urls.len(),
            i <= 5,
            maps.len() == i,
            forall|j: int| 0 <= j < i ==> #[trigger] maps@[j].0 == map_kind_at(j) && maps@[j].1@ == urls@[j]@,
        decreases urls.len() - i,
    {
        maps.push((map_kind(i), urls[i].clone()));
        i = i + 1;
    }
    Ok(maps)
}

} // verus!
