use artifex::polling::{
    fal_image_url, fal_poll_step, fal_video_url, kie_access_error, kie_aspect_ratio, kie_http_error, kie_poll_step,
    material_map_urls, poll_plan, poll_timeout, replicate_output_url, replicate_poll_step, routed_model, KieStep,
    MapKind, ModelRoute, PollKind, PollPlan, PollStep, ReplicateOutput,
};
use artifex::providers::ProviderError;

fn specific(provider: &str, message: &str) -> ProviderError {
    ProviderError::ProviderSpecific(provider.to_string(), message.to_string())
}

#[test]
fn test_poll_plans() {
    assert_eq!(poll_plan(PollKind::ReplicateImage), PollPlan { max_attempts: 60, delay_secs: 2 });
    assert_eq!(poll_plan(PollKind::FalImage), PollPlan { max_attempts: 60, delay_secs: 2 });
    assert_eq!(poll_plan(PollKind::KieImage), PollPlan { max_attempts: 60, delay_secs: 2 });
    assert_eq!(poll_plan(PollKind::ReplicateVideo), PollPlan { max_attempts: 90, delay_secs: 3 });
    assert_eq!(poll_plan(PollKind::FalVideo), PollPlan { max_attempts: 90, delay_secs: 3 });
}

#[test]
fn test_poll_timeouts() {
    assert_eq!(
        poll_timeout(PollKind::ReplicateImage),
        ProviderError::Timeout {
            provider: "replicate".to_string(),
            message: "Prediction timed out after maximum polling attempts".to_string()
        }
    );
    assert_eq!(
        poll_timeout(PollKind::FalVideo),
        ProviderError::Timeout {
            provider: "fal".to_string(),
            message: "Video generation timed out after maximum polling attempts".to_string()
        }
    );
    assert_eq!(
        poll_timeout(PollKind::KieImage),
        ProviderError::Timeout {
            provider: "kie".to_string(),
            message: "Generation timed out after maximum polling attempts".to_string()
        }
    );
}

#[test]
fn test_replicate_poll_step() {
    assert_eq!(replicate_poll_step("succeeded", None), PollStep::Ready);
    assert_eq!(replicate_poll_step("starting", None), PollStep::Pending);
    assert_eq!(replicate_poll_step("processing", Some("x".to_string())), PollStep::Pending);
    assert_eq!(replicate_poll_step("failed", None), PollStep::Failed(specific("replicate", "Prediction failed")));
    assert_eq!(
        replicate_poll_step("failed", Some("NSFW content".to_string())),
        PollStep::Failed(specific("replicate", "NSFW content"))
    );
    assert_eq!(replicate_poll_step("canceled", None), PollStep::Failed(specific("replicate", "Prediction was canceled")));
}

#[test]
fn test_fal_poll_step() {
    assert_eq!(fal_poll_step("COMPLETED", None), PollStep::Ready);
    assert_eq!(fal_poll_step("IN_QUEUE", None), PollStep::Pending);
    assert_eq!(fal_poll_step("completed", None), PollStep::Pending);
    assert_eq!(fal_poll_step("FAILED", None), PollStep::Failed(specific("fal", "Request failed")));
    assert_eq!(fal_poll_step("FAILED", Some("boom".to_string())), PollStep::Failed(specific("fal", "boom")));
    assert_eq!(fal_poll_step("CANCELLED", None), PollStep::Failed(specific("fal", "Request was cancelled")));
}

#[test]
fn test_kie_poll_step() {
    assert_eq!(kie_poll_step(0, None, None), KieStep::Pending);
    assert_eq!(kie_poll_step(1, Some("https://x/y.png".to_string()), None), KieStep::Ready("https://x/y.png".to_string()));
    assert_eq!(kie_poll_step(1, None, None), KieStep::Failed(specific("kie", "No image URL in successful response")));
    assert_eq!(kie_poll_step(2, None, None), KieStep::Failed(specific("kie", "Generation failed")));
    assert_eq!(kie_poll_step(3, None, Some("bad prompt".to_string())), KieStep::Failed(specific("kie", "bad prompt")));
    assert_eq!(kie_poll_step(7, None, None), KieStep::Failed(specific("kie", "Unknown successFlag: 7")));
}

#[test]
fn test_kie_status_errors() {
    assert_eq!(
        kie_access_error(401),
        Some(ProviderError::AuthFailed { provider: "kie".to_string(), message: "Invalid or missing API key".to_string() })
    );
    assert!(matches!(kie_access_error(403), Some(ProviderError::AuthFailed { .. })));
    assert_eq!(
        kie_access_error(429),
        Some(ProviderError::RateLimited { provider: "kie".to_string(), retry_after_secs: None })
    );
    assert_eq!(kie_access_error(200), None);
    assert_eq!(kie_access_error(500), None);
    assert_eq!(kie_http_error(500, "down"), specific("kie", "HTTP 500: down"));
}

#[test]
fn test_kie_aspect_ratio() {
    assert_eq!(kie_aspect_ratio(1024, 1024), "1:1");
    assert_eq!(kie_aspect_ratio(512, 512), "1:1");
    assert_eq!(kie_aspect_ratio(768, 1024), "3:4");
    assert_eq!(kie_aspect_ratio(1024, 768), "4:3");
    assert_eq!(kie_aspect_ratio(640, 1536), "5:12");
    assert_eq!(kie_aspect_ratio(1536, 640), "12:5");
    assert_eq!(kie_aspect_ratio(640, 1280), "1:2");
    assert_eq!(kie_aspect_ratio(1280, 640), "2:1");
    assert_eq!(kie_aspect_ratio(800, 600), "800:600");
}

#[test]
fn test_routed_model() {
    assert_eq!(routed_model(ModelRoute::FalImage, None), "fal-ai/flux-dev");
    assert_eq!(routed_model(ModelRoute::FalInpaint, None), "fal-ai/flux-fill-dev");
    assert_eq!(routed_model(ModelRoute::FalVideo, None), "fal-ai/kling-video");
    assert_eq!(routed_model(ModelRoute::ReplicateVideo, None), "minimax/minimax-hyper-svd-video-256w");
    assert!(routed_model(ModelRoute::ReplicateImage, None).starts_with("stability-ai/sdxl:"));
    assert_eq!(routed_model(ModelRoute::FalImage, Some("fal-ai/other".to_string())), "fal-ai/other");
}

#[test]
fn test_result_urls() {
    assert_eq!(fal_image_url(&vec!["a".to_string(), "b".to_string()]), Ok("a".to_string()));
    assert_eq!(fal_image_url(&vec![]), Err(specific("fal", "No images in response")));
    assert_eq!(fal_video_url(Some("v".to_string())), Ok("v".to_string()));
    assert_eq!(fal_video_url(None), Err(specific("fal", "No video in response")));
    assert_eq!(replicate_output_url(ReplicateOutput::Text("u".to_string())), Ok("u".to_string()));
    assert_eq!(
        replicate_output_url(ReplicateOutput::List(vec![Some("first".to_string()), Some("second".to_string())])),
        Ok("first".to_string())
    );
    assert_eq!(
        replicate_output_url(ReplicateOutput::List(vec![None, Some("second".to_string())])),
        Err(specific("replicate", "Output array element is not a string"))
    );
    assert_eq!(
        replicate_output_url(ReplicateOutput::List(vec![])),
        Err(specific("replicate", "Output array element is not a string"))
    );
    assert_eq!(
        replicate_output_url(ReplicateOutput::Missing),
        Err(specific("replicate", "No output in prediction response"))
    );
    assert_eq!(
        replicate_output_url(ReplicateOutput::Other),
        Err(specific("replicate", "Output is not a valid URL string or array"))
    );
}

#[test]
fn test_material_map_urls() {
    assert_eq!(material_map_urls(&vec![]), Err(specific("fal", "No material maps returned from PATINA")));
    let urls: Vec<String> = (0..7).map(|i| format!("u{}", i)).collect();
    let maps = material_map_urls(&urls).unwrap();
    assert_eq!(
        maps,
        vec![
            (MapKind::Basecolor, "u0".to_string()),
            (MapKind::Normal, "u1".to_string()),
            (MapKind::Roughness, "u2".to_string()),
            (MapKind::Metalness, "u3".to_string()),
            (MapKind::Height, "u4".to_string()),
        ]
    );
    let two = material_map_urls(&vec!["a".to_string(), "b".to_string()]).unwrap();
    assert_eq!(two, vec![(MapKind::Basecolor, "a".to_string()), (MapKind::Normal, "b".to_string())]);
}
