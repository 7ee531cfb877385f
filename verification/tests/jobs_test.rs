use artifex::jobs::{
    asset_kind, asset_name, failure_message, files_to_register, find_worker, job_start, phase_progress,
    retry_plan, retry_progress, status_to_string, string_to_status, timeout_secs, JobStart, JobStatus,
    RetryPlan, RunPhase, WorkerCategory, WorkerOutcome, WorkerProfile,
};
use artifex::jobs::{run_dispatch, run_outcome, run_retry, run_start, RunnerAction, StartPlan};
use artifex::workers::{determine_audio_operation, worker_profile, WorkerKind};

fn mock_worker(job_type: &str) -> WorkerProfile {
    WorkerProfile { job_types: vec![job_type.to_string()], category: WorkerCategory::Async }
}

fn mock_cpu_worker(job_type: &str) -> WorkerProfile {
    WorkerProfile { job_types: vec![job_type.to_string()], category: WorkerCategory::CpuIntensive }
}

#[test]
fn test_status_to_string() {
    assert_eq!(status_to_string(JobStatus::Pending), "pending");
    assert_eq!(status_to_string(JobStatus::Running), "running");
    assert_eq!(status_to_string(JobStatus::Completed), "completed");
    assert_eq!(status_to_string(JobStatus::Failed), "failed");
    assert_eq!(status_to_string(JobStatus::Cancelled), "cancelled");
}

#[test]
fn test_string_to_status() {
    assert_eq!(string_to_status("pending").unwrap(), JobStatus::Pending);
    assert_eq!(string_to_status("running").unwrap(), JobStatus::Running);
    assert_eq!(string_to_status("completed").unwrap(), JobStatus::Completed);
    assert_eq!(string_to_status("failed").unwrap(), JobStatus::Failed);
    assert_eq!(string_to_status("cancelled").unwrap(), JobStatus::Cancelled);
    assert!(string_to_status("unknown").is_err());
}

#[test]
fn status_text_round_trips() {
    for s in [JobStatus::Pending, JobStatus::Running, JobStatus::Completed, JobStatus::Failed, JobStatus::Cancelled] {
        assert_eq!(string_to_status(status_to_string(s)), Ok(s));
    }
    assert_eq!(string_to_status("Pending"), Err("Unknown job status: Pending".to_string()));
}

#[test]
fn test_worker_runner_finds_matching_worker() {
    let workers = vec![mock_worker("test_job")];
    assert!(find_worker(&workers, "test_job").is_some());
    assert!(find_worker(&workers, "other_job").is_none());
}

#[test]
fn test_find_worker_returns_first_match() {
    let workers = vec![mock_worker("test_job"), mock_worker("test_job")];
    let found = find_worker(&workers, "test_job");
    assert!(found.is_some());
    assert_eq!(found, Some(0));
}

#[test]
fn test_worker_default_category_is_async() {
    let worker = mock_worker("test_job");
    assert_eq!(worker.category, WorkerCategory::Async);
}

#[test]
fn test_cpu_intensive_worker_category() {
    let worker = mock_cpu_worker("cpu_job");
    assert_eq!(worker.category, WorkerCategory::CpuIntensive);
}

#[test]
fn test_worker_runner_finds_cpu_intensive_worker() {
    let workers = vec![mock_cpu_worker("cpu_job")];
    let found = find_worker(&workers, "cpu_job");
    assert!(found.is_some());
    assert_eq!(workers[found.unwrap()].category, WorkerCategory::CpuIntensive);
}

#[test]
fn job_start_skips_non_pending_and_reports_missing_worker() {
    let workers = vec![worker_profile(WorkerKind::Slice), worker_profile(WorkerKind::Renderer3d)];
    assert_eq!(job_start(JobStatus::Cancelled, "sprite_slice", &workers), JobStart::Skip);
    assert_eq!(job_start(JobStatus::Running, "sprite_slice", &workers), JobStart::Skip);
    assert_eq!(
        job_start(JobStatus::Pending, "render_3d", &workers),
        JobStart::Run { worker: 1, timeout_secs: 600 }
    );
    assert_eq!(
        job_start(JobStatus::Pending, "sprite_slice", &workers),
        JobStart::Run { worker: 0, timeout_secs: 300 }
    );
    assert_eq!(
        job_start(JobStatus::Pending, "mystery", &workers),
        JobStart::NoWorker("No worker found for job type 'mystery'".to_string())
    );
    assert_eq!(timeout_secs(WorkerCategory::Async), 300);
}

#[test]
fn failures_are_reported_and_retried_with_backoff() {
    assert_eq!(failure_message(&WorkerOutcome::Succeeded), None);
    assert_eq!(
        failure_message(&WorkerOutcome::WorkerError("boom".to_string())),
        Some("Panic: Worker error: boom".to_string())
    );
    assert_eq!(failure_message(&WorkerOutcome::Panicked), Some("Panic: Worker process panicked".to_string()));
    assert_eq!(failure_message(&WorkerOutcome::TimedOut), Some("Job timed out".to_string()));
    assert_eq!(retry_plan(0), RetryPlan::Retry { attempt: 1, backoff_secs: 1 });
    assert_eq!(retry_plan(1), RetryPlan::Retry { attempt: 2, backoff_secs: 2 });
    assert_eq!(retry_plan(2), RetryPlan::Retry { attempt: 3, backoff_secs: 4 });
    assert_eq!(retry_plan(3), RetryPlan::GiveUp { attempt: 3 });
    let e = retry_progress("job-1", retry_plan(3), true);
    assert_eq!(e.progress_percent, 100);
    assert_eq!(e.progress_message, "Failed (max retries)");
    assert!(e.max_attempts_reached && e.timeout);
    let e = retry_progress("job-1", retry_plan(1), false);
    assert_eq!((e.progress_percent, e.attempt), (30, 2));
    assert_eq!(e.progress_message, "Retrying");
    let e = phase_progress("job-1", RunPhase::SavingAsset, 0);
    assert_eq!((e.progress_percent, e.progress_message.as_str()), (90, "Saving asset"));
}

#[test]
fn outputs_become_assets_of_the_right_kind() {
    assert_eq!(asset_kind("tts_synthesize"), "voice");
    assert_eq!(asset_kind("sprite_slice"), "image");
    assert_eq!(asset_kind("seamless_texture"), "tileset");
    assert_eq!(asset_kind("render_3d"), "sprite");
    assert_eq!(asset_kind("code_agent"), "unknown");
    let files = vec!["a.png".to_string(), "a.json".to_string()];
    assert_eq!(files_to_register("sprite_generate", files.clone()), vec!["a.png".to_string()]);
    assert_eq!(files_to_register("pack_atlas", files.clone()), files);
    assert_eq!(files_to_register("sprite_generate", vec![]), Vec::<String>::new());
    assert_eq!(asset_name(None, "audio"), "generated_audio.bin");
    assert_eq!(asset_name(Some("x.wav".to_string()), "audio"), "x.wav");
}

#[test]
fn test_determine_audio_operation_music() {
    assert_eq!(determine_audio_operation(&Some("music".to_string())), "audiogen.music");
}

#[test]
fn test_determine_audio_operation_sfx() {
    assert_eq!(determine_audio_operation(&Some("sfx".to_string())), "audiogen.sfx");
}

#[test]
fn test_determine_audio_operation_default() {
    assert_eq!(determine_audio_operation(&None), "audiogen.sfx");
}

#[test]
fn runner_steps_in_order() {
    let workers = vec![mock_worker("sprite_slice")];
    let plan = run_start(JobStatus::Pending, "sprite_slice", &workers).unwrap();
    assert_eq!(plan, StartPlan { worker: 0, timeout_secs: 300 });
    assert!(matches!(run_start(JobStatus::Running, "sprite_slice", &workers), Err(None)));
    assert!(matches!(run_start(JobStatus::Pending, "other", &workers), Err(Some(m)) if m == "No worker found for job type 'other'"));

    assert_eq!(run_dispatch(Err("db down".to_string()), "j1", 0, plan).err(), Some("db down".to_string()));
    let start = run_dispatch(Ok(()), "j1", 0, plan).unwrap();
    assert_eq!(start.len(), 3);
    assert!(matches!(&start[0], RunnerAction::Progress(e) if e.progress_percent == 10 && e.progress_message == "Job queued"));
    assert!(matches!(&start[1], RunnerAction::Progress(e) if e.progress_percent == 30));
    assert!(matches!(start[2], RunnerAction::Dispatch { worker: 0, timeout_secs: 300 }));

    let files = vec!["/a/atlas.png".to_string(), "/a/atlas.json".to_string()];
    let ok = run_outcome("j1", 0, &WorkerOutcome::Succeeded, "sprite_generate", files.clone(), Some("src-1".to_string()));
    assert_eq!(ok.len(), 7);
    assert!(matches!(&ok[0], RunnerAction::Progress(e) if e.progress_percent == 70));
    assert!(matches!(&ok[1], RunnerAction::Progress(e) if e.progress_percent == 90));
    assert!(matches!(&ok[2], RunnerAction::RegisterAssets { files, kind, source_asset_id }
        if files == &vec!["/a/atlas.png".to_string()] && kind == "sprite" && source_asset_id.as_deref() == Some("src-1")));
    assert!(matches!(&ok[3], RunnerAction::StoreProgress(100, m) if m == "Completed"));
    assert!(matches!(&ok[4], RunnerAction::Progress(e) if e.progress_percent == 100 && e.progress_message == "Complete"));
    assert!(matches!(ok[5], RunnerAction::MarkCompleted));
    assert!(matches!(ok[6], RunnerAction::EmitCompleted));
    let sliced = run_outcome("j1", 0, &WorkerOutcome::Succeeded, "sprite_slice", files.clone(), None);
    assert!(matches!(&sliced[2], RunnerAction::RegisterAssets { files: f, kind, .. } if f.len() == 2 && kind == "image"));

    let failed = run_outcome("j1", 0, &WorkerOutcome::Panicked, "sprite_slice", vec![], None);
    assert_eq!(failed.len(), 3);
    assert!(matches!(&failed[1], RunnerAction::EmitFailed(m) if m == "Panic: Worker process panicked"));
    assert!(matches!(&failed[2], RunnerAction::RecordFailure(m) if m == "Panic: Worker process panicked"));

    let retry = run_retry("j1", 0, Ok(Some(1)), true).unwrap();
    assert_eq!(retry.len(), 3);
    assert!(matches!(&retry[0], RunnerAction::Progress(e) if e.progress_message == "Retrying" && e.attempt == 2 && e.timeout));
    assert!(matches!(retry[1], RunnerAction::Sleep(2)));
    assert!(matches!(retry[2], RunnerAction::SetStatus(JobStatus::Pending)));
    let from_job = run_retry("j1", 2, Ok(None), false).unwrap();
    assert!(matches!(from_job[1], RunnerAction::Sleep(4)));
    let give_up = run_retry("j1", 0, Ok(Some(3)), false).unwrap();
    assert_eq!(give_up.len(), 1);
    assert!(matches!(&give_up[0], RunnerAction::Progress(e) if e.max_attempts_reached && e.progress_percent == 100));
    assert_eq!(run_retry("j1", 0, Err("gone".to_string()), false).err(), Some("gone".to_string()));
}
