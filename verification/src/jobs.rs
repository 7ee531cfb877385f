//! The job queue's status codec and the worker runner's decisions: which
//! jobs run, which worker takes them, how long they may take, what a failure
//! is reported as, whether it is retried, and which outputs become assets.

use vstd::prelude::*;
use crate::text::str_eq;

verus! {

/// Lifecycle status of a queued job.
#[derive(Debug, Clone, Copy, PartialEq, Eq, Structural)]
pub enum JobStatus {
    Pending,
    Running,
    Completed,
    Failed,
    Cancelled,
}

/// The text a status is stored as.
pub open spec fn status_text(s: JobStatus) -> Seq<char> {
    match s {
        JobStatus::Pending => "pending"@,
        JobStatus::Running => "running"@,
        JobStatus::Completed => "completed"@,
        JobStatus::Failed => "failed"@,
        JobStatus::Cancelled => "cancelled"@,
    }
}

/// Converts a status to the string it is stored as.
pub fn status_to_string(status: JobStatus) -> (r: &'static str)
    ensures
        r@ == status_text(status),
{
    match status {
        JobStatus::Pending => "pending",
        JobStatus::Running => "running",
        JobStatus::Completed => "completed",
        JobStatus::Failed => "failed",
        JobStatus::Cancelled => "cancelled",
    }
}

/// Parses a stored status string; any other text is an unknown status.
pub fn string_to_status(s: &str) -> (r: Result<JobStatus, String>)
    ensures
        r matches Ok(st) ==> status_text(st) == s@,
        r is Err ==> (forall|st: JobStatus| status_text(st) != s@),
        r matches Err(e) ==> e@ == "Unknown job status: "@ + s@,
{
    if str_eq(s, "pending") {
        Ok(JobStatus::Pending)
    } else if str_eq(s, "running") {
        Ok(JobStatus::Running)
    } else if str_eq(s, "completed") {
        Ok(JobStatus::Completed)
    } else if str_eq(s, "failed") {
        Ok(JobStatus::Failed)
    } else if str_eq(s, "cancelled") {
        Ok(JobStatus::Cancelled)
    } else {
        let mut e = String::from_str("Unknown job status: ");
        e.append(s);
        proof {
            assert forall|st: JobStatus| status_text(st) != s@ by {
                match st {
                    JobStatus::Pending => {},
                    JobStatus::Running => {},
                    JobStatus::Completed => {},
                    JobStatus::Failed => {},
                    JobStatus::Cancelled => {},
                }
            }
        }
        Err(e)
    }
}

/// Reading back a stored status gives the status that was stored.
pub proof fn lemma_status_round_trip(s: JobStatus)
    ensures
        forall|t: JobStatus| status_text(t) == status_text(s) ==> t == s,
{
    reveal_strlit("pending");
    reveal_strlit("running");
    reveal_strlit("completed");
    reveal_strlit("failed");
    reveal_strlit("cancelled");
    assert forall|t: JobStatus| status_text(t) == status_text(s) implies t == s by {
        if t != s {
            let a = status_text(t);
            let b = status_text(s);
            assert(a.len() != b.len() || a[0] != b[0] || a[1] != b[1]);
        }
    }
}

/// How a worker's jobs are scheduled.
#[derive(Debug, Clone, Copy, PartialEq, Eq, Structural)]
pub enum WorkerCategory {
    /// I/O-bound work, such as calls to remote providers.
    Async,
    /// CPU-bound work, such as rendering or pixel processing.
    CpuIntensive,
}

/// Seconds a job of the category may run before it is abandoned.
pub open spec fn category_timeout(c: WorkerCategory) -> nat {
    match c {
        WorkerCategory::Async => 5 * 60,
        WorkerCategory::CpuIntensive => 10 * 60,
    }
}

/// The timeout for a job, in seconds: 5 minutes for async workers and
/// 10 minutes for CPU-intensive ones.
pub fn timeout_secs(category: WorkerCategory) -> (r: u64)
    ensures
        r == category_timeout(category),
{
    match category {
        WorkerCategory::Async => 5 * 60,
        WorkerCategory::CpuIntensive => 10 * 60,
    }
}

/// The texts of a list of strings.
pub open spec fn string_texts(v: Seq<String>) -> Seq<Seq<char>> {
    v.map_values(|s: String| s@)
}

/// A registered worker as the runner sees it: the job types it accepts and
/// how its jobs are scheduled.
#[derive(Debug)]
pub struct WorkerProfile {
    pub job_types: Vec<String>,
    pub category: WorkerCategory,
}

/// The worker accepts jobs of this type.
pub open spec fn profile_handles(w: WorkerProfile, job_type: Seq<char>) -> bool {
    string_texts(w.job_types@).contains(job_type)
}

impl WorkerProfile {
    /// Returns true if this worker can handle jobs of the given type.
    pub fn can_handle(&self, job_type: &str) -> (r: bool)
        ensures
            r == profile_handles(*self, job_type@),
    {
        let mut i: usize = 0;
        while i < self.job_types.len()
            invariant
                i <= self.job_types@.len(),
                forall|j: int| 0 <= j < i ==> self.job_types@[j]@ != job_type@,
            decreases self.job_types.len() - i,
        {
            if str_eq(self.job_types[i].as_str(), job_type) {
                proof {
                    assert(string_texts(self.job_types@)[i as int] == job_type@);
                }
                return true;
            }
            i = i + 1;
        }
        proof {
            if string_texts(self.job_types@).contains(job_type@) {
                let j = choose|j: int|
                    0 <= j < string_texts(self.job_types@).len() && string_texts(self.job_types@)[j]
                        == job_type@;
                assert(self.job_types@[j]@ == job_type@);
            }
        }
        false
    }
}

/// Index of the first worker that accepts the job type, if any.
pub fn find_worker(workers: &Vec<WorkerProfile>, job_type: &str) -> (r: Option<usize>)
    ensures
        r matches Some(i) ==> i < workers@.len() && profile_handles(workers@[i as int], job_type@) && forall|j: int|
            0 <= j < i ==> !profile_handles(#[trigger] workers@[j], job_type@),
        r is None ==> forall|j: int| 0 <= j < workers@.len() ==> !profile_handles(#[trigger] workers@[j], job_type@),
{
    let mut i: usize = 0;
    while i < workers.len()
        invariant
            i <= workers@.len(),
            forall|j: int| 0 <= j < i ==> !profile_handles(#[trigger] workers@[j], job_type@),
        decreases workers.len() - i,
    {
        if workers[i].can_handle(job_type) {
            return Some(i);
        }
        i = i + 1;
    }
    None
}

/// What the runner does with a job it has fetched.
#[derive(Debug, PartialEq, Eq)]
pub enum JobStart {
    /// The job is not pending (it was cancelled or is already taken): leave it.
    Skip,
    /// No registered worker accepts the job type.
    NoWorker(String),
    /// Mark the job running and hand it to this worker with this timeout.
    Run { worker: usize, timeout_secs: u64 },
}

/// Decides whether and where a fetched job runs.
pub fn job_start(status: JobStatus, job_type: &str, workers: &Vec<WorkerProfile>) -> (r: JobStart)
    ensures
        status != JobStatus::Pending ==> r == JobStart::Skip,
        status == JobStatus::Pending ==> match r {
            JobStart::Skip => false,
            JobStart::NoWorker(msg) => (forall|j: int|
                0 <= j < workers@.len() ==> !profile_handles(#[trigger] workers@[j], job_type@)) && msg@
                == "No worker found for job type '"@ + job_type@ + "'"@,
            JobStart::Run { worker, timeout_secs } => worker < workers@.len() && profile_handles(
                workers@[worker as int],
                job_type@,
            ) && (forall|j: int| 0 <= j < worker ==> !profile_handles(#[trigger] workers@[j], job_type@))
                && timeout_secs == category_timeout(workers@[worker as int].category),
        },
{
    if status != JobStatus::Pending {
        return JobStart::Skip;
    }
    match find_worker(workers, job_type) {
        Some(i) => JobStart::Run { worker: i, timeout_secs: timeout_secs(workers[i].category) },
        None => {
            let mut msg = String::from_str("No worker found for job type '");
            msg.append(job_type);
            msg.append("'");
            JobStart::NoWorker(msg)
        },
    }
}

/// How a dispatched job came back.
#[derive(Debug)]
pub enum WorkerOutcome {
    /// The worker returned a result.
    Succeeded,
    /// The worker returned an error with this message.
    WorkerError(String),
    /// The worker's task panicked.
    Panicked,
    /// The worker's task could not be joined, for this reason.
    JoinFailed(String),
    /// The job ran past its timeout.
    TimedOut,
}

/// The failure message recorded for an outcome (none for a success).
pub open spec fn outcome_failure(o: WorkerOutcome) -> Option<Seq<char>> {
    match o {
        WorkerOutcome::Succeeded => None,
        WorkerOutcome::WorkerError(e) => Some("Panic: Worker error: "@ + e@),
        WorkerOutcome::Panicked => Some("Panic: Worker process panicked"@),
        WorkerOutcome::JoinFailed(e) => Some("Panic: Join error: "@ + e@),
        WorkerOutcome::TimedOut => Some("Job timed out"@),
    }
}

/// The message a failed job is recorded and reported with.
pub fn failure_message(outcome: &WorkerOutcome) -> (r: Option<String>)
    ensures
        r matches Some(m) ==> outcome_failure(*outcome) == Some(m@),
        r is None <==> outcome_failure(*outcome) is None,
{
    match outcome {
        WorkerOutcome::Succeeded => None,
        WorkerOutcome::WorkerError(e) => {
            let mut m = String::from_str("Panic: Worker error: ");
            m.append(e.as_str());
            Some(m)
        },
        WorkerOutcome::Panicked => Some(String::from_str("Panic: Worker process panicked")),
        WorkerOutcome::JoinFailed(e) => {
            let mut m = String::from_str("Panic: Join error: ");
            m.append(e.as_str());
            Some(m)
        },
        WorkerOutcome::TimedOut => Some(String::from_str("Job timed out")),
    }
}

/// Maximum number of attempts before a job fails for good.
pub const MAX_RETRIES: u8 = 3;

/// Two to the power `n`.
pub open spec fn pow_two(n: nat) -> nat
    decreases n,
{
    if n == 0 {
        1
    } else {
        2 * pow_two((n - 1) as nat)
    }
}

/// What happens to a job after a failed attempt.
#[derive(Debug, Clone, Copy, PartialEq, Eq, Structural)]
pub enum RetryPlan {
    /// Wait `backoff_secs` seconds, then queue the job again as attempt `attempt`.
    Retry { attempt: u8, backoff_secs: u64 },
    /// The job has used up its attempts.
    GiveUp { attempt: u8 },
}

/// The plan after a failure, given the attempt count the repository reports:
/// below the limit the job is retried after an exponential backoff of
/// `2^attempt` seconds; otherwise it fails for good.
pub fn retry_plan(current_attempt: u8) -> (r: RetryPlan)
    ensures
        current_attempt < MAX_RETRIES ==> r == (RetryPlan::Retry {
            attempt: (current_attempt + 1) as u8,
            backoff_secs: pow_two(current_attempt as nat) as u64,
        }),
        current_attempt >= MAX_RETRIES ==> r == (RetryPlan::GiveUp { attempt: current_attempt }),
{
    if current_attempt < MAX_RETRIES {
        let mut b: u64 = 1;
        let mut i: u8 = 0;
        while i < current_attempt
            invariant
                i <= current_attempt,
                current_attempt < MAX_RETRIES,
                b == pow_two(i as nat),
                b <= 4,
                i == 0 ==> b == 1,
                i == 1 ==> b == 2,
            decreases current_attempt - i,
        {
            b = b * 2;
            i = i + 1;
        }
        RetryPlan::Retry { attempt: current_attempt + 1, backoff_secs: b }
    } else {
        RetryPlan::GiveUp { attempt: current_attempt }
    }
}

/// Event payload for job progress updates.
#[derive(Debug, Clone)]
pub struct JobProgressEvent {
    pub job_id: String,
    pub progress_percent: u8,
    pub progress_message: String,
    /// Current attempt number (0-based).
    pub attempt: u8,
    /// Whether the job has exhausted all retry attempts.
    pub max_attempts_reached: bool,
    /// Whether the job failed due to a timeout.
    pub timeout: bool,
}

/// Event payload for job completion.
#[derive(Debug, Clone)]
pub struct JobCompletedEvent {
    pub job_id: String,
    pub asset_ids: Vec<String>,
}

/// Event payload for job failure.
#[derive(Debug, Clone)]
pub struct JobFailedEvent {
    pub job_id: String,
    pub error_message: String,
}

/// The progress the runner reports after a failure, per the retry plan:
/// 30% "Retrying" for the next attempt, or 100% "Failed (max retries)".
pub fn retry_progress(job_id: &str, plan: RetryPlan, timed_out: bool) -> (e: JobProgressEvent)
    ensures
        e.job_id@ == job_id@,
        e.timeout == timed_out,
        match plan {
            RetryPlan::Retry { attempt, .. } => e.progress_percent == 30 && e.progress_message@
                == "Retrying"@ && e.attempt == attempt && !e.max_attempts_reached,
            RetryPlan::GiveUp { attempt } => e.progress_percent == 100 && e.progress_message@
                == "Failed (max retries)"@ && e.attempt == attempt && e.max_attempts_reached,
        },
{
    match plan {
        RetryPlan::Retry { attempt, .. } => JobProgressEvent {
            job_id: String::from_str(job_id),
            progress_percent: 30,
            progress_message: String::from_str("Retrying"),
            attempt,
            max_attempts_reached: false,
            timeout: timed_out,
        },
        RetryPlan::GiveUp { attempt } => JobProgressEvent {
            job_id: String::from_str(job_id),
            progress_percent: 100,
            progress_message: String::from_str("Failed (max retries)"),
            attempt,
            max_attempts_reached: true,
            timeout: timed_out,
        },
    }
}

/// The phases a successful job reports progress at.
#[derive(Debug, Clone, Copy, PartialEq, Eq, Structural)]
pub enum RunPhase {
    Queued,
    CallingProvider,
    ReceivingResult,
    SavingAsset,
    Complete,
}

/// Percentage and message reported at a phase.
pub open spec fn phase_report(p: RunPhase) -> (u8, Seq<char>) {
    match p {
        RunPhase::Queued => (10, "Job queued"@),
        RunPhase::CallingProvider => (30, "Calling provider"@),
        RunPhase::ReceivingResult => (70, "Receiving result"@),
        RunPhase::SavingAsset => (90, "Saving asset"@),
        RunPhase::Complete => (100, "Complete"@),
    }
}

/// The progress event of a phase of a running job.
pub fn phase_progress(job_id: &str, phase: RunPhase, attempt: u8) -> (e: JobProgressEvent)
    ensures
        e.job_id@ == job_id@,
        e.progress_percent == phase_report(phase).0,
        e.progress_message@ == phase_report(phase).1,
        e.attempt == attempt,
        !e.max_attempts_reached,
        !e.timeout,
{
    let (percent, message) = match phase {
        RunPhase::Queued => (10u8, "Job queued"),
        RunPhase::CallingProvider => (30u8, "Calling provider"),
        RunPhase::ReceivingResult => (70u8, "Receiving result"),
        RunPhase::SavingAsset => (90u8, "Saving asset"),
        RunPhase::Complete => (100u8, "Complete"),
    };
    JobProgressEvent {
        job_id: String::from_str(job_id),
        progress_percent: percent,
        progress_message: String::from_str(message),
        attempt,
        max_attempts_reached: false,
        timeout: false,
    }
}

/// The asset kind a job type's outputs are registered as.
pub open spec fn asset_kind_of(t: Seq<char>) -> Seq<char> {
    if t == "audio_generate"@ {
        "audio"@
    } else if t == "tts_synthesize"@ {
        "voice"@
    } else if t == "image_generate"@ || t == "image_remove_background"@ || t == "pixel_art_convert"@ || t
        == "image_inpaint"@ || t == "image_outpaint"@ || t == "sprite_slice"@ {
        "image"@
    } else if t == "tile_generate"@ || t == "seamless_texture"@ {
        "tileset"@
    } else if t == "sprite_generate"@ || t == "pack_atlas"@ || t == "quick_sprites"@ || t == "render_3d"@ {
        "sprite"@
    } else if t == "material_generate"@ {
        "material"@
    } else if t == "code_generate"@ {
        "code"@
    } else if t == "animation_export"@ {
        "animation"@
    } else if t == "video_generate"@ {
        "video"@
    } else {
        "unknown"@
    }
}

/// The job-type table of asset kinds, entry by entry: sound effects and music
/// are audio, speech is a voice, the image operations give images, tiles and
/// seamless textures give tilesets, sprite sheets, atlases, quick sprites and
/// 3D renders give sprites, and materials, code, animations and videos are
/// their own kinds; any other job type gives "unknown".
pub proof fn lemma_asset_kind_table(t: Seq<char>)
    ensures
        asset_kind_of("audio_generate"@) == "audio"@,
        asset_kind_of("tts_synthesize"@) == "voice"@,
        asset_kind_of("image_generate"@) == "image"@,
        asset_kind_of("image_remove_background"@) == "image"@,
        asset_kind_of("pixel_art_convert"@) == "image"@,
        asset_kind_of("image_inpaint"@) == "image"@,
        asset_kind_of("image_outpaint"@) == "image"@,
        asset_kind_of("sprite_slice"@) == "image"@,
        asset_kind_of("tile_generate"@) == "tileset"@,
        asset_kind_of("seamless_texture"@) == "tileset"@,
        asset_kind_of("sprite_generate"@) == "sprite"@,
        asset_kind_of("pack_atlas"@) == "sprite"@,
        asset_kind_of("quick_sprites"@) == "sprite"@,
        asset_kind_of("render_3d"@) == "sprite"@,
        asset_kind_of("material_generate"@) == "material"@,
        asset_kind_of("code_generate"@) == "code"@,
        asset_kind_of("animation_export"@) == "animation"@,
        asset_kind_of("video_generate"@) == "video"@,
        t != "audio_generate"@ && t != "tts_synthesize"@ && t != "image_generate"@ && t
            != "image_remove_background"@ && t != "pixel_art_convert"@ && t != "image_inpaint"@ && t
            != "image_outpaint"@ && t != "sprite_slice"@ && t != "tile_generate"@ && t != "seamless_texture"@
            && t != "sprite_generate"@ && t != "pack_atlas"@ && t != "quick_sprites"@ && t != "render_3d"@ && t
            != "material_generate"@ && t != "code_generate"@ && t != "animation_export"@ && t
            != "video_generate"@ ==> asset_kind_of(t) == "unknown"@,
{
    reveal_strlit("audio_generate");
    reveal_strlit("tts_synthesize");
    reveal_strlit("image_generate");
    reveal_strlit("image_remove_background");
    reveal_strlit("pixel_art_convert");
    reveal_strlit("image_inpaint");
    reveal_strlit("image_outpaint");
    reveal_strlit("sprite_slice");
    reveal_strlit("tile_generate");
    reveal_strlit("seamless_texture");
    reveal_strlit("sprite_generate");
    reveal_strlit("pack_atlas");
    reveal_strlit("quick_sprites");
    reveal_strlit("render_3d");
    reveal_strlit("material_generate");
    reveal_strlit("code_generate");
    reveal_strlit("animation_export");
    reveal_strlit("video_generate");
    assert("audio_generate"@[0] == 'a');
    assert("tts_synthesize"@[0] == 't');
    assert("image_generate"@[0] == 'i');
    assert("image_remove_background"@[0] == 'i');
    assert("pixel_art_convert"@[0] == 'p');
    assert("image_inpaint"@[0] == 'i');
    assert("image_outpaint"@[0] == 'i');
    assert("sprite_slice"@[0] == 's');
    assert("tile_generate"@[0] == 't');
    assert("seamless_texture"@[0] == 's');
    assert("sprite_generate"@[0] == 's');
    assert("pack_atlas"@[0] == 'p');
    assert("quick_sprites"@[0] == 'q');
    assert("render_3d"@[0] == 'r');
    assert("material_generate"@[0] == 'm');
    assert("code_generate"@[0] == 'c');
    assert("animation_export"@[0] == 'a');
    assert("video_generate"@[0] == 'v');
    assert("audio_generate"@[1] == 'u');
    assert("tts_synthesize"@[1] == 't');
    assert("image_generate"@[1] == 'm');
    assert("image_remove_background"@[1] == 'm');
    assert("pixel_art_convert"@[1] == 'i');
    assert("image_inpaint"@[1] == 'm');
    assert("image_outpaint"@[1] == 'm');
    assert("sprite_slice"@[1] == 'p');
    assert("tile_generate"@[1] == 'i');
    assert("seamless_texture"@[1] == 'e');
    assert("sprite_generate"@[1] == 'p');
    assert("pack_atlas"@[1] == 'a');
    assert("quick_sprites"@[1] == 'u');
    assert("render_3d"@[1] == 'e');
    assert("material_generate"@[1] == 'a');
    assert("code_generate"@[1] == 'o');
    assert("animation_export"@[1] == 'n');
    assert("video_generate"@[1] == 'i');
    assert("sprite_slice"@[7] == 's');
    assert("sprite_generate"@[7] == 'g');
    assert("image_generate"@[6] == 'g');
    assert("image_outpaint"@[6] == 'o');
}

/// Determines the asset kind from the job type.
pub fn asset_kind(job_type: &str) -> (r: &'static str)
    ensures
        r@ == asset_kind_of(job_type@),
{
    if str_eq(job_type, "audio_generate") {
        "audio"
    } else if str_eq(job_type, "tts_synthesize") {
        "voice"
    } else if str_eq(job_type, "image_generate") || str_eq(job_type, "image_remove_background") || str_eq(
        job_type,
        "pixel_art_convert",
    ) || str_eq(job_type, "image_inpaint") || str_eq(job_type, "image_outpaint") || str_eq(
        job_type,
        "sprite_slice",
    ) {
        "image"
    } else if str_eq(job_type, "tile_generate") || str_eq(job_type, "seamless_texture") {
        "tileset"
    } else if str_eq(job_type, "sprite_generate") || str_eq(job_type, "pack_atlas") || str_eq(
        job_type,
        "quick_sprites",
    ) || str_eq(job_type, "render_3d") {
        "sprite"
    } else if str_eq(job_type, "material_generate") {
        "material"
    } else if str_eq(job_type, "code_generate") {
        "code"
    } else if str_eq(job_type, "animation_export") {
        "animation"
    } else if str_eq(job_type, "video_generate") {
        "video"
    } else {
        "unknown"
    }
}

/// The output files registered as assets: for sprite generation only the
/// atlas image (the first file), otherwise all of them.
pub fn files_to_register(job_type: &str, files: Vec<String>) -> (r: Vec<String>)
    ensures
        job_type@ == "sprite_generate"@ ==> r@ == files@.take(if files@.len() < 1 { 0 } else { 1 }),
        job_type@ != "sprite_generate"@ ==> r@ == files@,
{
    if str_eq(job_type, "sprite_generate") {
        let mut files = files;
        files.truncate(1);
        files
    } else {
        files
    }
}

/// The name an output is registered under: its file name, or
/// `generated_<kind>.bin` when it has none.
pub fn asset_name(file_name: Option<String>, kind: &str) -> (r: String)
    ensures
        file_name matches Some(n) ==> r@ == n@,
        file_name is None ==> r@ == "generated_"@ + kind@ + ".bin"@,
{
    match file_name {
        Some(n) => n,
        None => {
            let mut s = String::from_str("generated_");
            s.append(kind);
            s.append(".bin");
            s
        },
    }
}

/// One thing the runner does, in the order a step lists them.
#[derive(Debug)]
pub enum RunnerAction {
    /// Store this status for the job (best effort: a failure is only logged).
    SetStatus(JobStatus),
    /// Report progress to the user and store it with the job (best effort).
    Progress(JobProgressEvent),
    /// Store this progress with the job without reporting it (best effort).
    StoreProgress(u8, String),
    /// Run the work on this worker, waiting at most this long (the work is
    /// abandoned when the time is up), and hand back how it ended.
    Dispatch { worker: usize, timeout_secs: u64 },
    /// Report the failure to the user.
    EmitFailed(String),
    /// Store the job as failed with this message (best effort), then read
    /// the job back for its attempt count.
    RecordFailure(String),
    /// Wait this many seconds.
    Sleep(u64),
    /// Register each file, in order, as an asset of this kind that derives
    /// from the source asset, with the worker's metadata.
    RegisterAssets { files: Vec<String>, kind: String, source_asset_id: Option<String> },
    /// Store the job as completed (best effort).
    MarkCompleted,
    /// Report the completion, with the registered asset ids, to the user.
    EmitCompleted,
}

/// `a` reports the progress of `phase` for the job at `attempt`.
pub open spec fn reports_phase(a: RunnerAction, job_id: Seq<char>, phase: RunPhase, attempt: u8) -> bool {
    a matches RunnerAction::Progress(e) && e.job_id@ == job_id && e.progress_percent == phase_report(phase).0
        && e.progress_message@ == phase_report(phase).1 && e.attempt == attempt && !e.max_attempts_reached && !e.timeout
}

fn progress(job_id: &str, phase: RunPhase, attempt: u8) -> (a: RunnerAction)
    ensures
        reports_phase(a, job_id@, phase, attempt),
{
    RunnerAction::Progress(phase_progress(job_id, phase, attempt))
}

/// Where and how long a job runs.
#[derive(Debug, Clone, Copy, PartialEq, Eq)]
pub struct StartPlan {
    pub worker: usize,
    pub timeout_secs: u64,
}

/// The start of a run: a pending job for which a worker is found gets a plan,
/// and the runner's next step is to store it as running (see `run_dispatch`).
/// `Err(None)`: the job is not pending and is left alone; `Err(Some(m))`: no
/// worker takes it.
pub fn run_start(status: JobStatus, job_type: &str, workers: &Vec<WorkerProfile>) -> (r: Result<StartPlan, Option<String>>)
    ensures
        status != JobStatus::Pending ==> r == Err::<StartPlan, Option<String>>(None),
        status == JobStatus::Pending && (forall|j: int| 0 <= j < workers@.len() ==> !profile_handles(#[trigger] workers@[j], job_type@))
            ==> (r matches Err(Some(m)) && m@ == "No worker found for job type '"@ + job_type@ + "'"@),
        r matches Ok(p) ==> status == JobStatus::Pending && p.worker < workers@.len() && profile_handles(
            workers@[p.worker as int],
            job_type@,
        ) && (forall|j: int| 0 <= j < p.worker ==> !profile_handles(#[trigger] workers@[j], job_type@)) && p.timeout_secs
            == category_timeout(workers@[p.worker as int].category),
        status == JobStatus::Pending && (exists|j: int| 0 <= j < workers@.len() && profile_handles(#[trigger] workers@[j], job_type@))
            ==> r is Ok,
{
    match job_start(status, job_type, workers) {
        JobStart::Skip => Err(None),
        JobStart::NoWorker(m) => Err(Some(m)),
        JobStart::Run { worker, timeout_secs } => Ok(StartPlan { worker, timeout_secs }),
    }
}

/// After storing the job as running: when that failed the run stops with
/// the store's error and nothing is dispatched; otherwise the job is
/// reported queued and calling its provider, and dispatched as planned.
pub fn run_dispatch(stored: Result<(), String>, job_id: &str, attempt: u8, plan: StartPlan) -> (r: Result<Vec<RunnerAction>, String>)
    ensures
        stored matches Err(e) ==> r == Err::<Vec<RunnerAction>, String>(e),
        stored is Ok ==> (r matches Ok(v) && v@.len() == 3 && reports_phase(v@[0], job_id@, RunPhase::Queued, attempt)
            && reports_phase(v@[1], job_id@, RunPhase::CallingProvider, attempt) && v@[2] == (RunnerAction::Dispatch {
            worker: plan.worker,
            timeout_secs: plan.timeout_secs,
        })),
{
    match stored {
        Err(e) => Err(e),
        Ok(()) => {
            let mut v: Vec<RunnerAction> = Vec::new();
            v.push(progress(job_id, RunPhase::Queued, attempt));
            v.push(progress(job_id, RunPhase::CallingProvider, attempt));
            v.push(RunnerAction::Dispatch { worker: plan.worker, timeout_secs: plan.timeout_secs });
            Ok(v)
        },
    }
}

/// After the work came back: the result is reported received; a failure is
/// reported and recorded; a success is saved: progress, registration of the
/// output files (only the first for `sprite_generate`) with the job type's
/// asset kind and the job's source asset, the stored (100, "Completed"), the
/// (100, "Complete") report, the job marked completed, and the completion
/// reported.
pub fn run_outcome(
    job_id: &str,
    attempt: u8,
    outcome: &WorkerOutcome,
    job_type: &str,
    output_files: Vec<String>,
    source_asset_id: Option<String>,
) -> (v: Vec<RunnerAction>)
    ensures
        v@.len() > 0 && reports_phase(v@[0], job_id@, RunPhase::ReceivingResult, attempt),
        outcome_failure(*outcome) matches Some(m) ==> v@.len() == 3 && (v@[1] matches RunnerAction::EmitFailed(e) && e@ == m)
            && (v@[2] matches RunnerAction::RecordFailure(e) && e@ == m),
        outcome_failure(*outcome) is None ==> v@.len() == 7 && reports_phase(v@[1], job_id@, RunPhase::SavingAsset, attempt)
            && (v@[2] matches RunnerAction::RegisterAssets { files, kind, source_asset_id: src } && kind@ == asset_kind_of(
            job_type@,
        ) && src == source_asset_id && files@ == (if job_type@ == "sprite_generate"@ {
            output_files@.take(if output_files@.len() < 1 { 0 } else { 1 })
        } else {
            output_files@
        })) && (v@[3] matches RunnerAction::StoreProgress(p, m) && p == 100 && m@ == "Completed"@) && reports_phase(
            v@[4],
            job_id@,
            RunPhase::Complete,
            attempt,
        ) && v@[5] == RunnerAction::MarkCompleted && v@[6] == RunnerAction::EmitCompleted,
{
    let mut v: Vec<RunnerAction> = Vec::new();
    v.push(progress(job_id, RunPhase::ReceivingResult, attempt));
    match failure_message(outcome) {
        Some(m) => {
            let m2 = m.clone();
            v.push(RunnerAction::EmitFailed(m));
            v.push(RunnerAction::RecordFailure(m2));
        },
        None => {
            v.push(progress(job_id, RunPhase::SavingAsset, attempt));
            let files = files_to_register(job_type, output_files);
            let kind = String::from_str(asset_kind(job_type));
            v.push(RunnerAction::RegisterAssets { files, kind, source_asset_id });
            v.push(RunnerAction::StoreProgress(100, String::from_str("Completed")));
            v.push(progress(job_id, RunPhase::Complete, attempt));
            v.push(RunnerAction::MarkCompleted);
            v.push(RunnerAction::EmitCompleted);
        },
    }
    v
}

/// After a failure was recorded, from reading the job back: a failed read
/// stops the run with its error; otherwise the attempt count is the stored
/// job's (or `attempt` when the job is gone), the retry plan's progress is
/// reported, and a retried job is queued again after its backoff.
pub fn run_retry(job_id: &str, attempt: u8, read_back: Result<Option<u8>, String>, timed_out: bool) -> (r: Result<Vec<RunnerAction>, String>)
    ensures
        read_back matches Err(e) ==> r == Err::<Vec<RunnerAction>, String>(e),
        read_back is Ok ==> ({
            let a = match read_back {
                Ok(Some(n)) => n,
                _ => attempt,
            };
            r matches Ok(v) && v@.len() > 0 && (v@[0] matches RunnerAction::Progress(e) && e.job_id@ == job_id@ && e.timeout
                == timed_out) && (a < MAX_RETRIES ==> v@.len() == 3 && (v@[0] matches RunnerAction::Progress(e)
                && e.progress_percent == 30 && e.progress_message@ == "Retrying"@ && e.attempt == a + 1
                && !e.max_attempts_reached) && v@[1] == RunnerAction::Sleep(pow_two(a as nat) as u64) && v@[2]
                == RunnerAction::SetStatus(JobStatus::Pending)) && (a >= MAX_RETRIES ==> v@.len() == 1 && (v@[0] matches RunnerAction::Progress(
                e,
            ) && e.progress_percent == 100 && e.progress_message@ == "Failed (max retries)"@ && e.attempt == a
                && e.max_attempts_reached))
        }),
{
    let a = match read_back {
        Err(e) => {
            return Err(e);
        },
        Ok(Some(n)) => n,
        Ok(None) => attempt,
    };
    let plan = retry_plan(a);
    let mut v: Vec<RunnerAction> = Vec::new();
    v.push(RunnerAction::Progress(retry_progress(job_id, plan, timed_out)));
    match plan {
        RetryPlan::Retry { backoff_secs, .. } => {
            v.push(RunnerAction::Sleep(backoff_secs));
            v.push(RunnerAction::SetStatus(JobStatus::Pending));
        },
        RetryPlan::GiveUp { .. } => {},
    }
    Ok(v)
}

} // verus!
