//! Animation export: the sheet grid, the frame timings and the total
//! duration of an animation exported as a sprite sheet.

use vstd::prelude::*;
use crate::text::{decimal, decimal_string, str_eq, zero_pad};
use crate::image::RgbaImage;
use crate::atlas::failure_texts;
use crate::codec::{frames_bytes, is_sheet_of, pack_frames, packable, skyline_atlas, skyline_pack};
use crate::sprites::packing_key;

verus! {

/// Payload for animation export jobs.
#[derive(Debug)]
pub struct AnimationExportOperation {
    pub project_id: String,
    pub animation_id: String,
    pub animation_name: String,
    pub frame_asset_ids: Vec<String>,
    pub frame_durations_ms: Vec<u32>,
    pub loop_animation: bool,
}

/// Timing entry for the JSON sidecar.
#[derive(Debug, Clone, Copy, PartialEq, Eq, Structural)]
pub struct FrameTiming {
    pub index: usize,
    pub duration_ms: u32,
}

/// Worker that exports animations as sprite sheets.
pub struct AnimationExportWorker {
    pub assets_dir: String,
}

impl AnimationExportWorker {
    /// Creates a new AnimationExportWorker.
    pub fn new(assets_dir: String) -> (w: AnimationExportWorker)
        ensures
            w.assets_dir == assets_dir,
    {
        AnimationExportWorker { assets_dir }
    }

    /// Returns true for animation export jobs.
    pub fn can_handle(&self, job_type: &str) -> (r: bool)
        ensures
            r == (job_type@ == "animation_export"@),
    {
        str_eq(job_type, "animation_export")
    }
}

/// `c` is the ceiling of the square root of `n`: the least `c` with `c * c >= n`.
pub open spec fn is_ceil_sqrt(n: int, c: int) -> bool {
    &&& c >= 0
    &&& c * c >= n
    &&& (c == 0 || (c - 1) * (c - 1) < n)
}

/// The ceiling of the square root of `n`.
pub fn ceil_sqrt(n: u32) -> (c: u32)
    ensures
        is_ceil_sqrt(n as int, c as int),
{
    let mut c: u64 = 0;
    while c * c < n as u64
        invariant
            c <= 65536,
            c * c <= 4294967296,
            c == 0 || (c - 1) * (c - 1) < n,
        decreases 65536 - c,
    {
        assert(c < 65536 && (c + 1) * (c + 1) <= 4294967296) by (nonlinear_arith)
            requires
                c * c < n,
                n <= u32::MAX,
                c <= 65536,
        ;
        c = c + 1;
    }
    assert(c * c >= n);
    c as u32
}

/// Columns and rows of the sheet grid for `n` frames: a near-square grid
/// with `ceil(sqrt(n))` columns and as many rows as the frames need.
pub open spec fn sheet_grid(n: int, columns: int, rows: int) -> bool {
    &&& is_ceil_sqrt(n, columns)
    &&& columns > 0 ==> rows == (n + columns - 1) / columns
}

/// Computes the sheet grid (columns, rows) for a non-empty set of frames.
pub fn grid_dimensions(frame_count: u32) -> (r: (u32, u32))
    requires
        frame_count > 0,
        forall|c: int| is_ceil_sqrt(frame_count as int, c) ==> frame_count + c <= u32::MAX,
    ensures
        sheet_grid(frame_count as int, r.0 as int, r.1 as int),
        r.0 > 0,
{
    let columns = ceil_sqrt(frame_count);
    assert(columns <= 65536) by (nonlinear_arith)
        requires
            columns == 0 || (columns - 1) * (columns - 1) < frame_count,
            frame_count <= u32::MAX,
    ;
    let rows = (frame_count + columns - 1) / columns;
    (columns, rows)
}

/// The sum of a sequence of durations.
pub open spec fn duration_sum(s: Seq<u32>) -> int
    decreases s.len(),
{
    if s.len() == 0 {
        0
    } else {
        duration_sum(s.drop_last()) + s.last()
    }
}

proof fn lemma_duration_sum_prefix(s: Seq<u32>, i: int)
    requires
        0 <= i < s.len(),
    ensures
        duration_sum(s.take(i + 1)) == duration_sum(s.take(i)) + s[i],
        duration_sum(s.take(i)) <= duration_sum(s.take(i + 1)),
{
    assert(s.take(i + 1).drop_last() =~= s.take(i));
}

proof fn lemma_duration_sum_mono(s: Seq<u32>, i: int)
    requires
        0 <= i <= s.len(),
    ensures
        duration_sum(s.take(i)) <= duration_sum(s),
    decreases s.len() - i,
{
    if i < s.len() {
        lemma_duration_sum_prefix(s, i);
        lemma_duration_sum_mono(s, i + 1);
    } else {
        assert(s.take(i) =~= s);
    }
}

/// The total duration of the animation, in milliseconds.
pub fn total_duration_ms(durations: &Vec<u32>) -> (t: u32)
    requires
        duration_sum(durations@) <= u32::MAX,
    ensures
        t == duration_sum(durations@),
{
    let mut total: u32 = 0;
    let mut i: usize = 0;
    while i < durations.len()
        invariant
            i <= durations@.len(),
            duration_sum(durations@) <= u32::MAX,
            total == duration_sum(durations@.take(i as int)),
        decreases durations.len() - i,
    {
        proof {
            lemma_duration_sum_prefix(durations@, i as int);
            lemma_duration_sum_mono(durations@, i + 1);
        }
        total = total + durations[i];
        i = i + 1;
    }
    proof {
        assert(durations@.take(i as int) =~= durations@);
    }
    total
}

/// The timing entries of the sidecar: each frame's duration, numbered in order.
pub fn frame_timings(durations: &Vec<u32>) -> (r: Vec<FrameTiming>)
    ensures
        r@.len() == durations@.len(),
        forall|i: int|
            0 <= i < durations@.len() ==> #[trigger] r@[i] == (FrameTiming {
                index: i as usize,
                duration_ms: durations@[i],
            }),
{
    let mut out: Vec<FrameTiming> = Vec::new();
    let mut i: usize = 0;
    while i < durations.len()
        invariant
            i <= durations@.len(),
            out@.len() == i,
            forall|k: int|
                0 <= k < i ==> #[trigger] out@[k] == (FrameTiming { index: k as usize, duration_ms: durations@[k] }),
        decreases durations.len() - i,
    {
        out.push(FrameTiming { index: i, duration_ms: durations[i] });
        i = i + 1;
    }
    out
}

/// The file a frame asset is loaded from, relative to the assets directory.
pub fn frame_file_name(frame_asset_id: &str) -> (r: String)
    ensures
        r@ == frame_asset_id@ + ".png"@,
{
    let mut s = String::from_str(frame_asset_id);
    s.append(".png");
    s
}

/// The keys frames are packed under: `frame_0000`, `frame_0001`, ...
pub open spec fn frame_keys(n: nat) -> Seq<Seq<char>> {
    Seq::new(n, |i: int| "frame_"@ + zero_pad(decimal(i as nat), 4))
}

/// `k` is the first frame the packer refused.
pub open spec fn first_refused(f: Seq<Option<Seq<char>>>, k: int) -> bool {
    0 <= k < f.len() && f[k] is Some && forall|j: int| 0 <= j < k ==> f[j] is None
}

/// An exported animation sheet, before anything is written.
#[derive(Debug)]
pub struct AnimationSheet {
    /// The packed sheet.
    pub atlas: RgbaImage,
    /// Where each frame was placed (x, y, w, h).
    pub placements: Vec<Option<(u32, u32, u32, u32)>>,
    pub columns: u32,
    pub rows: u32,
    /// The size of the first frame.
    pub frame_width: u32,
    pub frame_height: u32,
    pub total_duration_ms: u32,
    pub frames: Vec<FrameTiming>,
}

/// Packs an animation's decoded frames (see `load_animation_frames`) into a
/// sheet of at most 4096 x 4096 with no padding or rotation, each under its
/// `frame_NNNN` key: the first frame the packer refuses fails the export.
/// Gives the sheet, the frame placements, the grid, the first frame's size,
/// the total duration and the per-frame timings.
pub fn export_animation(op: &AnimationExportOperation, frames: &Vec<RgbaImage>) -> (r: Result<AnimationSheet, String>)
    requires
        frames@.len() > 0,
        frames@.len() <= u32::MAX,
        forall|c: int| is_ceil_sqrt(frames@.len() as int, c) ==> frames@.len() + c <= u32::MAX,
        forall|i: int| 0 <= i < frames@.len() ==> packable(#[trigger] frames@[i], 4096),
        duration_sum(op.frame_durations_ms@) <= u32::MAX,
    ensures
        ({
            let keys = frame_keys(frames@.len());
            let packing = skyline_pack(frames_bytes(frames@), keys, 4096, 0, false);
            let sheet = skyline_atlas(frames_bytes(frames@), keys, 4096, 0, false);
            &&& forall|k: int| #[trigger] first_refused(packing.1, k) ==> (r matches Err(e) && e@ == "Failed to pack frame "@
                + decimal(k as nat) + ": "@ + packing.1[k]->0)
            &&& (forall|k: int| 0 <= k < packing.1.len() ==> #[trigger] packing.1[k] is None) && sheet is Err ==> (r matches Err(e)
                && e@ == "Failed to export atlas: "@ + sheet->Err_0)
            &&& (forall|k: int| 0 <= k < packing.1.len() ==> #[trigger] packing.1[k] is None) && sheet is Ok ==> (r matches Ok(s)
                && s.atlas.inv() && is_sheet_of(s.atlas, sheet) && s.placements@ == packing.0 && sheet_grid(
                frames@.len() as int,
                s.columns as int,
                s.rows as int,
            ) && s.columns > 0 && s.frame_width == frames@[0].spec_width() && s.frame_height == frames@[0].spec_height()
                && s.total_duration_ms == duration_sum(op.frame_durations_ms@) && s.frames@.len()
                == op.frame_durations_ms@.len() && forall|i: int|
                0 <= i < op.frame_durations_ms@.len() ==> #[trigger] s.frames@[i] == (FrameTiming {
                    index: i as usize,
                    duration_ms: op.frame_durations_ms@[i],
                }))
        }),
{
    let n = frames.len();
    let frame_count = n as u32;
    let frame_width = frames[0].width();
    let frame_height = frames[0].height();
    let (columns, rows) = grid_dimensions(frame_count);
    let mut keys: Vec<String> = Vec::new();
    let mut i: usize = 0;
    while i < n
        invariant
            n == frames@.len(),
            i <= n,
            keys@.len() == i,
            forall|j: int| 0 <= j < i ==> #[trigger] keys@[j]@ == "frame_"@ + zero_pad(decimal(j as nat), 4),
        decreases n - i,
    {
        keys.push(packing_key(i));
        i = i + 1;
    }
    proof {
        assert(crate::atlas::name_texts(keys@) =~= frame_keys(frames@.len()));
        assert((4096u32 + 0u32) * (4096u32 + 0u32) * 4 <= u32::MAX);
    }
    let packed = pack_frames(frames, &keys, 4096, 0, false);
    let ghost f = failure_texts(packed.failures@);
    assert(f == skyline_pack(frames_bytes(frames@), frame_keys(frames@.len()), 4096, 0, false).1);
    let mut k: usize = 0;
    while k < packed.failures.len()
        invariant
            k <= packed.failures@.len(),
            f == failure_texts(packed.failures@),
            f == skyline_pack(frames_bytes(frames@), frame_keys(frames@.len()), 4096, 0, false).1,
            forall|j: int| 0 <= j < k ==> f[j] is None,
        decreases packed.failures.len() - k,
    {
        match &packed.failures[k] {
            Some(e) => {
                let mut m = String::from_str("Failed to pack frame ");
                m.append(decimal_string(k as u64).as_str());
                m.append(": ");
                m.append(e.as_str());
                proof {
                    assert(f[k as int] == Some(e@));
                    assert(first_refused(f, k as int));
                    assert forall|k2: int| #[trigger] first_refused(f, k2) implies k2 == k by {
                        if k2 < k {
                            assert(f[k2] is None);
                        } else if k2 > k {
                            assert(f[k as int] is None);
                        }
                    }
                }
                return Err(m);
            },
            None => {},
        }
        k = k + 1;
    }
    proof {
        assert forall|k2: int| !first_refused(f, k2) by {}
    }
    let atlas = match packed.atlas {
        Ok(a) => a,
        Err(e) => {
            let mut m = String::from_str("Failed to export atlas: ");
            m.append(e.as_str());
            return Err(m);
        },
    };
    let total = total_duration_ms(&op.frame_durations_ms);
    let timings = frame_timings(&op.frame_durations_ms);
    Ok(AnimationSheet {
        atlas,
        placements: packed.placements,
        columns,
        rows,
        frame_width,
        frame_height,
        total_duration_ms: total,
        frames: timings,
    })
}

} // verus!
