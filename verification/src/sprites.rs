//! Sprite-sheet generation from video: output formats, file naming, frame
//! timing, the canonical and Aseprite manifests, and the reading of the
//! atlas packer's placements.

use vstd::prelude::*;
use crate::image::RgbaImage;
use crate::atlas::failure_texts;
use crate::animation::{first_refused, frame_keys};
use crate::codec::{frames_bytes, is_sheet_of, pack_frames, packable, skyline_atlas, skyline_pack};
use crate::text::{contains_str, decimal, decimal_string, str_eq, trim_end_matches, trim_suffix_all, zero_pad, zero_padded};

verus! {

/// Output format for sprite sheet manifests.
#[derive(Debug, Clone, Copy, PartialEq, Eq, Structural)]
pub enum OutputFormat {
    Json,
    Aseprite,
    Both,
}

impl OutputFormat {
    /// The default output format: both manifests.
    pub fn default() -> (f: OutputFormat)
        ensures
            f == OutputFormat::Both,
    {
        OutputFormat::Both
    }

    /// Whether the canonical JSON manifest is written.
    pub fn writes_json(&self) -> (r: bool)
        ensures
            r == (*self == OutputFormat::Json || *self == OutputFormat::Both),
    {
        match self {
            OutputFormat::Json | OutputFormat::Both => true,
            OutputFormat::Aseprite => false,
        }
    }

    /// Whether the Aseprite JSON is written.
    pub fn writes_aseprite(&self) -> (r: bool)
        ensures
            r == (*self == OutputFormat::Aseprite || *self == OutputFormat::Both),
    {
        match self {
            OutputFormat::Aseprite | OutputFormat::Both => true,
            OutputFormat::Json => false,
        }
    }

    /// The format's name as the job metadata records it.
    pub fn metadata_name(&self) -> (s: &'static str)
        ensures
            s@ == (match *self {
                OutputFormat::Json => "json"@,
                OutputFormat::Aseprite => "aseprite"@,
                OutputFormat::Both => "both"@,
            }),
    {
        match self {
            OutputFormat::Json => "json",
            OutputFormat::Aseprite => "aseprite",
            OutputFormat::Both => "both",
        }
    }
}

/// Worker for sprite sheet generation jobs.
pub struct SpriteWorker {
    /// Base directory for saving output assets.
    pub assets_dir: String,
}

impl SpriteWorker {
    /// Creates a new SpriteWorker.
    pub fn new(assets_dir: String) -> (w: SpriteWorker)
        ensures
            w.assets_dir == assets_dir,
    {
        SpriteWorker { assets_dir }
    }

    /// Returns true for sprite generation jobs.
    pub fn can_handle(&self, job_type: &str) -> (r: bool)
        ensures
            r == (job_type@ == "sprite_generate"@),
    {
        str_eq(job_type, "sprite_generate")
    }
}

/// Rectangle information for a packed frame.
#[derive(Debug, Clone, Copy, PartialEq, Eq, Structural)]
pub struct FrameRect {
    pub index: usize,
    pub x: u32,
    pub y: u32,
    pub w: u32,
    pub h: u32,
}

/// Milliseconds each frame is shown at `fps` frames per second (100 when fps is 0).
pub open spec fn frame_duration(fps: u8) -> u32 {
    if fps > 0 {
        (1000int / (fps as int)) as u32
    } else {
        100
    }
}

/// The duration of one frame, in milliseconds.
pub fn frame_duration_ms(fps: u8) -> (d: u32)
    ensures
        d == frame_duration(fps),
{
    if fps > 0 {
        1000 / fps as u32
    } else {
        100
    }
}

/// A frame of the canonical manifest.
#[derive(Debug, Clone, Copy, PartialEq, Eq, Structural)]
pub struct FrameEntry {
    pub index: usize,
    pub x: u32,
    pub y: u32,
    pub w: u32,
    pub h: u32,
    pub duration_ms: u32,
}

/// The canonical manifest's frames: each packed rectangle, numbered in
/// order, shown for the duration that `fps` gives.
pub fn canonical_frame_entries(rects: &Vec<FrameRect>, fps: u8) -> (r: Vec<FrameEntry>)
    ensures
        r@.len() == rects@.len(),
        forall|i: int|
            0 <= i < rects@.len() ==> #[trigger] r@[i] == (FrameEntry {
                index: i as usize,
                x: rects@[i].x,
                y: rects@[i].y,
                w: rects@[i].w,
                h: rects@[i].h,
                duration_ms: frame_duration(fps),
            }),
{
    let duration_ms = frame_duration_ms(fps);
    let mut out: Vec<FrameEntry> = Vec::new();
    let mut i: usize = 0;
    while i < rects.len()
        invariant
            i <= rects@.len(),
            duration_ms == frame_duration(fps),
            out@.len() == i,
            forall|k: int|
                0 <= k < i ==> #[trigger] out@[k] == (FrameEntry {
                    index: k as usize,
                    x: rects@[k].x,
                    y: rects@[k].y,
                    w: rects@[k].w,
                    h: rects@[k].h,
                    duration_ms: frame_duration(fps),
                }),
        decreases rects.len() - i,
    {
        let r = rects[i];
        out.push(FrameEntry { index: i, x: r.x, y: r.y, w: r.w, h: r.h, duration_ms });
        i = i + 1;
    }
    out
}

/// The files a sprite job writes, relative to its output directory.
#[derive(Debug)]
pub struct SpriteFileNames {
    /// `<animation>_<job>.png`
    pub atlas: String,
    /// `<atlas stem>.json`
    pub manifest: String,
    /// `<atlas stem>_aseprite.json`
    pub aseprite: String,
}

/// The atlas file name without its trailing `.png` (every trailing copy removed).
pub open spec fn atlas_stem(atlas: Seq<char>) -> Seq<char> {
    trim_suffix_all(atlas, ".png"@)
}

/// Names the atlas and its manifests after the animation and the job.
pub fn sprite_file_names(animation_name: &str, job_id: &str) -> (r: SpriteFileNames)
    ensures
        r.atlas@ == animation_name@ + "_"@ + job_id@ + ".png"@,
        r.manifest@ == atlas_stem(r.atlas@) + ".json"@,
        r.aseprite@ == atlas_stem(r.atlas@) + "_aseprite.json"@,
{
    let mut atlas = String::from_str(animation_name);
    atlas.append("_");
    atlas.append(job_id);
    atlas.append(".png");
    let stem = trim_end_matches(atlas.as_str(), ".png");
    let mut manifest = String::from_str(stem.as_str());
    manifest.append(".json");
    let mut aseprite = String::from_str(stem.as_str());
    aseprite.append("_aseprite.json");
    SpriteFileNames { atlas, manifest, aseprite }
}

/// A frame of the Aseprite JSON: its name, rectangle and duration.
#[derive(Debug)]
pub struct AsepriteFrame {
    pub name: String,
    pub x: u32,
    pub y: u32,
    pub w: u32,
    pub h: u32,
    pub duration: u32,
}

/// The Aseprite frames, in packing order, each named `<atlas stem>_<index>`.
pub fn aseprite_frames(rects: &Vec<FrameRect>, fps: u8, atlas_filename: &str) -> (r: Vec<AsepriteFrame>)
    ensures
        r@.len() == rects@.len(),
        forall|i: int|
            0 <= i < rects@.len() ==> {
                &&& #[trigger] r@[i].name@ == atlas_stem(atlas_filename@) + "_"@ + decimal(i as nat)
                &&& r@[i].x == rects@[i].x
                &&& r@[i].y == rects@[i].y
                &&& r@[i].w == rects@[i].w
                &&& r@[i].h == rects@[i].h
                &&& r@[i].duration == frame_duration(fps)
            },
{
    let duration = frame_duration_ms(fps);
    let stem = trim_end_matches(atlas_filename, ".png");
    let mut out: Vec<AsepriteFrame> = Vec::new();
    let mut i: usize = 0;
    while i < rects.len()
        invariant
            i <= rects@.len(),
            duration == frame_duration(fps),
            stem@ == atlas_stem(atlas_filename@),
            out@.len() == i,
            forall|k: int|
                0 <= k < i ==> {
                    &&& #[trigger] out@[k].name@ == atlas_stem(atlas_filename@) + "_"@ + decimal(k as nat)
                    &&& out@[k].x == rects@[k].x
                    &&& out@[k].y == rects@[k].y
                    &&& out@[k].w == rects@[k].w
                    &&& out@[k].h == rects@[k].h
                    &&& out@[k].duration == frame_duration(fps)
                },
        decreases rects.len() - i,
    {
        let r = rects[i];
        let mut name = String::from_str(stem.as_str());
        name.append("_");
        name.append(decimal_string(i as u64).as_str());
        assert(name@ == atlas_stem(atlas_filename@) + "_"@ + decimal(i as nat));
        let ghost old_out = out@;
        out.push(AsepriteFrame { name, x: r.x, y: r.y, w: r.w, h: r.h, duration });
        assert forall|k: int| 0 <= k < i implies #[trigger] out@[k] == old_out[k] by {}
        assert(out@[i as int].name@ == atlas_stem(atlas_filename@) + "_"@ + decimal(i as nat));
        assert(out@[i as int].x == rects@[i as int].x);
        assert(out@[i as int].duration == frame_duration(fps));
        i = i + 1;
    }
    out
}

/// The atlas size the Aseprite JSON declares: the far corner of the last
/// rectangle, or 0 x 0 without rectangles.
pub fn aseprite_size(rects: &Vec<FrameRect>) -> (r: (u32, u32))
    requires
        rects@.len() > 0 ==> rects@.last().x + rects@.last().w <= u32::MAX && rects@.last().y
            + rects@.last().h <= u32::MAX,
    ensures
        rects@.len() == 0 ==> r == (0u32, 0u32),
        rects@.len() > 0 ==> r == ((rects@.last().x + rects@.last().w) as u32, (rects@.last().y
            + rects@.last().h) as u32),
{
    if rects.len() == 0 {
        (0, 0)
    } else {
        let last = rects[rects.len() - 1];
        (last.x + last.w, last.y + last.h)
    }
}

/// The key a frame is packed under: `frame_` and its index in four digits.
pub fn packing_key(index: usize) -> (r: String)
    ensures
        r@ == "frame_"@ + zero_pad(decimal(index as nat), 4),
{
    let mut s = String::from_str("frame_");
    s.append(zero_padded(index as u64, 4).as_str());
    s
}

/// The packer's error is a geometry problem: the frame does not fit.
pub open spec fn is_fit_failure(debug: Seq<char>) -> bool {
    crate::text::contains_seq(debug, "Geometry"@) || crate::text::contains_seq(debug, "overflow"@)
        || crate::text::contains_seq(debug, "too large"@)
}

/// Tells apart, by the packer's debug text, a frame that does not fit from
/// any other packing failure.
pub fn is_fit_failure_text(debug: &str) -> (r: bool)
    ensures
        r == is_fit_failure(debug@),
{
    contains_str(debug, "Geometry") || contains_str(debug, "overflow") || contains_str(debug, "too large")
}

/// The error reported when frame `index` cannot be packed into the sprite atlas.
pub fn sprite_pack_error(index: usize, frame_w: u32, frame_h: u32, max_size: u32, padding: u8, debug: &str) -> (r: String)
    ensures
        is_fit_failure(debug@) ==> r@ == "Atlas too small: frame "@ + decimal(index as nat) + " ("@ + decimal(
            frame_w as nat,
        ) + "x"@ + decimal(frame_h as nat) + ") cannot fit in atlas of "@ + decimal(max_size as nat) + "x"@
            + decimal(max_size as nat) + " with "@ + decimal(padding as nat)
            + "px padding. Try increasing atlas_max_size or reducing frame count/size."@,
        !is_fit_failure(debug@) ==> r@ == "Failed to pack frame "@ + decimal(index as nat) + ": "@ + debug@,
{
    if is_fit_failure_text(debug) {
        let mut s = String::from_str("Atlas too small: frame ");
        s.append(decimal_string(index as u64).as_str());
        s.append(" (");
        s.append(decimal_string(frame_w as u64).as_str());
        s.append("x");
        s.append(decimal_string(frame_h as u64).as_str());
        s.append(") cannot fit in atlas of ");
        s.append(decimal_string(max_size as u64).as_str());
        s.append("x");
        s.append(decimal_string(max_size as u64).as_str());
        s.append(" with ");
        s.append(decimal_string(padding as u64).as_str());
        s.append("px padding. Try increasing atlas_max_size or reducing frame count/size.");
        s
    } else {
        let mut s = String::from_str("Failed to pack frame ");
        s.append(decimal_string(index as u64).as_str());
        s.append(": ");
        s.append(debug);
        s
    }
}

/// The frame rectangles read back from the packer, one per frame in order;
/// a frame the packer holds no placement for gets an empty rectangle at 0, 0.
pub fn frame_rects_from_placements(placements: &Vec<Option<(u32, u32, u32, u32)>>) -> (r: Vec<FrameRect>)
    ensures
        r@.len() == placements@.len(),
        forall|i: int|
            0 <= i < placements@.len() ==> #[trigger] r@[i] == (match placements@[i] {
                Some(p) => FrameRect { index: i as usize, x: p.0, y: p.1, w: p.2, h: p.3 },
                None => FrameRect { index: i as usize, x: 0, y: 0, w: 0, h: 0 },
            }),
{
    let mut out: Vec<FrameRect> = Vec::new();
    let mut i: usize = 0;
    while i < placements.len()
        invariant
            i <= placements@.len(),
            out@.len() == i,
            forall|k: int|
                0 <= k < i ==> #[trigger] out@[k] == (match placements@[k] {
                    Some(p) => FrameRect { index: k as usize, x: p.0, y: p.1, w: p.2, h: p.3 },
                    None => FrameRect { index: k as usize, x: 0, y: 0, w: 0, h: 0 },
                }),
        decreases placements.len() - i,
    {
        let rect = match placements[i] {
            Some(p) => FrameRect { index: i, x: p.0, y: p.1, w: p.2, h: p.3 },
            None => FrameRect { index: i, x: 0, y: 0, w: 0, h: 0 },
        };
        out.push(rect);
        i = i + 1;
    }
    out
}

/// The text `sprite_pack_error` gives.
pub open spec fn sprite_pack_error_text(index: int, frame_w: u32, frame_h: u32, max_size: u32, padding: u8, debug: Seq<char>) -> Seq<char> {
    if is_fit_failure(debug) {
        "Atlas too small: frame "@ + decimal(index as nat) + " ("@ + decimal(frame_w as nat) + "x"@ + decimal(frame_h as nat)
            + ") cannot fit in atlas of "@ + decimal(max_size as nat) + "x"@ + decimal(max_size as nat) + " with "@
            + decimal(padding as nat) + "px padding. Try increasing atlas_max_size or reducing frame count/size."@
    } else {
        "Failed to pack frame "@ + decimal(index as nat) + ": "@ + debug
    }
}

/// A packed sprite sheet, before anything is written.
#[derive(Debug)]
pub struct SpriteSheet {
    /// The packed sheet.
    pub atlas: RgbaImage,
    /// Where each frame was placed, in frame order.
    pub rects: Vec<FrameRect>,
}

/// The frame rectangle for frame `i` placed at `p` (or nowhere).
pub open spec fn rect_of(i: int, p: Option<(u32, u32, u32, u32)>) -> FrameRect {
    match p {
        Some(q) => FrameRect { index: i as usize, x: q.0, y: q.1, w: q.2, h: q.3 },
        None => FrameRect { index: i as usize, x: 0, y: 0, w: 0, h: 0 },
    }
}

/// Packs the extracted frames of a sprite job into one sheet of at most
/// `atlas_max_size` with `padding` and no rotation, each under its
/// `frame_NNNN` key. No frames, the first frame the packer refuses (named
/// with its size), or a failed export end the job with an error.
pub fn pack_sprite_sheet(frames: &Vec<RgbaImage>, atlas_max_size: u32, padding: u8) -> (r: Result<SpriteSheet, String>)
    requires
        1 <= atlas_max_size,
        (atlas_max_size + 2 * padding) * (atlas_max_size + 2 * padding) * 4 <= u32::MAX,
        forall|i: int| 0 <= i < frames@.len() ==> packable(#[trigger] frames@[i], atlas_max_size),
    ensures
        ({
            let keys = frame_keys(frames@.len());
            let packing = skyline_pack(frames_bytes(frames@), keys, atlas_max_size, padding as u32, false);
            let sheet = skyline_atlas(frames_bytes(frames@), keys, atlas_max_size, padding as u32, false);
            &&& frames@.len() == 0 ==> (r matches Err(e) && e@ == "No frames to pack"@)
            &&& forall|k: int| 0 <= k < frames@.len() && #[trigger] first_refused(packing.1, k) ==> (r matches Err(e) && e@ == sprite_pack_error_text(
                k,
                frames@[k].spec_width() as u32,
                frames@[k].spec_height() as u32,
                atlas_max_size,
                padding,
                packing.1[k]->0,
            ))
            &&& frames@.len() > 0 && (forall|k: int| 0 <= k < packing.1.len() ==> #[trigger] packing.1[k] is None) && sheet is Err
                ==> (r matches Err(e) && e@ == "Failed to export atlas: "@ + sheet->Err_0)
            &&& frames@.len() > 0 && (forall|k: int| 0 <= k < packing.1.len() ==> #[trigger] packing.1[k] is None) && sheet is Ok
                ==> (r matches Ok(s) && s.atlas.inv() && is_sheet_of(s.atlas, sheet) && s.rects@.len() == frames@.len()
                && forall|i: int| 0 <= i < frames@.len() ==> #[trigger] s.rects@[i] == rect_of(i, packing.0[i]))
        }),
{
    let n = frames.len();
    if n == 0 {
        return Err(String::from_str("No frames to pack"));
    }
    let mut keys: Vec<String> = Vec::new();
    let mut i: usize = 0;
    while i < n
        invariant
            n == frames@.len(),
            i <= n,
            keys@.len() == i,
            forall|j: int| 0 <= j < i ==> #[trigger] keys@[j]@ == "frame_"@ + zero_pad(decimal(j as nat), 4),
        decreases n - i,
    {
        keys.push(packing_key(i));
        i = i + 1;
    }
    proof {
        assert(crate::atlas::name_texts(keys@) =~= frame_keys(frames@.len()));
    }
    let packed = pack_frames(frames, &keys, atlas_max_size, padding as u32, false);
    let ghost f = failure_texts(packed.failures@);
    let mut k: usize = 0;
    while k < packed.failures.len()
        invariant
            k <= packed.failures@.len(),
            packed.failures@.len() == frames@.len(),
            f == failure_texts(packed.failures@),
            f == skyline_pack(frames_bytes(frames@), frame_keys(frames@.len()), atlas_max_size, padding as u32, false).1,
            forall|j: int| 0 <= j < k ==> f[j] is None,
        decreases packed.failures.len() - k,
    {
        match &packed.failures[k] {
            Some(e) => {
                let m = sprite_pack_error(k, frames[k].width(), frames[k].height(), atlas_max_size, padding, e.as_str());
                proof {
                    assert(f[k as int] == Some(e@));
                    assert forall|k2: int| #[trigger] first_refused(f, k2) implies k2 == k by {
                        if k2 < k {
                            assert(f[k2] is None);
                        } else if k2 > k {
                            assert(f[k as int] is None);
                        }
                    }
                }
                return Err(m);
            },
            None => {},
        }
        k = k + 1;
    }
    proof {
        assert forall|k2: int| !first_refused(f, k2) by {}
    }
    let atlas = match packed.atlas {
        Ok(a) => a,
        Err(e) => {
            let mut m = String::from_str("Failed to export atlas: ");
            m.append(e.as_str());
            return Err(m);
        },
    };
    let rects = frame_rects_from_placements(&packed.placements);
    Ok(SpriteSheet { atlas, rects })
}

} // verus!
