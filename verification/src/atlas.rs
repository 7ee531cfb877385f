//! Texture-atlas packing jobs: option validation, the verdict on the
//! packer's per-asset results, and the manifest of packed regions.

use vstd::prelude::*;
use crate::text::{decimal, decimal_string, str_eq};
use crate::sprites::is_fit_failure_text;
use crate::image::RgbaImage;
use crate::codec::{frames_bytes, is_sheet_of, pack_frames, packable, skyline_atlas, skyline_pack};

verus! {

/// Packing options of an atlas job.
#[derive(Debug)]
pub struct PackAtlasOptions {
    pub max_size: u32,
    pub padding: u32,
    pub allow_rotation: bool,
    pub sort_mode: String,
}

/// Source asset info embedded in the pack operation.
#[derive(Debug)]
pub struct PackAtlasSourceAsset {
    pub asset_id: String,
    pub name: String,
    pub file_path: String,
}

/// Operation payload for atlas pack jobs.
#[derive(Debug)]
pub struct PackAtlasOperation {
    pub project_id: String,
    pub atlas_name: String,
    pub source_assets: Vec<PackAtlasSourceAsset>,
    pub options: PackAtlasOptions,
}

/// Region within an atlas manifest.
#[derive(Debug)]
pub struct AtlasRegion {
    pub asset_id: String,
    pub name: String,
    pub x: u32,
    pub y: u32,
    pub w: u32,
    pub h: u32,
    pub source_width: u32,
    pub source_height: u32,
    pub rotated: bool,
}

/// Atlas manifest structure.
#[derive(Debug)]
pub struct AtlasManifest {
    pub version: u32,
    pub atlas_name: String,
    pub atlas_width: u32,
    pub atlas_height: u32,
    pub regions: Vec<AtlasRegion>,
}

/// Worker for packing texture atlases.
pub struct AtlasPackWorker {
    /// Base directory for assets.
    pub assets_dir: String,
}

impl AtlasPackWorker {
    /// Creates a new AtlasPackWorker.
    pub fn new(assets_dir: String) -> (w: AtlasPackWorker)
        ensures
            w.assets_dir == assets_dir,
    {
        AtlasPackWorker { assets_dir }
    }

    /// Returns true for atlas packing jobs.
    pub fn can_handle(&self, job_type: &str) -> (r: bool)
        ensures
            r == (job_type@ == "pack_atlas"@),
    {
        str_eq(job_type, "pack_atlas")
    }
}

/// The atlas sizes a job may ask for.
pub open spec fn valid_max_sizes() -> Seq<u32> {
    seq![512u32, 1024u32, 2048u32, 4096u32]
}

/// The atlas sizes a job may ask for: 512, 1024, 2048 and 4096.
pub fn valid_max_size_list() -> (r: Vec<u32>)
    ensures
        r@ == valid_max_sizes(),
{
    let mut v: Vec<u32> = Vec::new();
    v.push(512);
    v.push(1024);
    v.push(2048);
    v.push(4096);
    assert(v@ =~= valid_max_sizes());
    v
}

/// Whether `max_size` is one of the valid atlas sizes.
pub fn is_valid_max_size(max_size: u32) -> (r: bool)
    ensures
        r == valid_max_sizes().contains(max_size),
{
    let sizes = valid_max_size_list();
    let mut i: usize = 0;
    while i < sizes.len()
        invariant
            sizes@ == valid_max_sizes(),
            i <= sizes@.len(),
            forall|j: int| 0 <= j < i ==> sizes@[j] != max_size,
        decreases sizes.len() - i,
    {
        if sizes[i] == max_size {
            return true;
        }
        i = i + 1;
    }
    false
}

/// Checks the requested atlas size, with the message the job fails with otherwise.
pub fn check_max_size(max_size: u32) -> (r: Result<(), String>)
    ensures
        r is Ok <==> valid_max_sizes().contains(max_size),
        r matches Err(e) ==> e@ == "invalid max_size: "@ + decimal(max_size as nat)
            + " (must be one of [512, 1024, 2048, 4096])"@,
{
    if is_valid_max_size(max_size) {
        Ok(())
    } else {
        let mut e = String::from_str("invalid max_size: ");
        e.append(decimal_string(max_size as u64).as_str());
        e.append(" (must be one of [512, 1024, 2048, 4096])");
        Err(e)
    }
}

/// The texts of a list of strings joined with ", ".
pub open spec fn joined(names: Seq<Seq<char>>) -> Seq<char>
    decreases names.len(),
{
    if names.len() == 0 {
        Seq::empty()
    } else if names.len() == 1 {
        names[0]
    } else {
        joined(names.drop_last()) + ", "@ + names.last()
    }
}

/// The names of the assets whose packing failed because they did not fit,
/// in order.
pub open spec fn unfit_names(names: Seq<Seq<char>>, failures: Seq<Option<Seq<char>>>, n: int) -> Seq<Seq<char>>
    decreases n,
{
    if n <= 0 {
        Seq::empty()
    } else {
        let prev = unfit_names(names, failures, n - 1);
        match failures[n - 1] {
            Some(d) => if crate::sprites::is_fit_failure(d) {
                prev.push(names[n - 1])
            } else {
                prev
            },
            None => prev,
        }
    }
}

/// The first asset, among the first `n`, whose packing failed for another
/// reason than fit.
pub open spec fn first_hard_failure(failures: Seq<Option<Seq<char>>>, n: int) -> Option<int>
    decreases n,
{
    if n <= 0 {
        None
    } else {
        match first_hard_failure(failures, n - 1) {
            Some(k) => Some(k),
            None => match failures[n - 1] {
                Some(d) => if !crate::sprites::is_fit_failure(d) {
                    Some(n - 1)
                } else {
                    None
                },
                None => None,
            },
        }
    }
}

/// The texts of optional strings.
pub open spec fn failure_texts(v: Seq<Option<String>>) -> Seq<Option<Seq<char>>> {
    v.map_values(|o: Option<String>| match o {
        Some(s) => Some(s@),
        None => None,
    })
}

/// The texts of strings.
pub open spec fn name_texts(v: Seq<String>) -> Seq<Seq<char>> {
    v.map_values(|s: String| s@)
}

/// Decides a packing run from the packer's result for each asset, in
/// packing order (`None` for success, else the packer's debug text): the
/// first failure that is not a fit problem fails the job naming that asset;
/// otherwise, if some assets did not fit, the job fails listing them all.
pub fn pack_verdict(names: &Vec<String>, failures: &Vec<Option<String>>) -> (r: Result<(), String>)
    requires
        names@.len() == failures@.len(),
    ensures
        ({
            let n = names@.len() as int;
            let f = failure_texts(failures@);
            let ns = name_texts(names@);
            match first_hard_failure(f, n) {
                Some(k) => r matches Err(e) && e@ == "Failed to pack frame '"@ + ns[k] + "': "@ + f[k]->0,
                None => if unfit_names(ns, f, n).len() > 0 {
                    r matches Err(e) && e@ == "Atlas overflow: these assets could not fit: "@ + joined(
                        unfit_names(ns, f, n),
                    )
                } else {
                    r is Ok
                },
            }
        }),
{
    let ghost f = failure_texts(failures@);
    let ghost ns = name_texts(names@);
    let mut unfit = String::new();
    let mut count: usize = 0;
    let mut i: usize = 0;
    while i < names.len()
        invariant
            names@.len() == failures@.len(),
            f == failure_texts(failures@),
            ns == name_texts(names@),
            i <= names@.len(),
            first_hard_failure(f, i as int) is None,
            count == unfit_names(ns, f, i as int).len(),
            count <= i,
            unfit@ == joined(unfit_names(ns, f, i as int)),
        decreases names.len() - i,
    {
        match &failures[i] {
            Some(d) => {
                if is_fit_failure_text(d.as_str()) {
                    if count > 0 {
                        unfit.append(", ");
                    }
                    unfit.append(names[i].as_str());
                    proof {
                        let prev = unfit_names(ns, f, i as int);
                        let next = unfit_names(ns, f, i + 1);
                        assert(next == prev.push(ns[i as int]));
                        if prev.len() > 0 {
                            assert(next.drop_last() == prev);
                        }
                    }
                    count = count + 1;
                } else {
                    let mut e = String::from_str("Failed to pack frame '");
                    e.append(names[i].as_str());
                    e.append("': ");
                    e.append(d.as_str());
                    proof {
                        assert(first_hard_failure(f, i + 1) == Some(i as int));
                        assert(first_hard_failure(f, names@.len() as int) == Some(i as int)) by {
                            lemma_first_hard_failure_stays(f, i + 1, names@.len() as int);
                        }
                    }
                    return Err(e);
                }
            },
            None => {},
        }
        i = i + 1;
    }
    if count > 0 {
        let mut e = String::from_str("Atlas overflow: these assets could not fit: ");
        e.append(unfit.as_str());
        Err(e)
    } else {
        Ok(())
    }
}

proof fn lemma_first_hard_failure_stays(f: Seq<Option<Seq<char>>>, m: int, n: int)
    requires
        0 <= m <= n,
        first_hard_failure(f, m) is Some,
    ensures
        first_hard_failure(f, n) == first_hard_failure(f, m),
    decreases n - m,
{
    if m < n {
        lemma_first_hard_failure_stays(f, m, n - 1);
    }
}

/// A packed asset as the manifest needs it: id, name and source size.
#[derive(Debug)]
pub struct PackedSource {
    pub asset_id: String,
    pub name: String,
    pub width: u32,
    pub height: u32,
}

/// The region describes the source asset placed at `p` (x, y, w, h).
pub open spec fn region_of(r: AtlasRegion, s: PackedSource, p: (u32, u32, u32, u32)) -> bool {
    &&& r.asset_id@ == s.asset_id@
    &&& r.name@ == s.name@
    &&& r.x == p.0
    &&& r.y == p.1
    &&& r.w == p.2
    &&& r.h == p.3
    &&& r.source_width == s.width
    &&& r.source_height == s.height
}

/// The manifest regions: one per asset the packer placed, in input order,
/// never marked rotated.
pub fn atlas_regions(sources: &Vec<PackedSource>, placements: &Vec<Option<(u32, u32, u32, u32)>>) -> (r: Vec<AtlasRegion>)
    requires
        sources@.len() == placements@.len(),
    ensures
        r@.len() == placements@.filter(|p: Option<(u32, u32, u32, u32)>| p is Some).len(),
        forall|k: int| 0 <= k < r@.len() ==> !(#[trigger] r@[k]).rotated,
        exists|idx: Seq<int>|
            #![trigger idx.len()]
            idx.len() == r@.len() && (forall|k: int, l: int| 0 <= k < l < idx.len() ==> idx[k] < idx[l]) && (forall|k: int|
                0 <= k < idx.len() ==> 0 <= #[trigger] idx[k] < placements@.len() && placements@[idx[k]] is Some
                    && region_of(r@[k], sources@[idx[k]], placements@[idx[k]]->0)) && (forall|j: int|
                0 <= j < placements@.len() && placements@[j] is Some ==> exists|k: int|
                    0 <= k < idx.len() && idx[k] == j),
{
    let ghost pred = |p: Option<(u32, u32, u32, u32)>| p is Some;
    let mut out: Vec<AtlasRegion> = Vec::new();
    let ghost mut idx: Seq<int> = Seq::empty();
    let mut i: usize = 0;
    while i < sources.len()
        invariant
            sources@.len() == placements@.len(),
            i <= sources@.len(),
            pred == (|p: Option<(u32, u32, u32, u32)>| p is Some),
            out@.len() == placements@.take(i as int).filter(pred).len(),
            idx.len() == out@.len(),
            forall|k: int| 0 <= k < out@.len() ==> !(#[trigger] out@[k]).rotated,
            forall|k: int, l: int| 0 <= k < l < idx.len() ==> idx[k] < idx[l],
            forall|k: int|
                0 <= k < idx.len() ==> 0 <= #[trigger] idx[k] < i && placements@[idx[k]] is Some
                    && region_of(out@[k], sources@[idx[k]], placements@[idx[k]]->0),
            forall|j: int| 0 <= j < i && placements@[j] is Some ==> exists|k: int| 0 <= k < idx.len() && idx[k] == j,
        decreases sources.len() - i,
    {
        proof {
            assert(placements@.take(i + 1).drop_last() =~= placements@.take(i as int));
            reveal(Seq::filter);
        }
        match placements[i] {
            Some(p) => {
                let s = &sources[i];
                let ghost old_out = out@;
                let ghost old_idx = idx;
                out.push(AtlasRegion {
                    asset_id: s.asset_id.clone(),
                    name: s.name.clone(),
                    x: p.0,
                    y: p.1,
                    w: p.2,
                    h: p.3,
                    source_width: s.width,
                    source_height: s.height,
                    rotated: false,
                });
                proof {
                    idx = idx.push(i as int);
                    assert forall|k: int| 0 <= k < old_out.len() implies #[trigger] out@[k] == old_out[k]
                        && idx[k] == old_idx[k] by {}
                    assert(idx[old_idx.len() as int] == i);
                    assert forall|j: int| 0 <= j < i + 1 && placements@[j] is Some implies exists|k: int|
                        0 <= k < idx.len() && idx[k] == j by {
                        if j < i {
                            let k = choose|k: int| 0 <= k < old_idx.len() && old_idx[k] == j;
                            assert(idx[k] == j);
                        } else {
                            assert(idx[old_idx.len() as int] == j);
                        }
                    }
                }
            },
            None => {},
        }
        i = i + 1;
    }
    proof {
        assert(placements@.take(i as int) =~= placements@);
    }
    out
}

/// Builds the manifest of a packed atlas (format version 1).
pub fn atlas_manifest(atlas_name: &str, atlas_width: u32, atlas_height: u32, regions: Vec<AtlasRegion>) -> (m: AtlasManifest)
    ensures
        m.version == 1,
        m.atlas_name@ == atlas_name@,
        m.atlas_width == atlas_width,
        m.atlas_height == atlas_height,
        m.regions@ == regions@,
{
    AtlasManifest {
        version: 1,
        atlas_name: String::from_str(atlas_name),
        atlas_width,
        atlas_height,
        regions,
    }
}

/// The verdict `pack_verdict` gives: the error, or `None` when the run is
/// accepted.
pub open spec fn verdict_error(ns: Seq<Seq<char>>, f: Seq<Option<Seq<char>>>) -> Option<Seq<char>> {
    let n = ns.len() as int;
    match first_hard_failure(f, n) {
        Some(k) => Some("Failed to pack frame '"@ + ns[k] + "': "@ + f[k]->0),
        None => if unfit_names(ns, f, n).len() > 0 {
            Some("Atlas overflow: these assets could not fit: "@ + joined(unfit_names(ns, f, n)))
        } else {
            None
        },
    }
}

/// `r` lists, in input order, a region for each placed source, as
/// `atlas_regions` builds them.
pub open spec fn regions_of(r: Seq<AtlasRegion>, sources: Seq<PackedSource>, placements: Seq<Option<(u32, u32, u32, u32)>>) -> bool {
    &&& r.len() == placements.filter(|p: Option<(u32, u32, u32, u32)>| p is Some).len()
    &&& forall|k: int| 0 <= k < r.len() ==> !(#[trigger] r[k]).rotated
    &&& exists|idx: Seq<int>|
        #![trigger idx.len()]
        idx.len() == r.len() && (forall|k: int, l: int| 0 <= k < l < idx.len() ==> idx[k] < idx[l]) && (forall|k: int|
            0 <= k < idx.len() ==> 0 <= #[trigger] idx[k] < placements.len() && placements[idx[k]] is Some
                && region_of(r[k], sources[idx[k]], placements[idx[k]]->0)) && (forall|j: int|
            0 <= j < placements.len() && placements[j] is Some ==> exists|k: int| 0 <= k < idx.len() && idx[k] == j)
}

/// The packed sources of a job: each asset with the size of its decoded image.
pub open spec fn sources_of(src: Seq<PackedSource>, assets: Seq<PackAtlasSourceAsset>, frames: Seq<RgbaImage>) -> bool {
    &&& src.len() == assets.len()
    &&& forall|i: int|
        0 <= i < src.len() ==> (#[trigger] src[i]).asset_id@ == assets[i].asset_id@ && src[i].name@ == assets[i].name@
            && src[i].width == frames[i].spec_width() && src[i].height == frames[i].spec_height()
}

/// The asset names of a job, which are the packing keys.
pub open spec fn asset_names(assets: Seq<PackAtlasSourceAsset>) -> Seq<Seq<char>> {
    assets.map_values(|a: PackAtlasSourceAsset| a.name@)
}

/// Packs an atlas job's decoded sources (see `load_atlas_sources`) under
/// their names with the job's options, rejects the run as `pack_verdict`
/// does, and builds the sheet and its manifest: the sheet's size, and one
/// region per placed asset.
pub fn pack_atlas(op: &PackAtlasOperation, frames: &Vec<RgbaImage>) -> (r: Result<(RgbaImage, AtlasManifest), String>)
    requires
        frames@.len() == op.source_assets@.len(),
        valid_max_sizes().contains(op.options.max_size),
        (op.options.max_size + 2 * op.options.padding) * (op.options.max_size + 2 * op.options.padding) * 4 <= u32::MAX,
        forall|i: int| 0 <= i < frames@.len() ==> packable(#[trigger] frames@[i], op.options.max_size),
    ensures
        ({
            let packing = skyline_pack(
                frames_bytes(frames@),
                asset_names(op.source_assets@),
                op.options.max_size,
                op.options.padding,
                op.options.allow_rotation,
            );
            let sheet = skyline_atlas(
                frames_bytes(frames@),
                asset_names(op.source_assets@),
                op.options.max_size,
                op.options.padding,
                op.options.allow_rotation,
            );
            &&& verdict_error(asset_names(op.source_assets@), packing.1) matches Some(m) ==> (r matches Err(e) && e@ == m)
            &&& verdict_error(asset_names(op.source_assets@), packing.1) is None && sheet is Err ==> (r matches Err(e)
                && e@ == "Failed to export atlas: "@ + sheet->Err_0)
            &&& verdict_error(asset_names(op.source_assets@), packing.1) is None && sheet is Ok ==> (r matches Ok(out)
                && out.0.inv() && is_sheet_of(out.0, sheet) && out.1.version == 1 && out.1.atlas_name@ == op.atlas_name@
                && out.1.atlas_width == out.0.spec_width() && out.1.atlas_height == out.0.spec_height() && exists|
                src: Seq<PackedSource>,
            | sources_of(src, op.source_assets@, frames@) && regions_of(out.1.regions@, src, packing.0))
        }),
{
    let mut names: Vec<String> = Vec::new();
    let mut sources: Vec<PackedSource> = Vec::new();
    let mut i: usize = 0;
    while i < op.source_assets.len()
        invariant
            i <= op.source_assets@.len(),
            frames@.len() == op.source_assets@.len(),
            names@.len() == i,
            sources@.len() == i,
            forall|j: int| 0 <= j < i ==> #[trigger] names@[j]@ == op.source_assets@[j].name@,
            forall|j: int|
                0 <= j < i ==> (#[trigger] sources@[j]).asset_id@ == op.source_assets@[j].asset_id@ && sources@[j].name@
                    == op.source_assets@[j].name@ && sources@[j].width == frames@[j].spec_width() && sources@[j].height
                    == frames@[j].spec_height(),
        decreases op.source_assets.len() - i,
    {
        let a = &op.source_assets[i];
        names.push(a.name.clone());
        sources.push(PackedSource {
            asset_id: a.asset_id.clone(),
            name: a.name.clone(),
            width: frames[i].width(),
            height: frames[i].height(),
        });
        i = i + 1;
    }
    proof {
        assert(name_texts(names@) =~= asset_names(op.source_assets@));
        assert(sources_of(sources@, op.source_assets@, frames@));
        assert(valid_max_sizes().contains(op.options.max_size) ==> 1 <= op.options.max_size) by {
            if valid_max_sizes().contains(op.options.max_size) {
                let k = choose|k: int| 0 <= k < valid_max_sizes().len() && valid_max_sizes()[k] == op.options.max_size;
            }
        }
    }
    let packed = pack_frames(frames, &names, op.options.max_size, op.options.padding, op.options.allow_rotation);
    pack_verdict(&names, &packed.failures)?;
    let atlas = match packed.atlas {
        Ok(a) => a,
        Err(e) => {
            let mut m = String::from_str("Failed to export atlas: ");
            m.append(e.as_str());
            return Err(m);
        },
    };
    let regions = atlas_regions(&sources, &packed.placements);
    let manifest = atlas_manifest(op.atlas_name.as_str(), atlas.width(), atlas.height(), regions);
    Ok((atlas, manifest))
}

} // verus!
