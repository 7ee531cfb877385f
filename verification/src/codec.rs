//! Decoding image files into plain RGBA images, and packing frames into an
//! atlas with `texture_packer`'s skyline packer. Both are done by the
//! outside crates; this module converts between their byte buffers and the
//! library's images, and names what they compute.

use vstd::prelude::*;
use crate::atlas::{failure_texts, name_texts};
use crate::image::{Rgba, RgbaImage};
use texture_packer::exporter::ImageExporter;
use texture_packer::{TexturePacker, TexturePackerConfig};

verus! {

/// Channel `k` (0 red, 1 green, 2 blue, 3 alpha) of a pixel.
pub open spec fn channel(px: Rgba, k: int) -> u8 {
    if k == 0 {
        px.r
    } else if k == 1 {
        px.g
    } else if k == 2 {
        px.b
    } else {
        px.a
    }
}

/// Pixels as a row-major RGBA8 byte buffer.
pub open spec fn bytes_of(p: Seq<Rgba>) -> Seq<u8> {
    Seq::new(p.len() * 4, |i: int| channel(p[i / 4], i % 4))
}

/// An RGBA8 byte buffer as pixels, four bytes each.
pub open spec fn pixels_of(b: Seq<u8>) -> Seq<Rgba> {
    Seq::new(b.len() / 4, |i: int| Rgba { r: b[4 * i], g: b[4 * i + 1], b: b[4 * i + 2], a: b[4 * i + 3] })
}

fn flatten(p: &Vec<Rgba>) -> (out: Vec<u8>)
    requires
        p@.len() * 4 <= usize::MAX,
    ensures
        out@ == bytes_of(p@),
{
    let mut out: Vec<u8> = Vec::new();
    let mut i: usize = 0;
    while i < p.len()
        invariant
            i <= p@.len(),
            p@.len() * 4 <= usize::MAX,
            out@.len() == 4 * i,
            forall|j: int| 0 <= j < 4 * i ==> #[trigger] out@[j] == channel(p@[j / 4], j % 4),
        decreases p.len() - i,
    {
        let px = p[i];
        out.push(px.r);
        out.push(px.g);
        out.push(px.b);
        out.push(px.a);
        i = i + 1;
    }
    assert(out@ =~= bytes_of(p@));
    out
}

fn unflatten(b: &Vec<u8>) -> (out: Vec<Rgba>)
    ensures
        out@ == pixels_of(b@),
{
    let bl: usize = b.len();
    let n = bl / 4;
    let mut out: Vec<Rgba> = Vec::new();
    let mut i: usize = 0;
    while i < n
        invariant
            bl == b@.len(),
            n == b@.len() / 4,
            i <= n,
            out@.len() == i,
            forall|j: int| 0 <= j < i ==> #[trigger] out@[j] == (Rgba {
                r: b@[4 * j],
                g: b@[4 * j + 1],
                b: b@[4 * j + 2],
                a: b@[4 * j + 3],
            }),
        decreases n - i,
    {
        assert(4 * i + 3 < b@.len());
        let k: usize = 4 * i;
        out.push(Rgba { r: b[k], g: b[k + 1], b: b[k + 2], a: b[k + 3] });
        i = i + 1;
    }
    assert(out@ =~= pixels_of(b@));
    out
}

/// What `image::load_from_memory` followed by `into_rgba8` makes of a file's
/// bytes: width, height and the RGBA8 buffer, or the decoder's error text.
pub uninterp spec fn decoded_raw(bytes: Seq<u8>) -> Result<(u32, u32, Seq<u8>), Seq<char>>;

/// A decoded buffer, or an error, by their views.
pub open spec fn raw_view(r: Result<(u32, u32, Vec<u8>), String>) -> Result<(u32, u32, Seq<u8>), Seq<char>> {
    match r {
        Ok(t) => Ok((t.0, t.1, t.2@)),
        Err(e) => Err(e@),
    }
}

/// Decodes with `image::load_from_memory` (format guessed from the bytes) and
/// converts to RGBA8 with `DynamicImage::into_rgba8`. The outcome is named
/// `decoded_raw` of the bytes; the buffer of an `ImageBuffer` holds four bytes
/// per pixel, which is claimed too. Decoding errors come back as `Err` with
/// the error's `Display` text.
#[verifier::external_body]
fn decode_raw(bytes: &[u8]) -> (r: Result<(u32, u32, Vec<u8>), String>)
    ensures
        raw_view(r) == decoded_raw(bytes@),
        r matches Ok(t) ==> t.2@.len() == t.0 * t.1 * 4,
{
    match image::load_from_memory(bytes) {
        Ok(d) => {
            let b = d.into_rgba8();
            Ok((b.width(), b.height(), b.into_raw()))
        },
        Err(e) => Err(e.to_string()),
    }
}

/// The image a file's bytes decode to, as width, height and pixels.
pub open spec fn decoded_rgba(bytes: Seq<u8>) -> Option<(u32, u32, Seq<Rgba>)> {
    match decoded_raw(bytes) {
        Ok(t) => Some((t.0, t.1, pixels_of(t.2))),
        Err(_) => None,
    }
}

/// Decodes an image file's bytes into an RGBA image; the error is the
/// decoder's message.
pub fn decode_rgba(bytes: &[u8]) -> (r: Result<RgbaImage, String>)
    ensures
        r is Ok <==> decoded_rgba(bytes@) is Some,
        r matches Ok(img) ==> img.inv() && decoded_rgba(bytes@) == Some(
            (img.spec_width() as u32, img.spec_height() as u32, img.pixels_seq()),
        ),
        r matches Ok(img) ==> img.spec_width() * img.spec_height() * 4 <= usize::MAX,
        r matches Err(e) ==> decoded_raw(bytes@) == Err::<(u32, u32, Seq<u8>), Seq<char>>(e@),
{
    match decode_raw(bytes) {
        Ok((w, h, buf)) => {
            let bl: usize = buf.len();
            assert(w * h * 4 <= usize::MAX);
            let pixels = unflatten(&buf);
            assert(pixels@.len() == w as int * h as int) by (nonlinear_arith)
                requires
                    pixels@.len() == buf@.len() / 4,
                    buf@.len() == w * h * 4,
            ;
            match RgbaImage::from_pixels(w, h, pixels) {
                Some(img) => Ok(img),
                None => Err(String::new()),
            }
        },
        Err(e) => Err(e),
    }
}

/// Frame buffers by their views.
pub open spec fn raw_frames(v: Seq<(u32, u32, Vec<u8>)>) -> Seq<(u32, u32, Seq<u8>)> {
    v.map_values(|t: (u32, u32, Vec<u8>)| (t.0, t.1, t.2@))
}

/// What `texture_packer`'s skyline packer does with RGBA8 frames (width,
/// height, buffer) packed in order under the given keys, in a square of
/// `max_size` with `border_padding` `padding`, `allow_rotation` `rotate` and
/// the other settings at their defaults (trimming on, texture padding 2):
/// per key, the rectangle `get_frame` reports, and per frame, the `{:?}`
/// text of the error `pack_own` returned.
pub uninterp spec fn skyline_pack(
    frames: Seq<(u32, u32, Seq<u8>)>,
    keys: Seq<Seq<char>>,
    max_size: u32,
    padding: u32,
    rotate: bool,
) -> (Seq<Option<(u32, u32, u32, u32)>>, Seq<Option<Seq<char>>>);

/// What `ImageExporter::export` gives for the packer after those frames:
/// the atlas as width, height and RGBA8 buffer, or the exporter's error.
pub uninterp spec fn skyline_atlas(
    frames: Seq<(u32, u32, Seq<u8>)>,
    keys: Seq<Seq<char>>,
    max_size: u32,
    padding: u32,
    rotate: bool,
) -> Result<(u32, u32, Seq<u8>), Seq<char>>;

/// Frame buffers the packer can take in an atlas of `max_size` with
/// `padding`: `requires` of the packing wrappers. Frames are placed inside
/// `max_size` x `max_size`, then shifted by the border padding, and the sheet
/// adds the border padding once more, so a side of the exported sheet is at
/// most `max_size + 2 * padding`; bounding its byte count by `u32::MAX` keeps
/// the exporter's `width * height * 4` from overflowing. The frame bounds keep
/// the packer's sums (frame side plus texture padding plus position) in
/// range, `1 <= max_size` keeps the border rectangle non-empty, and full
/// buffers keep `from_raw` from failing.
pub open spec fn raw_packable(frames: Seq<(u32, u32, Vec<u8>)>, max_size: u32, padding: u32) -> bool {
    &&& 1 <= max_size
    &&& (max_size + 2 * padding) * (max_size + 2 * padding) * 4 <= u32::MAX
    &&& forall|i: int| 0 <= i < frames.len() ==> {
        &&& #[trigger] frames[i].2@.len() == frames[i].0 * frames[i].1 * 4
        &&& frames[i].0 + 2 + max_size <= u32::MAX
        &&& frames[i].1 + 2 + max_size <= u32::MAX
    }
}

/// Packs the frames with `TexturePacker::new_skyline` and `pack_own` per
/// frame, then reads each key's rectangle with `get_frame`. Both lists are
/// named `skyline_pack` of the frames, keys and settings; one entry per key
/// and per frame is claimed too.
#[verifier::external_body]
fn skyline_place(frames: &Vec<(u32, u32, Vec<u8>)>, keys: &Vec<String>, max_size: u32, padding: u32, rotate: bool) -> (r: (
    Vec<Option<(u32, u32, u32, u32)>>,
    Vec<Option<String>>,
))
    requires
        frames@.len() == keys@.len(),
        raw_packable(frames@, max_size, padding),
    ensures
        r.0@.len() == frames@.len(),
        r.1@.len() == frames@.len(),
        (r.0@, failure_texts(r.1@)) == skyline_pack(raw_frames(frames@), name_texts(keys@), max_size, padding, rotate),
{
    let cfg = TexturePackerConfig { max_width: max_size, max_height: max_size, allow_rotation: rotate, border_padding: padding, ..Default::default() };
    let mut packer = TexturePacker::new_skyline(cfg);
    let mut failures = Vec::new();
    for ((w, h, buf), k) in frames.iter().zip(keys) {
        let img = image::RgbaImage::from_raw(*w, *h, buf.clone()).unwrap();
        failures.push(packer.pack_own(k.clone(), img).err().map(|e| format!("{:?}", e)));
    }
    let placements = keys.iter().map(|k| packer.get_frame(k).map(|f| (f.frame.x, f.frame.y, f.frame.w, f.frame.h))).collect();
    (placements, failures)
}

/// Packs the frames as `skyline_place` does and exports the sheet with
/// `ImageExporter::export` and `into_rgba8`. The outcome is named
/// `skyline_atlas` of the frames, keys and settings; four bytes per pixel
/// are claimed too.
#[verifier::external_body]
fn skyline_export(frames: &Vec<(u32, u32, Vec<u8>)>, keys: &Vec<String>, max_size: u32, padding: u32, rotate: bool) -> (r: Result<(u32, u32, Vec<u8>), String>)
    requires
        frames@.len() == keys@.len(),
        raw_packable(frames@, max_size, padding),
    ensures
        raw_view(r) == skyline_atlas(raw_frames(frames@), name_texts(keys@), max_size, padding, rotate),
        r matches Ok(t) ==> t.2@.len() == t.0 * t.1 * 4,
{
    let cfg = TexturePackerConfig { max_width: max_size, max_height: max_size, allow_rotation: rotate, border_padding: padding, ..Default::default() };
    let mut packer = TexturePacker::new_skyline(cfg);
    for ((w, h, buf), k) in frames.iter().zip(keys) {
        let _ = packer.pack_own(k.clone(), image::RgbaImage::from_raw(*w, *h, buf.clone()).unwrap());
    }
    ImageExporter::export(&packer, None).map(|a| (a.width(), a.height(), a.into_rgba8().into_raw()))
}

/// A frame as width, height and RGBA8 buffer.
pub open spec fn frame_bytes(f: RgbaImage) -> (u32, u32, Seq<u8>) {
    (f.spec_width() as u32, f.spec_height() as u32, bytes_of(f.pixels_seq()))
}

/// Frames as buffers.
pub open spec fn frames_bytes(v: Seq<RgbaImage>) -> Seq<(u32, u32, Seq<u8>)> {
    v.map_values(|f: RgbaImage| frame_bytes(f))
}

/// A frame the packer can take with an atlas of `max_size`: a valid image
/// whose buffer fits in memory and whose sides leave room for the packer's
/// arithmetic.
pub open spec fn packable(f: RgbaImage, max_size: u32) -> bool {
    &&& f.inv()
    &&& f.spec_width() * f.spec_height() * 4 <= usize::MAX
    &&& f.spec_width() + 2 + max_size <= u32::MAX
    &&& f.spec_height() + 2 + max_size <= u32::MAX
}

/// `img` is the exported sheet `t`.
pub open spec fn is_sheet_of(img: RgbaImage, t: Result<(u32, u32, Seq<u8>), Seq<char>>) -> bool {
    t matches Ok(s) && s.0 == img.spec_width() && s.1 == img.spec_height() && img.pixels_seq() == pixels_of(s.2)
}

/// The outcome of packing frames into one atlas.
#[derive(Debug)]
pub struct Packed {
    /// Per frame, the rectangle (x, y, w, h) it was placed at, if any.
    pub placements: Vec<Option<(u32, u32, u32, u32)>>,
    /// Per frame, the packer's error as debug text, or `None` when it packed.
    pub failures: Vec<Option<String>>,
    /// The exported sheet, or the exporter's error.
    pub atlas: Result<RgbaImage, String>,
}

/// Packs the frames under the given keys into a square atlas of `max_size`
/// with the skyline packer, and exports the sheet.
pub fn pack_frames(frames: &Vec<RgbaImage>, keys: &Vec<String>, max_size: u32, padding: u32, rotate: bool) -> (r: Packed)
    requires
        frames@.len() == keys@.len(),
        1 <= max_size,
        (max_size + 2 * padding) * (max_size + 2 * padding) * 4 <= u32::MAX,
        forall|i: int| 0 <= i < frames@.len() ==> packable(#[trigger] frames@[i], max_size),
    ensures
        r.placements@.len() == frames@.len(),
        r.failures@.len() == frames@.len(),
        r.placements@ == skyline_pack(frames_bytes(frames@), name_texts(keys@), max_size, padding, rotate).0,
        failure_texts(r.failures@) == skyline_pack(frames_bytes(frames@), name_texts(keys@), max_size, padding, rotate).1,
        r.atlas is Ok <==> skyline_atlas(frames_bytes(frames@), name_texts(keys@), max_size, padding, rotate) is Ok,
        r.atlas matches Ok(img) ==> img.inv() && is_sheet_of(
            img,
            skyline_atlas(frames_bytes(frames@), name_texts(keys@), max_size, padding, rotate),
        ),
        r.atlas matches Err(e) ==> skyline_atlas(frames_bytes(frames@), name_texts(keys@), max_size, padding, rotate)
            == Err::<(u32, u32, Seq<u8>), Seq<char>>(e@),
{
    let mut raws: Vec<(u32, u32, Vec<u8>)> = Vec::new();
    let mut i: usize = 0;
    while i < frames.len()
        invariant
            i <= frames@.len(),
            raws@.len() == i,
            forall|j: int| 0 <= j < frames@.len() ==> packable(#[trigger] frames@[j], max_size),
            forall|j: int| 0 <= j < i ==> (#[trigger] raws@[j]).0 == frames@[j].spec_width() && raws@[j].1
                == frames@[j].spec_height() && raws@[j].2@ == bytes_of(frames@[j].pixels_seq()),
        decreases frames.len() - i,
    {
        let f = &frames[i];
        proof {
            assert(packable(frames@[i as int], max_size));
            f.lemma_inv_len();
        }
        let buf = flatten(f.pixels());
        raws.push((f.width(), f.height(), buf));
        i = i + 1;
    }
    proof {
        assert(raw_frames(raws@) =~= frames_bytes(frames@));
        assert forall|j: int| 0 <= j < raws@.len() implies {
            &&& #[trigger] raws@[j].2@.len() == raws@[j].0 * raws@[j].1 * 4
            &&& raws@[j].0 + 2 + max_size <= u32::MAX
            &&& raws@[j].1 + 2 + max_size <= u32::MAX
        } by {
            assert(packable(frames@[j], max_size));
            assert(frames@[j].pixels_seq().len() == frames@[j].spec_width() * frames@[j].spec_height()) by {
                frames@[j].lemma_inv_len();
            }
            assert(raws@[j].0 * raws@[j].1 * 4 == frames@[j].pixels_seq().len() * 4) by (nonlinear_arith)
                requires
                    raws@[j].0 == frames@[j].spec_width(),
                    raws@[j].1 == frames@[j].spec_height(),
                    frames@[j].pixels_seq().len() == frames@[j].spec_width() * frames@[j].spec_height(),
            ;
        }
    }
    let (placements, failures) = skyline_place(&raws, keys, max_size, padding, rotate);
    let atlas = match skyline_export(&raws, keys, max_size, padding, rotate) {
        Ok((w, h, buf)) => {
            let bl: usize = buf.len();
            let pixels = unflatten(&buf);
            assert(pixels@.len() == w as int * h as int) by (nonlinear_arith)
                requires
                    pixels@.len() == buf@.len() / 4,
                    buf@.len() == w * h * 4,
            ;
            match RgbaImage::from_pixels(w, h, pixels) {
                Some(img) => Ok(img),
                None => Err(String::new()),
            }
        },
        Err(e) => Err(e),
    };
    Packed { placements, failures, atlas }
}

/// A file that exists and decodes.
pub open spec fn file_ok(f: Option<Vec<u8>>) -> bool {
    f matches Some(b) && decoded_rgba(b@) is Some
}

/// The error for a file that is missing (`missing` then its path) or does
/// not decode (`failed`, its label, `": "` and the decoder's message).
pub open spec fn load_error(path: Seq<char>, label: Seq<char>, f: Option<Vec<u8>>, missing: Seq<char>, failed: Seq<char>) -> Seq<char> {
    match f {
        None => missing + path,
        Some(b) => match decoded_raw(b@) {
            Err(e) => failed + label + ": "@ + e,
            Ok(_) => Seq::empty(),
        },
    }
}

/// `img` is what the file's bytes decode to.
pub open spec fn decodes_to(f: Option<Vec<u8>>, img: RgbaImage) -> bool {
    &&& f matches Some(b) && decoded_rgba(b@) == Some(
        (img.spec_width() as u32, img.spec_height() as u32, img.pixels_seq()),
    )
    &&& img.inv()
    &&& img.spec_width() * img.spec_height() * 4 <= usize::MAX
}

/// The outcome of decoding files in order, stopping at the first that is
/// missing or does not decode.
pub open spec fn loaded(
    paths: Seq<String>,
    labels: Seq<String>,
    files: Seq<Option<Vec<u8>>>,
    missing: Seq<char>,
    failed: Seq<char>,
    r: Result<Vec<RgbaImage>, String>,
) -> bool {
    &&& (forall|i: int| 0 <= i < files.len() ==> file_ok(#[trigger] files[i])) ==> (r matches Ok(v) && v@.len()
        == files.len() && forall|i: int| 0 <= i < files.len() ==> decodes_to(files[i], #[trigger] v@[i]))
    &&& forall|k: int|
        0 <= k < files.len() && !file_ok(#[trigger] files[k]) && (forall|j: int| 0 <= j < k ==> file_ok(files[j]))
            ==> (r matches Err(e) && e@ == load_error(paths[k]@, labels[k]@, files[k], missing, failed))
}

fn decode_files(paths: &Vec<String>, labels: &Vec<String>, files: &Vec<Option<Vec<u8>>>, missing: &str, failed: &str) -> (r: Result<Vec<RgbaImage>, String>)
    requires
        paths@.len() == files@.len(),
        labels@.len() == files@.len(),
    ensures
        loaded(paths@, labels@, files@, missing@, failed@, r),
{
    let mut out: Vec<RgbaImage> = Vec::new();
    let mut i: usize = 0;
    while i < files.len()
        invariant
            i <= files@.len(),
            paths@.len() == files@.len(),
            labels@.len() == files@.len(),
            out@.len() == i,
            forall|j: int| 0 <= j < i ==> file_ok(#[trigger] files@[j]),
            forall|j: int| 0 <= j < i ==> decodes_to(files@[j], #[trigger] out@[j]),
        decreases files.len() - i,
    {
        match &files[i] {
            None => {
                let mut m = String::from_str(missing);
                m.append(paths[i].as_str());
                return Err(m);
            },
            Some(bytes) => {
                match decode_rgba(bytes.as_slice()) {
                    Ok(img) => {
                        out.push(img);
                    },
                    Err(e) => {
                        let mut m = String::from_str(failed);
                        m.append(labels[i].as_str());
                        m.append(": ");
                        m.append(e.as_str());
                        return Err(m);
                    },
                }
            },
        }
        i = i + 1;
    }
    Ok(out)
}

/// The first steps of an atlas job: the maximum size is checked, then the
/// sources are decoded in order, and there must be at least one.
/// `files[i]` holds the bytes of the file at `op.source_assets[i].file_path`,
/// or `None` when there is no such file.
pub fn load_atlas_sources(op: &crate::atlas::PackAtlasOperation, files: &Vec<Option<Vec<u8>>>) -> (r: Result<Vec<RgbaImage>, String>)
    requires
        files@.len() == op.source_assets@.len(),
    ensures
        !crate::atlas::valid_max_sizes().contains(op.options.max_size) ==> (r matches Err(e) && e@
            == "invalid max_size: "@ + crate::text::decimal(op.options.max_size as nat)
            + " (must be one of [512, 1024, 2048, 4096])"@),
        crate::atlas::valid_max_sizes().contains(op.options.max_size) && files@.len() == 0 ==> (r matches Err(e)
            && e@ == "No frames to pack"@),
        crate::atlas::valid_max_sizes().contains(op.options.max_size) && files@.len() > 0 ==> loaded(
            op.source_assets@.map_values(|s: crate::atlas::PackAtlasSourceAsset| s.file_path),
            op.source_assets@.map_values(|s: crate::atlas::PackAtlasSourceAsset| s.file_path),
            files@,
            "Source image file not found: "@,
            "Failed to load image "@,
            r,
        ),
{
    crate::atlas::check_max_size(op.options.max_size)?;
    let mut paths: Vec<String> = Vec::new();
    let mut i: usize = 0;
    while i < op.source_assets.len()
        invariant
            i <= op.source_assets@.len(),
            paths@.len() == i,
            forall|j: int| 0 <= j < i ==> #[trigger] paths@[j] == op.source_assets@[j].file_path,
        decreases op.source_assets.len() - i,
    {
        paths.push(op.source_assets[i].file_path.clone());
        i = i + 1;
    }
    proof {
        assert(paths@ =~= op.source_assets@.map_values(|s: crate::atlas::PackAtlasSourceAsset| s.file_path));
    }
    let frames = decode_files(&paths, &paths, files, "Source image file not found: ", "Failed to load image ")?;
    if frames.len() == 0 {
        return Err(String::from_str("No frames to pack"));
    }
    Ok(frames)
}

/// The first step of an animation export: the frames are decoded in order,
/// and there must be at least one. `files[i]` holds the bytes of the file at
/// `paths[i]` (the frame `frame_asset_ids[i]`), or `None` when there is no
/// such file.
pub fn load_animation_frames(paths: &Vec<String>, frame_asset_ids: &Vec<String>, files: &Vec<Option<Vec<u8>>>) -> (r: Result<Vec<RgbaImage>, String>)
    requires
        paths@.len() == files@.len(),
        frame_asset_ids@.len() == files@.len(),
    ensures
        files@.len() == 0 ==> (r matches Err(e) && e@ == "No frames to export"@),
        files@.len() > 0 ==> loaded(paths@, frame_asset_ids@, files@, "Frame file not found: "@, "Failed to open frame image "@, r),
{
    let frames = decode_files(paths, frame_asset_ids, files, "Frame file not found: ", "Failed to open frame image ")?;
    if frames.len() == 0 {
        return Err(String::from_str("No frames to export"));
    }
    Ok(frames)
}

} // verus!
