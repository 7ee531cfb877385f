//! Sprite-sheet slicing: cutting a sheet into frames on a fixed grid or
//! around the connected opaque regions it contains.

use vstd::prelude::*;
use crate::image::{Rgba, RgbaImage, lemma_index_in_bounds};
use crate::text::{decimal, decimal_string, zero_pad, zero_padded};
use crate::components::{
    bfs_labeling, count_true, labels_components, lemma_count_update, mask_w, mask_h, is_component_bbox,
    connected, is_path,
};

verus! {

/// Slice mode for sprite sheet slicing.
#[derive(Debug, Clone, Copy, PartialEq, Eq, Structural)]
pub enum SliceMode {
    Grid,
    AutoDetect,
}

impl SliceMode {
    /// The default mode is `Grid`.
    pub fn default() -> (m: SliceMode)
        ensures
            m == SliceMode::Grid,
    {
        SliceMode::Grid
    }
}

/// Sort order for auto-detect slicing.
#[derive(Debug, Clone, Copy, PartialEq, Eq, Structural)]
pub enum SortOrder {
    LeftToRight,
    TopToBottom,
}

impl SortOrder {
    /// The default order is `TopToBottom`.
    pub fn default() -> (o: SortOrder)
        ensures
            o == SortOrder::TopToBottom,
    {
        SortOrder::TopToBottom
    }
}

/// Grid parameters for grid-based sprite sheet slicing.
#[derive(Debug, Clone, Copy, PartialEq, Eq, Structural)]
pub struct GridSliceParams {
    pub rows: u32,
    pub cols: u32,
    pub margin: u32,
}

/// The number of rows used when none is given.
pub fn default_rows() -> (r: u32)
    ensures
        r == 4,
{
    4
}

/// The number of columns used when none is given.
pub fn default_cols() -> (c: u32)
    ensures
        c == 4,
{
    4
}

impl GridSliceParams {
    /// A 4 x 4 grid without margin.
    pub fn default() -> (p: GridSliceParams)
        ensures
            p == (GridSliceParams { rows: 4, cols: 4, margin: 0 }),
    {
        GridSliceParams { rows: default_rows(), cols: default_cols(), margin: 0 }
    }
}

/// Auto-detect parameters for content-aware sprite sheet slicing.
#[derive(Debug, Clone, Copy, PartialEq, Eq, Structural)]
pub struct AutoDetectSliceParams {
    pub min_area: u32,
    pub sort_order: SortOrder,
}

/// The smallest region area kept when none is given.
pub fn default_min_area() -> (a: u32)
    ensures
        a == 100,
{
    100
}

impl AutoDetectSliceParams {
    /// Keeps regions of at least 100 pixels, ordered top to bottom.
    pub fn default() -> (p: AutoDetectSliceParams)
        ensures
            p == (AutoDetectSliceParams { min_area: 100, sort_order: SortOrder::TopToBottom }),
    {
        AutoDetectSliceParams { min_area: default_min_area(), sort_order: SortOrder::default() }
    }
}

/// Bounding box of a frame within the sheet.
#[derive(Debug, Clone, Copy, PartialEq, Eq, Structural)]
pub struct BoundingBox {
    pub x: u32,
    pub y: u32,
    pub w: u32,
    pub h: u32,
}

/// Payload of a sprite slice job.
#[derive(Debug, Clone)]
pub struct SliceOperation {
    pub source_file_path: String,
    pub mode: SliceMode,
    pub grid_params: GridSliceParams,
    pub auto_detect_params: AutoDetectSliceParams,
    pub source_asset_id: String,
    pub project_id: String,
}

/// Worker for sprite sheet slicing jobs.
pub struct SliceWorker {
    /// Base directory for saving output assets.
    pub assets_dir: String,
}

impl SliceWorker {
    /// Creates a new SliceWorker.
    pub fn new(assets_dir: String) -> (w: SliceWorker)
        ensures
            w.assets_dir == assets_dir,
    {
        SliceWorker { assets_dir }
    }

    /// The worker handles `sprite_slice` jobs.
    pub fn can_handle(&self, job_type: &str) -> (r: bool)
        ensures
            r == (job_type@ == "sprite_slice"@),
    {
        crate::text::str_eq(job_type, "sprite_slice")
    }
}

/// Every pixel of the image is fully transparent.
pub open spec fn all_transparent(img: RgbaImage) -> bool {
    forall|x: int, y: int|
        0 <= x < img.spec_width() && 0 <= y < img.spec_height() ==> #[trigger] img.pixel_at(x, y).a
            == 0
}

/// Checks if an image is fully transparent (alpha = 0 for all pixels).
pub fn is_fully_transparent(img: &RgbaImage) -> (r: bool)
    requires
        img.inv(),
    ensures
        r == all_transparent(*img),
{
    let w = img.width();
    let h = img.height();
    let mut y: u32 = 0;
    while y < h
        invariant
            img.inv(),
            w == img.spec_width(),
            h == img.spec_height(),
            y <= h,
            forall|i: int, j: int| 0 <= i < w && 0 <= j < y ==> #[trigger] img.pixel_at(i, j).a == 0,
        decreases h - y,
    {
        let mut x: u32 = 0;
        while x < w
            invariant
                img.inv(),
                w == img.spec_width(),
                h == img.spec_height(),
                y < h,
                x <= w,
                forall|i: int, j: int|
                    0 <= i < w && 0 <= j < y ==> #[trigger] img.pixel_at(i, j).a == 0,
                forall|i: int| 0 <= i < x ==> #[trigger] img.pixel_at(i, y as int).a == 0,
            decreases w - x,
        {
            if img.get_pixel(x, y).a != 0 {
                return false;
            }
            x = x + 1;
        }
        y = y + 1;
    }
    true
}

/// The opacity mask of an image: one row per image row, `true` where alpha is non-zero.
pub open spec fn is_alpha_mask_of(mask: Seq<Vec<bool>>, img: RgbaImage) -> bool {
    &&& mask.len() == img.spec_height()
    &&& forall|y: int| 0 <= y < mask.len() ==> #[trigger] mask[y]@.len() == img.spec_width()
    &&& forall|x: int, y: int|
        0 <= y < img.spec_height() && 0 <= x < img.spec_width() ==> #[trigger] mask[y]@[x] == (
        img.pixel_at(x, y).a != 0)
}

/// Builds an alpha mask from the source image: `true` = opaque (non-transparent).
pub fn build_alpha_mask(img: &RgbaImage) -> (mask: Vec<Vec<bool>>)
    requires
        img.inv(),
    ensures
        is_alpha_mask_of(mask@, *img),
{
    let w = img.width();
    let h = img.height();
    let mut mask: Vec<Vec<bool>> = Vec::new();
    let mut y: u32 = 0;
    while y < h
        invariant
            img.inv(),
            w == img.spec_width(),
            h == img.spec_height(),
            y <= h,
            mask@.len() == y,
            forall|j: int| 0 <= j < y ==> #[trigger] mask@[j]@.len() == w,
            forall|i: int, j: int|
                0 <= j < y && 0 <= i < w ==> #[trigger] mask@[j]@[i] == (img.pixel_at(i, j).a != 0),
        decreases h - y,
    {
        let mut row: Vec<bool> = Vec::new();
        let mut x: u32 = 0;
        while x < w
            invariant
                img.inv(),
                w == img.spec_width(),
                h == img.spec_height(),
                y < h,
                x <= w,
                row@.len() == x,
                forall|i: int| 0 <= i < x ==> #[trigger] row@[i] == (img.pixel_at(i, y as int).a != 0),
            decreases w - x,
        {
            row.push(img.get_pixel(x, y).a != 0);
            x = x + 1;
        }
        mask.push(row);
        y = y + 1;
    }
    mask
}


/// The rectangle that `crop_imm` actually copies: the requested one clipped
/// to the image.
pub open spec fn clip_rect(iw: int, ih: int, x: int, y: int, w: int, h: int) -> (int, int, int, int) {
    let cx = if x < iw { x } else { iw };
    let cy = if y < ih { y } else { ih };
    let cw = if w < iw - cx { w } else { iw - cx };
    let ch = if h < ih - cy { h } else { ih - cy };
    (cx, cy, cw, ch)
}

/// `out` is the part of `img` at (`x`, `y`) of size `w` x `h`, clipped to `img`.
pub open spec fn is_crop_of(out: RgbaImage, img: RgbaImage, x: int, y: int, w: int, h: int) -> bool {
    let r = clip_rect(img.spec_width() as int, img.spec_height() as int, x, y, w, h);
    &&& out.inv()
    &&& out.spec_width() == r.2
    &&& out.spec_height() == r.3
    &&& forall|i: int, j: int|
        0 <= i < r.2 && 0 <= j < r.3 ==> #[trigger] out.pixel_at(i, j) == img.pixel_at(r.0 + i, r.1 + j)
}

/// Copies out the `w` x `h` rectangle at (`x`, `y`), clipped to the image.
pub fn crop_imm(img: &RgbaImage, x: u32, y: u32, w: u32, h: u32) -> (out: RgbaImage)
    requires
        img.inv(),
    ensures
        is_crop_of(out, *img, x as int, y as int, w as int, h as int),
{
    let iw = img.width();
    let ih = img.height();
    let cx = if x < iw { x } else { iw };
    let cy = if y < ih { y } else { ih };
    let cw = if w < iw - cx { w } else { iw - cx };
    let ch = if h < ih - cy { h } else { ih - cy };
    proof {
        assert(cw as int * ch as int <= iw as int * ih as int) by (nonlinear_arith)
            requires
                cw <= iw,
                ch <= ih,
        ;
        img.lemma_inv_size();
    }
    let mut out = RgbaImage::new(cw, ch);
    let mut j: u32 = 0;
    while j < ch
        invariant
            img.inv(),
            out.inv(),
            iw == img.spec_width(),
            ih == img.spec_height(),
            cx + cw <= iw,
            cy + ch <= ih,
            out.spec_width() == cw,
            out.spec_height() == ch,
            j <= ch,
            forall|a: int, b: int|
                0 <= a < cw && 0 <= b < j ==> #[trigger] out.pixel_at(a, b) == img.pixel_at(
                    cx + a,
                    cy + b,
                ),
        decreases ch - j,
    {
        let mut i: u32 = 0;
        while i < cw
            invariant
                img.inv(),
                out.inv(),
                iw == img.spec_width(),
                ih == img.spec_height(),
                cx + cw <= iw,
                cy + ch <= ih,
                out.spec_width() == cw,
                out.spec_height() == ch,
                j < ch,
                i <= cw,
                forall|a: int, b: int|
                    0 <= a < cw && 0 <= b < j ==> #[trigger] out.pixel_at(a, b) == img.pixel_at(
                        cx + a,
                        cy + b,
                    ),
                forall|a: int|
                    0 <= a < i ==> #[trigger] out.pixel_at(a, j as int) == img.pixel_at(
                        cx + a,
                        cy + j,
                    ),
            decreases cw - i,
        {
            let p = img.get_pixel(cx + i, cy + j);
            out.put_pixel(i, j, p);
            i = i + 1;
        }
        j = j + 1;
    }
    out
}

/// A frame cut from a sprite sheet, with the rectangle it was cut from.
#[derive(Debug, Clone)]
pub struct FrameWithBBox {
    pub image: RgbaImage,
    pub bbox: BoundingBox,
}

/// The cell of grid position `i` (row-major) for cells of `cw` x `ch` pixels.
pub open spec fn grid_cell(p: GridSliceParams, cw: int, ch: int, i: int) -> BoundingBox {
    let row = i / p.cols as int;
    let col = i % p.cols as int;
    let inner_w = if cw - 2 * p.margin > 0 { cw - 2 * p.margin } else { 0 };
    let inner_h = if ch - 2 * p.margin > 0 { ch - 2 * p.margin } else { 0 };
    BoundingBox {
        x: (col * cw + p.margin) as u32,
        y: (row * ch + p.margin) as u32,
        w: inner_w as u32,
        h: inner_h as u32,
    }
}

/// A grid cell is kept when it is not empty and its crop is not fully transparent.
pub open spec fn cell_kept(img: RgbaImage, b: BoundingBox) -> bool {
    &&& b.w > 0
    &&& b.h > 0
    &&& exists|c: RgbaImage|
        is_crop_of(c, img, b.x as int, b.y as int, b.w as int, b.h as int) && !all_transparent(c)
}

/// The cells that grid slicing keeps, among the first `n` grid positions, in row-major order.
pub open spec fn kept_cells(img: RgbaImage, p: GridSliceParams, cw: int, ch: int, n: int) -> Seq<BoundingBox>
    decreases n,
{
    if n <= 0 {
        Seq::empty()
    } else {
        let prev = kept_cells(img, p, cw, ch, n - 1);
        let b = grid_cell(p, cw, ch, n - 1);
        if cell_kept(img, b) {
            prev.push(b)
        } else {
            prev
        }
    }
}

/// The message grid slicing gives when a cell would be empty.
pub open spec fn cell_too_small_message(cw: int, ch: int, iw: int, ih: int, p: GridSliceParams) -> Seq<char> {
    "Cell dimensions too small: "@ + decimal(cw as nat) + "x"@ + decimal(ch as nat) + " (image: "@
        + decimal(iw as nat) + "x"@ + decimal(ih as nat) + ", grid: "@ + decimal(p.cols as nat) + "x"@
        + decimal(p.rows as nat) + ")"@
}

/// Each frame is the crop of the sheet at its rectangle, and the rectangles are `cells`.
pub open spec fn frames_match(frames: Seq<FrameWithBBox>, img: RgbaImage, cells: Seq<BoundingBox>) -> bool {
    &&& frames.len() == cells.len()
    &&& forall|k: int|
        0 <= k < frames.len() ==> #[trigger] frames[k].bbox == cells[k] && is_crop_of(
            frames[k].image,
            img,
            cells[k].x as int,
            cells[k].y as int,
            cells[k].w as int,
            cells[k].h as int,
        )
}

/// What grid slicing returns for the image and parameters.
pub open spec fn grid_slice_outcome(img: RgbaImage, params: GridSliceParams, r: Result<Vec<FrameWithBBox>, String>) -> bool {
    &&& ((params.rows == 0 || params.cols == 0) ==> (r matches Err(e) && e@ == "Rows and cols must be greater than 0"@))
    &&& (params.rows > 0 && params.cols > 0 ==> {
        let cw = img.spec_width() / params.cols as nat;
        let ch = img.spec_height() / params.rows as nat;
        &&& (cw == 0 || ch == 0) ==> (r matches Err(e) && e@ == cell_too_small_message(
            cw as int,
            ch as int,
            img.spec_width() as int,
            img.spec_height() as int,
            params,
        ))
        &&& (cw > 0 && ch > 0) ==> (r matches Ok(frames) && frames_match(
            frames@,
            img,
            kept_cells(img, params, cw as int, ch as int, params.rows as int * params.cols as int),
        ))
    })
}

/// The grid position, row-major, that the `k`-th kept cell comes from.
spec fn kept_cell_index(img: RgbaImage, p: GridSliceParams, cw: int, ch: int, n: int, k: int) -> int
    decreases n,
{
    if n <= 0 {
        0
    } else if k < kept_cells(img, p, cw, ch, n - 1).len() {
        kept_cell_index(img, p, cw, ch, n - 1, k)
    } else {
        n - 1
    }
}

proof fn lemma_kept_cell_index(img: RgbaImage, p: GridSliceParams, cw: int, ch: int, n: int, k: int)
    requires
        0 <= k < kept_cells(img, p, cw, ch, n).len(),
    ensures
        0 <= kept_cell_index(img, p, cw, ch, n, k) < n,
        kept_cells(img, p, cw, ch, n)[k] == grid_cell(p, cw, ch, kept_cell_index(img, p, cw, ch, n, k)),
        cell_kept(img, grid_cell(p, cw, ch, kept_cell_index(img, p, cw, ch, n, k))),
    decreases n,
{
    if k < kept_cells(img, p, cw, ch, n - 1).len() {
        lemma_kept_cell_index(img, p, cw, ch, n - 1, k);
    }
}

proof fn lemma_kept_cell_index_increasing(img: RgbaImage, p: GridSliceParams, cw: int, ch: int, n: int, k: int, l: int)
    requires
        0 <= k < l < kept_cells(img, p, cw, ch, n).len(),
    ensures
        kept_cell_index(img, p, cw, ch, n, k) < kept_cell_index(img, p, cw, ch, n, l),
    decreases n,
{
    if l < kept_cells(img, p, cw, ch, n - 1).len() {
        lemma_kept_cell_index_increasing(img, p, cw, ch, n - 1, k, l);
    } else {
        lemma_kept_cell_index(img, p, cw, ch, n - 1, k);
    }
}

/// An earlier grid position, row-major, lies in an earlier row or further
/// left in the same row.
proof fn lemma_row_major(i: int, j: int, cols: int)
    requires
        0 <= i < j,
        cols > 0,
    ensures
        i / cols < j / cols || (i / cols == j / cols && i % cols < j % cols),
{
    let ri = i / cols;
    let rj = j / cols;
    let ci = i % cols;
    let cj = j % cols;
    assert(i == cols * ri + ci && 0 <= ci < cols && j == cols * rj + cj && 0 <= cj < cols) by (nonlinear_arith)
        requires
            cols > 0,
            ri == i / cols,
            rj == j / cols,
            ci == i % cols,
            cj == j % cols,
    ;
    if ri > rj {
        assert(cols * ri >= cols * rj + cols) by (nonlinear_arith)
            requires
                ri > rj,
                cols > 0,
        ;
    }
}

proof fn lemma_grid_cell_inset(p: GridSliceParams, iw: int, ih: int, i: int)
    requires
        p.rows > 0,
        p.cols > 0,
        0 <= iw,
        0 <= ih,
        iw / p.cols as int > 0,
        ih / p.rows as int > 0,
        iw + p.margin <= u32::MAX,
        ih + p.margin <= u32::MAX,
        0 <= i < p.rows * p.cols,
        grid_cell(p, iw / p.cols as int, ih / p.rows as int, i).w > 0,
        grid_cell(p, iw / p.cols as int, ih / p.rows as int, i).h > 0,
    ensures
        ({
            let cw = iw / p.cols as int;
            let ch = ih / p.rows as int;
            let b = grid_cell(p, cw, ch, i);
            let col = (b.x - p.margin) / cw;
            let row = (b.y - p.margin) / ch;
            &&& 0 <= col < p.cols && 0 <= row < p.rows
            &&& b.x == col * cw + p.margin
            &&& b.y == row * ch + p.margin
            &&& b.x + b.w + p.margin == (col + 1) * cw
            &&& b.y + b.h + p.margin == (row + 1) * ch
            &&& col == i % p.cols as int
            &&& row == i / p.cols as int
        }),
{
    let cols = p.cols as int;
    let rows = p.rows as int;
    let m = p.margin as int;
    let cw = iw / cols;
    let ch = ih / rows;
    let col = i % cols;
    let row = i / cols;
    assert(0 <= col < cols && 0 <= row < rows && cols * cw <= iw && rows * ch <= ih) by (nonlinear_arith)
        requires
            0 <= i < rows * cols,
            cols > 0,
            rows > 0,
            iw >= 0,
            ih >= 0,
            cw == iw / cols,
            ch == ih / rows,
            col == i % cols,
            row == i / cols,
    ;
    assert(col * cw + cw <= iw && row * ch + ch <= ih && 0 <= col * cw && 0 <= row * ch) by (nonlinear_arith)
        requires
            0 <= col < cols,
            0 <= row < rows,
            cols * cw <= iw,
            rows * ch <= ih,
            cw > 0,
            ch > 0,
    ;
    let b = grid_cell(p, cw, ch, i);
    assert(b.x == col * cw + m);
    assert(b.y == row * ch + m);
    assert(b.w == cw - 2 * m);
    assert(b.h == ch - 2 * m);
    vstd::arithmetic::div_mod::lemma_div_by_multiple(col, cw);
    vstd::arithmetic::div_mod::lemma_div_by_multiple(row, ch);
    assert((col + 1) * cw == col * cw + cw && (row + 1) * ch == row * ch + ch) by (nonlinear_arith);
}

proof fn lemma_some_pixel_shows(f: RgbaImage)
    requires
        !all_transparent(f),
    ensures
        exists|x: int, y: int|
            #![trigger f.pixel_at(x, y)]
            0 <= x < f.spec_width() && 0 <= y < f.spec_height() && f.pixel_at(x, y).a != 0,
{
}

/// Every frame grid slicing returns lies inside its own cell with the margin
/// on all four sides. The cells are `cw` x `ch` pixels, the image size divided
/// by the columns and rows; the frame of the cell in column `col` and row
/// `row` starts at (`col * cw + margin`, `row * ch + margin`) and stops
/// `margin` pixels before the cell's right and bottom edges. The frames come
/// row by row, and left to right within a row, and none is fully transparent.
pub proof fn lemma_grid_frames_inset(img: RgbaImage, params: GridSliceParams, r: Result<Vec<FrameWithBBox>, String>)
    requires
        grid_slice_outcome(img, params, r),
        img.spec_width() + params.margin <= u32::MAX,
        img.spec_height() + params.margin <= u32::MAX,
    ensures
        r matches Ok(frames) ==> forall|k: int|
            #![trigger frames@[k]]
            0 <= k < frames@.len() ==> {
                let cw = img.spec_width() as int / params.cols as int;
                let ch = img.spec_height() as int / params.rows as int;
                let b = frames@[k].bbox;
                let col = (b.x - params.margin) / cw;
                let row = (b.y - params.margin) / ch;
                &&& 0 <= col < params.cols && 0 <= row < params.rows
                &&& b.x == col * cw + params.margin
                &&& b.y == row * ch + params.margin
                &&& b.x + b.w + params.margin == (col + 1) * cw
                &&& b.y + b.h + params.margin == (row + 1) * ch
                &&& exists|x: int, y: int|
                    #![trigger frames@[k].image.pixel_at(x, y)]
                    0 <= x < frames@[k].image.spec_width() && 0 <= y < frames@[k].image.spec_height()
                        && frames@[k].image.pixel_at(x, y).a != 0
            },
        r matches Ok(frames) ==> forall|k: int, l: int|
            #![trigger frames@[k], frames@[l]]
            0 <= k < l < frames@.len() ==> frames@[k].bbox.y < frames@[l].bbox.y || (frames@[k].bbox.y
                == frames@[l].bbox.y && frames@[k].bbox.x < frames@[l].bbox.x),
{
    if r is Ok {
        let frames = r->Ok_0;
        let iw = img.spec_width() as int;
        let ih = img.spec_height() as int;
        let cw = iw / params.cols as int;
        let ch = ih / params.rows as int;
        let n = params.rows as int * params.cols as int;
        let cells = kept_cells(img, params, cw, ch, n);
        assert forall|k: int|
            #![trigger frames@[k]]
            0 <= k < frames@.len() implies {
                let b = frames@[k].bbox;
                let col = (b.x - params.margin) / cw;
                let row = (b.y - params.margin) / ch;
                &&& 0 <= col < params.cols && 0 <= row < params.rows
                &&& b.x == col * cw + params.margin
                &&& b.y == row * ch + params.margin
                &&& b.x + b.w + params.margin == (col + 1) * cw
                &&& b.y + b.h + params.margin == (row + 1) * ch
                &&& exists|x: int, y: int|
                    #![trigger frames@[k].image.pixel_at(x, y)]
                    0 <= x < frames@[k].image.spec_width() && 0 <= y < frames@[k].image.spec_height()
                        && frames@[k].image.pixel_at(x, y).a != 0
            } by {
            assert(frames@[k].bbox == cells[k]);
            lemma_kept_cell_index(img, params, cw, ch, n, k);
            lemma_grid_cell_inset(params, iw, ih, kept_cell_index(img, params, cw, ch, n, k));
            let b = cells[k];
            let c = choose|c: RgbaImage|
                is_crop_of(c, img, b.x as int, b.y as int, b.w as int, b.h as int) && !all_transparent(c);
            lemma_crops_equal_transparency(c, frames@[k].image, img, b);
            lemma_some_pixel_shows(frames@[k].image);
        }
        assert forall|k: int, l: int|
            #![trigger frames@[k], frames@[l]]
            0 <= k < l < frames@.len() implies frames@[k].bbox.y < frames@[l].bbox.y || (frames@[k].bbox.y
                == frames@[l].bbox.y && frames@[k].bbox.x < frames@[l].bbox.x) by {
            let ik = kept_cell_index(img, params, cw, ch, n, k);
            let il = kept_cell_index(img, params, cw, ch, n, l);
            assert(frames@[k].bbox == cells[k] && frames@[l].bbox == cells[l]);
            lemma_kept_cell_index(img, params, cw, ch, n, k);
            lemma_kept_cell_index(img, params, cw, ch, n, l);
            lemma_kept_cell_index_increasing(img, params, cw, ch, n, k, l);
            lemma_grid_cell_inset(params, iw, ih, ik);
            lemma_grid_cell_inset(params, iw, ih, il);
            let cols = params.cols as int;
            lemma_row_major(ik, il, cols);
            let (rk, rl, ck, cl) = (ik / cols, il / cols, ik % cols, il % cols);
            assert(rk < rl ==> rk * ch < rl * ch) by (nonlinear_arith)
                requires
                    ch > 0,
            ;
            assert(rk == rl && ck < cl ==> ck * cw < cl * cw) by (nonlinear_arith)
                requires
                    cw > 0,
            ;
        }
    }
}

/// Slices the image on a `rows` x `cols` grid, shrinking each cell by the
/// margin on every side and skipping empty or fully transparent cells.
pub fn slice_grid(img: &RgbaImage, params: &GridSliceParams) -> (r: Result<Vec<FrameWithBBox>, String>)
    requires
        img.inv(),
        img.spec_width() + params.margin <= u32::MAX,
        img.spec_height() + params.margin <= u32::MAX,
        2 * params.margin <= u32::MAX,
    ensures
        grid_slice_outcome(*img, *params, r),
{
    if params.rows == 0 || params.cols == 0 {
        return Err(String::from_str("Rows and cols must be greater than 0"));
    }
    let iw = img.width();
    let ih = img.height();
    let cell_width = iw / params.cols;
    let cell_height = ih / params.rows;
    if cell_width == 0 || cell_height == 0 {
        let mut msg = String::from_str("Cell dimensions too small: ");
        msg.append(decimal_string(cell_width as u64).as_str());
        msg.append("x");
        msg.append(decimal_string(cell_height as u64).as_str());
        msg.append(" (image: ");
        msg.append(decimal_string(iw as u64).as_str());
        msg.append("x");
        msg.append(decimal_string(ih as u64).as_str());
        msg.append(", grid: ");
        msg.append(decimal_string(params.cols as u64).as_str());
        msg.append("x");
        msg.append(decimal_string(params.rows as u64).as_str());
        msg.append(")");
        return Err(msg);
    }
    assert((params.rows as u64) * (params.cols as u64) <= u64::MAX) by (nonlinear_arith)
        requires
            params.rows <= u32::MAX,
            params.cols <= u32::MAX,
    ;
    let total: u64 = (params.rows as u64) * (params.cols as u64);
    let mut frames: Vec<FrameWithBBox> = Vec::new();
    let mut i: u64 = 0;
    while i < total
        invariant
            img.inv(),
            iw == img.spec_width(),
            ih == img.spec_height(),
            params.rows > 0,
            params.cols > 0,
            cell_width == iw / params.cols,
            cell_height == ih / params.rows,
            total == params.rows as int * params.cols as int,
            iw + params.margin <= u32::MAX,
            ih + params.margin <= u32::MAX,
            2 * params.margin <= u32::MAX,
            i <= total,
            frames_match(frames@, *img, kept_cells(*img, *params, cell_width as int, cell_height as int, i as int)),
        decreases total - i,
    {
        let row: u32 = (i / (params.cols as u64)) as u32;
        let col: u32 = (i % (params.cols as u64)) as u32;
        proof {
            lemma_grid_position(i as int, params.rows as int, params.cols as int);
            lemma_cell_origin(col as int, row as int, cell_width as int, cell_height as int, iw as int, ih as int, params.cols as int, params.rows as int);
        }
        let x = col * cell_width + params.margin;
        let y = row * cell_height + params.margin;
        let w = cell_width.saturating_sub(2 * params.margin);
        let h = cell_height.saturating_sub(2 * params.margin);
        let ghost b = grid_cell(*params, cell_width as int, cell_height as int, i as int);
        assert(b == (BoundingBox { x, y, w, h }));
        let ghost prev = kept_cells(*img, *params, cell_width as int, cell_height as int, i as int);
        if w != 0 && h != 0 {
            let cell = crop_imm(img, x, y, w, h);
            if !is_fully_transparent(&cell) {
                assert(cell_kept(*img, b));
                let ghost old_frames = frames@;
                frames.push(FrameWithBBox { image: cell, bbox: BoundingBox { x, y, w, h } });
                let ghost next = kept_cells(*img, *params, cell_width as int, cell_height as int, i + 1);
                assert(next == prev.push(b));
                assert forall|k: int| 0 <= k < frames@.len() implies #[trigger] frames@[k].bbox
                    == next[k] && is_crop_of(
                    frames@[k].image,
                    *img,
                    next[k].x as int,
                    next[k].y as int,
                    next[k].w as int,
                    next[k].h as int,
                ) by {
                    if k < old_frames.len() {
                        assert(frames@[k] == old_frames[k]);
                        assert(next[k] == prev[k]);
                    }
                }
                assert(frames_match(frames@, *img, next));
            } else {
                assert(!cell_kept(*img, b)) by {
                    if cell_kept(*img, b) {
                        let c = choose|c: RgbaImage|
                            is_crop_of(c, *img, b.x as int, b.y as int, b.w as int, b.h as int)
                                && !all_transparent(c);
                        lemma_crops_equal_transparency(c, cell, *img, b);
                    }
                }
                assert(kept_cells(*img, *params, cell_width as int, cell_height as int, i + 1)
                    == prev);
            }
        } else {
            assert(kept_cells(*img, *params, cell_width as int, cell_height as int, i + 1) == prev);
        }
        i = i + 1;
    }
    Ok(frames)
}

proof fn lemma_grid_position(i: int, rows: int, cols: int)
    requires
        0 <= i < rows * cols,
        0 < cols,
        0 < rows,
    ensures
        0 <= i / cols < rows,
        0 <= i % cols < cols,
{
    assert(0 <= i / cols < rows) by (nonlinear_arith)
        requires
            0 <= i < rows * cols,
            0 < cols,
    ;
}

proof fn lemma_cell_origin(col: int, row: int, cw: int, ch: int, iw: int, ih: int, cols: int, rows: int)
    requires
        0 <= col < cols,
        0 <= row < rows,
        cw == iw / cols,
        ch == ih / rows,
        0 < cols,
        0 < rows,
        0 <= iw,
        0 <= ih,
    ensures
        0 <= col * cw <= iw,
        0 <= row * ch <= ih,
{
    assert(0 <= col * cw <= iw) by (nonlinear_arith)
        requires
            0 <= col < cols,
            cw == iw / cols,
            0 < cols,
            0 <= iw,
    ;
    assert(0 <= row * ch <= ih) by (nonlinear_arith)
        requires
            0 <= row < rows,
            ch == ih / rows,
            0 < rows,
            0 <= ih,
    ;
}

/// Two crops of the same rectangle agree on transparency.
proof fn lemma_crops_equal_transparency(c1: RgbaImage, c2: RgbaImage, img: RgbaImage, b: BoundingBox)
    requires
        is_crop_of(c1, img, b.x as int, b.y as int, b.w as int, b.h as int),
        is_crop_of(c2, img, b.x as int, b.y as int, b.w as int, b.h as int),
    ensures
        all_transparent(c1) == all_transparent(c2),
{
    if all_transparent(c1) {
        assert forall|x: int, y: int|
            0 <= x < c2.spec_width() && 0 <= y < c2.spec_height() implies #[trigger] c2.pixel_at(
            x,
            y,
        ).a == 0 by {
            assert(c1.pixel_at(x, y) == c2.pixel_at(x, y));
        }
    }
    if all_transparent(c2) {
        assert forall|x: int, y: int|
            0 <= x < c1.spec_width() && 0 <= y < c1.spec_height() implies #[trigger] c1.pixel_at(
            x,
            y,
        ).a == 0 by {
            assert(c1.pixel_at(x, y) == c2.pixel_at(x, y));
        }
    }
}



/// The key by which auto-detected frames are ordered.
pub open spec fn frame_sort_key(order: SortOrder, b: BoundingBox) -> int {
    match order {
        SortOrder::LeftToRight => b.x as int,
        SortOrder::TopToBottom => b.y as int * 10000 + b.x as int,
    }
}

/// Item `a` of `inp` goes before item `b`: a smaller key, or an equal key
/// and an earlier position.
pub open spec fn sorts_before(order: SortOrder, inp: Seq<BoundingBox>, a: int, b: int) -> bool {
    ||| frame_sort_key(order, inp[a]) < frame_sort_key(order, inp[b])
    ||| (frame_sort_key(order, inp[a]) == frame_sort_key(order, inp[b]) && a < b)
}

/// `p` lists every index below `n` exactly once.
pub open spec fn is_index_permutation(p: Seq<int>, n: int) -> bool {
    &&& p.len() == n
    &&& forall|i: int| 0 <= i < n ==> 0 <= #[trigger] p[i] < n
    &&& forall|i: int, j: int| 0 <= i < j < n ==> p[i] != p[j]
}

/// `out` is `inp` sorted by key, items with equal keys kept in input order.
pub open spec fn is_stable_sort(out: Seq<BoundingBox>, inp: Seq<BoundingBox>, order: SortOrder) -> bool {
    exists|p: Seq<int>|
        #[trigger] is_index_permutation(p, inp.len() as int) && out.len() == inp.len() && (forall|i: int|
            0 <= i < out.len() ==> out[i] == inp[p[i]]) && (forall|i: int, j: int|
            0 <= i < j < out.len() ==> sorts_before(order, inp, p[i], p[j]))
}

/// What the two orders mean for the boxes that come out: left to right, the
/// left edges never decrease; top to bottom, the top edges never decrease and
/// boxes whose tops are level come left to right, whatever their heights.
/// The top-to-bottom key is `y * 10000 + x`, so this reading holds while every
/// box starts less than 10000 pixels from the left edge.
pub proof fn lemma_sorted_by_edges(out: Seq<BoundingBox>, inp: Seq<BoundingBox>, order: SortOrder)
    requires
        is_stable_sort(out, inp, order),
        order == SortOrder::TopToBottom ==> forall|k: int| 0 <= k < inp.len() ==> #[trigger] inp[k].x < 10000,
    ensures
        forall|i: int, j: int|
            #![trigger out[i], out[j]]
            0 <= i < j < out.len() ==> match order {
                SortOrder::LeftToRight => out[i].x <= out[j].x,
                SortOrder::TopToBottom => out[i].y < out[j].y || (out[i].y == out[j].y && out[i].x <= out[j].x),
            },
{
    let p = choose|p: Seq<int>|
        #[trigger] is_index_permutation(p, inp.len() as int) && out.len() == inp.len() && (forall|i: int|
            0 <= i < out.len() ==> out[i] == inp[p[i]]) && (forall|i: int, j: int|
            0 <= i < j < out.len() ==> sorts_before(order, inp, p[i], p[j]));
    assert forall|i: int, j: int|
        #![trigger out[i], out[j]]
        0 <= i < j < out.len() implies match order {
        SortOrder::LeftToRight => out[i].x <= out[j].x,
        SortOrder::TopToBottom => out[i].y < out[j].y || (out[i].y == out[j].y && out[i].x <= out[j].x),
    } by {
        assert(sorts_before(order, inp, p[i], p[j]));
        assert(out[i] == inp[p[i]] && out[j] == inp[p[j]]);
        assert(0 <= p[i] < inp.len() && 0 <= p[j] < inp.len());
        if order == SortOrder::TopToBottom {
            assert(inp[p[i]].x < 10000 && inp[p[j]].x < 10000);
        }
    }
}

fn frame_key(order: SortOrder, b: BoundingBox) -> (k: u64)
    ensures
        k == frame_sort_key(order, b),
{
    match order {
        SortOrder::LeftToRight => b.x as u64,
        SortOrder::TopToBottom => (b.y as u64) * 10000 + b.x as u64,
    }
}

proof fn lemma_count_all(s: Seq<bool>)
    requires
        forall|i: int| 0 <= i < s.len() ==> s[i],
    ensures
        count_true(s) == s.len(),
    decreases s.len(),
{
    if s.len() > 0 {
        lemma_count_all(s.drop_last());
    }
}

/// Sorts boxes by their key, keeping boxes with equal keys in their order.
pub fn stable_sort_frames(inp: &Vec<BoundingBox>, order: SortOrder) -> (out: Vec<BoundingBox>)
    ensures
        is_stable_sort(out@, inp@, order),
{
    let n = inp.len();
    let mut used: Vec<bool> = Vec::new();
    let mut i: usize = 0;
    while i < n
        invariant
            i <= n,
            used@.len() == i,
            forall|j: int| 0 <= j < i ==> !used@[j],
        decreases n - i,
    {
        used.push(false);
        i = i + 1;
    }
    proof {
        lemma_count_none(used@);
    }
    let mut out: Vec<BoundingBox> = Vec::new();
    let ghost mut p: Seq<int> = Seq::empty();
    while out.len() < n
        invariant
            n == inp@.len(),
            used@.len() == n,
            out@.len() == p.len(),
            p.len() <= n,
            count_true(used@) == p.len(),
            forall|i: int| 0 <= i < p.len() ==> 0 <= #[trigger] p[i] < n && used@[p[i]] && out@[i] == inp@[p[i]],
            forall|j: int| 0 <= j < n && #[trigger] used@[j] ==> exists|i: int| 0 <= i < p.len() && p[i] == j,
            forall|i: int, k: int| 0 <= i < k < p.len() ==> sorts_before(order, inp@, #[trigger] p[i], #[trigger] p[k]),
            forall|i: int, j: int|
                0 <= i < p.len() && 0 <= j < n && !#[trigger] used@[j] ==> sorts_before(order, inp@, #[trigger] p[i], j),
        decreases n - out.len(),
    {
        proof {
            if forall|j: int| 0 <= j < n ==> used@[j] {
                lemma_count_all(used@);
            }
        }
        let mut best: usize = n;
        let mut best_key: u64 = 0;
        let mut j: usize = 0;
        while j < n
            invariant
                n == inp@.len(),
                used@.len() == n,
                j <= n,
                best == n || (best < j && !used@[best as int] && best_key == frame_sort_key(order, inp@[best as int])),
                best == n ==> forall|m: int| 0 <= m < j ==> used@[m],
                best < n ==> forall|m: int|
                    0 <= m < j && !used@[m] && m != best ==> sorts_before(order, inp@, best as int, m),
            decreases n - j,
        {
            if !used[j] {
                let k = frame_key(order, inp[j]);
                if best == n || k < best_key {
                    best = j;
                    best_key = k;
                }
            }
            j = j + 1;
        }
        let ghost old_used = used@;
        let ghost old_p = p;
        used.set(best, true);
        out.push(inp[best]);
        proof {
            lemma_count_update(old_used, best as int);
            p = p.push(best as int);
            assert forall|j: int| 0 <= j < n && #[trigger] used@[j] implies exists|i: int|
                0 <= i < p.len() && p[i] == j by {
                if j == best {
                    assert(p[old_p.len() as int] == j);
                } else {
                    assert(old_used[j]);
                    let i = choose|i: int| 0 <= i < old_p.len() && old_p[i] == j;
                    assert(p[i] == j);
                }
            }
            assert forall|i: int, k: int| 0 <= i < k < p.len() implies sorts_before(order, inp@, #[trigger] p[i], #[trigger] p[k]) by {
                if k < old_p.len() {
                    assert(p[i] == old_p[i] && p[k] == old_p[k]);
                } else {
                    assert(p[i] == old_p[i]);
                    assert(!old_used[best as int]);
                }
            }
            assert forall|i: int, j: int|
                0 <= i < p.len() && 0 <= j < n && !#[trigger] used@[j] implies sorts_before(order, inp@, #[trigger] p[i], j) by {
                assert(!old_used[j]);
                if i < old_p.len() {
                    assert(p[i] == old_p[i]);
                }
            }
        }
    }
    proof {
        assert(is_index_permutation(p, n as int)) by {
            assert forall|i: int, k: int| 0 <= i < k < n implies p[i] != p[k] by {
                assert(sorts_before(order, inp@, p[i], p[k]));
            }
        }
    }
    out
}

proof fn lemma_count_none(s: Seq<bool>)
    requires
        forall|i: int| 0 <= i < s.len() ==> !s[i],
    ensures
        count_true(s) == 0,
    decreases s.len(),
{
    if s.len() > 0 {
        lemma_count_none(s.drop_last());
    }
}


/// The boxes of the labelled components, in label order, that cover at
/// least `min_area` pixels.
pub open spec fn large_boxes(labels: Seq<(u32, BoundingBox)>, min_area: u32) -> Seq<BoundingBox> {
    labels.map_values(|l: (u32, BoundingBox)| l.1).filter(|b: BoundingBox| b.w * b.h >= min_area)
}

/// Each frame is the crop of the sheet at its own rectangle.
pub open spec fn frames_are_crops(frames: Seq<FrameWithBBox>, img: RgbaImage) -> bool {
    forall|k: int|
        0 <= k < frames.len() ==> is_crop_of(
            #[trigger] frames[k].image,
            img,
            frames[k].bbox.x as int,
            frames[k].bbox.y as int,
            frames[k].bbox.w as int,
            frames[k].bbox.h as int,
        )
}

/// The rectangles of the frames, in order.
pub open spec fn frame_boxes(frames: Seq<FrameWithBBox>) -> Seq<BoundingBox> {
    frames.map_values(|f: FrameWithBBox| f.bbox)
}

/// What auto-detect slicing returns for the image and parameters: the crops
/// of the components' boxes that are large enough, in sort order.
pub open spec fn auto_slice_outcome(img: RgbaImage, params: AutoDetectSliceParams, r: Result<Vec<FrameWithBBox>, String>) -> bool {
    r matches Ok(frames) && frames_are_crops(frames@, img) && exists|
        mask: Seq<Vec<bool>>,
        seeds: Seq<(int, int)>,
        labels: Seq<(u32, BoundingBox)>,
    |
        #![trigger is_alpha_mask_of(mask, img), labels_components(mask, seeds, labels)]
        is_alpha_mask_of(mask, img) && labels_components(mask, seeds, labels) && is_stable_sort(
            frame_boxes(frames@),
            large_boxes(labels, params.min_area),
            params.sort_order,
        )
}

proof fn lemma_component_box_starts_inside(mask: Seq<Vec<bool>>, img: RgbaImage, s: (int, int), b: BoundingBox)
    requires
        is_alpha_mask_of(mask, img),
        is_component_bbox(mask, s, b),
    ensures
        b.x < img.spec_width(),
{
    let d = choose|d: (int, int)| #[trigger] connected(mask, s, d) && d.0 == b.x;
    let path = choose|path: Seq<(int, int)>| #[trigger] is_path(mask, path) && path[0] == s && path[path.len() - 1] == d;
    assert(crate::components::opaque(mask, path[path.len() - 1]));
    assert(mask_w(mask) == img.spec_width());
}

/// Auto-detected frames sorted top to bottom come by the top edge of their
/// box, and frames whose tops are level come left to right, whatever their
/// heights, for sheets up to 10000 pixels wide (the sort key is
/// `y * 10000 + x`).
pub proof fn lemma_auto_frames_top_to_bottom(img: RgbaImage, params: AutoDetectSliceParams, r: Result<Vec<FrameWithBBox>, String>)
    requires
        auto_slice_outcome(img, params, r),
        params.sort_order == SortOrder::TopToBottom,
        img.spec_width() <= 10000,
    ensures
        r matches Ok(frames) ==> forall|k: int, l: int|
            #![trigger frames@[k], frames@[l]]
            0 <= k < l < frames@.len() ==> frames@[k].bbox.y < frames@[l].bbox.y || (frames@[k].bbox.y
                == frames@[l].bbox.y && frames@[k].bbox.x <= frames@[l].bbox.x),
{
    let frames = r->Ok_0;
    let (mask, seeds, labels) = choose|mask: Seq<Vec<bool>>, seeds: Seq<(int, int)>, labels: Seq<(u32, BoundingBox)>|
        #![trigger is_alpha_mask_of(mask, img), labels_components(mask, seeds, labels)]
        is_alpha_mask_of(mask, img) && labels_components(mask, seeds, labels) && is_stable_sort(
            frame_boxes(frames@),
            large_boxes(labels, params.min_area),
            params.sort_order,
        );
    let inp = large_boxes(labels, params.min_area);
    let boxes = labels.map_values(|l: (u32, BoundingBox)| l.1);
    let keep = |b: BoundingBox| b.w * b.h >= params.min_area;
    assert forall|k: int| 0 <= k < inp.len() implies #[trigger] inp[k].x < 10000 by {
        assert(boxes.filter(keep).contains(inp[k]));
        boxes.lemma_filter_contains_rev(keep, inp[k]);
        let j = choose|j: int| 0 <= j < boxes.len() && boxes[j] == inp[k];
        assert(boxes.len() == labels.len() && boxes[j] == labels[j].1);
        assert(labels[j].0 == j + 1);
        assert(is_component_bbox(mask, seeds[j], labels[j].1));
        lemma_component_box_starts_inside(mask, img, seeds[j], labels[j].1);
    }
    lemma_sorted_by_edges(frame_boxes(frames@), inp, params.sort_order);
    assert forall|k: int, l: int|
        #![trigger frames@[k], frames@[l]]
        0 <= k < l < frames@.len() implies frames@[k].bbox.y < frames@[l].bbox.y || (frames@[k].bbox.y
            == frames@[l].bbox.y && frames@[k].bbox.x <= frames@[l].bbox.x) by {
        let out = frame_boxes(frames@);
        assert(out[k] == frames@[k].bbox && out[l] == frames@[l].bbox);
    }
}

/// Detects sprites as the connected opaque regions of the sheet (4-connectivity),
/// drops those whose bounding box covers fewer than `min_area` pixels, orders the
/// rest by the sort order (stable) and crops each one out.
pub fn slice_auto_detect(img: &RgbaImage, params: &AutoDetectSliceParams) -> (r: Result<Vec<FrameWithBBox>, String>)
    requires
        img.inv(),
        img.spec_width() * img.spec_height() <= u32::MAX,
        params.sort_order == SortOrder::TopToBottom ==> (img.spec_height() - 1) * 10000 + img.spec_width() - 1
            <= u32::MAX,
    ensures
        auto_slice_outcome(*img, *params, r),
{
    let mask = build_alpha_mask(img);
    proof {
        img.lemma_inv_size();
        if mask@.len() > 0 {
            assert(mask_w(mask@) == img.spec_width());
        }
        if mask@.len() > 0 {
            let w = mask_w(mask@);
            let h = mask_h(mask@);
            assert(w == img.spec_width() && h == img.spec_height());
            assert(w <= u32::MAX && h <= u32::MAX);
            assert(w * h <= u32::MAX);
            crate::components::lemma_component_count_fits(mask@);
        } else {
            assert(mask_w(mask@) == 0);
            assert(mask_h(mask@) == 0);
            assert(mask_w(mask@) * mask_h(mask@) == 0) by (nonlinear_arith)
                requires
                    mask_w(mask@) == 0,
            ;
            crate::components::lemma_component_count_fits(mask@);
        }
    }
    let labels = bfs_labeling(&mask);
    let ghost seeds = choose|seeds: Seq<(int, int)>| labels_components(mask@, seeds, labels@);
    let ghost boxes = labels@.map_values(|l: (u32, BoundingBox)| l.1);
    let ghost keep = |b: BoundingBox| b.w * b.h >= params.min_area;
    let mut components: Vec<BoundingBox> = Vec::new();
    let mut i: usize = 0;
    while i < labels.len()
        invariant
            i <= labels@.len(),
            boxes == labels@.map_values(|l: (u32, BoundingBox)| l.1),
            keep == (|b: BoundingBox| b.w * b.h >= params.min_area),
            components@ == boxes.take(i as int).filter(keep),
        decreases labels.len() - i,
    {
        let bbox = labels[i].1;
        proof {
            assert(boxes.take(i + 1).drop_last() =~= boxes.take(i as int));
            assert(boxes.take(i + 1).last() == bbox);
            reveal(Seq::filter);
        }
        assert((bbox.w as u64) * (bbox.h as u64) <= u64::MAX) by (nonlinear_arith)
            requires
                bbox.w <= u32::MAX,
                bbox.h <= u32::MAX,
        ;
        let area: u64 = (bbox.w as u64) * (bbox.h as u64);
        if area >= params.min_area as u64 {
            components.push(bbox);
        }
        i = i + 1;
    }
    proof {
        assert(boxes.take(labels@.len() as int) =~= boxes);
    }
    let sorted = stable_sort_frames(&components, params.sort_order);
    let mut frames: Vec<FrameWithBBox> = Vec::new();
    let mut k: usize = 0;
    while k < sorted.len()
        invariant
            img.inv(),
            k <= sorted@.len(),
            frames@.len() == k,
            forall|m: int| 0 <= m < k ==> #[trigger] frames@[m].bbox == sorted@[m],
            frames_are_crops(frames@, *img),
        decreases sorted.len() - k,
    {
        let bbox = sorted[k];
        let cell = crop_imm(img, bbox.x, bbox.y, bbox.w, bbox.h);
        frames.push(FrameWithBBox { image: cell, bbox });
        k = k + 1;
    }
    proof {
        assert(frame_boxes(frames@) =~= sorted@);
        assert(is_alpha_mask_of(mask@, *img) && labels_components(mask@, seeds, labels@));
    }
    Ok(frames)
}


/// The input an image must meet to be sliced in the mode.
pub open spec fn slice_input_ok(img: RgbaImage, op: SliceOperation) -> bool {
    &&& img.inv()
    &&& op.mode == SliceMode::Grid ==> {
        &&& img.spec_width() + op.grid_params.margin <= u32::MAX
        &&& img.spec_height() + op.grid_params.margin <= u32::MAX
        &&& 2 * op.grid_params.margin <= u32::MAX
    }
    &&& op.mode == SliceMode::AutoDetect ==> {
        &&& img.spec_width() * img.spec_height() <= u32::MAX
        &&& op.auto_detect_params.sort_order == SortOrder::TopToBottom ==> (img.spec_height() - 1) * 10000
            + img.spec_width() - 1 <= u32::MAX
    }
}

/// Slices the sheet in the operation's mode.
pub fn slice_frames(img: &RgbaImage, op: &SliceOperation) -> (r: Result<Vec<FrameWithBBox>, String>)
    requires
        slice_input_ok(*img, *op),
    ensures
        op.mode == SliceMode::Grid ==> grid_slice_outcome(*img, op.grid_params, r),
        op.mode == SliceMode::AutoDetect ==> auto_slice_outcome(*img, op.auto_detect_params, r),
{
    match op.mode {
        SliceMode::Grid => slice_grid(img, &op.grid_params),
        SliceMode::AutoDetect => slice_auto_detect(img, &op.auto_detect_params),
    }
}

/// The file a sliced frame is saved as: `frame_` and its index in at least
/// three digits, `.png`.
pub fn frame_file_name(index: usize) -> (r: String)
    ensures
        r@ == "frame_"@ + zero_pad(decimal(index as nat), 3) + ".png"@,
{
    let mut s = String::from_str("frame_");
    s.append(zero_padded(index as u64, 3).as_str());
    s.append(".png");
    s
}

/// Frame entry of the slicing manifest.
#[derive(Debug)]
pub struct FrameInfo {
    pub index: usize,
    pub path: String,
    pub bbox: BoundingBox,
}

/// The manifest entries of the sliced frames: their index, file name and box.
pub fn frame_infos(frames: &Vec<FrameWithBBox>) -> (r: Vec<FrameInfo>)
    ensures
        r@.len() == frames@.len(),
        forall|i: int|
            0 <= i < frames@.len() ==> {
                &&& (#[trigger] r@[i]).index == i
                &&& r@[i].path@ == "frame_"@ + zero_pad(decimal(i as nat), 3) + ".png"@
                &&& r@[i].bbox == frames@[i].bbox
            },
{
    let mut out: Vec<FrameInfo> = Vec::new();
    let mut i: usize = 0;
    while i < frames.len()
        invariant
            i <= frames@.len(),
            out@.len() == i,
            forall|k: int|
                0 <= k < i ==> {
                    &&& (#[trigger] out@[k]).index == k
                    &&& out@[k].path@ == "frame_"@ + zero_pad(decimal(k as nat), 3) + ".png"@
                    &&& out@[k].bbox == frames@[k].bbox
                },
        decreases frames.len() - i,
    {
        let info = FrameInfo { index: i, path: frame_file_name(i), bbox: frames[i].bbox };
        let ghost old_out = out@;
        out.push(info);
        assert forall|k: int| 0 <= k < i implies #[trigger] out@[k] == old_out[k] by {}
        i = i + 1;
    }
    out
}

impl SliceMode {
    /// The mode's name as the job metadata records it.
    pub fn metadata_name(&self) -> (s: &'static str)
        ensures
            s@ == (match *self {
                SliceMode::Grid => "grid"@,
                SliceMode::AutoDetect => "autodetect"@,
            }),
    {
        match self {
            SliceMode::Grid => "grid",
            SliceMode::AutoDetect => "autodetect",
        }
    }
}

} // verus!
