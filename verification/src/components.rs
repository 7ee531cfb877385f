//! Connected-component labeling of an opacity mask (4-connectivity), the
//! content-aware half of sprite-sheet slicing.

use vstd::prelude::*;
use std::collections::VecDeque;
use crate::slicing::BoundingBox;

verus! {

/// A cell of the mask as (column, row).
pub type Cell = (int, int);

/// Number of rows of the mask.
pub open spec fn mask_h(mask: Seq<Vec<bool>>) -> int {
    mask.len() as int
}

/// Number of columns of the mask: the length of its first row.
pub open spec fn mask_w(mask: Seq<Vec<bool>>) -> int {
    if mask.len() == 0 {
        0
    } else {
        mask[0]@.len() as int
    }
}

/// The cell lies inside the mask.
pub open spec fn in_grid(mask: Seq<Vec<bool>>, c: Cell) -> bool {
    0 <= c.0 < mask_w(mask) && 0 <= c.1 < mask_h(mask)
}

/// The cell lies inside the mask and is set.
pub open spec fn opaque(mask: Seq<Vec<bool>>, c: Cell) -> bool {
    in_grid(mask, c) && mask[c.1]@[c.0]
}

/// The two cells share an edge.
pub open spec fn adjacent(a: Cell, b: Cell) -> bool {
    ||| (a.0 == b.0 && (a.1 == b.1 + 1 || a.1 + 1 == b.1))
    ||| (a.1 == b.1 && (a.0 == b.0 + 1 || a.0 + 1 == b.0))
}

/// Consecutive cells `i` and `i + 1` of `p` share an edge.
pub open spec fn path_step(p: Seq<Cell>, i: int) -> bool {
    adjacent(p[i], p[i + 1])
}

/// `p` is a non-empty walk over set cells, each step to an edge neighbor.
pub open spec fn is_path(mask: Seq<Vec<bool>>, p: Seq<Cell>) -> bool {
    &&& p.len() > 0
    &&& forall|i: int| 0 <= i < p.len() ==> opaque(mask, #[trigger] p[i])
    &&& forall|i: int| 0 <= i < p.len() - 1 ==> #[trigger] path_step(p, i)
}

/// `b` can be reached from `a` through set cells with 4-connectivity.
pub open spec fn connected(mask: Seq<Vec<bool>>, a: Cell, b: Cell) -> bool {
    exists|p: Seq<Cell>| #[trigger] is_path(mask, p) && p[0] == a && p[p.len() - 1] == b
}

/// Position of a cell in row-major scan order.
pub open spec fn scan_index(mask: Seq<Vec<bool>>, c: Cell) -> int {
    c.1 * mask_w(mask) + c.0
}

/// `c` is the first cell of its component in scan order.
pub open spec fn is_seed(mask: Seq<Vec<bool>>, c: Cell) -> bool {
    &&& opaque(mask, c)
    &&& forall|d: Cell| #[trigger] connected(mask, c, d) ==> scan_index(mask, c) <= scan_index(mask, d)
}

/// `b` is the smallest rectangle holding every cell connected to `s`.
pub open spec fn is_component_bbox(mask: Seq<Vec<bool>>, s: Cell, b: BoundingBox) -> bool {
    &&& forall|d: Cell|
        #[trigger] connected(mask, s, d) ==> b.x <= d.0 < b.x + b.w && b.y <= d.1 < b.y + b.h
    &&& exists|d: Cell| #[trigger] connected(mask, s, d) && d.0 == b.x
    &&& exists|d: Cell| #[trigger] connected(mask, s, d) && d.0 == b.x + b.w - 1
    &&& exists|d: Cell| #[trigger] connected(mask, s, d) && d.1 == b.y
    &&& exists|d: Cell| #[trigger] connected(mask, s, d) && d.1 == b.y + b.h - 1
}

/// `out` lists, labelled 1, 2, ..., the bounding boxes of the components of
/// `mask` whose first cells are `seeds`, in scan order of those first cells.
pub open spec fn labels_components(mask: Seq<Vec<bool>>, seeds: Seq<Cell>, out: Seq<(u32, BoundingBox)>) -> bool {
    &&& seeds.len() == out.len()
    &&& forall|k: int| 0 <= k < seeds.len() ==> #[trigger] is_seed(mask, seeds[k])
    &&& forall|k: int, l: int|
        0 <= k < l < seeds.len() ==> scan_index(mask, #[trigger] seeds[k]) < scan_index(
            mask,
            #[trigger] seeds[l],
        )
    &&& forall|c: Cell| #[trigger] is_seed(mask, c) ==> exists|k: int| 0 <= k < seeds.len() && seeds[k] == c
    &&& forall|k: int|
        0 <= k < out.len() ==> #[trigger] out[k].0 == k + 1 && is_component_bbox(
            mask,
            seeds[k],
            out[k].1,
        )
}

/// A single set cell is connected to itself.
pub proof fn lemma_connected_refl(mask: Seq<Vec<bool>>, a: Cell)
    requires
        opaque(mask, a),
    ensures
        connected(mask, a, a),
{
    let p = seq![a];
    assert(is_path(mask, p));
}

/// A path may be extended by one step to a set neighbor.
pub proof fn lemma_connected_step(mask: Seq<Vec<bool>>, a: Cell, b: Cell, c: Cell)
    requires
        connected(mask, a, b),
        adjacent(b, c),
        opaque(mask, c),
    ensures
        connected(mask, a, c),
{
    let p = choose|p: Seq<Cell>| #[trigger] is_path(mask, p) && p[0] == a && p[p.len() - 1] == b;
    let q = p.push(c);
    assert forall|i: int| 0 <= i < q.len() - 1 implies #[trigger] path_step(q, i) by {
        if i < p.len() - 1 {
            assert(path_step(p, i));
        }
    }
    assert(is_path(mask, q));
}

/// Connectivity is symmetric.
pub proof fn lemma_connected_sym(mask: Seq<Vec<bool>>, a: Cell, b: Cell)
    requires
        connected(mask, a, b),
    ensures
        connected(mask, b, a),
{
    let p = choose|p: Seq<Cell>| #[trigger] is_path(mask, p) && p[0] == a && p[p.len() - 1] == b;
    let n = p.len();
    let q = Seq::new(n, |i: int| p[n - 1 - i]);
    assert forall|i: int| 0 <= i < q.len() implies opaque(mask, #[trigger] q[i]) by {
        assert(opaque(mask, p[n - 1 - i]));
    }
    assert forall|i: int| 0 <= i < q.len() - 1 implies #[trigger] path_step(q, i) by {
        assert(path_step(p, n - 2 - i));
    }
    assert(is_path(mask, q));
}

/// Connectivity is transitive.
pub proof fn lemma_connected_trans(mask: Seq<Vec<bool>>, a: Cell, b: Cell, c: Cell)
    requires
        connected(mask, a, b),
        connected(mask, b, c),
    ensures
        connected(mask, a, c),
{
    let p1 = choose|p: Seq<Cell>| #[trigger] is_path(mask, p) && p[0] == a && p[p.len() - 1] == b;
    let p2 = choose|p: Seq<Cell>| #[trigger] is_path(mask, p) && p[0] == b && p[p.len() - 1] == c;
    let q = p1 + p2.subrange(1, p2.len() as int);
    assert forall|i: int| 0 <= i < q.len() implies opaque(mask, #[trigger] q[i]) by {
        if i < p1.len() {
            assert(opaque(mask, p1[i]));
        } else {
            assert(q[i] == p2[i - p1.len() + 1]);
            assert(opaque(mask, p2[i - p1.len() + 1]));
        }
    }
    assert forall|i: int| 0 <= i < q.len() - 1 implies #[trigger] path_step(q, i) by {
        if i < p1.len() - 1 {
            assert(path_step(p1, i));
        } else if i == p1.len() - 1 {
            assert(path_step(p2, 0));
        } else {
            assert(path_step(p2, i - p1.len() + 1));
        }
    }
    assert(is_path(mask, q));
    if p2.len() == 1 {
        assert(q[q.len() - 1] == p1[p1.len() - 1]);
    } else {
        assert(q[q.len() - 1] == p2[p2.len() - 1]);
    }
}

/// The endpoints of a connection are set cells.
pub proof fn lemma_connected_opaque(mask: Seq<Vec<bool>>, a: Cell, b: Cell)
    requires
        connected(mask, a, b),
    ensures
        opaque(mask, a),
        opaque(mask, b),
{
    let p = choose|p: Seq<Cell>| #[trigger] is_path(mask, p) && p[0] == a && p[p.len() - 1] == b;
    assert(opaque(mask, p[0]));
    assert(opaque(mask, p[p.len() - 1]));
}


/// The flat (row-major) visited flag of cell `c`.
pub open spec fn vis(mask: Seq<Vec<bool>>, v: Seq<bool>, c: Cell) -> bool {
    v[scan_index(mask, c)]
}

/// Every visited cell is set, and the set neighbors of visited cells are visited.
pub open spec fn closed_visited(mask: Seq<Vec<bool>>, v: Seq<bool>) -> bool {
    &&& v.len() == mask_w(mask) * mask_h(mask)
    &&& forall|c: Cell| in_grid(mask, c) && #[trigger] vis(mask, v, c) ==> opaque(mask, c)
    &&& forall|c: Cell, d: Cell|
        in_grid(mask, c) && #[trigger] vis(mask, v, c) && #[trigger] adjacent(c, d) && opaque(mask, d)
            ==> vis(mask, v, d)
}

/// A closed visited set holds every cell reachable from one of its cells.
pub proof fn lemma_closed_reaches(mask: Seq<Vec<bool>>, v: Seq<bool>, a: Cell, b: Cell)
    requires
        closed_visited(mask, v),
        in_grid(mask, a),
        vis(mask, v, a),
        connected(mask, a, b),
    ensures
        vis(mask, v, b),
{
    let p = choose|p: Seq<Cell>| #[trigger] is_path(mask, p) && p[0] == a && p[p.len() - 1] == b;
    lemma_closed_path_prefix(mask, v, p, p.len() - 1);
}

proof fn lemma_closed_path_prefix(mask: Seq<Vec<bool>>, v: Seq<bool>, p: Seq<Cell>, k: int)
    requires
        closed_visited(mask, v),
        is_path(mask, p),
        vis(mask, v, p[0]),
        0 <= k < p.len(),
    ensures
        vis(mask, v, p[k]),
    decreases k,
{
    if k > 0 {
        lemma_closed_path_prefix(mask, v, p, k - 1);
        assert(path_step(p, k - 1));
        assert(opaque(mask, p[k - 1]));
        assert(opaque(mask, p[k]));
    }
}

/// Every set cell is connected to a seed that comes no later in scan order.
pub proof fn lemma_seed_below(mask: Seq<Vec<bool>>, d: Cell) -> (s: Cell)
    requires
        opaque(mask, d),
    ensures
        is_seed(mask, s),
        connected(mask, s, d),
        scan_index(mask, s) <= scan_index(mask, d),
    decreases scan_index(mask, d),
{
    lemma_scan_nonneg(mask, d);
    if is_seed(mask, d) {
        lemma_connected_refl(mask, d);
        d
    } else {
        let e = choose|e: Cell|
            #[trigger] connected(mask, d, e) && scan_index(mask, e) < scan_index(mask, d);
        lemma_connected_opaque(mask, d, e);
        lemma_scan_nonneg(mask, e);
        let s = lemma_seed_below(mask, e);
        lemma_connected_sym(mask, d, e);
        lemma_connected_trans(mask, s, e, d);
        s
    }
}

/// Cells inside the mask have non-negative scan positions below `w * h`.
pub proof fn lemma_scan_nonneg(mask: Seq<Vec<bool>>, c: Cell)
    requires
        in_grid(mask, c),
    ensures
        0 <= scan_index(mask, c) < mask_w(mask) * mask_h(mask),
{
    crate::image::lemma_index_in_bounds(c.0, c.1, mask_w(mask), mask_h(mask));
}

/// Distinct cells of the mask have distinct scan positions.
pub proof fn lemma_scan_injective(mask: Seq<Vec<bool>>, a: Cell, b: Cell)
    requires
        in_grid(mask, a),
        in_grid(mask, b),
        scan_index(mask, a) == scan_index(mask, b),
    ensures
        a == b,
{
    if a != b {
        crate::image::lemma_index_distinct(a.0, a.1, b.0, b.1, mask_w(mask));
    }
}


/// The mask is a non-empty grid whose rows all reach the first row's width.
pub open spec fn grid_ok(mask: Seq<Vec<bool>>) -> bool {
    &&& mask.len() > 0
    &&& mask_w(mask) > 0
    &&& forall|y: int| 0 <= y < mask.len() ==> #[trigger] mask[y]@.len() >= mask_w(mask)
    &&& mask_w(mask) * mask_h(mask) <= usize::MAX
    &&& mask_w(mask) <= u32::MAX
    &&& mask_h(mask) <= u32::MAX
}

/// A queued position as a cell.
pub open spec fn qcell(e: (usize, usize)) -> Cell {
    (e.0 as int, e.1 as int)
}

/// The cell waits in the queue.
pub open spec fn in_queue(q: Seq<(usize, usize)>, c: Cell) -> bool {
    exists|j: int| 0 <= j < q.len() && #[trigger] qcell(q[j]) == c
}

/// The cell was visited during this exploration.
pub open spec fn is_new(mask: Seq<Vec<bool>>, old_v: Seq<bool>, v: Seq<bool>, c: Cell) -> bool {
    vis(mask, v, c) && !vis(mask, old_v, c)
}

/// Every set neighbor of the cell is visited.
pub open spec fn nbrs_visited(mask: Seq<Vec<bool>>, v: Seq<bool>, c: Cell) -> bool {
    forall|d: Cell| #[trigger] adjacent(c, d) && opaque(mask, d) ==> vis(mask, v, d)
}

/// The cell lies in the box (min x, max x, min y, max y).
pub open spec fn in_box(c: Cell, bx: (int, int, int, int)) -> bool {
    bx.0 <= c.0 <= bx.1 && bx.2 <= c.1 <= bx.3
}

/// Visited flags only grow, newly visited cells are reachable from the seed,
/// and queued cells are newly visited cells of the grid.
pub open spec fn bfs_core(mask: Seq<Vec<bool>>, old_v: Seq<bool>, v: Seq<bool>, q: Seq<(usize, usize)>, seed: Cell) -> bool {
    &&& v.len() == mask_w(mask) * mask_h(mask)
    &&& old_v.len() == mask_w(mask) * mask_h(mask)
    &&& in_grid(mask, seed)
    &&& vis(mask, v, seed)
    &&& forall|c: Cell| in_grid(mask, c) && #[trigger] vis(mask, old_v, c) ==> vis(mask, v, c)
    &&& forall|c: Cell| in_grid(mask, c) && #[trigger] is_new(mask, old_v, v, c) ==> connected(mask, seed, c)
    &&& forall|j: int|
        0 <= j < q.len() ==> in_grid(mask, #[trigger] qcell(q[j])) && is_new(mask, old_v, v, qcell(q[j]))
}

/// Newly visited cells (but `skip`) are queued, or fully expanded and inside the box.
pub open spec fn bfs_done(mask: Seq<Vec<bool>>, old_v: Seq<bool>, v: Seq<bool>, q: Seq<(usize, usize)>, bx: (int, int, int, int), skip: Option<Cell>) -> bool {
    forall|c: Cell|
        in_grid(mask, c) && #[trigger] is_new(mask, old_v, v, c) && skip != Some(c) ==> in_queue(q, c)
            || (nbrs_visited(mask, v, c) && in_box(c, bx))
}

/// Updating the flat flag of `n` changes the visited flag of `n` only.
pub proof fn lemma_vis_update(mask: Seq<Vec<bool>>, v: Seq<bool>, n: Cell, c: Cell)
    requires
        grid_ok(mask),
        v.len() == mask_w(mask) * mask_h(mask),
        in_grid(mask, n),
        in_grid(mask, c),
    ensures
        vis(mask, v.update(scan_index(mask, n), true), c) == (c == n || vis(mask, v, c)),
{
    lemma_scan_nonneg(mask, n);
    lemma_scan_nonneg(mask, c);
    if c != n {
        crate::image::lemma_index_distinct(c.0, c.1, n.0, n.1, mask_w(mask));
    }
}

/// Visiting a new set cell `n` reachable from the seed keeps the search invariants.
pub proof fn lemma_visit_keeps(
    mask: Seq<Vec<bool>>,
    old_v: Seq<bool>,
    v: Seq<bool>,
    q: Seq<(usize, usize)>,
    seed: Cell,
    bx: (int, int, int, int),
    skip: Option<Cell>,
    e: (usize, usize),
)
    requires
        grid_ok(mask),
        bfs_core(mask, old_v, v, q, seed),
        bfs_done(mask, old_v, v, q, bx, skip),
        in_grid(mask, qcell(e)),
        !vis(mask, v, qcell(e)),
        connected(mask, seed, qcell(e)),
    ensures
        bfs_core(mask, old_v, v.update(scan_index(mask, qcell(e)), true), q.push(e), seed),
        bfs_done(mask, old_v, v.update(scan_index(mask, qcell(e)), true), q.push(e), bx, skip),
{
    let n = qcell(e);
    lemma_scan_nonneg(mask, n);
    let v2 = v.update(scan_index(mask, n), true);
    let q2 = q.push(e);
    lemma_vis_update(mask, v, n, seed);
    assert forall|c: Cell| in_grid(mask, c) && #[trigger] vis(mask, old_v, c) implies vis(mask, v2, c) by {
        lemma_vis_update(mask, v, n, c);
    }
    assert forall|c: Cell| in_grid(mask, c) && #[trigger] is_new(mask, old_v, v2, c) implies connected(
        mask,
        seed,
        c,
    ) by {
        lemma_vis_update(mask, v, n, c);
        if c != n {
            assert(is_new(mask, old_v, v, c));
        }
    }
    assert forall|j: int| 0 <= j < q2.len() implies in_grid(mask, #[trigger] qcell(q2[j])) && is_new(
        mask,
        old_v,
        v2,
        qcell(q2[j]),
    ) by {
        if j < q.len() {
            assert(q2[j] == q[j]);
            assert(in_grid(mask, qcell(q[j])) && is_new(mask, old_v, v, qcell(q[j])));
            lemma_vis_update(mask, v, n, qcell(q[j]));
        } else {
            lemma_vis_update(mask, v, n, n);
            assert(!vis(mask, old_v, n));
        }
    }
    assert forall|c: Cell|
        in_grid(mask, c) && #[trigger] is_new(mask, old_v, v2, c) && skip != Some(c) implies in_queue(
        q2,
        c,
    ) || (nbrs_visited(mask, v2, c) && in_box(c, bx)) by {
        lemma_vis_update(mask, v, n, c);
        if c == n {
            assert(qcell(q2[q.len() as int]) == c);
        } else {
            assert(is_new(mask, old_v, v, c));
            if in_queue(q, c) {
                let j = choose|j: int| 0 <= j < q.len() && #[trigger] qcell(q[j]) == c;
                assert(qcell(q2[j]) == c);
            } else {
                assert forall|d: Cell| #[trigger] adjacent(c, d) && opaque(mask, d) implies vis(
                    mask,
                    v2,
                    d,
                ) by {
                    assert(vis(mask, v, d));
                    lemma_vis_update(mask, v, n, d);
                }
            }
        }
    }
}


fn try_visit(
    mask: &[Vec<bool>],
    width: usize,
    visited: &mut Vec<bool>,
    queue: &mut VecDeque<(usize, usize)>,
    nx: usize,
    ny: usize,
) -> (pushed: bool)
    requires
        grid_ok(mask@),
        width == mask_w(mask@),
        old(visited)@.len() == mask_w(mask@) * mask_h(mask@),
        in_grid(mask@, (nx as int, ny as int)),
    ensures
        pushed == (opaque(mask@, (nx as int, ny as int)) && !vis(
            mask@,
            old(visited)@,
            (nx as int, ny as int),
        )),
        pushed ==> final(visited)@ == old(visited)@.update(
            scan_index(mask@, (nx as int, ny as int)),
            true,
        ) && final(queue)@ == old(queue)@.push((nx, ny)),
        !pushed ==> final(visited)@ == old(visited)@ && final(queue)@ == old(queue)@,
{
    proof {
        lemma_scan_nonneg(mask@, (nx as int, ny as int));
        assert(mask@[ny as int]@.len() >= mask_w(mask@));
    }
    let idx = ny * width + nx;
    if mask[ny][nx] && !visited[idx] {
        visited.set(idx, true);
        queue.push_back((nx, ny));
        true
    } else {
        false
    }
}


/// Number of set flags.
pub open spec fn count_true(s: Seq<bool>) -> nat
    decreases s.len(),
{
    if s.len() == 0 {
        0
    } else {
        count_true(s.drop_last()) + if s.last() {
            1nat
        } else {
            0nat
        }
    }
}

pub(crate) proof fn lemma_count_update(s: Seq<bool>, i: int)
    requires
        0 <= i < s.len(),
        !s[i],
    ensures
        count_true(s.update(i, true)) == count_true(s) + 1,
    decreases s.len(),
{
    let t = s.update(i, true);
    if i == s.len() - 1 {
        assert(t.drop_last() =~= s.drop_last());
    } else {
        assert(t.drop_last() =~= s.drop_last().update(i, true));
        lemma_count_update(s.drop_last(), i);
    }
}

pub(crate) proof fn lemma_count_bound(s: Seq<bool>)
    ensures
        count_true(s) <= s.len(),
    decreases s.len(),
{
    if s.len() > 0 {
        lemma_count_bound(s.drop_last());
    }
}

/// Removing the front of the queue keeps every other queued cell queued.
proof fn lemma_pop_keeps_done(
    mask: Seq<Vec<bool>>,
    old_v: Seq<bool>,
    v: Seq<bool>,
    q: Seq<(usize, usize)>,
    bx: (int, int, int, int),
    bx2: (int, int, int, int),
)
    requires
        q.len() > 0,
        bfs_done(mask, old_v, v, q, bx, None),
        bx2.0 <= bx.0,
        bx.1 <= bx2.1,
        bx2.2 <= bx.2,
        bx.3 <= bx2.3,
    ensures
        bfs_done(mask, old_v, v, q.subrange(1, q.len() as int), bx2, Some(qcell(q[0]))),
{
    let q2 = q.subrange(1, q.len() as int);
    assert forall|c: Cell|
        in_grid(mask, c) && #[trigger] is_new(mask, old_v, v, c) && Some(qcell(q[0])) != Some(
            c,
        ) implies in_queue(q2, c) || (nbrs_visited(mask, v, c) && in_box(c, bx2)) by {
        if in_queue(q, c) {
            let j = choose|j: int| 0 <= j < q.len() && #[trigger] qcell(q[j]) == c;
            assert(j != 0);
            assert(qcell(q2[j - 1]) == c);
        }
    }
}


/// Visits the set neighbors of the cell just taken from the queue.
fn expand_cell(
    mask: &[Vec<bool>],
    width: usize,
    visited: &mut Vec<bool>,
    queue: &mut VecDeque<(usize, usize)>,
    cx: usize,
    cy: usize,
    Ghost(old_v): Ghost<Seq<bool>>,
    Ghost(seed): Ghost<Cell>,
    Ghost(bx): Ghost<(int, int, int, int)>,
)
    requires
        grid_ok(mask@),
        width == mask_w(mask@),
        bfs_core(mask@, old_v, old(visited)@, old(queue)@, seed),
        bfs_done(mask@, old_v, old(visited)@, old(queue)@, bx, Some((cx as int, cy as int))),
        in_grid(mask@, (cx as int, cy as int)),
        connected(mask@, seed, (cx as int, cy as int)),
        in_box((cx as int, cy as int), bx),
    ensures
        bfs_core(mask@, old_v, final(visited)@, final(queue)@, seed),
        bfs_done(mask@, old_v, final(visited)@, final(queue)@, bx, None),
        count_true(final(visited)@) - count_true(old(visited)@) == final(queue)@.len() - old(
            queue,
        )@.len(),
        final(queue)@.len() >= old(queue)@.len(),
{
    let ghost c: Cell = (cx as int, cy as int);
    let height = mask.len();
    if cy > 0 {
        let ghost vb = visited@;
        let ghost qb = queue@;
        if try_visit(mask, width, visited, queue, cx, cy - 1) {
            proof {
                lemma_connected_step(mask@, seed, c, (cx as int, cy - 1));
                lemma_visit_keeps(mask@, old_v, vb, qb, seed, bx, Some(c), (cx, (cy - 1) as usize));
                lemma_scan_nonneg(mask@, (cx as int, cy - 1));
                lemma_count_update(vb, scan_index(mask@, (cx as int, cy - 1)));
            }
        }
    }
    if cx + 1 < width {
        let ghost vb = visited@;
        let ghost qb = queue@;
        if try_visit(mask, width, visited, queue, cx + 1, cy) {
            proof {
                lemma_connected_step(mask@, seed, c, (cx + 1, cy as int));
                lemma_visit_keeps(mask@, old_v, vb, qb, seed, bx, Some(c), ((cx + 1) as usize, cy));
                lemma_scan_nonneg(mask@, (cx + 1, cy as int));
                lemma_count_update(vb, scan_index(mask@, (cx + 1, cy as int)));
            }
        }
    }
    if cy + 1 < height {
        let ghost vb = visited@;
        let ghost qb = queue@;
        if try_visit(mask, width, visited, queue, cx, cy + 1) {
            proof {
                lemma_connected_step(mask@, seed, c, (cx as int, cy + 1));
                lemma_visit_keeps(mask@, old_v, vb, qb, seed, bx, Some(c), (cx, (cy + 1) as usize));
                lemma_scan_nonneg(mask@, (cx as int, cy + 1));
                lemma_count_update(vb, scan_index(mask@, (cx as int, cy + 1)));
            }
        }
    }
    if cx > 0 {
        let ghost vb = visited@;
        let ghost qb = queue@;
        if try_visit(mask, width, visited, queue, cx - 1, cy) {
            proof {
                lemma_connected_step(mask@, seed, c, (cx - 1, cy as int));
                lemma_visit_keeps(mask@, old_v, vb, qb, seed, bx, Some(c), ((cx - 1) as usize, cy));
                lemma_scan_nonneg(mask@, (cx - 1, cy as int));
                lemma_count_update(vb, scan_index(mask@, (cx - 1, cy as int)));
            }
        }
    }
    proof {
        lemma_count_bound(visited@);
        assert(nbrs_visited(mask@, visited@, c)) by {
            assert forall|d: Cell| #[trigger] adjacent(c, d) && opaque(mask@, d) implies vis(
                mask@,
                visited@,
                d,
            ) by {
                lemma_scan_nonneg(mask@, d);
            }
        }
        assert(bfs_done(mask@, old_v, visited@, queue@, bx, None));
    }
}

/// Explores the component of the seed, marking it visited, and returns its
/// bounding box.
fn explore_component(
    mask: &[Vec<bool>],
    width: usize,
    visited: &mut Vec<bool>,
    sx: usize,
    sy: usize,
) -> (b: BoundingBox)
    requires
        grid_ok(mask@),
        width == mask_w(mask@),
        closed_visited(mask@, old(visited)@),
        opaque(mask@, (sx as int, sy as int)),
        !vis(mask@, old(visited)@, (sx as int, sy as int)),
    ensures
        final(visited)@.len() == old(visited)@.len(),
        forall|c: Cell|
            in_grid(mask@, c) ==> (#[trigger] vis(mask@, final(visited)@, c) <==> (vis(
                mask@,
                old(visited)@,
                c,
            ) || connected(mask@, (sx as int, sy as int), c))),
        is_component_bbox(mask@, (sx as int, sy as int), b),
{
    let ghost old_v = visited@;
    let ghost seed: Cell = (sx as int, sy as int);
    let height = mask.len();
    let mut queue: VecDeque<(usize, usize)> = VecDeque::new();
    proof {
        lemma_connected_refl(mask@, seed);
    }
    let first = try_visit(mask, width, visited, &mut queue, sx, sy);
    assert(first);
    let mut min_x = sx;
    let mut max_x = sx;
    let mut min_y = sy;
    let mut max_y = sy;
    let ghost mut w0: Cell = seed;
    let ghost mut w1: Cell = seed;
    let ghost mut w2: Cell = seed;
    let ghost mut w3: Cell = seed;
    proof {
        let bx = (min_x as int, max_x as int, min_y as int, max_y as int);
        lemma_scan_nonneg(mask@, seed);
        assert forall|c: Cell| in_grid(mask@, c) && #[trigger] vis(mask@, old_v, c) implies vis(
            mask@,
            visited@,
            c,
        ) by {
            lemma_vis_update(mask@, old_v, seed, c);
        }
        assert forall|c: Cell| in_grid(mask@, c) && #[trigger] is_new(mask@, old_v, visited@, c) implies c
            == seed by {
            lemma_vis_update(mask@, old_v, seed, c);
        }
        assert(qcell(queue@[0]) == seed);
        assert(bfs_core(mask@, old_v, visited@, queue@, seed));
        assert(bfs_done(mask@, old_v, visited@, queue@, bx, None));
        lemma_count_bound(visited@);
    }
    while queue.len() > 0
        invariant
            grid_ok(mask@),
            width == mask_w(mask@),
            height == mask_h(mask@),
            closed_visited(mask@, old_v),
            opaque(mask@, seed),
            seed == (sx as int, sy as int),
            bfs_core(mask@, old_v, visited@, queue@, seed),
            bfs_done(mask@, old_v, visited@, queue@, (min_x as int, max_x as int, min_y as int, max_y as int), None),
            min_x <= max_x < width,
            min_y <= max_y < height,
            connected(mask@, seed, w0) && w0.0 == min_x,
            connected(mask@, seed, w1) && w1.0 == max_x,
            connected(mask@, seed, w2) && w2.1 == min_y,
            connected(mask@, seed, w3) && w3.1 == max_y,
            count_true(visited@) <= visited@.len(),
        decreases mask_w(mask@) * mask_h(mask@) - count_true(visited@), queue@.len(),
    {
        let ghost q0 = queue@;
        let ghost bx0 = (min_x as int, max_x as int, min_y as int, max_y as int);
        let front = queue.pop_front();
        let (cx, cy) = match front {
            Some(e) => e,
            None => (sx, sy),
        };
        let ghost c: Cell = (cx as int, cy as int);
        assert(qcell(q0[0]) == c);
        assert(in_grid(mask@, c) && is_new(mask@, old_v, visited@, c));
        assert(connected(mask@, seed, c));
        if cx < min_x {
            min_x = cx;
            proof {
                w0 = c;
            }
        }
        if cx > max_x {
            max_x = cx;
            proof {
                w1 = c;
            }
        }
        if cy < min_y {
            min_y = cy;
            proof {
                w2 = c;
            }
        }
        if cy > max_y {
            max_y = cy;
            proof {
                w3 = c;
            }
        }
        let ghost bx = (min_x as int, max_x as int, min_y as int, max_y as int);
        proof {
            lemma_pop_keeps_done(mask@, old_v, visited@, q0, bx0, bx);
            lemma_connected_opaque(mask@, seed, c);
        }
        let ghost count_before = count_true(visited@);
        assert(queue@.len() == q0.len() - 1);
        expand_cell(mask, width, visited, &mut queue, cx, cy, Ghost(old_v), Ghost(seed), Ghost(bx));
        proof {
            lemma_count_bound(visited@);
            assert(count_true(visited@) - count_before == queue@.len() - (q0.len() - 1));
            assert(visited@.len() == mask_w(mask@) * mask_h(mask@));
            if queue@.len() >= q0.len() {
                assert(count_true(visited@) > count_before);
            }
        }
    }
    proof {
        let v = visited@;
        let bx = (min_x as int, max_x as int, min_y as int, max_y as int);
        assert forall|c: Cell| in_grid(mask@, c) && #[trigger] vis(mask@, v, c) implies opaque(mask@, c) by {
            if !vis(mask@, old_v, c) {
                assert(is_new(mask@, old_v, v, c));
                lemma_connected_opaque(mask@, seed, c);
            }
        }
        assert forall|c: Cell, d: Cell|
            in_grid(mask@, c) && #[trigger] vis(mask@, v, c) && #[trigger] adjacent(c, d) && opaque(mask@, d)
                implies vis(mask@, v, d) by {
            if vis(mask@, old_v, c) {
                assert(vis(mask@, old_v, d));
            } else {
                assert(is_new(mask@, old_v, v, c));
                assert(!in_queue(queue@, c));
                assert(nbrs_visited(mask@, v, c));
            }
        }
        assert(closed_visited(mask@, v));
        assert forall|c: Cell| in_grid(mask@, c) implies (#[trigger] vis(mask@, v, c) <==> (vis(
            mask@,
            old_v,
            c,
        ) || connected(mask@, seed, c))) by {
            if connected(mask@, seed, c) {
                lemma_closed_reaches(mask@, v, seed, c);
            }
            if vis(mask@, v, c) && !vis(mask@, old_v, c) {
                assert(is_new(mask@, old_v, v, c));
            }
        }
        assert forall|d: Cell| #[trigger] connected(mask@, seed, d) implies min_x <= d.0 <= max_x && min_y
            <= d.1 <= max_y by {
            lemma_connected_opaque(mask@, seed, d);
            lemma_closed_reaches(mask@, v, seed, d);
            if vis(mask@, old_v, d) {
                lemma_connected_sym(mask@, seed, d);
                lemma_closed_reaches(mask@, old_v, d, seed);
            }
            assert(is_new(mask@, old_v, v, d));
            assert(!in_queue(queue@, d));
        }
    }
    BoundingBox {
        x: min_x as u32,
        y: min_y as u32,
        w: (max_x - min_x + 1) as u32,
        h: (max_y - min_y + 1) as u32,
    }
}


/// Visited cells are exactly those connected to one of the seeds found so far.
pub open spec fn visited_is_union(mask: Seq<Vec<bool>>, v: Seq<bool>, seeds: Seq<Cell>) -> bool {
    forall|c: Cell|
        in_grid(mask, c) ==> (#[trigger] vis(mask, v, c) <==> exists|k: int|
            0 <= k < seeds.len() && #[trigger] connected(mask, seeds[k], c))
}

/// An unvisited set cell met in scan order, when every earlier seed is known,
/// is the first cell of a new component.
proof fn lemma_new_seed(mask: Seq<Vec<bool>>, v: Seq<bool>, seeds: Seq<Cell>, c: Cell)
    requires
        visited_is_union(mask, v, seeds),
        forall|s: Cell|
            #[trigger] is_seed(mask, s) && scan_index(mask, s) < scan_index(mask, c) ==> exists|k: int|
                0 <= k < seeds.len() && seeds[k] == s,
        opaque(mask, c),
        !vis(mask, v, c),
    ensures
        is_seed(mask, c),
{
    assert forall|d: Cell| #[trigger] connected(mask, c, d) implies scan_index(mask, c) <= scan_index(
        mask,
        d,
    ) by {
        if scan_index(mask, d) < scan_index(mask, c) {
            lemma_connected_opaque(mask, c, d);
            let s = lemma_seed_below(mask, d);
            let k = choose|k: int| 0 <= k < seeds.len() && seeds[k] == s;
            lemma_connected_sym(mask, c, d);
            lemma_connected_trans(mask, s, d, c);
            assert(connected(mask, seeds[k], c));
        }
    }
}

/// A visited cell met in scan order after all its component's seeds is no seed.
proof fn lemma_visited_not_seed(mask: Seq<Vec<bool>>, v: Seq<bool>, seeds: Seq<Cell>, c: Cell)
    requires
        visited_is_union(mask, v, seeds),
        forall|k: int| 0 <= k < seeds.len() ==> scan_index(mask, #[trigger] seeds[k]) < scan_index(mask, c),
        in_grid(mask, c),
        vis(mask, v, c),
    ensures
        !is_seed(mask, c),
{
    let k = choose|k: int| 0 <= k < seeds.len() && #[trigger] connected(mask, seeds[k], c);
    lemma_connected_sym(mask, seeds[k], c);
    assert(scan_index(mask, seeds[k]) < scan_index(mask, c));
}

/// The cell at position `i` of the row-major scan.
pub open spec fn cell_at(mask: Seq<Vec<bool>>, i: int) -> Cell {
    (i % mask_w(mask), i / mask_w(mask))
}

/// How many component seeds lie before scan position `p`.
pub open spec fn seeds_upto(mask: Seq<Vec<bool>>, p: int) -> nat
    decreases p,
{
    if p <= 0 {
        0
    } else {
        seeds_upto(mask, p - 1) + if is_seed(mask, cell_at(mask, p - 1)) { 1nat } else { 0nat }
    }
}

/// The number of 4-connected components of set cells.
pub open spec fn component_count(mask: Seq<Vec<bool>>) -> nat {
    seeds_upto(mask, mask_w(mask) * mask_h(mask))
}

proof fn lemma_seeds_upto_mono(mask: Seq<Vec<bool>>, p: int, q: int)
    requires
        0 <= p <= q,
    ensures
        seeds_upto(mask, p) <= seeds_upto(mask, q),
    decreases q - p,
{
    if p < q {
        lemma_seeds_upto_mono(mask, p, q - 1);
    }
}

proof fn lemma_seeds_upto_gap(mask: Seq<Vec<bool>>, p: int, q: int)
    requires
        0 <= p <= q,
    ensures
        seeds_upto(mask, q) <= seeds_upto(mask, p) + (q - p),
    decreases q - p,
{
    if p < q {
        lemma_seeds_upto_gap(mask, p, q - 1);
    }
}

/// The first two scanned cells are neighbours, so they are never both the
/// first cell of their component.
proof fn lemma_first_two_not_both_seeds(mask: Seq<Vec<bool>>)
    requires
        mask_w(mask) >= 1,
        mask_w(mask) * mask_h(mask) >= 2,
    ensures
        seeds_upto(mask, 2) <= 1,
{
    reveal_with_fuel(seeds_upto, 3);
    let w = mask_w(mask);
    let c0 = cell_at(mask, 0);
    let c1 = cell_at(mask, 1);
    assert(c0 == (0int, 0int));
    if w >= 2 {
        assert(c1 == (1int, 0int));
    } else {
        assert(c1 == (0int, 1int));
    }
    assert(adjacent(c1, c0));
    if is_seed(mask, c0) && is_seed(mask, c1) {
        lemma_connected_refl(mask, c1);
        lemma_connected_step(mask, c1, c1, c0);
        assert(scan_index(mask, c1) <= scan_index(mask, c0));
        assert(false);
    }
    assert(seeds_upto(mask, 0) == 0);
}

/// A mask of at most `u32::MAX` cells has fewer than `u32::MAX` components.
pub proof fn lemma_component_count_fits(mask: Seq<Vec<bool>>)
    requires
        mask_w(mask) * mask_h(mask) <= u32::MAX,
    ensures
        component_count(mask) < u32::MAX,
{
    let n = mask_w(mask) * mask_h(mask);
    if mask_w(mask) == 0 || n <= 1 {
        if n <= 0 {
            assert(seeds_upto(mask, n) == 0);
        } else {
            lemma_seeds_upto_gap(mask, 0, n);
        }
    } else {
        lemma_first_two_not_both_seeds(mask);
        lemma_seeds_upto_gap(mask, 2, n);
    }
}

/// Performs connected-component labeling using BFS (4-connectivity).
/// Returns a vector of (label, bounding_box) for each component: labels
/// count up from 1 and components come in scan order of their first cells.
pub fn bfs_labeling(mask: &[Vec<bool>]) -> (r: Vec<(u32, BoundingBox)>)
    requires
        forall|y: int| 0 <= y < mask@.len() ==> #[trigger] mask@[y]@.len() >= mask_w(mask@),
        mask_w(mask@) <= u32::MAX,
        mask_h(mask@) <= u32::MAX,
        mask_w(mask@) * mask_h(mask@) <= usize::MAX,
        component_count(mask@) < u32::MAX,
    ensures
        exists|seeds: Seq<Cell>| labels_components(mask@, seeds, r@),
{
    let height = mask.len();
    if height == 0 {
        proof {
            assert(labels_components(mask@, Seq::empty(), Seq::empty()));
        }
        return Vec::new();
    }
    let width = mask[0].len();
    if width == 0 {
        proof {
            assert(labels_components(mask@, Seq::empty(), Seq::empty()));
        }
        return Vec::new();
    }
    let total: usize = width * height;
    let mut visited: Vec<bool> = Vec::new();
    let mut i: usize = 0;
    while i < total
        invariant
            i <= total,
            visited@.len() == i,
            forall|j: int| 0 <= j < i ==> !visited@[j],
        decreases total - i,
    {
        visited.push(false);
        i = i + 1;
    }
    let mut components: Vec<(u32, BoundingBox)> = Vec::new();
    let mut current_label: u64 = 1;
    let ghost mut seeds: Seq<Cell> = Seq::empty();
    proof {
        assert forall|c: Cell| in_grid(mask@, c) implies (#[trigger] vis(mask@, visited@, c)
            <==> exists|k: int| 0 <= k < seeds.len() && #[trigger] connected(mask@, seeds[k], c)) by {
            lemma_scan_nonneg(mask@, c);
        }
        assert forall|c: Cell| in_grid(mask@, c) && #[trigger] vis(mask@, visited@, c) implies opaque(
            mask@,
            c,
        ) by {
            lemma_scan_nonneg(mask@, c);
        }
    }
    let mut p: usize = 0;
    while p < total
        invariant
            grid_ok(mask@),
            width == mask_w(mask@),
            height == mask_h(mask@),
            total == width * height,
            p <= total,
            closed_visited(mask@, visited@),
            visited_is_union(mask@, visited@, seeds),
            labels_prefix(mask@, seeds, components@, p as int),
            current_label == components@.len() + 1,
            components@.len() == seeds_upto(mask@, p as int),
            component_count(mask@) < u32::MAX,
        decreases total - p,
    {
        let x = p % width;
        let y = p / width;
        let ghost c: Cell = (x as int, y as int);
        proof {
            lemma_scan_of_position(p as int, width as int, height as int);
        }
        if mask[y][x] && !visited[p] {
            proof {
                assert(mask@[y as int]@.len() >= mask_w(mask@));
                lemma_new_seed(mask@, visited@, seeds, c);
                assert(cell_at(mask@, p as int) == c);
                lemma_seeds_upto_mono(mask@, p as int + 1, total as int);
            }
            let ghost old_v = visited@;
            let bbox = explore_component(mask, width, &mut visited, x, y);
            let ghost old_seeds = seeds;
            let ghost old_out = components@;
            components.push((current_label as u32, bbox));
            current_label = current_label + 1;
            proof {
                seeds = seeds.push(c);
                lemma_union_grows(mask@, old_v, visited@, old_seeds, c);
                lemma_closed_grows(mask@, old_v, visited@, c);
                lemma_prefix_grows(mask@, old_seeds, old_out, components@, p as int, c, bbox);
            }
        } else {
            proof {
                if in_grid(mask@, c) && vis(mask@, visited@, c) {
                    lemma_visited_not_seed(mask@, visited@, seeds, c);
                }
                if !opaque(mask@, c) {
                    assert(!is_seed(mask@, c));
                } else {
                    assert(mask@[y as int]@.len() >= mask_w(mask@));
                }
                lemma_prefix_skip(mask@, seeds, components@, p as int, c);
                assert(cell_at(mask@, p as int) == c);
            }
        }
        p = p + 1;
    }
    proof {
        lemma_prefix_complete(mask@, seeds, components@, p as int);
    }
    components
}

/// Seeds found before scan position `p`, with their labelled boxes.
pub open spec fn labels_prefix(mask: Seq<Vec<bool>>, seeds: Seq<Cell>, out: Seq<(u32, BoundingBox)>, p: int) -> bool {
    &&& seeds.len() == out.len()
    &&& forall|k: int| 0 <= k < seeds.len() ==> #[trigger] is_seed(mask, seeds[k])
    &&& forall|k: int| 0 <= k < seeds.len() ==> scan_index(mask, #[trigger] seeds[k]) < p
    &&& forall|k: int, l: int|
        0 <= k < l < seeds.len() ==> scan_index(mask, #[trigger] seeds[k]) < scan_index(
            mask,
            #[trigger] seeds[l],
        )
    &&& forall|s: Cell|
        #[trigger] is_seed(mask, s) && scan_index(mask, s) < p ==> exists|k: int| 0 <= k < seeds.len() && seeds[k] == s
    &&& forall|k: int|
        0 <= k < out.len() ==> #[trigger] out[k].0 == k + 1 && is_component_bbox(
            mask,
            seeds[k],
            out[k].1,
        )
}

proof fn lemma_scan_of_position(p: int, w: int, h: int)
    requires
        0 <= p < w * h,
        0 < w,
    ensures
        0 <= p % w < w,
        0 <= p / w < h,
        (p / w) * w + p % w == p,
{
    assert(0 <= p / w < h) by (nonlinear_arith)
        requires
            0 <= p < w * h,
            0 < w,
    ;
    vstd::arithmetic::div_mod::lemma_fundamental_div_mod(p, w);
    assert((p / w) * w == w * (p / w)) by (nonlinear_arith);
}

proof fn lemma_union_grows(mask: Seq<Vec<bool>>, old_v: Seq<bool>, v: Seq<bool>, seeds: Seq<Cell>, c: Cell)
    requires
        visited_is_union(mask, old_v, seeds),
        forall|d: Cell|
            in_grid(mask, d) ==> (#[trigger] vis(mask, v, d) <==> (vis(mask, old_v, d) || connected(
                mask,
                c,
                d,
            ))),
    ensures
        visited_is_union(mask, v, seeds.push(c)),
{
    let s2 = seeds.push(c);
    assert forall|d: Cell| in_grid(mask, d) implies (#[trigger] vis(mask, v, d) <==> exists|k: int|
        0 <= k < s2.len() && #[trigger] connected(mask, s2[k], d)) by {
        if vis(mask, v, d) {
            if vis(mask, old_v, d) {
                let k = choose|k: int| 0 <= k < seeds.len() && #[trigger] connected(mask, seeds[k], d);
                assert(s2[k] == seeds[k]);
            } else {
                assert(s2[seeds.len() as int] == c);
            }
        }
        if exists|k: int| 0 <= k < s2.len() && #[trigger] connected(mask, s2[k], d) {
            let k = choose|k: int| 0 <= k < s2.len() && #[trigger] connected(mask, s2[k], d);
            if k < seeds.len() {
                assert(s2[k] == seeds[k]);
            }
        }
    }
}

proof fn lemma_closed_grows(mask: Seq<Vec<bool>>, old_v: Seq<bool>, v: Seq<bool>, c: Cell)
    requires
        closed_visited(mask, old_v),
        v.len() == old_v.len(),
        forall|d: Cell|
            in_grid(mask, d) ==> (#[trigger] vis(mask, v, d) <==> (vis(mask, old_v, d) || connected(
                mask,
                c,
                d,
            ))),
    ensures
        closed_visited(mask, v),
{
    assert forall|d: Cell| in_grid(mask, d) && #[trigger] vis(mask, v, d) implies opaque(mask, d) by {
        if connected(mask, c, d) {
            lemma_connected_opaque(mask, c, d);
        }
    }
    assert forall|d: Cell, e: Cell|
        in_grid(mask, d) && #[trigger] vis(mask, v, d) && #[trigger] adjacent(d, e) && opaque(mask, e)
            implies vis(mask, v, e) by {
        if vis(mask, old_v, d) {
            assert(vis(mask, old_v, e));
        } else {
            lemma_connected_step(mask, c, d, e);
        }
    }
}

#[verifier::spinoff_prover]
#[verifier::rlimit(40)]
proof fn lemma_prefix_grows(
    mask: Seq<Vec<bool>>,
    seeds: Seq<Cell>,
    out: Seq<(u32, BoundingBox)>,
    out2: Seq<(u32, BoundingBox)>,
    p: int,
    c: Cell,
    b: BoundingBox,
)
    requires
        labels_prefix(mask, seeds, out, p),
        is_seed(mask, c),
        scan_index(mask, c) == p,
        is_component_bbox(mask, c, b),
        out.len() + 1 <= u32::MAX,
        out2 == out.push(((out.len() + 1) as u32, b)),
    ensures
        labels_prefix(mask, seeds.push(c), out2, p + 1),
{
    let s2 = seeds.push(c);
    assert(out2[out.len() as int] == ((out.len() + 1) as u32, b));
    assert forall|s: Cell| #[trigger] is_seed(mask, s) && scan_index(mask, s) < p + 1 implies exists|k: int|
        0 <= k < s2.len() && s2[k] == s by {
        if scan_index(mask, s) < p {
            let k = choose|k: int| 0 <= k < seeds.len() && seeds[k] == s;
            assert(s2[k] == s);
        } else {
            lemma_scan_injective(mask, s, c);
            assert(s2[seeds.len() as int] == s);
        }
    }
    assert forall|k: int, l: int| 0 <= k < l < s2.len() implies scan_index(mask, #[trigger] s2[k])
        < scan_index(mask, #[trigger] s2[l]) by {
        if l < seeds.len() {
            assert(s2[k] == seeds[k] && s2[l] == seeds[l]);
        } else {
            assert(s2[k] == seeds[k]);
        }
    }
    assert forall|k: int| 0 <= k < out2.len() implies #[trigger] out2[k].0 == k + 1 && is_component_bbox(
        mask,
        s2[k],
        out2[k].1,
    ) by {
        if k < out.len() {
            assert(out2[k] == out[k] && s2[k] == seeds[k]);
            assert(out[k].0 == k + 1 && is_component_bbox(mask, seeds[k], out[k].1));
        } else {
            assert(k == out.len());
            assert(s2[k] == c);
            assert(out2[k].0 == k + 1);
            assert(out2[k].1 == b);
        }
    }
    assert forall|k: int| 0 <= k < s2.len() implies #[trigger] is_seed(mask, s2[k]) by {
        if k < seeds.len() {
            assert(s2[k] == seeds[k]);
        }
    }
    assert forall|k: int| 0 <= k < s2.len() implies scan_index(mask, #[trigger] s2[k]) < p + 1 by {
        if k < seeds.len() {
            assert(s2[k] == seeds[k]);
        }
    }
}

proof fn lemma_prefix_skip(mask: Seq<Vec<bool>>, seeds: Seq<Cell>, out: Seq<(u32, BoundingBox)>, p: int, c: Cell)
    requires
        labels_prefix(mask, seeds, out, p),
        in_grid(mask, c),
        scan_index(mask, c) == p,
        !is_seed(mask, c),
    ensures
        labels_prefix(mask, seeds, out, p + 1),
{
    assert forall|s: Cell| #[trigger] is_seed(mask, s) && scan_index(mask, s) < p + 1 implies exists|k: int|
        0 <= k < seeds.len() && seeds[k] == s by {
        if scan_index(mask, s) == p {
            lemma_scan_injective(mask, s, c);
        }
    }
}

proof fn lemma_prefix_complete(mask: Seq<Vec<bool>>, seeds: Seq<Cell>, out: Seq<(u32, BoundingBox)>, p: int)
    requires
        grid_ok(mask),
        labels_prefix(mask, seeds, out, p),
        p == mask_w(mask) * mask_h(mask),
    ensures
        labels_components(mask, seeds, out),
{
    assert forall|s: Cell| #[trigger] is_seed(mask, s) implies exists|k: int| 0 <= k < seeds.len() && seeds[k] == s by {
        lemma_scan_nonneg(mask, s);
    }
}

} // verus!
