//! The flood-fill tool: replaces every cell reachable from a seed point
//! through a path of matching cells with a fill value.
//!
//! The result is specified by reachability (`fill_spec`) and the iterative
//! worklist implementation is proved to compute exactly that closure: every
//! reachable cell is overwritten and nothing else changes.

use crate::grid::{get_index, lemma_index_bounds, Cell, Grid};
use crate::terminal::util::{Point, Size};
use crate::undo_redo_buffer::point_in_bounds;
use vstd::prelude::*;

verus! {

/// Two cells match for fill purposes if they are structurally equal, or if
/// both are `Measured` regardless of stored ordinal: a player filling one
/// measured region should not stop at ordinal boundaries.
pub open spec fn fill_compatible(c: Cell, matched: Cell) -> bool {
    c == matched || (c is Measured && matched is Measured)
}

/// The buffer index of a point.
pub open spec fn pidx(width: int, p: Point) -> int {
    p.y * width + p.x
}

/// 4-directional adjacency: up, down, left or right by one cell.
pub open spec fn adjacent(p: Point, q: Point) -> bool {
    ||| (p.x == q.x && (p.y + 1 == q.y || q.y + 1 == p.y))
    ||| (p.y == q.y && (p.x + 1 == q.x || q.x + 1 == p.x))
}

/// A walk through the grid: at least one point, every point in bounds and
/// holding a cell that matches `matched`, consecutive points 4-adjacent.
pub open spec fn valid_path(cells: Seq<Cell>, size: Size, matched: Cell, path: Seq<Point>) -> bool {
    &&& path.len() >= 1
    &&& forall|k: int|
        0 <= k < path.len() ==> point_in_bounds(#[trigger] path[k], size) && fill_compatible(
            cells[pidx(size.width as int, path[k])],
            matched,
        )
    &&& forall|k: int| 0 <= k < path.len() - 1 ==> adjacent(#[trigger] path[k], path[k + 1])
}

/// Whether `p` is reachable from `seed` through a path of matching cells.
pub open spec fn reaches(cells: Seq<Cell>, size: Size, matched: Cell, seed: Point, p: Point) -> bool {
    exists|path: Seq<Point>|
        #[trigger] valid_path(cells, size, matched, path) && path.first() == seed && path.last()
            == p
}

/// Whether buffer index `i` is the index of a point reachable from `seed`.
pub open spec fn filled_at(cells: Seq<Cell>, size: Size, matched: Cell, seed: Point, i: int) -> bool {
    exists|p: Point|
        point_in_bounds(p, size) && pidx(size.width as int, p) == i && #[trigger] reaches(
            cells,
            size,
            matched,
            seed,
            p,
        )
}

/// The buffer after a flood fill: every cell reachable from the seed through
/// cells matching `matched` is replaced with `fill`, all others are kept.
/// When `fill` itself matches `matched`, overwritten cells would stay
/// eligible and the fill could never terminate, so the operation is a no-op.
pub open spec fn fill_spec(
    cells: Seq<Cell>,
    size: Size,
    seed: Point,
    matched: Cell,
    fill: Cell,
) -> Seq<Cell> {
    if fill_compatible(fill, matched) {
        cells
    } else {
        Seq::new(
            cells.len(),
            |i: int|
                if filled_at(cells, size, matched, seed, i) {
                    fill
                } else {
                    cells[i]
                },
        )
    }
}

/// Two in-bounds points with the same buffer index are the same point.
proof fn lemma_pidx_injective(w: int, px: int, py: int, qx: int, qy: int)
    by (nonlinear_arith)
    requires
        0 <= px < w,
        0 <= qx < w,
        0 <= py,
        0 <= qy,
        py * w + px == qy * w + qx,
    ensures
        px == qx,
        py == qy,
{
}

/// The number of cells in the buffer that match `matched`.
pub open spec fn count_compatible(cells: Seq<Cell>, matched: Cell) -> nat
    decreases cells.len(),
{
    if cells.len() == 0 {
        0
    } else {
        count_compatible(cells.drop_last(), matched) + if fill_compatible(
            cells.last(),
            matched,
        ) {
            1nat
        } else {
            0nat
        }
    }
}

/// Overwriting a matching cell with a non-matching value strictly decreases
/// the number of matching cells.
proof fn lemma_count_compatible_update(cells: Seq<Cell>, matched: Cell, i: int, v: Cell)
    requires
        0 <= i < cells.len(),
        fill_compatible(cells[i], matched),
        !fill_compatible(v, matched),
    ensures
        count_compatible(cells.update(i, v), matched) < count_compatible(cells, matched),
    decreases cells.len(),
{
    let upd = cells.update(i, v);
    if i == cells.len() - 1 {
        assert(upd.drop_last() =~= cells.drop_last());
    } else {
        assert(upd.drop_last() =~= cells.drop_last().update(i, v));
        lemma_count_compatible_update(cells.drop_last(), matched, i, v);
        assert(upd.last() == cells.last());
    }
}

/// A path is still valid after the cells at positions off the path change.
proof fn lemma_path_same_cells(
    c1: Seq<Cell>,
    c2: Seq<Cell>,
    size: Size,
    matched: Cell,
    path: Seq<Point>,
)
    requires
        valid_path(c1, size, matched, path),
        forall|k: int|
            0 <= k < path.len() ==> c2[pidx(size.width as int, #[trigger] path[k])] == c1[pidx(
                size.width as int,
                path[k],
            )],
    ensures
        valid_path(c2, size, matched, path),
{
}

/// A valid path extends by one adjacent, in-bounds, matching point.
proof fn lemma_path_extend(
    cells: Seq<Cell>,
    size: Size,
    matched: Cell,
    path: Seq<Point>,
    q: Point,
)
    requires
        valid_path(cells, size, matched, path),
        adjacent(path.last(), q),
        point_in_bounds(q, size),
        fill_compatible(cells[pidx(size.width as int, q)], matched),
    ensures
        valid_path(cells, size, matched, path.push(q)),
        path.push(q).first() == path.first(),
        path.push(q).last() == q,
{
    let p2 = path.push(q);
    assert forall|k: int| 0 <= k < p2.len() implies point_in_bounds(#[trigger] p2[k], size)
        && fill_compatible(cells[pidx(size.width as int, p2[k])], matched) by {
        if k < path.len() {
            assert(p2[k] == path[k]);
        }
    }
    assert forall|k: int| 0 <= k < p2.len() - 1 implies adjacent(#[trigger] p2[k], p2[k + 1]) by {
        if k < path.len() - 1 {
            assert(p2[k] == path[k] && p2[k + 1] == path[k + 1]);
        } else {
            assert(p2[k] == path.last() && p2[k + 1] == q);
        }
    }
}

/// Dropping the first point of a path of two or more keeps it valid.
proof fn lemma_path_drop_first(cells: Seq<Cell>, size: Size, matched: Cell, path: Seq<Point>)
    requires
        valid_path(cells, size, matched, path),
        path.len() >= 2,
    ensures
        valid_path(cells, size, matched, path.drop_first()),
        path.drop_first().last() == path.last(),
        adjacent(path.first(), path.drop_first().first()),
{
    let d = path.drop_first();
    assert forall|k: int| 0 <= k < d.len() implies point_in_bounds(#[trigger] d[k], size)
        && fill_compatible(cells[pidx(size.width as int, d[k])], matched) by {
        assert(d[k] == path[k + 1]);
    }
    assert forall|k: int| 0 <= k < d.len() - 1 implies adjacent(#[trigger] d[k], d[k + 1]) by {
        assert(d[k] == path[k + 1] && d[k + 1] == path[k + 2]);
        assert(adjacent(path[k + 1], path[k + 2]));
    }
    assert(adjacent(path[0], path[1]));
}

/// Path surgery: a valid path that visits `p` either ends at `p`, or has a
/// tail that starts next to `p`, avoids `p`, and ends where the path ends.
proof fn lemma_path_after_last_visit(
    cells: Seq<Cell>,
    size: Size,
    matched: Cell,
    path: Seq<Point>,
    p: Point,
)
    requires
        valid_path(cells, size, matched, path),
        path.contains(p),
    ensures
        path.last() == p || exists|tail: Seq<Point>|
            #[trigger] valid_path(cells, size, matched, tail) && !tail.contains(p) && adjacent(
                p,
                tail.first(),
            ) && tail.last() == path.last(),
    decreases path.len(),
{
    if path.last() != p {
        let j = choose|j: int| 0 <= j < path.len() && path[j] == p;
        assert(path.len() >= 2);
        let d = path.drop_first();
        lemma_path_drop_first(cells, size, matched, path);
        if d.contains(p) {
            lemma_path_after_last_visit(cells, size, matched, d, p);
            assert(d.last() == path.last());
            assert(d.last() != p);
        } else {
            // Only the first point can be the visit.
            assert(path[j] == p);
            if j != 0 {
                assert(d[j - 1] == path[j]);
                assert(d.contains(p));
                assert(false);
            }
            assert(valid_path(cells, size, matched, d) && !d.contains(p) && adjacent(p, d.first())
                && d.last() == path.last());
        }
    }
}

/// The in-bounds 4-neighbors of a point, in the order the fill pushes them.
pub open spec fn neighbor_candidates(p: Point, size: Size) -> Seq<Point> {
    let up = if p.y > 0 {
        seq![Point { x: p.x, y: (p.y - 1) as u16 }]
    } else {
        Seq::empty()
    };
    let down = if p.y + 1 < size.height {
        seq![Point { x: p.x, y: (p.y + 1) as u16 }]
    } else {
        Seq::empty()
    };
    let left = if p.x > 0 {
        seq![Point { x: (p.x - 1) as u16, y: p.y }]
    } else {
        Seq::empty()
    };
    let right = if p.x + 1 < size.width {
        seq![Point { x: (p.x + 1) as u16, y: p.y }]
    } else {
        Seq::empty()
    };
    up + down + left + right
}

/// The candidate list holds exactly the in-bounds neighbors of `p`.
proof fn lemma_neighbor_candidates(p: Point, size: Size)
    requires
        point_in_bounds(p, size),
    ensures
        forall|k: int|
            0 <= k < neighbor_candidates(p, size).len() ==> point_in_bounds(
                #[trigger] neighbor_candidates(p, size)[k],
                size,
            ) && adjacent(p, neighbor_candidates(p, size)[k]),
        forall|q: Point|
            point_in_bounds(q, size) && #[trigger] adjacent(p, q) ==> neighbor_candidates(
                p,
                size,
            ).contains(q),
{
    let nc = neighbor_candidates(p, size);
    assert forall|q: Point| point_in_bounds(q, size) && #[trigger] adjacent(p, q) implies nc
        .contains(q) by {
        if p.x == q.x && q.y + 1 == p.y {
            assert(nc[0] == q);
        } else if p.x == q.x && p.y + 1 == q.y {
            let j: int = if p.y > 0 {
                1
            } else {
                0
            };
            assert(nc[j] == q);
        } else if p.y == q.y && q.x + 1 == p.x {
            let j: int = (if p.y > 0 {
                1int
            } else {
                0int
            }) + (if p.y + 1 < size.height {
                1int
            } else {
                0int
            });
            assert(nc[j] == q);
        } else {
            let j: int = (if p.y > 0 {
                1int
            } else {
                0int
            }) + (if p.y + 1 < size.height {
                1int
            } else {
                0int
            }) + (if p.x > 0 {
                1int
            } else {
                0int
            });
            assert(nc[j] == q);
        }
    }
}

/// The invariant of the worklist: every entry is in bounds, and reachable
/// from the seed whenever its original cell matches.
spec fn stack_ok(orig: Seq<Cell>, size: Size, matched: Cell, seed: Point, stack: Seq<Point>) -> bool {
    forall|k: int|
        0 <= k < stack.len() ==> point_in_bounds(#[trigger] stack[k], size) && (fill_compatible(
            orig[pidx(size.width as int, stack[k])],
            matched,
        ) ==> reaches(orig, size, matched, seed, stack[k]))
}

/// The completeness invariant: every cell reachable in the original buffer
/// is already overwritten, or still reachable from some worklist entry in
/// the current buffer.
spec fn covers(
    orig: Seq<Cell>,
    cells: Seq<Cell>,
    size: Size,
    matched: Cell,
    fill: Cell,
    seed: Point,
    stack: Seq<Point>,
) -> bool {
    forall|i: int|
        0 <= i < orig.len() && #[trigger] filled_at(orig, size, matched, seed, i) ==> cells[i]
            == fill || exists|k: int|
            0 <= k < stack.len() && filled_at(cells, size, matched, #[trigger] stack[k], i)
}

/// One fill step keeps the worklist invariant: the popped point's neighbors
/// are in bounds and reachable through it whenever their cells match.
proof fn lemma_stack_step(
    orig: Seq<Cell>,
    size: Size,
    matched: Cell,
    seed: Point,
    pre_stack: Seq<Point>,
    post_stack: Seq<Point>,
    p: Point,
)
    requires
        stack_ok(orig, size, matched, seed, pre_stack),
        pre_stack.len() >= 1,
        pre_stack.last() == p,
        reaches(orig, size, matched, seed, p),
        post_stack == pre_stack.drop_last() + neighbor_candidates(p, size),
        point_in_bounds(p, size),
    ensures
        stack_ok(orig, size, matched, seed, post_stack),
{
    let nc = neighbor_candidates(p, size);
    lemma_neighbor_candidates(p, size);
    assert forall|k: int| 0 <= k < post_stack.len() implies point_in_bounds(
        #[trigger] post_stack[k],
        size,
    ) && (fill_compatible(orig[pidx(size.width as int, post_stack[k])], matched) ==> reaches(
        orig,
        size,
        matched,
        seed,
        post_stack[k],
    )) by {
        if k < pre_stack.len() - 1 {
            assert(post_stack[k] == pre_stack[k]);
        } else {
            let q = post_stack[k];
            assert(q == nc[k - (pre_stack.len() - 1)]);
            assert(point_in_bounds(q, size) && adjacent(p, q));
            if fill_compatible(orig[pidx(size.width as int, q)], matched) {
                let path = choose|path: Seq<Point>|
                    #[trigger] valid_path(orig, size, matched, path) && path.first() == seed
                        && path.last() == p;
                lemma_path_extend(orig, size, matched, path, q);
            }
        }
    }
}

/// One fill step keeps completeness: after the popped matching point is
/// overwritten, every still-unfilled reachable cell keeps a route from the
/// new worklist.
/// A valid path that avoids `p` stays valid when the cell at `p` changes.
proof fn lemma_path_update_outside(
    cells: Seq<Cell>,
    size: Size,
    matched: Cell,
    path: Seq<Point>,
    p: Point,
    v: Cell,
)
    requires
        valid_path(cells, size, matched, path),
        !path.contains(p),
        point_in_bounds(p, size),
        cells.len() == size.width as int * size.height as int,
    ensures
        valid_path(cells.update(pidx(size.width as int, p), v), size, matched, path),
{
    let w = size.width as int;
    let h = size.height as int;
    let pi = pidx(w, p);
    lemma_index_bounds(w, h, p.x as int, p.y as int);
    let c2 = cells.update(pi, v);
    assert forall|k: int| 0 <= k < path.len() implies c2[pidx(w, #[trigger] path[k])] == cells[pidx(
        w,
        path[k],
    )] by {
        lemma_index_bounds(w, h, path[k].x as int, path[k].y as int);
        if pidx(w, path[k]) == pi {
            lemma_pidx_injective(w, path[k].x as int, path[k].y as int, p.x as int, p.y as int);
            assert(path[k] == p);
            assert(path.contains(p));
        }
    }
    lemma_path_same_cells(cells, c2, size, matched, path);
}

/// One reachable cell keeps a route after a fill step: if it is still not
/// overwritten, some entry of the new worklist reaches it.
#[verifier::rlimit(100)]
proof fn lemma_covers_one_fill(
    pre_cells: Seq<Cell>,
    post_cells: Seq<Cell>,
    size: Size,
    matched: Cell,
    fill: Cell,
    pre_stack: Seq<Point>,
    post_stack: Seq<Point>,
    p: Point,
    i: int,
)
    requires
        !fill_compatible(fill, matched),
        pre_cells.len() == size.width as int * size.height as int,
        pre_stack.len() >= 1,
        pre_stack.last() == p,
        point_in_bounds(p, size),
        0 <= pidx(size.width as int, p) < pre_cells.len(),
        post_cells == pre_cells.update(pidx(size.width as int, p), fill),
        post_stack == pre_stack.drop_last() + neighbor_candidates(p, size),
        0 <= i < pre_cells.len(),
        post_cells[i] != fill,
        exists|k: int|
            0 <= k < pre_stack.len() && filled_at(
                pre_cells,
                size,
                matched,
                #[trigger] pre_stack[k],
                i,
            ),
    ensures
        exists|k: int|
            0 <= k < post_stack.len() && filled_at(
                post_cells,
                size,
                matched,
                #[trigger] post_stack[k],
                i,
            ),
{
    let w = size.width as int;
    let pi = pidx(w, p);
    let nc = neighbor_candidates(p, size);
    lemma_neighbor_candidates(p, size);
    assert(post_cells[pi] == fill);
    assert(i != pi);
    let k0 = choose|k: int|
        0 <= k < pre_stack.len() && filled_at(pre_cells, size, matched, #[trigger] pre_stack[k], i);
    let target = choose|t: Point|
        point_in_bounds(t, size) && pidx(w, t) == i && #[trigger] reaches(
            pre_cells,
            size,
            matched,
            pre_stack[k0],
            t,
        );
    let path = choose|path: Seq<Point>|
        #[trigger] valid_path(pre_cells, size, matched, path) && path.first() == pre_stack[k0]
            && path.last() == target;
    assert(target != p) by {
        if target == p {
            lemma_pidx_injective(w, p.x as int, p.y as int, target.x as int, target.y as int);
        }
    }
    if path.contains(p) {
        lemma_path_after_last_visit(pre_cells, size, matched, path, p);
        assert(path.last() != p);
        let tail = choose|tail: Seq<Point>|
            #[trigger] valid_path(pre_cells, size, matched, tail) && !tail.contains(p) && adjacent(
                p,
                tail.first(),
            ) && tail.last() == path.last();
        lemma_path_update_outside(pre_cells, size, matched, tail, p, fill);
        let q = tail.first();
        assert(nc.contains(q));
        let jq = choose|jq: int| 0 <= jq < nc.len() && nc[jq] == q;
        let kq = pre_stack.len() - 1 + jq;
        assert(post_stack[kq] == q);
        assert(reaches(post_cells, size, matched, q, target));
        assert(filled_at(post_cells, size, matched, post_stack[kq], i));
    } else {
        assert(k0 < pre_stack.len() - 1) by {
            if k0 == pre_stack.len() - 1 {
                assert(path[0] == p);
                assert(path.contains(p));
            }
        }
        assert(post_stack[k0] == pre_stack[k0]);
        lemma_path_update_outside(pre_cells, size, matched, path, p, fill);
        assert(reaches(post_cells, size, matched, pre_stack[k0], target));
        assert(filled_at(post_cells, size, matched, post_stack[k0], i));
    }
}

/// One fill step keeps completeness: after the popped matching point is
/// overwritten, every still-unfilled reachable cell keeps a route from the
/// new worklist.
proof fn lemma_covers_step_fill(
    orig: Seq<Cell>,
    pre_cells: Seq<Cell>,
    post_cells: Seq<Cell>,
    size: Size,
    matched: Cell,
    fill: Cell,
    seed: Point,
    pre_stack: Seq<Point>,
    post_stack: Seq<Point>,
    p: Point,
)
    requires
        !fill_compatible(fill, matched),
        covers(orig, pre_cells, size, matched, fill, seed, pre_stack),
        pre_cells.len() == orig.len(),
        pre_cells.len() == size.width as int * size.height as int,
        pre_stack.len() >= 1,
        pre_stack.last() == p,
        point_in_bounds(p, size),
        0 <= pidx(size.width as int, p) < pre_cells.len(),
        post_cells == pre_cells.update(pidx(size.width as int, p), fill),
        post_stack == pre_stack.drop_last() + neighbor_candidates(p, size),
    ensures
        covers(orig, post_cells, size, matched, fill, seed, post_stack),
{
    let w = size.width as int;
    let pi = pidx(w, p);
    assert forall|i: int|
        0 <= i < orig.len() && #[trigger] filled_at(orig, size, matched, seed, i) && !(post_cells[i]
            == fill) implies exists|k: int|
        0 <= k < post_stack.len() && filled_at(post_cells, size, matched, #[trigger] post_stack[k], i) by {
        assert(post_cells[pi] == fill);
        assert(i != pi);
        assert(post_cells[i] == pre_cells[i]);
        lemma_covers_one_fill(
            pre_cells,
            post_cells,
            size,
            matched,
            fill,
            pre_stack,
            post_stack,
            p,
            i,
        );
    }
}

/// Popping a non-matching point keeps completeness: no route can start at
/// it, so every surviving route starts lower in the worklist.
proof fn lemma_covers_step_skip(
    orig: Seq<Cell>,
    cells: Seq<Cell>,
    size: Size,
    matched: Cell,
    fill: Cell,
    seed: Point,
    pre_stack: Seq<Point>,
    p: Point,
)
    requires
        covers(orig, cells, size, matched, fill, seed, pre_stack),
        pre_stack.len() >= 1,
        pre_stack.last() == p,
        !fill_compatible(cells[pidx(size.width as int, p)], matched),
    ensures
        covers(orig, cells, size, matched, fill, seed, pre_stack.drop_last()),
{
    let w = size.width as int;
    let post_stack = pre_stack.drop_last();
    assert forall|i: int|
        0 <= i < orig.len() && #[trigger] filled_at(orig, size, matched, seed, i) && !(cells[i]
            == fill) implies exists|k: int|
        0 <= k < post_stack.len() && filled_at(cells, size, matched, #[trigger] post_stack[k], i) by {
        let k0 = choose|k: int|
            0 <= k < pre_stack.len() && filled_at(cells, size, matched, #[trigger] pre_stack[k], i);
        assert(k0 < pre_stack.len() - 1) by {
            if k0 == pre_stack.len() - 1 {
                let target = choose|t: Point|
                    point_in_bounds(t, size) && pidx(w, t) == i && #[trigger] reaches(
                        cells,
                        size,
                        matched,
                        p,
                        t,
                    );
                let path = choose|path: Seq<Point>|
                    #[trigger] valid_path(cells, size, matched, path) && path.first() == p
                        && path.last() == target;
                assert(fill_compatible(cells[pidx(w, path[0])], matched));
            }
        }
        assert(post_stack[k0] == pre_stack[k0]);
        assert(filled_at(cells, size, matched, post_stack[k0], i));
    }
}

/// Runs a flood fill over a raw cell buffer: replaces every cell reachable
/// from `point` through a path of cells matching `matched_cell` with
/// `fill_cell`. A fill whose `fill_cell` matches `matched_cell` is a no-op.
#[verifier::rlimit(60)]
pub fn fill_cells(
    cells: &mut Vec<Cell>,
    size: Size,
    point: Point,
    matched_cell: Cell,
    fill_cell: Cell,
)
    requires
        1 <= size.width <= 99,
        1 <= size.height <= 99,
        old(cells)@.len() == size.width as int * size.height as int,
        point_in_bounds(point, size),
    ensures
        final(cells)@ == fill_spec(old(cells)@, size, point, matched_cell, fill_cell),
{
    let compatible_values = match (fill_cell, matched_cell) {
        (Cell::Measured(_), Cell::Measured(_)) => true,
        _ => fill_cell == matched_cell,
    };
    if compatible_values {
        return ;
    }
    let ghost orig = cells@;
    let ghost w = size.width as int;
    let ghost h = size.height as int;
    let mut stack: Vec<Point> = Vec::new();
    stack.push(point);
    proof {
        assert(stack@ =~= seq![point]);
        if fill_compatible(orig[pidx(w, point)], matched_cell) {
            let path = seq![point];
            assert(path[0] == point);
            assert(valid_path(orig, size, matched_cell, path));
            assert(path.first() == point && path.last() == point);
            assert(reaches(orig, size, matched_cell, point, point));
        }
        assert(covers(orig, cells@, size, matched_cell, fill_cell, point, stack@)) by {
            assert forall|i: int|
                0 <= i < orig.len() && #[trigger] filled_at(
                    orig,
                    size,
                    matched_cell,
                    point,
                    i,
                ) implies cells@[i] == fill_cell || exists|k: int|
                0 <= k < stack@.len() && filled_at(
                    cells@,
                    size,
                    matched_cell,
                    #[trigger] stack@[k],
                    i,
                ) by {
                assert(stack@[0] == point);
                assert(filled_at(cells@, size, matched_cell, stack@[0], i));
            }
        }
    }
    while stack.len() > 0
        invariant
            1 <= size.width <= 99,
            1 <= size.height <= 99,
            w == size.width as int,
            h == size.height as int,
            point_in_bounds(point, size),
            !fill_compatible(fill_cell, matched_cell),
            orig.len() == w * h,
            cells@.len() == orig.len(),
            forall|i: int|
                0 <= i < orig.len() && #[trigger] cells@[i] != orig[i] ==> cells@[i] == fill_cell
                    && filled_at(orig, size, matched_cell, point, i),
            stack_ok(orig, size, matched_cell, point, stack@),
            covers(orig, cells@, size, matched_cell, fill_cell, point, stack@),
        decreases count_compatible(cells@, matched_cell), stack@.len(),
    {
        let ghost pre_cells = cells@;
        let ghost pre_stack = stack@;
        let p = stack.pop().unwrap();
        proof {
            assert(pre_stack.last() == p);
            assert(pre_stack[pre_stack.len() - 1] == p);
            lemma_index_bounds(w, h, p.x as int, p.y as int);
        }
        let index = get_index(size.width, p);
        let c = cells[index];
        let c_compatible = match (c, matched_cell) {
            (Cell::Measured(_), Cell::Measured(_)) => true,
            _ => c == matched_cell,
        };
        if c_compatible {
            proof {
                // The popped cell is unchanged from the original (an already
                // overwritten cell would not match), so it matches in the
                // original too and is therefore reachable from the seed.
                assert(cells@[pidx(w, p)] == orig[pidx(w, p)]);
                assert(reaches(orig, size, matched_cell, point, p));
                lemma_count_compatible_update(cells@, matched_cell, pidx(w, p), fill_cell);
            }
            cells.set(index, fill_cell);
            if p.y > 0 {
                stack.push(Point { x: p.x, y: p.y - 1 });
            }
            if p.y + 1 < size.height {
                stack.push(Point { x: p.x, y: p.y + 1 });
            }
            if p.x > 0 {
                stack.push(Point { x: p.x - 1, y: p.y });
            }
            if p.x + 1 < size.width {
                stack.push(Point { x: p.x + 1, y: p.y });
            }
            proof {
                assert(stack@ =~= pre_stack.drop_last() + neighbor_candidates(p, size));
                assert(cells@ == pre_cells.update(pidx(w, p), fill_cell));
                lemma_stack_step(orig, size, matched_cell, point, pre_stack, stack@, p);
                lemma_covers_step_fill(
                    orig,
                    pre_cells,
                    cells@,
                    size,
                    matched_cell,
                    fill_cell,
                    point,
                    pre_stack,
                    stack@,
                    p,
                );
                assert(filled_at(orig, size, matched_cell, point, pidx(w, p))) by {
                    assert(point_in_bounds(p, size) && pidx(w, p) == pidx(w, p) && reaches(
                        orig,
                        size,
                        matched_cell,
                        point,
                        p,
                    ));
                }
            }
        } else {
            proof {
                lemma_covers_step_skip(
                    orig,
                    cells@,
                    size,
                    matched_cell,
                    fill_cell,
                    point,
                    pre_stack,
                    p,
                );
                assert(stack@ =~= pre_stack.drop_last());
            }
        }
    }
    proof {
        assert(cells@ =~= fill_spec(orig, size, point, matched_cell, fill_cell));
    }
}

/// A fill whose fill value matches its matched value is a no-op: every
/// overwritten cell would stay eligible and the fill could never terminate,
/// so the operation leaves the buffer untouched instead. In particular,
/// filling with `matched_cell == fill_cell` changes nothing.
pub proof fn lemma_fill_equal_values_is_noop(cells: Seq<Cell>, size: Size, seed: Point, c: Cell)
    ensures
        fill_spec(cells, size, seed, c, c) == cells,
{
}

/// Flood fill stays within its region: any cell the fill changed lies at an
/// in-bounds point reachable from the seed through a path of cells matching
/// `matched`. A fill therefore never touches a point outside the grid, and
/// two same-valued regions separated by a non-matching cell never bleed
/// into each other: no path between them consists of matching cells only.
pub proof fn lemma_fill_stays_within_region(
    cells: Seq<Cell>,
    size: Size,
    seed: Point,
    matched: Cell,
    fill: Cell,
    i: int,
)
    requires
        0 <= i < cells.len(),
        fill_spec(cells, size, seed, matched, fill)[i] != cells[i],
    ensures
        filled_at(cells, size, matched, seed, i),
        exists|p: Point|
            point_in_bounds(p, size) && pidx(size.width as int, p) == i && #[trigger] reaches(
                cells,
                size,
                matched,
                seed,
                p,
            ),
{
}

/// Runs a flood fill on the grid from `point`; see `fill_spec`.
pub fn fill(grid: &mut Grid, point: Point, matched_cell: Cell, fill_cell: Cell)
    requires
        old(grid).wf(),
        point_in_bounds(point, old(grid).size),
    ensures
        final(grid).cells@ == fill_spec(
            old(grid).cells@,
            old(grid).size,
            point,
            matched_cell,
            fill_cell,
        ),
        final(grid).size == old(grid).size,
        final(grid).horizontal_clues_solutions == old(grid).horizontal_clues_solutions,
        final(grid).vertical_clues_solutions == old(grid).vertical_clues_solutions,
        final(grid).max_clues_size == old(grid).max_clues_size,
        final(grid).undo_redo_buffer == old(grid).undo_redo_buffer,
        final(grid).wf(),
{
    let size = grid.size;
    fill_cells(&mut grid.cells, size, point, matched_cell, fill_cell);
    proof {
        if !fill_compatible(fill_cell, matched_cell) {
            assert(final(grid).cells@.len() == old(grid).cells@.len());
        }
    }
}

} // verus!
