//! Game states and the measurement overlay.

pub mod alert;
pub mod input;

use crate::grid::{get_index, Cell};
use crate::terminal::util::{Point, Size};
use crate::undo_redo_buffer::point_in_bounds;
use vstd::prelude::*;

verus! {

/// What an input handler asks the caller to do next.
#[must_use]
#[derive(Debug)]
pub enum State {
    /// Execution is to be continued normally.
    Continue,
    /// The grid has been solved; the milliseconds it took to solve it.
    Solved(u64),
    /// Display an alert. Alerts are cleared after some time.
    ///
    /// NOTE: alert messages do not end in a period.
    Alert(String),
    /// Clear the alert if present.
    ClearAlert,
    /// Halt the game to load a new grid.
    LoadGrid,
    /// Exit the program. The timestamp in milliseconds of the first placed
    /// cell, if any, decides whether an exit confirmation prompt is shown.
    Exit(Option<u64>),
}

/// Whether the measurement tool may overwrite this cell: only unmarked cells
/// and earlier measurement marks, never a real mark.
pub open spec fn markable(c: Cell) -> bool {
    c is Empty || c is Measured
}

/// The buffer after marking the points of a line in order: each point whose
/// cell is `Empty` or `Measured` is overwritten with `Measured(Some(k))`,
/// where `k` counts the marked cells so far starting at `next`; every other
/// cell is left untouched.
pub open spec fn measure_spec(cells: Seq<Cell>, width: int, pts: Seq<Point>, next: int) -> Seq<
    Cell,
>
    decreases pts.len(),
{
    if pts.len() == 0 {
        cells
    } else {
        let p = pts[0];
        let i = p.y * width + p.x;
        if markable(cells[i]) {
            measure_spec(
                cells.update(i, Cell::Measured(Some(next as usize))),
                width,
                pts.drop_first(),
                next + 1,
            )
        } else {
            measure_spec(cells, width, pts.drop_first(), next)
        }
    }
}

/// Marking never changes the buffer's length.
pub proof fn lemma_measure_len(cells: Seq<Cell>, width: int, pts: Seq<Point>, next: int)
    requires
        forall|j: int|
            0 <= j < pts.len() ==> 0 <= (#[trigger] pts[j]).y * width + pts[j].x < cells.len(),
    ensures
        measure_spec(cells, width, pts, next).len() == cells.len(),
    decreases pts.len(),
{
    if pts.len() > 0 {
        let p = pts[0];
        let i = p.y * width + p.x;
        assert(0 <= i < cells.len()) by {
            assert(pts[0] == p);
        }
        assert(forall|j: int|
            0 <= j < pts.drop_first().len() ==> 0 <= (#[trigger] pts.drop_first()[j]).y * width
                + pts.drop_first()[j].x < cells.len());
        if markable(cells[i]) {
            lemma_measure_len(
                cells.update(i, Cell::Measured(Some(next as usize))),
                width,
                pts.drop_first(),
                next + 1,
            );
        } else {
            lemma_measure_len(cells, width, pts.drop_first(), next);
        }
    }
}

/// The measurement overlay is non-destructive: a cell holding a real mark
/// (`Filled`, `Crossed` or `Maybed`) is never changed by marking a line.
pub proof fn lemma_measure_preserves_marks(
    cells: Seq<Cell>,
    width: int,
    pts: Seq<Point>,
    next: int,
    i: int,
)
    requires
        0 <= i < cells.len(),
        !markable(cells[i]),
        forall|j: int|
            0 <= j < pts.len() ==> 0 <= (#[trigger] pts[j]).y * width + pts[j].x < cells.len(),
    ensures
        measure_spec(cells, width, pts, next)[i] == cells[i],
    decreases pts.len(),
{
    if pts.len() > 0 {
        let p = pts[0];
        let k = p.y * width + p.x;
        assert(0 <= k < cells.len()) by {
            assert(pts[0] == p);
        }
        assert(forall|j: int|
            0 <= j < pts.drop_first().len() ==> 0 <= (#[trigger] pts.drop_first()[j]).y * width
                + pts.drop_first()[j].x < cells.len());
        if markable(cells[k]) {
            let cells2 = cells.update(k, Cell::Measured(Some(next as usize)));
            assert(cells2[i] == cells[i]);
            lemma_measure_preserves_marks(cells2, width, pts.drop_first(), next + 1, i);
        } else {
            lemma_measure_preserves_marks(cells, width, pts.drop_first(), next, i);
        }
    }
}

/// How many of the line's points hold a markable cell.
pub open spec fn count_markable(cells: Seq<Cell>, width: int, pts: Seq<Point>) -> int
    decreases pts.len(),
{
    if pts.len() == 0 {
        0
    } else {
        (if markable(cells[pts[0].y * width + pts[0].x]) {
            1int
        } else {
            0int
        }) + count_markable(cells, width, pts.drop_first())
    }
}

/// Helper bounds for a line of points over a buffer.
pub open spec fn pts_in_buffer(cells: Seq<Cell>, width: int, pts: Seq<Point>) -> bool {
    &&& width >= 1
    &&& forall|k: int|
        0 <= k < pts.len() ==> 0 <= (#[trigger] pts[k]).y * width + pts[k].x < cells.len()
            && pts[k].x < width
}

/// A cell at none of the line's points is never touched by marking.
proof fn lemma_measure_untouched(cells: Seq<Cell>, width: int, pts: Seq<Point>, next: int, i: int)
    requires
        pts_in_buffer(cells, width, pts),
        0 <= i < cells.len(),
        forall|k: int| 0 <= k < pts.len() ==> (#[trigger] pts[k]).y * width + pts[k].x != i,
    ensures
        measure_spec(cells, width, pts, next)[i] == cells[i],
    decreases pts.len(),
{
    if pts.len() > 0 {
        let p = pts[0];
        let k = p.y * width + p.x;
        assert(pts[0] == p);
        assert(forall|k: int|
            0 <= k < pts.drop_first().len() ==> 0 <= (#[trigger] pts.drop_first()[k]).y * width
                + pts.drop_first()[k].x < cells.len() && pts.drop_first()[k].x < width);
        assert(forall|k: int|
            0 <= k < pts.drop_first().len() ==> (#[trigger] pts.drop_first()[k]).y * width
                + pts.drop_first()[k].x != i);
        if markable(cells[k]) {
            let cells2 = cells.update(k, Cell::Measured(Some(next as usize)));
            lemma_measure_untouched(cells2, width, pts.drop_first(), next + 1, i);
        } else {
            lemma_measure_untouched(cells, width, pts.drop_first(), next, i);
        }
    }
}

/// Overwriting a markable cell with a measurement mark changes no point's
/// markability, so the count of markable points is unchanged.
proof fn lemma_count_markable_update(
    cells: Seq<Cell>,
    width: int,
    pts: Seq<Point>,
    i: int,
    v: Cell,
)
    requires
        0 <= i < cells.len(),
        markable(cells[i]),
        markable(v),
        pts_in_buffer(cells, width, pts),
    ensures
        count_markable(cells.update(i, v), width, pts) == count_markable(cells, width, pts),
    decreases pts.len(),
{
    if pts.len() > 0 {
        assert(pts[0] == pts.first());
        assert(forall|k: int|
            0 <= k < pts.drop_first().len() ==> 0 <= (#[trigger] pts.drop_first()[k]).y * width
                + pts.drop_first()[k].x < cells.len() && pts.drop_first()[k].x < width);
        lemma_count_markable_update(cells, width, pts.drop_first(), i, v);
        let j = pts[0].y * width + pts[0].x;
        assert(markable(cells.update(i, v)[j]) == markable(cells[j]));
    }
}

/// Two in-bounds points with the same buffer index are the same point.
proof fn lemma_point_index_injective(w: int, p: Point, q: Point)
    by (nonlinear_arith)
    requires
        0 <= p.x < w,
        0 <= q.x < w,
        p.y * w + p.x == q.y * w + q.x,
    ensures
        p == q,
{
}

/// The measurement overlay numbers the markable cells of a line
/// sequentially: along a line of distinct points, the cell at the line's
/// `j`-th point, if markable, ends up holding `Measured(Some(k))` where `k`
/// is `next` plus the number of markable points before it. Starting the
/// counter at 1, the `Empty` and `Measured` cells on the line are numbered
/// 1, 2, 3, … in line order while every other cell keeps its mark.
pub proof fn lemma_measure_ordinals(
    cells: Seq<Cell>,
    width: int,
    pts: Seq<Point>,
    next: int,
    j: int,
)
    requires
        pts_in_buffer(cells, width, pts),
        forall|k: int, l: int| 0 <= k < l < pts.len() ==> pts[k] != pts[l],
        0 <= j < pts.len(),
        markable(cells[pts[j].y * width + pts[j].x]),
        1 <= next,
        next + pts.len() <= usize::MAX,
    ensures
        measure_spec(cells, width, pts, next)[pts[j].y * width + pts[j].x] == Cell::Measured(
            Some((next + count_markable(cells, width, pts.take(j))) as usize),
        ),
    decreases pts.len(),
{
    let p0 = pts[0];
    let i0 = p0.y * width + p0.x;
    assert(pts[0] == p0);
    let rest = pts.drop_first();
    assert(forall|k: int|
        0 <= k < rest.len() ==> 0 <= (#[trigger] rest[k]).y * width + rest[k].x < cells.len()
            && rest[k].x < width);
    assert(forall|k: int, l: int| 0 <= k < l < rest.len() ==> rest[k] != rest[l]);
    if j == 0 {
        assert(pts.take(0) =~= Seq::<Point>::empty());
        assert(markable(cells[i0]));
        let cells2 = cells.update(i0, Cell::Measured(Some(next as usize)));
        assert forall|k: int| 0 <= k < rest.len() implies (#[trigger] rest[k]).y * width
            + rest[k].x != i0 by {
            if rest[k].y * width + rest[k].x == i0 {
                lemma_point_index_injective(width, rest[k], p0);
                assert(pts[k + 1] == pts[0]);
            }
        }
        assert(pts_in_buffer(cells2, width, rest));
        lemma_measure_untouched(cells2, width, rest, next + 1, i0);
    } else {
        let pj = pts[j];
        let ij = pj.y * width + pj.x;
        assert(rest[j - 1] == pts[j]);
        assert(ij != i0) by {
            if ij == i0 {
                lemma_point_index_injective(width, pj, p0);
            }
        }
        assert(pts.take(j).drop_first() =~= rest.take(j - 1));
        if markable(cells[i0]) {
            let cells2 = cells.update(i0, Cell::Measured(Some(next as usize)));
            assert(pts_in_buffer(cells2, width, rest));
            assert(markable(cells2[ij]));
            lemma_measure_ordinals(cells2, width, rest, next + 1, j - 1);
            lemma_count_markable_update(cells, width, rest.take(j - 1), i0, Cell::Measured(Some(next as usize)));
            assert(pts_in_buffer(cells, width, rest.take(j - 1))) by {
                assert(forall|k: int|
                    0 <= k < rest.take(j - 1).len() ==> #[trigger] rest.take(j - 1)[k] == rest[k]);
            }
            assert(count_markable(cells2, width, rest.take(j - 1)) == count_markable(
                cells,
                width,
                rest.take(j - 1),
            ));
            assert(count_markable(cells, width, pts.take(j)) == 1 + count_markable(
                cells,
                width,
                rest.take(j - 1),
            )) by {
                assert(pts.take(j)[0] == pts[0]);
                assert(markable(cells[pts.take(j)[0].y * width + pts.take(j)[0].x]));
            }
        } else {
            lemma_measure_ordinals(cells, width, rest, next, j - 1);
            assert(count_markable(cells, width, pts.take(j)) == count_markable(
                cells,
                width,
                rest.take(j - 1),
            )) by {
                assert(pts.take(j)[0] == pts[0]);
            }
        }
    }
}

/// Marks the points of one measured line in the buffer, in order: every
/// `Empty` or `Measured` cell along it receives `Measured(Some(k))` with `k`
/// counting the marked cells from 1; every other cell is left untouched.
pub fn set_measured_cells(cells: &mut Vec<Cell>, size: Size, line_points: &Vec<Point>)
    requires
        1 <= size.width <= 99,
        1 <= size.height <= 99,
        old(cells)@.len() == size.width as int * size.height as int,
        forall|j: int|
            0 <= j < line_points@.len() ==> point_in_bounds(#[trigger] line_points@[j], size),
        line_points@.len() < usize::MAX,
    ensures
        final(cells)@ == measure_spec(old(cells)@, size.width as int, line_points@, 1),
        final(cells)@.len() == old(cells)@.len(),
{
    let ghost orig = cells@;
    let ghost w = size.width as int;
    let mut counter: usize = 1;
    let mut j: usize = 0;
    proof {
        assert forall|k: int| 0 <= k < line_points@.len() implies 0 <= (
        #[trigger] line_points@[k]).y * w + line_points@[k].x < orig.len() by {
            crate::grid::lemma_index_bounds(
                size.width as int,
                size.height as int,
                line_points@[k].x as int,
                line_points@[k].y as int,
            );
        }
        lemma_measure_len(orig, w, line_points@, 1);
        assert(line_points@.skip(0) =~= line_points@);
    }
    while j < line_points.len()
        invariant
            j <= line_points@.len(),
            line_points@.len() < usize::MAX,
            1 <= counter <= j + 1,
            1 <= size.width <= 99,
            1 <= size.height <= 99,
            w == size.width as int,
            cells@.len() == size.width as int * size.height as int,
            forall|k: int|
                0 <= k < line_points@.len() ==> point_in_bounds(#[trigger] line_points@[k], size),
            measure_spec(cells@, w, line_points@.skip(j as int), counter as int) == measure_spec(
                orig,
                w,
                line_points@,
                1,
            ),
        decreases line_points@.len() - j,
    {
        let p = line_points[j];
        proof {
            crate::grid::lemma_index_bounds(
                size.width as int,
                size.height as int,
                p.x as int,
                p.y as int,
            );
            assert(line_points@.skip(j as int)[0] == line_points@[j as int]);
            assert(line_points@.skip(j as int).drop_first() =~= line_points@.skip(j as int + 1));
        }
        let index = get_index(size.width, p);
        let markable_here = match cells[index] {
            Cell::Empty => true,
            Cell::Measured(_) => true,
            _ => false,
        };
        if markable_here {
            cells.set(index, Cell::Measured(Some(counter)));
            counter += 1;
        }
        j += 1;
    }
    proof {
        assert(line_points@.skip(line_points@.len() as int) =~= Seq::<Point>::empty());
    }
}

} // verus!
