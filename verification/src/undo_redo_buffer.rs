//! The operation history: an append/truncate log with a cursor, from which
//! the grid's cell buffer can be rebuilt by replaying a prefix.

use crate::grid::{Cell, Grid};
use crate::terminal::util::{Point, Size};
use vstd::prelude::*;

verus! {

/// One logged player action. Each entry stores the resulting values, not
/// deltas, so replaying a prefix from a blank buffer is deterministic.
#[derive(Debug)]
pub enum Operation {
    /// The cell value that resulted at a point.
    SetCell { point: Point, cell: Cell },
    /// The full ordered list of points touched by one measurement action.
    Measure(Vec<Point>),
    /// One flood-fill action: its seed point and the two cell values used.
    /// Replay re-runs the flood fill from the seed with the same values.
    Fill { point: Point, matched_cell: Cell, fill_cell: Cell },
    /// Resets every cell to `Empty`.
    Clear,
}

/// Whether a point indexes a cell of a grid of size `size`.
pub open spec fn point_in_bounds(p: Point, size: Size) -> bool {
    p.x < size.width && p.y < size.height
}

/// Whether an operation only touches cells of a grid of size `size`.
pub open spec fn op_valid(op: Operation, size: Size) -> bool {
    match op {
        Operation::SetCell { point, cell } => point_in_bounds(point, size),
        Operation::Measure(points) => (forall|j: int|
            0 <= j < points@.len() ==> point_in_bounds(#[trigger] points@[j], size))
            && points@.len() < usize::MAX,
        Operation::Fill { point, matched_cell, fill_cell } => point_in_bounds(point, size),
        Operation::Clear => true,
    }
}

/// The buffer that results from applying one logged operation.
pub open spec fn apply_op(cells: Seq<Cell>, size: Size, op: Operation) -> Seq<Cell> {
    match op {
        Operation::SetCell { point, cell } => cells.update(
            point.y as int * size.width as int + point.x as int,
            cell,
        ),
        Operation::Measure(points) => crate::event::measure_spec(
            cells,
            size.width as int,
            points@,
            1,
        ),
        Operation::Fill { point, matched_cell, fill_cell } => crate::grid::tools::fill::fill_spec(
            cells,
            size,
            point,
            matched_cell,
            fill_cell,
        ),
        Operation::Clear => crate::grid::blank_cells(size),
    }
}

/// The buffer that results from replaying a sequence of operations, in
/// order, starting from an all-`Empty` buffer.
pub open spec fn replay(ops: Seq<Operation>, size: Size) -> Seq<Cell>
    decreases ops.len(),
{
    if ops.len() == 0 {
        crate::grid::blank_cells(size)
    } else {
        apply_op(replay(ops.drop_last(), size), size, ops.last())
    }
}

/// Applying a valid operation preserves the buffer's length.
pub proof fn lemma_apply_op_len(cells: Seq<Cell>, size: Size, op: Operation)
    requires
        1 <= size.width <= 99,
        1 <= size.height <= 99,
        cells.len() == size.width as int * size.height as int,
        op_valid(op, size),
    ensures
        apply_op(cells, size, op).len() == cells.len(),
{
    match op {
        Operation::SetCell { point, cell } => {
            crate::grid::lemma_index_bounds(
                size.width as int,
                size.height as int,
                point.x as int,
                point.y as int,
            );
        },
        Operation::Measure(points) => {
            assert forall|k: int| 0 <= k < points@.len() implies 0 <= (#[trigger] points@[k]).y
                * size.width as int + points@[k].x < cells.len() by {
                crate::grid::lemma_index_bounds(
                    size.width as int,
                    size.height as int,
                    points@[k].x as int,
                    points@[k].y as int,
                );
            }
            crate::event::lemma_measure_len(cells, size.width as int, points@, 1);
        },
        Operation::Fill { point, matched_cell, fill_cell } => {},
        Operation::Clear => {},
    }
}

/// Replaying a valid log yields a buffer of the grid's size.
pub proof fn lemma_replay_len(ops: Seq<Operation>, size: Size)
    requires
        1 <= size.width <= 99,
        1 <= size.height <= 99,
        forall|i: int| 0 <= i < ops.len() ==> op_valid(#[trigger] ops[i], size),
    ensures
        replay(ops, size).len() == size.width as int * size.height as int,
    decreases ops.len(),
{
    if ops.len() > 0 {
        assert(forall|i: int|
            0 <= i < ops.drop_last().len() ==> op_valid(#[trigger] ops.drop_last()[i], size));
        lemma_replay_len(ops.drop_last(), size);
        assert(ops.last() == ops[ops.len() - 1]);
        lemma_apply_op_len(replay(ops.drop_last(), size), size, ops.last());
    }
}

/// The operation history: every logged operation plus a cursor. The
/// operations before the cursor are the ones currently applied.
#[derive(Debug)]
pub struct UndoRedoBuffer {
    pub buffer: Vec<Operation>,
    pub index: usize,
}

impl UndoRedoBuffer {
    /// The cursor stays within the log and every entry fits the grid.
    pub open spec fn wf(self, size: Size) -> bool {
        &&& self.index <= self.buffer@.len()
        &&& forall|i: int| 0 <= i < self.buffer@.len() ==> op_valid(#[trigger] self.buffer@[i], size)
    }

    /// Appends an operation at the cursor, discarding any undone tail first.
    pub fn push(&mut self, operation: Operation)
        requires
            old(self).index <= old(self).buffer@.len(),
        ensures
            final(self).buffer@ == old(self).buffer@.take(old(self).index as int).push(operation),
            final(self).index == old(self).index + 1,
    {
        if self.index != self.buffer.len() {
            self.buffer.truncate(self.index);
        }
        self.buffer.push(operation);
        self.index = self.buffer.len();
        proof {
            assert(final(self).buffer@ =~= old(self).buffer@.take(old(self).index as int).push(
                operation,
            ));
        }
    }
}

impl Default for UndoRedoBuffer {
    /// An empty history.
    fn default() -> (r: UndoRedoBuffer)
        ensures
            r.buffer@.len() == 0,
            r.index == 0,
    {
        UndoRedoBuffer { buffer: Vec::new(), index: 0 }
    }
}

/// What one successful undo does to a grid: the cursor steps back by one and
/// the cell buffer becomes the replay of the shortened prefix; everything
/// else is kept.
pub open spec fn undo_step(g1: Grid, g2: Grid) -> bool {
    &&& g1.undo_redo_buffer.index > 0
    &&& g2.size == g1.size
    &&& g2.horizontal_clues_solutions == g1.horizontal_clues_solutions
    &&& g2.vertical_clues_solutions == g1.vertical_clues_solutions
    &&& g2.max_clues_size == g1.max_clues_size
    &&& g2.undo_redo_buffer.buffer == g1.undo_redo_buffer.buffer
    &&& g2.undo_redo_buffer.index == g1.undo_redo_buffer.index - 1
    &&& g2.cells@ == replay(
        g1.undo_redo_buffer.buffer@.take(g1.undo_redo_buffer.index - 1),
        g1.size,
    )
}

/// What one successful redo does to a grid: the cursor steps forward by one
/// and the cell buffer becomes the replay of the lengthened prefix.
pub open spec fn redo_step(g1: Grid, g2: Grid) -> bool {
    &&& g1.undo_redo_buffer.index < g1.undo_redo_buffer.buffer@.len()
    &&& g2.size == g1.size
    &&& g2.horizontal_clues_solutions == g1.horizontal_clues_solutions
    &&& g2.vertical_clues_solutions == g1.vertical_clues_solutions
    &&& g2.max_clues_size == g1.max_clues_size
    &&& g2.undo_redo_buffer.buffer == g1.undo_redo_buffer.buffer
    &&& g2.undo_redo_buffer.index == g1.undo_redo_buffer.index + 1
    &&& g2.cells@ == replay(
        g1.undo_redo_buffer.buffer@.take(g1.undo_redo_buffer.index + 1),
        g1.size,
    )
}

impl Grid {
    /// The grid's cell buffer is exactly the replay of the applied prefix of
    /// its history. This holds whenever the buffer was built from logged
    /// operations alone (it does not hold for a grid freshly loaded from a
    /// picture carrying marks other than `Filled`).
    pub open spec fn history_consistent(self) -> bool {
        self.cells@ == replay(
            self.undo_redo_buffer.buffer@.take(self.undo_redo_buffer.index as int),
            self.size,
        )
    }

    /// Rebuilds the cell buffer by replaying the operations before the
    /// cursor, in order, onto an all-`Empty` buffer.
    fn rebuild(&mut self)
        requires
            old(self).wf(),
        ensures
            final(self).wf(),
            final(self).size == old(self).size,
            final(self).horizontal_clues_solutions == old(self).horizontal_clues_solutions,
            final(self).vertical_clues_solutions == old(self).vertical_clues_solutions,
            final(self).max_clues_size == old(self).max_clues_size,
            final(self).undo_redo_buffer == old(self).undo_redo_buffer,
            final(self).cells@ == replay(
                old(self).undo_redo_buffer.buffer@.take(old(self).undo_redo_buffer.index as int),
                old(self).size,
            ),
            final(self).history_consistent(),
    {
        let ghost size = self.size;
        let ghost ops = self.undo_redo_buffer.buffer@;
        self.clear();
        proof {
            assert(ops.take(0) =~= Seq::<Operation>::empty());
            assert(self.cells@ =~= crate::grid::blank_cells(size));
        }
        let mut i: usize = 0;
        while i < self.undo_redo_buffer.index
            invariant
                self.wf(),
                i <= self.undo_redo_buffer.index,
                self.size == old(self).size,
                self.horizontal_clues_solutions == old(self).horizontal_clues_solutions,
                self.vertical_clues_solutions == old(self).vertical_clues_solutions,
                self.max_clues_size == old(self).max_clues_size,
                self.undo_redo_buffer == old(self).undo_redo_buffer,
                size == self.size,
                ops == self.undo_redo_buffer.buffer@,
                self.cells@ == replay(ops.take(i as int), size),
            decreases self.undo_redo_buffer.index - i,
        {
            let ghost pre = self.cells@;
            proof {
                assert(op_valid(ops[i as int], size));
                assert(ops.take(i as int + 1).drop_last() =~= ops.take(i as int));
                assert(ops.take(i as int + 1).last() == ops[i as int]);
            }
            let size_now = self.size;
            match &self.undo_redo_buffer.buffer[i] {
                Operation::SetCell { point, cell } => {
                    let p = *point;
                    let c = *cell;
                    self.set_cell(p, c);
                },
                Operation::Measure(line_points) => {
                    crate::event::set_measured_cells(&mut self.cells, size_now, line_points);
                },
                Operation::Fill { point, matched_cell, fill_cell } => {
                    crate::grid::tools::fill::fill_cells(
                        &mut self.cells,
                        size_now,
                        *point,
                        *matched_cell,
                        *fill_cell,
                    );
                },
                Operation::Clear => {
                    self.clear();
                    proof {
                        assert(self.cells@ =~= crate::grid::blank_cells(size));
                    }
                },
            }
            proof {
                assert(self.cells@ == apply_op(pre, size, ops[i as int]));
                assert(self.cells@ == replay(ops.take(i as int + 1), size));
            }
            i += 1;
        }
    }

    /// Tries to undo the last logged operation and reports whether there was
    /// one to undo.
    pub fn undo_last_cell(&mut self) -> (r: bool)
        requires
            old(self).wf(),
        ensures
            r == (old(self).undo_redo_buffer.index > 0),
            final(self).wf(),
            r ==> undo_step(*old(self), *final(self)) && final(self).history_consistent(),
            !r ==> *final(self) == *old(self),
    {
        if self.undo_redo_buffer.index > 0 {
            self.undo_redo_buffer.index = self.undo_redo_buffer.index - 1;
            self.rebuild();
            true
        } else {
            false
        }
    }

    /// Tries to redo the last undone operation and reports whether there was
    /// one to redo.
    pub fn redo_last_cell(&mut self) -> (r: bool)
        requires
            old(self).wf(),
        ensures
            r == (old(self).undo_redo_buffer.index < old(self).undo_redo_buffer.buffer@.len()),
            final(self).wf(),
            r ==> redo_step(*old(self), *final(self)) && final(self).history_consistent(),
            !r ==> *final(self) == *old(self),
    {
        if self.undo_redo_buffer.index != self.undo_redo_buffer.buffer.len() {
            self.undo_redo_buffer.index = self.undo_redo_buffer.index + 1;
            self.rebuild();
            true
        } else {
            false
        }
    }
}

/// Undo/redo round trip: for any operation log, undoing one step and then
/// redoing it reproduces the exact prior cell buffer. Both the buffer before
/// the undo and the buffer after the redo are the replay of the same
/// operation prefix from a blank grid, so they agree cell for cell.
pub proof fn lemma_undo_redo_round_trip(g0: Grid, g1: Grid, g2: Grid)
    requires
        g0.wf(),
        g0.history_consistent(),
        g0.undo_redo_buffer.index > 0,
        undo_step(g0, g1),
        redo_step(g1, g2),
    ensures
        g2.cells@ == g0.cells@,
        g2.undo_redo_buffer.index == g0.undo_redo_buffer.index,
        g2.undo_redo_buffer.buffer == g0.undo_redo_buffer.buffer,
        g2.size == g0.size,
{
    assert(g1.undo_redo_buffer.index + 1 == g0.undo_redo_buffer.index);
    assert(g2.cells@ == replay(
        g0.undo_redo_buffer.buffer@.take(g0.undo_redo_buffer.index as int),
        g0.size,
    ));
}

} // verus!
