//! Uniform-random grid generation.

use super::{blank_cells, Cell, Grid};
use crate::terminal::util::Size;
use vstd::prelude::*;

verus! {

/// Draws a uniformly random byte below `bound`.
///
/// Relies on `fastrand::u8`: a uniformly random `u8` within the given range;
/// it panics only when the range is empty, which the bound rules out.
#[verifier::external_body]
fn random_u8_below(bound: u8) -> (r: u8)
    requires
        bound > 0,
    ensures
        r < bound,
{
    fastrand::u8(0..bound)
}

/// A buffer of independently sampled cells, each `Filled` with probability
/// three quarters and `Empty` otherwise.
fn random_cells(size: u32) -> (r: Vec<Cell>)
    ensures
        r@.len() == size,
        forall|i: int| 0 <= i < r@.len() ==> (#[trigger] r@[i]) is Filled || r@[i] is Empty,
{
    let mut cells: Vec<Cell> = Vec::new();
    let mut i: u32 = 0;
    while i < size
        invariant
            i <= size,
            cells@.len() == i,
            forall|j: int| 0 <= j < cells@.len() ==> (#[trigger] cells@[j]) is Filled || cells@[j] is Empty,
        decreases size - i,
    {
        let filled = random_u8_below(4) < 3;
        cells.push(
            if filled {
                Cell::Filled
            } else {
                Cell::Empty
            },
        );
        i += 1;
    }
    cells
}

impl Grid {
    /// A new grid over a random picture, put through the normal construction
    /// path: the target clue tables derive from some sampled `Filled`/`Empty`
    /// picture of the right length. Whatever the sampling produced, the
    /// playing buffer starts all-`Empty` with an empty history.
    pub fn random(size: Size) -> (r: Grid)
        requires
            1 <= size.width <= 99,
            1 <= size.height <= 99,
        ensures
            r.wf(),
            r.size == size,
            r.cells@ == blank_cells(size),
            r.undo_redo_buffer.buffer@.len() == 0,
            r.undo_redo_buffer.index == 0,
            r.history_consistent(),
            exists|picture: Seq<Cell>|
                {
                    &&& #[trigger] picture.len() == size.width as int * size.height as int
                    &&& (forall|i: int|
                        0 <= i < picture.len() ==> (#[trigger] picture[i]) is Filled
                            || picture[i] is Empty)
                    &&& (forall|y: int|
                        0 <= y < size.height as int ==> super::as_ints(
                            (#[trigger] r.horizontal_clues_solutions@[y])@,
                        ) == super::line_clues(
                            super::row_bools(picture, size.width as int, y),
                        ))
                    &&& (forall|x: int|
                        0 <= x < size.width as int ==> super::as_ints(
                            (#[trigger] r.vertical_clues_solutions@[x])@,
                        ) == super::line_clues(
                            super::col_bools(picture, size.width as int, size.height as int, x),
                        ))
                },
    {
        let cells = random_cells(size.product());
        let ghost picture = cells@;
        let grid = Grid::new(size, cells);
        proof {
            assert(grid.cells@ =~= blank_cells(size));
            assert(grid.undo_redo_buffer.buffer@.take(0) =~= Seq::<
                crate::undo_redo_buffer::Operation,
            >::empty());
            assert(picture.len() == size.width as int * size.height as int);
        }
        grid
    }
}

} // verus!
