//! The puzzle grid: the cell buffer, the clue engine and the fixed target
//! clue tables.

pub mod builder;
pub mod cell;
pub mod random;
pub mod tools;

use crate::terminal::util::{Point, Size};
use crate::undo_redo_buffer::UndoRedoBuffer;
use itertools::Itertools;
use vstd::prelude::*;

pub use cell::Cell;

verus! {

/// Whether the cell at `(x, y)` of a row-major buffer of width `width` is
/// filled.
pub open spec fn cell_at_filled(cells: Seq<Cell>, width: int, x: int, y: int) -> bool {
    cells[y * width + x] is Filled
}

/// The filled/not-filled classification of row `y`, in scan order.
pub open spec fn row_bools(cells: Seq<Cell>, width: int, y: int) -> Seq<bool> {
    Seq::new(width as nat, |x: int| cell_at_filled(cells, width, x, y))
}

/// The filled/not-filled classification of column `x`, in scan order.
pub open spec fn col_bools(cells: Seq<Cell>, width: int, height: int, x: int) -> Seq<bool> {
    Seq::new(height as nat, |y: int| cell_at_filled(cells, width, x, y))
}

/// The run-length encoding of a line: each maximal run of equal values, as
/// the pair of its length and its value, in scan order.
pub open spec fn rle(s: Seq<bool>) -> Seq<(int, bool)>
    decreases s.len(),
{
    if s.len() == 0 {
        Seq::empty()
    } else {
        let prefix = rle(s.drop_last());
        if prefix.len() > 0 && prefix.last().1 == s.last() {
            prefix.update(prefix.len() - 1, (prefix.last().0 + 1, s.last()))
        } else {
            prefix.push((1, s.last()))
        }
    }
}

/// The lengths of the filled runs, in scan order.
pub open spec fn filled_runs(r: Seq<(int, bool)>) -> Seq<int>
    decreases r.len(),
{
    if r.len() == 0 {
        Seq::empty()
    } else if r.last().1 {
        filled_runs(r.drop_last()).push(r.last().0)
    } else {
        filled_runs(r.drop_last())
    }
}

/// The clue sequence of a line: the lengths of its maximal filled runs, in
/// scan order. An empty sequence means the line has no filled cells.
pub open spec fn line_clues(s: Seq<bool>) -> Seq<int> {
    filled_runs(rle(s))
}

/// A clue sequence as stored, widened to mathematical integers.
pub open spec fn as_ints(v: Seq<u16>) -> Seq<int> {
    v.map_values(|c: u16| c as int)
}

/// Every run of a line's encoding is between 1 and the line's length, and
/// there are at most as many runs as cells.
pub proof fn lemma_rle_bounds(s: Seq<bool>)
    ensures
        rle(s).len() <= s.len(),
        forall|j: int| 0 <= j < rle(s).len() ==> 1 <= (#[trigger] rle(s)[j]).0 <= s.len(),
    decreases s.len(),
{
    if s.len() > 0 {
        lemma_rle_bounds(s.drop_last());
    }
}

/// A line has at most as many clues as runs.
pub proof fn lemma_filled_runs_len(r: Seq<(int, bool)>)
    ensures
        filled_runs(r).len() <= r.len(),
    decreases r.len(),
{
    if r.len() > 0 {
        lemma_filled_runs_len(r.drop_last());
    }
}

/// The sum of a clue sequence.
pub open spec fn sum_seq(s: Seq<int>) -> int
    decreases s.len(),
{
    if s.len() == 0 {
        0
    } else {
        sum_seq(s.drop_last()) + s.last()
    }
}

/// The number of filled cells in a line.
pub open spec fn count_true(s: Seq<bool>) -> int
    decreases s.len(),
{
    if s.len() == 0 {
        0
    } else {
        count_true(s.drop_last()) + if s.last() {
            1int
        } else {
            0int
        }
    }
}

/// Clue derivation is deterministic: deriving the clue sequence of an
/// unmutated line twice yields identical sequences, because the sequence is
/// a function of the line's filled classifications alone.
pub proof fn lemma_clue_determinism(s: Seq<bool>, r1: Seq<int>, r2: Seq<int>)
    requires
        r1 == line_clues(s),
        r2 == line_clues(s),
    ensures
        r1 == r2,
{
}

/// The clues of a line sum to the number of its filled cells.
pub proof fn lemma_clue_sum(s: Seq<bool>)
    ensures
        sum_seq(line_clues(s)) == count_true(s),
    decreases s.len(),
{
    if s.len() > 0 {
        let d = s.drop_last();
        lemma_clue_sum(d);
        let rd = rle(d);
        let rs = rle(s);
        if rd.len() > 0 && rd.last().1 == s.last() {
            let c = rd.last().0;
            assert(rs == rd.update(rd.len() - 1, (c + 1, s.last())));
            assert(rs.drop_last() =~= rd.drop_last());
            assert(rs.last() == (c + 1, s.last()));
            if s.last() {
                assert(filled_runs(rs) == filled_runs(rs.drop_last()).push(c + 1));
                assert(filled_runs(rd) == filled_runs(rd.drop_last()).push(c));
                assert(filled_runs(rs).drop_last() =~= filled_runs(rs.drop_last()));
                assert(filled_runs(rd).drop_last() =~= filled_runs(rd.drop_last()));
                assert(sum_seq(filled_runs(rs)) == sum_seq(filled_runs(rs.drop_last())) + c + 1);
                assert(sum_seq(filled_runs(rd)) == sum_seq(filled_runs(rd.drop_last())) + c);
            } else {
                assert(filled_runs(rs) == filled_runs(rs.drop_last()));
                assert(filled_runs(rd) == filled_runs(rd.drop_last()));
            }
        } else {
            assert(rs == rd.push((1int, s.last())));
            assert(rs.drop_last() =~= rd);
            assert(rs.last() == (1int, s.last()));
            if s.last() {
                assert(filled_runs(rs) == filled_runs(rd).push(1));
                assert(filled_runs(rs).drop_last() =~= filled_runs(rd));
                assert(sum_seq(filled_runs(rs)) == sum_seq(filled_runs(rd)) + 1);
            } else {
                assert(filled_runs(rs) == filled_runs(rd));
            }
        }
    }
}

/// Helper: flipping one classification changes the filled count by one.
proof fn lemma_count_true_flip(s1: Seq<bool>, s2: Seq<bool>, i: int)
    requires
        s1.len() == s2.len(),
        0 <= i < s1.len(),
        s1[i] != s2[i],
        forall|j: int| 0 <= j < s1.len() && j != i ==> s1[j] == s2[j],
    ensures
        count_true(s1) != count_true(s2),
        count_true(s1) - count_true(s2) == 1 || count_true(s2) - count_true(s1) == 1,
    decreases s1.len(),
{
    if i == s1.len() - 1 {
        assert(s1.drop_last() =~= s2.drop_last());
    } else {
        assert(s1.last() == s2.last());
        lemma_count_true_flip(s1.drop_last(), s2.drop_last(), i);
    }
}

/// Two lines that differ in exactly one cell's filled classification have
/// different clue sequences: the sums of their clues differ by one.
pub proof fn lemma_single_flip_changes_clues(s1: Seq<bool>, s2: Seq<bool>, i: int)
    requires
        s1.len() == s2.len(),
        0 <= i < s1.len(),
        s1[i] != s2[i],
        forall|j: int| 0 <= j < s1.len() && j != i ==> s1[j] == s2[j],
    ensures
        line_clues(s1) != line_clues(s2),
{
    lemma_clue_sum(s1);
    lemma_clue_sum(s2);
    lemma_count_true_flip(s1, s2, i);
}

/// Run-length encodes a line of classifications.
///
/// Relies on itertools' `dedup_with_count`: it yields each maximal run of
/// consecutive equal elements as the pair of the run's length and its value,
/// in order.
#[verifier::external_body]
fn dedup_with_count(line: &Vec<bool>) -> (r: Vec<(usize, bool)>)
    ensures
        r@.len() == rle(line@).len(),
        forall|j: int|
            0 <= j < r@.len() ==> (#[trigger] r@[j]).0 as int == rle(line@)[j].0 && r@[j].1 == rle(
                line@,
            )[j].1,
{
    line.iter().copied().dedup_with_count().collect()
}

/// Derives the clue sequence of one line of classifications.
fn clues_of_line(line: &Vec<bool>) -> (r: Vec<u16>)
    requires
        line@.len() <= 0xffff,
    ensures
        as_ints(r@) == line_clues(line@),
        r@.len() <= line@.len(),
{
    proof {
        lemma_rle_bounds(line@);
        lemma_filled_runs_len(rle(line@));
    }
    let runs = dedup_with_count(line);
    let mut clues: Vec<u16> = Vec::new();
    let mut j: usize = 0;
    while j < runs.len()
        invariant
            line@.len() <= 0xffff,
            j <= runs@.len(),
            runs@.len() == rle(line@).len() <= line@.len(),
            forall|k: int|
                0 <= k < runs@.len() ==> (#[trigger] runs@[k]).0 as int == rle(line@)[k].0
                    && runs@[k].1 == rle(line@)[k].1,
            forall|k: int| 0 <= k < rle(line@).len() ==> 1 <= (#[trigger] rle(line@)[k]).0 <= line@.len(),
            as_ints(clues@) =~= filled_runs(rle(line@).take(j as int)),
            clues@.len() <= j,
        decreases runs@.len() - j,
    {
        let (count, filled) = runs[j];
        proof {
            assert(rle(line@).take(j as int + 1).drop_last() =~= rle(line@).take(j as int));
            assert(rle(line@).take(j as int + 1).last() == rle(line@)[j as int]);
        }
        if filled {
            clues.push(count as u16);
            proof {
                assert(as_ints(clues@) =~= filled_runs(rle(line@).take(j as int + 1)));
            }
        }
        j += 1;
    }
    proof {
        assert(rle(line@).take(runs@.len() as int) =~= rle(line@));
    }
    clues
}

/// Translates a grid point to its index in the row-major cell buffer.
pub(crate) fn get_index(grid_width: u16, point: Point) -> (r: usize)
    ensures
        r == point.y as int * grid_width as int + point.x as int,
{
    proof {
        assert((point.y as int * grid_width as int + point.x as int) < 0x1_0000_0000)
            by (nonlinear_arith)
            requires
                point.y <= 0xffff,
                grid_width <= 0xffff,
                point.x <= 0xffff,
        ;
    }
    point.y as usize * grid_width as usize + point.x as usize
}

/// Derives the clue sequence of row `y` from the current buffer.
fn get_horizontal_clues(cells: &Vec<Cell>, grid_width: u16, y: u16) -> (r: Vec<u16>)
    requires
        grid_width >= 1,
        (y as int + 1) * grid_width as int <= cells@.len(),
    ensures
        as_ints(r@) == line_clues(row_bools(cells@, grid_width as int, y as int)),
        r@.len() <= grid_width,
{
    let ghost row = row_bools(cells@, grid_width as int, y as int);
    let mut line: Vec<bool> = Vec::new();
    let mut x: u16 = 0;
    proof {
        assert(y as int * grid_width as int + grid_width as int <= cells@.len())
            by (nonlinear_arith)
            requires
                (y as int + 1) * grid_width as int <= cells@.len(),
        ;
    }
    while x < grid_width
        invariant
            x <= grid_width,
            y as int * grid_width as int + grid_width as int <= cells@.len(),
            grid_width <= 0xffff,
            row == row_bools(cells@, grid_width as int, y as int),
            line@ =~= row.take(x as int),
        decreases grid_width - x,
    {
        let index = get_index(grid_width, Point { x, y });
        let filled = cells[index] == Cell::Filled;
        line.push(filled);
        proof {
            assert(row[x as int] == cell_at_filled(cells@, grid_width as int, x as int, y as int));
            assert(line@ =~= row.take(x as int + 1));
        }
        x += 1;
    }
    proof {
        assert(line@ =~= row);
    }
    clues_of_line(&line)
}

/// Derives the clue sequence of column `x` from the current buffer.
fn get_vertical_clues(cells: &Vec<Cell>, grid_size: Size, x: u16) -> (r: Vec<u16>)
    requires
        grid_size.width >= 1,
        x < grid_size.width,
        grid_size.width as int * grid_size.height as int <= cells@.len(),
        grid_size.height <= 0xffff,
    ensures
        as_ints(r@) == line_clues(
            col_bools(cells@, grid_size.width as int, grid_size.height as int, x as int),
        ),
        r@.len() <= grid_size.height,
{
    let ghost col = col_bools(cells@, grid_size.width as int, grid_size.height as int, x as int);
    let mut line: Vec<bool> = Vec::new();
    let mut y: u16 = 0;
    while y < grid_size.height
        invariant
            y <= grid_size.height,
            x < grid_size.width,
            grid_size.width as int * grid_size.height as int <= cells@.len(),
            col == col_bools(cells@, grid_size.width as int, grid_size.height as int, x as int),
            line@ =~= col.take(y as int),
        decreases grid_size.height - y,
    {
        proof {
            assert((y as int + 1) * grid_size.width as int <= grid_size.width as int
                * grid_size.height as int) by (nonlinear_arith)
                requires
                    y as int + 1 <= grid_size.height as int,
                    grid_size.width >= 1,
            ;
            assert((y as int * grid_size.width as int + x as int) < (y as int + 1)
                * grid_size.width as int) by (nonlinear_arith)
                requires
                    x < grid_size.width,
            ;
        }
        let index = get_index(grid_size.width, Point { x, y });
        let filled = cells[index] == Cell::Filled;
        line.push(filled);
        proof {
            assert(line@ =~= col.take(y as int + 1));
        }
        y += 1;
    }
    proof {
        assert(line@ =~= col);
    }
    clues_of_line(&line)
}

/// A buffer with every `Filled` cell reset to `Empty` and every other mark
/// kept.
pub open spec fn cleared_of_filled(cells: Seq<Cell>) -> Seq<Cell> {
    cells.map_values(|c: Cell| if c is Filled { Cell::Empty } else { c })
}

/// An all-`Empty` buffer for a grid of the given size.
pub open spec fn blank_cells(size: Size) -> Seq<Cell> {
    Seq::new((size.width as int * size.height as int) as nat, |i: int| Cell::Empty)
}

/// `m` is twice the length of the longest clue sequence: the width the widest
/// row clue sequence takes on screen, at two columns per clue.
pub open spec fn is_max_clues_width(sols: Seq<Vec<u16>>, m: int) -> bool {
    &&& forall|y: int| 0 <= y < sols.len() ==> 2 * (#[trigger] sols[y])@.len() <= m
    &&& exists|y: int| 0 <= y < sols.len() && 2 * (#[trigger] sols[y])@.len() == m
}

/// `m` is the length of the longest clue sequence: the height the tallest
/// column clue sequence takes on screen.
pub open spec fn is_max_clues_height(sols: Seq<Vec<u16>>, m: int) -> bool {
    &&& forall|y: int| 0 <= y < sols.len() ==> (#[trigger] sols[y])@.len() <= m
    &&& exists|y: int| 0 <= y < sols.len() && (#[trigger] sols[y])@.len() == m
}

/// A cell's coordinates index into the buffer of its grid.
pub proof fn lemma_index_bounds(w: int, h: int, x: int, y: int)
    by (nonlinear_arith)
    requires
        0 <= x < w,
        0 <= y < h,
    ensures
        0 <= y * w + x < w * h,
        (y + 1) * w <= h * w,
        (y + 1) * w <= w * h,
        h * w == w * h,
{
}

/// The aggregate root: the player's cell buffer, the target clue tables
/// fixed at construction, and the operation history.
pub struct Grid {
    pub size: Size,
    /// Where the player's marks are stored; initially free of `Filled` cells.
    pub cells: Vec<Cell>,
    /// The target clue sequences of the rows, fixed at construction.
    pub horizontal_clues_solutions: Vec<Vec<u16>>,
    /// The target clue sequences of the columns, fixed at construction.
    pub vertical_clues_solutions: Vec<Vec<u16>>,
    /// The extent of the widest row clue sequence (in screen columns) and the
    /// tallest column clue sequence (in rows); used only by layout.
    pub max_clues_size: Size,
    pub undo_redo_buffer: UndoRedoBuffer,
}

impl Grid {
    /// The structural invariant: dimensions within bounds, a buffer of
    /// matching length, one clue solution per line, and a history whose
    /// operations fit this grid.
    pub open spec fn wf(self) -> bool {
        &&& 1 <= self.size.width <= 99
        &&& 1 <= self.size.height <= 99
        &&& self.cells@.len() == self.size.width as int * self.size.height as int
        &&& self.horizontal_clues_solutions@.len() == self.size.height as int
        &&& self.vertical_clues_solutions@.len() == self.size.width as int
        &&& self.undo_redo_buffer.wf(self.size)
    }

    /// The classification of row `y` of the current buffer.
    pub open spec fn row(self, y: int) -> Seq<bool> {
        row_bools(self.cells@, self.size.width as int, y)
    }

    /// The classification of column `x` of the current buffer.
    pub open spec fn col(self, x: int) -> Seq<bool> {
        col_bools(self.cells@, self.size.width as int, self.size.height as int, x)
    }

    /// Whether row `y`'s current clue sequence equals its target.
    pub open spec fn row_solved(self, y: int) -> bool {
        as_ints(self.horizontal_clues_solutions@[y]@) == line_clues(self.row(y))
    }

    /// Whether column `x`'s current clue sequence equals its target.
    pub open spec fn col_solved(self, x: int) -> bool {
        as_ints(self.vertical_clues_solutions@[x]@) == line_clues(self.col(x))
    }

    /// The solved predicate: every row's and every column's derived clue
    /// sequence equals the stored target sequence.
    pub open spec fn is_solved(self) -> bool {
        &&& forall|y: int| 0 <= y < self.size.height as int ==> self.row_solved(y)
        &&& forall|x: int| 0 <= x < self.size.width as int ==> self.col_solved(x)
    }

    /// Creates a new grid from the supplied picture: derives both target
    /// clue tables from it, then erases its `Filled` marks so play starts
    /// from a buffer without them, with an empty history.
    pub fn new(size: Size, cells: Vec<Cell>) -> (r: Grid)
        requires
            1 <= size.width <= 99,
            1 <= size.height <= 99,
            cells@.len() == size.width as int * size.height as int,
        ensures
            r.wf(),
            r.size == size,
            r.cells@ == cleared_of_filled(cells@),
            forall|y: int|
                0 <= y < size.height as int ==> as_ints(
                    (#[trigger] r.horizontal_clues_solutions@[y])@,
                ) == line_clues(row_bools(cells@, size.width as int, y)),
            forall|x: int|
                0 <= x < size.width as int ==> as_ints((#[trigger] r.vertical_clues_solutions@[x])@)
                    == line_clues(col_bools(cells@, size.width as int, size.height as int, x)),
            is_max_clues_width(r.horizontal_clues_solutions@, r.max_clues_size.width as int),
            is_max_clues_height(r.vertical_clues_solutions@, r.max_clues_size.height as int),
            r.undo_redo_buffer.buffer@.len() == 0,
            r.undo_redo_buffer.index == 0,
    {
        let mut cells = cells;
        let mut horizontal_clues_solutions: Vec<Vec<u16>> = Vec::new();
        let mut y: u16 = 0;
        while y < size.height
            invariant
                y <= size.height,
                1 <= size.width <= 99,
                1 <= size.height <= 99,
                cells@.len() == size.width as int * size.height as int,
                horizontal_clues_solutions@.len() == y as int,
                forall|j: int|
                    0 <= j < y as int ==> as_ints(
                        (#[trigger] horizontal_clues_solutions@[j])@,
                    ) == line_clues(row_bools(cells@, size.width as int, j)),
                forall|j: int|
                    0 <= j < y as int ==> (#[trigger] horizontal_clues_solutions@[j])@.len()
                        <= size.width as int,
            decreases size.height - y,
        {
            proof {
                lemma_index_bounds(size.width as int, size.height as int, 0, y as int);
            }
            let clues = get_horizontal_clues(&cells, size.width, y);
            horizontal_clues_solutions.push(clues);
            y += 1;
        }

        let mut max_clues_width: u16 = 0;
        let mut j: usize = 0;
        while j < horizontal_clues_solutions.len()
            invariant
                j <= horizontal_clues_solutions@.len(),
                forall|k: int|
                    0 <= k < horizontal_clues_solutions@.len() ==> (
                    #[trigger] horizontal_clues_solutions@[k])@.len() <= 99,
                forall|k: int|
                    0 <= k < j as int ==> 2 * (#[trigger] horizontal_clues_solutions@[k])@.len()
                        <= max_clues_width as int,
                j == 0 ==> max_clues_width == 0,
                j > 0 ==> exists|k: int|
                    0 <= k < j as int && 2 * (#[trigger] horizontal_clues_solutions@[k])@.len()
                        == max_clues_width as int,
            decreases horizontal_clues_solutions@.len() - j,
        {
            let len2 = (horizontal_clues_solutions[j].len() as u16) * 2;
            if len2 > max_clues_width || j == 0 {
                max_clues_width = len2;
            }
            j += 1;
        }

        let mut vertical_clues_solutions: Vec<Vec<u16>> = Vec::new();
        let mut x: u16 = 0;
        while x < size.width
            invariant
                x <= size.width,
                1 <= size.width <= 99,
                1 <= size.height <= 99,
                cells@.len() == size.width as int * size.height as int,
                vertical_clues_solutions@.len() == x as int,
                forall|j: int|
                    0 <= j < x as int ==> as_ints((#[trigger] vertical_clues_solutions@[j])@)
                        == line_clues(
                        col_bools(cells@, size.width as int, size.height as int, j),
                    ),
                forall|j: int|
                    0 <= j < x as int ==> (#[trigger] vertical_clues_solutions@[j])@.len()
                        <= size.height as int,
            decreases size.width - x,
        {
            let clues = get_vertical_clues(&cells, size, x);
            vertical_clues_solutions.push(clues);
            x += 1;
        }

        let mut max_clues_height: u16 = 0;
        let mut j: usize = 0;
        while j < vertical_clues_solutions.len()
            invariant
                j <= vertical_clues_solutions@.len(),
                forall|k: int|
                    0 <= k < vertical_clues_solutions@.len() ==> (
                    #[trigger] vertical_clues_solutions@[k])@.len() <= 99,
                forall|k: int|
                    0 <= k < j as int ==> (#[trigger] vertical_clues_solutions@[k])@.len()
                        <= max_clues_height as int,
                j == 0 ==> max_clues_height == 0,
                j > 0 ==> exists|k: int|
                    0 <= k < j as int && (#[trigger] vertical_clues_solutions@[k])@.len()
                        == max_clues_height as int,
            decreases vertical_clues_solutions@.len() - j,
        {
            let len = vertical_clues_solutions[j].len() as u16;
            if len > max_clues_height || j == 0 {
                max_clues_height = len;
            }
            j += 1;
        }

        let ghost picture = cells@;
        let mut i: usize = 0;
        while i < cells.len()
            invariant
                i <= cells@.len(),
                cells@.len() == picture.len(),
                forall|k: int|
                    0 <= k < i as int ==> cells@[k] == (if picture[k] is Filled {
                        Cell::Empty
                    } else {
                        picture[k]
                    }),
                forall|k: int| i as int <= k < cells@.len() ==> cells@[k] == picture[k],
            decreases cells@.len() - i,
        {
            if cells[i] == Cell::Filled {
                cells.set(i, Cell::Empty);
            }
            i += 1;
        }
        proof {
            assert(cells@ =~= cleared_of_filled(picture));
        }

        let max_clues_size = Size { width: max_clues_width, height: max_clues_height };
        let undo_redo_buffer = UndoRedoBuffer::default();

        Grid {
            size,
            cells,
            horizontal_clues_solutions,
            vertical_clues_solutions,
            max_clues_size,
            undo_redo_buffer,
        }
    }

    /// The cell at `point`.
    pub fn get_cell(&self, point: Point) -> (r: Cell)
        requires
            self.wf(),
            crate::undo_redo_buffer::point_in_bounds(point, self.size),
        ensures
            r == self.cells@[point.y as int * self.size.width as int + point.x as int],
    {
        proof {
            lemma_index_bounds(
                self.size.width as int,
                self.size.height as int,
                point.x as int,
                point.y as int,
            );
        }
        let index = get_index(self.size.width, point);
        self.cells[index]
    }

    /// Overwrites the cell at `point`; the rest of the grid is untouched.
    pub fn set_cell(&mut self, point: Point, cell: Cell)
        requires
            old(self).wf(),
            crate::undo_redo_buffer::point_in_bounds(point, old(self).size),
        ensures
            final(self).cells@ == old(self).cells@.update(
                point.y as int * old(self).size.width as int + point.x as int,
                cell,
            ),
            final(self).size == old(self).size,
            final(self).horizontal_clues_solutions == old(self).horizontal_clues_solutions,
            final(self).vertical_clues_solutions == old(self).vertical_clues_solutions,
            final(self).max_clues_size == old(self).max_clues_size,
            final(self).undo_redo_buffer == old(self).undo_redo_buffer,
            final(self).wf(),
    {
        proof {
            lemma_index_bounds(
                self.size.width as int,
                self.size.height as int,
                point.x as int,
                point.y as int,
            );
        }
        let index = get_index(self.size.width, point);
        self.cells.set(index, cell);
    }

    /// The current clue sequence of row `y`.
    pub fn get_horizontal_clues(&self, y: u16) -> (r: Vec<u16>)
        requires
            self.wf(),
            y < self.size.height,
        ensures
            as_ints(r@) == line_clues(self.row(y as int)),
            r@.len() <= self.size.width,
    {
        proof {
            lemma_index_bounds(self.size.width as int, self.size.height as int, 0, y as int);
        }
        get_horizontal_clues(&self.cells, self.size.width, y)
    }

    /// The current clue sequence of column `x`.
    pub fn get_vertical_clues(&self, x: u16) -> (r: Vec<u16>)
        requires
            self.wf(),
            x < self.size.width,
        ensures
            as_ints(r@) == line_clues(self.col(x as int)),
            r@.len() <= self.size.height,
    {
        get_vertical_clues(&self.cells, self.size, x)
    }

    /// Resets every cell to `Empty` without touching the history or the clue
    /// solution tables.
    pub fn clear(&mut self)
        ensures
            final(self).cells@ == Seq::new(old(self).cells@.len(), |i: int| Cell::Empty),
            final(self).size == old(self).size,
            final(self).horizontal_clues_solutions == old(self).horizontal_clues_solutions,
            final(self).vertical_clues_solutions == old(self).vertical_clues_solutions,
            final(self).max_clues_size == old(self).max_clues_size,
            final(self).undo_redo_buffer == old(self).undo_redo_buffer,
    {
        let mut i: usize = 0;
        let n = self.cells.len();
        while i < n
            invariant
                i <= n,
                self.cells@.len() == n,
                n == old(self).cells@.len(),
                forall|k: int| 0 <= k < i as int ==> self.cells@[k] == Cell::Empty,
                forall|k: int| i as int <= k < n ==> self.cells@[k] == old(self).cells@[k],
                self.size == old(self).size,
                self.horizontal_clues_solutions == old(self).horizontal_clues_solutions,
                self.vertical_clues_solutions == old(self).vertical_clues_solutions,
                self.max_clues_size == old(self).max_clues_size,
                self.undo_redo_buffer == old(self).undo_redo_buffer,
            decreases n - i,
        {
            self.cells.set(i, Cell::Empty);
            i += 1;
        }
        proof {
            assert(final(self).cells@ =~= Seq::new(old(self).cells@.len(), |i: int| Cell::Empty));
        }
    }
}

/// Constructing a grid from a picture and then reproducing exactly that
/// picture's filled cells solves it: every row's and column's derived clue
/// sequence equals the stored target sequence.
pub proof fn lemma_matching_picture_is_solved(g: Grid, picture: Seq<Cell>)
    requires
        g.wf(),
        picture.len() == g.cells@.len(),
        forall|y: int|
            0 <= y < g.size.height as int ==> as_ints(
                (#[trigger] g.horizontal_clues_solutions@[y])@,
            ) == line_clues(row_bools(picture, g.size.width as int, y)),
        forall|x: int|
            0 <= x < g.size.width as int ==> as_ints((#[trigger] g.vertical_clues_solutions@[x])@)
                == line_clues(
                col_bools(picture, g.size.width as int, g.size.height as int, x),
            ),
        forall|i: int|
            0 <= i < picture.len() ==> ((#[trigger] g.cells@[i]) is Filled) == (
            picture[i] is Filled),
    ensures
        g.is_solved(),
{
    let w = g.size.width as int;
    let h = g.size.height as int;
    assert forall|y: int| 0 <= y < h implies g.row_solved(y) by {
        assert forall|x: int| 0 <= x < w implies row_bools(g.cells@, w, y)[x] == row_bools(
            picture,
            w,
            y,
        )[x] by {
            lemma_index_bounds(w, h, x, y);
        }
        assert(row_bools(g.cells@, w, y) =~= row_bools(picture, w, y));
    }
    assert forall|x: int| 0 <= x < w implies g.col_solved(x) by {
        assert forall|y: int| 0 <= y < h implies col_bools(g.cells@, w, h, x)[y] == col_bools(
            picture,
            w,
            h,
            x,
        )[y] by {
            lemma_index_bounds(w, h, x, y);
        }
        assert(col_bools(g.cells@, w, h, x) =~= col_bools(picture, w, h, x));
    }
}

/// Changing any single cell's filled status away from the picture the grid
/// was constructed from leaves the grid unsolved: that cell's row has a
/// different clue sequence than the stored target.
pub proof fn lemma_single_change_unsolves(g: Grid, picture: Seq<Cell>, x0: int, y0: int)
    requires
        g.wf(),
        picture.len() == g.cells@.len(),
        0 <= x0 < g.size.width as int,
        0 <= y0 < g.size.height as int,
        forall|y: int|
            0 <= y < g.size.height as int ==> as_ints(
                (#[trigger] g.horizontal_clues_solutions@[y])@,
            ) == line_clues(row_bools(picture, g.size.width as int, y)),
        ((g.cells@[y0 * g.size.width as int + x0]) is Filled) != ((picture[y0 * g.size.width as int
            + x0]) is Filled),
        forall|i: int|
            0 <= i < picture.len() && i != y0 * g.size.width as int + x0 ==> ((
            #[trigger] g.cells@[i]) is Filled) == (picture[i] is Filled),
    ensures
        !g.is_solved(),
{
    let w = g.size.width as int;
    let h = g.size.height as int;
    let r1 = row_bools(g.cells@, w, y0);
    let r2 = row_bools(picture, w, y0);
    assert forall|x: int| 0 <= x < w && x != x0 implies r1[x] == r2[x] by {
        lemma_index_bounds(w, h, x, y0);
        assert(y0 * w + x != y0 * w + x0);
    }
    lemma_index_bounds(w, h, x0, y0);
    assert(r1[x0] != r2[x0]);
    lemma_single_flip_changes_clues(r1, r2, x0);
    assert(!g.row_solved(y0));
}

} // verus!\n