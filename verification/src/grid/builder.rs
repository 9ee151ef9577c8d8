//! Builds and draws the grid to the screen.

use super::{as_ints, line_clues, Cell, Grid};
use crate::terminal::util::{Color, Point};
use crate::terminal::{queue_extended, Terminal};
use crate::undo_redo_buffer::point_in_bounds;
use vstd::prelude::*;

verus! {

broadcast use
    crate::terminal::lemma_queue_pushed_extended,
    crate::terminal::lemma_queue_wrote_extended,
    crate::terminal::lemma_queue_extended_trans;

/// Gets a point to the first cell of the grid which is, together with its
/// clues, centered on the screen.
pub fn centered_point(terminal: &Terminal, grid: &Grid) -> (r: Point)
    requires
        terminal.size.width / 2 >= grid.size.width,
        terminal.size.height / 2 >= grid.size.height / 2,
    ensures
        r.x == terminal.size.width / 2 - grid.size.width + grid.max_clues_size.width / 2,
        r.y == terminal.size.height / 2 - grid.size.height / 2 + grid.max_clues_size.height / 2,
{
    let grid_width_half = grid.size.width;  // No division because blocks are 2 characters
    let grid_height_half = grid.size.height / 2;

    let max_clues_width_half = grid.max_clues_size.width / 2;
    let max_clues_height_half = grid.max_clues_size.height / 2;

    Point {
        x: terminal.size.width / 2 - grid_width_half + max_clues_width_half,
        y: terminal.size.height / 2 - grid_height_half + max_clues_height_half,
    }
}

/// How many of the first `upto` columns currently show their target clues.
pub open spec fn num_solved_cols(g: Grid, upto: int) -> int
    decreases upto,
{
    if upto <= 0 {
        0
    } else {
        num_solved_cols(g, upto - 1) + if g.col_solved(upto - 1) {
            1int
        } else {
            0int
        }
    }
}

/// How many of the first `upto` rows currently show their target clues.
pub open spec fn num_solved_rows(g: Grid, upto: int) -> int
    decreases upto,
{
    if upto <= 0 {
        0
    } else {
        num_solved_rows(g, upto - 1) + if g.row_solved(upto - 1) {
            1int
        } else {
            0int
        }
    }
}

/// The solved-column count is bounded by the column count and reaches it
/// exactly when every column is solved.
pub proof fn lemma_num_solved_cols_bounds(g: Grid, upto: int)
    requires
        upto >= 0,
    ensures
        0 <= num_solved_cols(g, upto) <= upto,
        (num_solved_cols(g, upto) == upto) <==> (forall|x: int| 0 <= x < upto ==> g.col_solved(x)),
    decreases upto,
{
    if upto > 0 {
        lemma_num_solved_cols_bounds(g, upto - 1);
    }
}

/// The solved-row count is bounded by the row count and reaches it exactly
/// when every row is solved.
pub proof fn lemma_num_solved_rows_bounds(g: Grid, upto: int)
    requires
        upto >= 0,
    ensures
        0 <= num_solved_rows(g, upto) <= upto,
        (num_solved_rows(g, upto) == upto) <==> (forall|y: int| 0 <= y < upto ==> g.row_solved(y)),
    decreases upto,
{
    if upto > 0 {
        lemma_num_solved_rows_bounds(g, upto - 1);
    }
}

/// Widening clue values to integers loses nothing: two stored clue
/// sequences are equal exactly when their widened forms are.
pub proof fn lemma_as_ints_eq(a: Seq<u16>, b: Seq<u16>)
    ensures
        (as_ints(a) == as_ints(b)) <==> (a == b),
{
    if as_ints(a) == as_ints(b) {
        assert(a.len() == as_ints(a).len());
        assert(b.len() == as_ints(b).len());
        assert forall|i: int| 0 <= i < a.len() implies a[i] == b[i] by {
            assert(as_ints(a)[i] == a[i] as int);
            assert(as_ints(b)[i] == b[i] as int);
        }
        assert(a =~= b);
    }
}

/// Compares two stored clue sequences element for element.
fn clues_equal(a: &Vec<u16>, b: &Vec<u16>) -> (r: bool)
    ensures
        r == (a@ == b@),
{
    if a.len() != b.len() {
        proof {
            assert(a@ != b@);
        }
        return false;
    }
    let mut i: usize = 0;
    while i < a.len()
        invariant
            a@.len() == b@.len(),
            i <= a@.len(),
            forall|j: int| 0 <= j < i as int ==> a@[j] == b@[j],
        decreases a@.len() - i,
    {
        if a[i] != b[i] {
            return false;
        }
        i += 1;
    }
    proof {
        assert(a@ =~= b@);
    }
    true
}

/// Builds and draws the grid to the screen.
pub struct Builder {
    pub grid: Grid,
    /// The screen point of the grid's top left cell.
    pub point: Point,
}

impl Builder {
    /// The grid and its surroundings fit on the screen at this position:
    /// drawing never leaves the coordinate space. The column clue stacks
    /// must fit above the grid and the picture to its upper left.
    pub open spec fn fits(self) -> bool {
        &&& self.grid.wf()
        &&& self.point.x >= 2
        &&& self.point.x >= self.grid.size.width
        &&& self.point.y >= self.grid.size.height as int / 2 + 1
        &&& self.point.x + 2 * self.grid.size.width as int <= 0xffff
        &&& self.point.y + self.grid.size.height as int + 1 <= 0xffff
        &&& forall|x: int|
            0 <= x < self.grid.vertical_clues_solutions@.len() ==> (
            #[trigger] self.grid.vertical_clues_solutions@[x])@.len() <= self.point.y
    }

    /// A builder for the grid, centered on the terminal.
    pub fn new(terminal: &Terminal, grid: Grid) -> (r: Builder)
        requires
            terminal.size.width / 2 >= grid.size.width,
            terminal.size.height / 2 >= grid.size.height / 2,
        ensures
            r.grid == grid,
            r.point.x == terminal.size.width / 2 - grid.size.width + grid.max_clues_size.width / 2,
            r.point.y == terminal.size.height / 2 - grid.size.height / 2
                + grid.max_clues_size.height / 2,
    {
        let point = centered_point(terminal, &grid);
        Builder { grid, point }
    }

    /// Whether the screen point lies within the grid as drawn.
    pub fn contains(&self, point: Point) -> (r: bool)
        requires
            self.point.x + 2 * self.grid.size.width as int <= 0xffff,
            self.point.y + self.grid.size.height as int <= 0xffff,
        ensures
            r == (self.point.y <= point.y < self.point.y + self.grid.size.height
                && self.point.x <= point.x < self.point.x + 2 * self.grid.size.width),
    {
        (self.point.y <= point.y && point.y < self.point.y + self.grid.size.height)
            && (self.point.x <= point.x && point.x < self.point.x + self.grid.size.width * 2)
    }

    /// The screen point of the grid's center cell.
    pub fn get_center(&self) -> (r: Point)
        requires
            self.point.x + 2 * self.grid.size.width as int <= 0xffff,
            self.point.y + self.grid.size.height as int <= 0xffff,
        ensures
            r.x == self.point.x + (if self.grid.size.width % 2 == 1 {
                self.grid.size.width - 1
            } else {
                self.grid.size.width as int
            }),
            r.y == self.point.y + self.grid.size.height / 2,
    {
        let mut width = self.grid.size.width;
        if width % 2 == 1 {
            width = width - 1;
        }
        Point { x: self.point.x + width, y: self.point.y + self.grid.size.height / 2 }
    }

    /// Recomputes the target clues of the row and column through
    /// `cell_point` from the current buffer: the authoring affordance used
    /// by the editor after a single-cell change.
    pub fn rebuild_clues(&mut self, terminal: &mut Terminal, cell_point: Point)
        requires
            old(self).fits(),
            point_in_bounds(cell_point, old(self).grid.size),
        ensures
            queue_extended(*old(terminal), *final(terminal)),
            final(self).point == old(self).point,
            final(self).grid.size == old(self).grid.size,
            final(self).grid.cells == old(self).grid.cells,
            final(self).grid.max_clues_size == old(self).grid.max_clues_size,
            final(self).grid.undo_redo_buffer == old(self).grid.undo_redo_buffer,
            final(self).grid.wf(),
            final(self).grid.horizontal_clues_solutions@.len() == old(self).grid.horizontal_clues_solutions@.len(),
            final(self).grid.vertical_clues_solutions@.len() == old(self).grid.vertical_clues_solutions@.len(),
            forall|y: int|
                0 <= y < final(self).grid.horizontal_clues_solutions@.len() && y != cell_point.y as int
                    ==> (#[trigger] final(self).grid.horizontal_clues_solutions@[y]) == old(self).grid.horizontal_clues_solutions@[y],
            forall|x: int|
                0 <= x < final(self).grid.vertical_clues_solutions@.len() && x != cell_point.x as int
                    ==> (#[trigger] final(self).grid.vertical_clues_solutions@[x]) == old(self).grid.vertical_clues_solutions@[x],
            as_ints(final(self).grid.horizontal_clues_solutions@[cell_point.y as int]@)
                == line_clues(final(self).grid.row(cell_point.y as int)),
            as_ints(final(self).grid.vertical_clues_solutions@[cell_point.x as int]@) == line_clues(
                final(self).grid.col(cell_point.x as int),
            ),
            final(self).grid.horizontal_clues_solutions@[cell_point.y as int]@.len() <= final(self).grid.size.width,
            final(self).grid.vertical_clues_solutions@[cell_point.x as int]@.len() <= final(self).grid.size.height,
    {
        self.clear_clues(terminal);
        let new_row = self.grid.get_horizontal_clues(cell_point.y);
        self.grid.horizontal_clues_solutions.set(cell_point.y as usize, new_row);
        let new_col = self.grid.get_vertical_clues(cell_point.x);
        self.grid.vertical_clues_solutions.set(cell_point.x as usize, new_col);
    }

    /// Draws the column clue stacks above the grid, graying out solved ones,
    /// and returns how many columns currently show their target clues.
    fn draw_top_clues(&mut self, terminal: &mut Terminal) -> (r: usize)
        requires
            old(self).fits(),
        ensures
            *final(self) == *old(self),
            queue_extended(*old(terminal), *final(terminal)),
            r == num_solved_cols(old(self).grid, old(self).grid.size.width as int),
    {
        proof {
            crate::terminal::lemma_queue_extended_refl(*terminal);
        }
        let mut solved_rows: usize = 0;
        let mut x: u16 = 0;
        let width = self.grid.size.width;
        while x < width
            invariant
                self.fits(),
                *self == *old(self),
                width == self.grid.size.width,
                x <= width,
                solved_rows == num_solved_cols(self.grid, x as int),
                solved_rows <= x,
                queue_extended(*old(terminal), *terminal),
            decreases width - x,
        {
            let vertical_clues = self.grid.get_vertical_clues(x);
            let solved = clues_equal(&vertical_clues, &self.grid.vertical_clues_solutions[x as usize]);
            proof {
                lemma_as_ints_eq(
                    vertical_clues@,
                    self.grid.vertical_clues_solutions@[x as int]@,
                );
                assert(solved == self.grid.col_solved(x as int));
            }
            let highlighted = x % 2 == 0;
            if highlighted {
                terminal.set_background_color(Color::Byte(238));
            }
            if solved {
                terminal.set_foreground_color(Color::DarkGray);
                solved_rows += 1;
            }
            let column_x = self.point.x + 2 * x;
            let clue_count = self.grid.vertical_clues_solutions[x as usize].len();
            let mut j: usize = clue_count;
            let mut ypos: u16 = self.point.y;
            while j > 0
                invariant
                    j <= clue_count,
                    clue_count == self.grid.vertical_clues_solutions@[x as int]@.len(),
                    x < self.grid.vertical_clues_solutions@.len(),
                    clue_count <= self.point.y,
                    ypos == self.point.y - (clue_count - j),
                    queue_extended(*old(terminal), *terminal),
                decreases j,
            {
                j -= 1;
                ypos -= 1;
                terminal.set_cursor(Point { x: column_x, y: ypos });
                let clue = self.grid.vertical_clues_solutions[x as usize][j];
                let content = crate::util::decimal_string_pad_right(clue as u64);
                terminal.write(content.as_str());
            }
            terminal.reset_colors();
            x += 1;
        }
        solved_rows
    }

    /// Clears the column clue stacks, only graphically.
    fn clear_top_clues(&mut self, terminal: &mut Terminal)
        requires
            old(self).fits(),
        ensures
            *final(self) == *old(self),
            queue_extended(*old(terminal), *final(terminal)),
    {
        proof {
            crate::terminal::lemma_queue_extended_refl(*terminal);
        }
        let mut x: u16 = 0;
        let width = self.grid.size.width;
        while x < width
            invariant
                self.fits(),
                *self == *old(self),
                width == self.grid.size.width,
                x <= width,
                queue_extended(*old(terminal), *terminal),
            decreases width - x,
        {
            let column_x = self.point.x + 2 * x;
            let clue_count = self.grid.vertical_clues_solutions[x as usize].len();
            let mut j: usize = clue_count;
            let mut ypos: u16 = self.point.y;
            while j > 0
                invariant
                    j <= clue_count,
                    clue_count <= self.point.y,
                    ypos == self.point.y - (clue_count - j),
                    queue_extended(*old(terminal), *terminal),
                decreases j,
            {
                j -= 1;
                ypos -= 1;
                terminal.set_cursor(Point { x: column_x, y: ypos });
                terminal.write("  ");
            }
            x += 1;
        }
    }

    /// Draws the row clue lines left of the grid, graying out solved ones,
    /// and returns how many rows currently show their target clues.
    fn draw_left_clues(&mut self, terminal: &mut Terminal) -> (r: usize)
        requires
            old(self).fits(),
        ensures
            *final(self) == *old(self),
            queue_extended(*old(terminal), *final(terminal)),
            r == num_solved_rows(old(self).grid, old(self).grid.size.height as int),
    {
        proof {
            crate::terminal::lemma_queue_extended_refl(*terminal);
        }
        let mut solved_rows: usize = 0;
        let mut y: u16 = 0;
        let height = self.grid.size.height;
        while y < height
            invariant
                self.fits(),
                *self == *old(self),
                height == self.grid.size.height,
                y <= height,
                solved_rows == num_solved_rows(self.grid, y as int),
                solved_rows <= y,
                queue_extended(*old(terminal), *terminal),
            decreases height - y,
        {
            terminal.set_cursor(Point { x: self.point.x - 2, y: self.point.y + y });
            let horizontal_clues = self.grid.get_horizontal_clues(y);
            let solved = clues_equal(&horizontal_clues, &self.grid.horizontal_clues_solutions[y as usize]);
            proof {
                lemma_as_ints_eq(
                    horizontal_clues@,
                    self.grid.horizontal_clues_solutions@[y as int]@,
                );
                assert(solved == self.grid.row_solved(y as int));
            }
            let highlighted = y % 2 == 0;
            if highlighted {
                terminal.set_background_color(Color::Byte(238));
            }
            if solved {
                terminal.set_foreground_color(Color::DarkGray);
                solved_rows += 1;
            }
            let clue_count = self.grid.horizontal_clues_solutions[y as usize].len();
            let mut j: usize = clue_count;
            while j > 0
                invariant
                    j <= clue_count,
                    clue_count == self.grid.horizontal_clues_solutions@[y as int]@.len(),
                    y < self.grid.horizontal_clues_solutions@.len(),
                    queue_extended(*old(terminal), *terminal),
                decreases j,
            {
                j -= 1;
                let clue = self.grid.horizontal_clues_solutions[y as usize][j];
                let content = crate::util::decimal_string_pad_left(clue as u64);
                terminal.write(content.as_str());
                terminal.move_cursor_left_by(4);
            }
            terminal.reset_colors();
            y += 1;
        }
        solved_rows
    }

    /// Clears the row clue lines, only graphically.
    fn clear_left_clues(&mut self, terminal: &mut Terminal)
        requires
            old(self).fits(),
        ensures
            *final(self) == *old(self),
            queue_extended(*old(terminal), *final(terminal)),
    {
        proof {
            crate::terminal::lemma_queue_extended_refl(*terminal);
        }
        let mut y: u16 = 0;
        let height = self.grid.size.height;
        while y < height
            invariant
                self.fits(),
                *self == *old(self),
                height == self.grid.size.height,
                y <= height,
                queue_extended(*old(terminal), *terminal),
            decreases height - y,
        {
            terminal.set_cursor(Point { x: self.point.x - 2, y: self.point.y + y });
            let clue_count = self.grid.horizontal_clues_solutions[y as usize].len();
            let mut j: usize = clue_count;
            while j > 0
                invariant
                    queue_extended(*old(terminal), *terminal),
                decreases j,
            {
                j -= 1;
                terminal.write("  ");
                terminal.move_cursor_left_by(4);
            }
            terminal.reset_colors();
            y += 1;
        }
    }

    /// Draws the top and left clues and returns the number of solved lines.
    fn draw_clues(&mut self, terminal: &mut Terminal) -> (r: usize)
        requires
            old(self).fits(),
        ensures
            *final(self) == *old(self),
            queue_extended(*old(terminal), *final(terminal)),
            r == num_solved_cols(old(self).grid, old(self).grid.size.width as int)
                + num_solved_rows(old(self).grid, old(self).grid.size.height as int),
    {
        let solved_top_rows = self.draw_top_clues(terminal);
        let solved_left_rows = self.draw_left_clues(terminal);
        proof {
            lemma_num_solved_cols_bounds(self.grid, self.grid.size.width as int);
            lemma_num_solved_rows_bounds(self.grid, self.grid.size.height as int);
        }
        solved_top_rows + solved_left_rows
    }

    /// Clears all clues, only graphically.
    pub fn clear_clues(&mut self, terminal: &mut Terminal)
        requires
            old(self).fits(),
        ensures
            *final(self) == *old(self),
            queue_extended(*old(terminal), *final(terminal)),
    {
        self.clear_top_clues(terminal);
        self.clear_left_clues(terminal);
    }

    /// Draws the cell buffer.
    pub fn draw_grid(&mut self, terminal: &mut Terminal)
        requires
            old(self).fits(),
        ensures
            *final(self) == *old(self),
            queue_extended(*old(terminal), *final(terminal)),
    {
        proof {
            crate::terminal::lemma_queue_extended_refl(*terminal);
        }
        let mut y: u16 = 0;
        let height = self.grid.size.height;
        let width = self.grid.size.width;
        while y < height
            invariant
                self.fits(),
                *self == *old(self),
                height == self.grid.size.height,
                width == self.grid.size.width,
                y <= height,
                queue_extended(*old(terminal), *terminal),
            decreases height - y,
        {
            terminal.set_cursor(Point { x: self.point.x, y: self.point.y + y });
            let mut x: u16 = 0;
            while x < width
                invariant
                    self.fits(),
                    *self == *old(self),
                    height == self.grid.size.height,
                    width == self.grid.size.width,
                    y < height,
                    x <= width,
                    queue_extended(*old(terminal), *terminal),
                decreases width - x,
            {
                let point = Point { x, y };
                let cell = self.grid.get_cell(point);
                cell.draw(terminal, point, false);
                terminal.reset_colors();
                x += 1;
            }
            y += 1;
        }
    }

    /// Walks the grid area row by row, positioning the cursor at each row's
    /// start, without drawing anything.
    pub fn empty_grid(&mut self, terminal: &mut Terminal)
        requires
            old(self).fits(),
        ensures
            *final(self) == *old(self),
            queue_extended(*old(terminal), *final(terminal)),
    {
        proof {
            crate::terminal::lemma_queue_extended_refl(*terminal);
        }
        let mut y: u16 = 0;
        let height = self.grid.size.height;
        while y < height
            invariant
                self.fits(),
                *self == *old(self),
                height == self.grid.size.height,
                y <= height,
                queue_extended(*old(terminal), *terminal),
            decreases height - y,
        {
            terminal.set_cursor(Point { x: self.point.x, y: self.point.y + y });
            y += 1;
        }
    }

    /// Draws an empty grid.
    pub fn draw_empty_grid(&mut self, terminal: &mut Terminal)
        requires
            old(self).fits(),
        ensures
            *final(self) == *old(self),
            queue_extended(*old(terminal), *final(terminal)),
    {
        proof {
            crate::terminal::lemma_queue_extended_refl(*terminal);
        }
        let mut y: u16 = 0;
        let height = self.grid.size.height;
        let width = self.grid.size.width;
        while y < height
            invariant
                self.fits(),
                *self == *old(self),
                height == self.grid.size.height,
                width == self.grid.size.width,
                y <= height,
                queue_extended(*old(terminal), *terminal),
            decreases height - y,
        {
            terminal.set_cursor(Point { x: self.point.x, y: self.point.y + y });
            let mut x: u16 = 0;
            while x < width
                invariant
                    x <= width,
                    queue_extended(*old(terminal), *terminal),
                decreases width - x,
            {
                let cell = Cell::Empty;
                cell.draw(terminal, Point { x, y }, false);
                x += 1;
            }
            y += 1;
        }
    }

    /// Clears the empty grid, only graphically.
    pub fn clear_empty_grid(&mut self, terminal: &mut Terminal)
        requires
            old(self).fits(),
        ensures
            *final(self) == *old(self),
            queue_extended(*old(terminal), *final(terminal)),
    {
        proof {
            crate::terminal::lemma_queue_extended_refl(*terminal);
        }
        let mut y: u16 = 0;
        let height = self.grid.size.height;
        let width = self.grid.size.width;
        while y < height
            invariant
                self.fits(),
                *self == *old(self),
                height == self.grid.size.height,
                width == self.grid.size.width,
                y <= height,
                queue_extended(*old(terminal), *terminal),
            decreases height - y,
        {
            terminal.set_cursor(Point { x: self.point.x, y: self.point.y + y });
            let mut x: u16 = 0;
            while x < width
                invariant
                    x <= width,
                    queue_extended(*old(terminal), *terminal),
                decreases width - x,
            {
                terminal.write("  ");
                x += 1;
            }
            y += 1;
        }
    }

    /// Draws one half block, the building brick of the small picture.
    fn draw_half_block(terminal: &mut Terminal)
        ensures
            queue_extended(*old(terminal), *final(terminal)),
    {
        terminal.write("\u{2584}");
    }

    /// Draws the grid in smaller form on the top left, two rows per text
    /// line using half blocks, making the whole picture easier to see.
    pub fn draw_picture(&mut self, terminal: &mut Terminal)
        requires
            old(self).fits(),
        ensures
            *final(self) == *old(self),
            queue_extended(*old(terminal), *final(terminal)),
    {
        proof {
            crate::terminal::lemma_queue_extended_refl(*terminal);
        }
        let height = self.grid.size.height;
        let width = self.grid.size.width;
        let px = self.point.x - width;
        let mut line_y = self.point.y - height / 2 - 1;
        let mut y: u16 = 0;
        if height % 2 == 1 {
            terminal.set_cursor(Point { x: px, y: line_y });
            let mut x: u16 = 0;
            while x < width
                invariant
                    self.fits(),
                    width == self.grid.size.width,
                    height == self.grid.size.height,
                    x <= width,
                    queue_extended(*old(terminal), *terminal),
                decreases width - x,
            {
                let cell = self.grid.get_cell(Point { x, y: 0 });
                terminal.set_foreground_color(cell.get_color());
                Self::draw_half_block(terminal);
                x += 1;
            }
            y = 1;
        }
        while y + 1 < height
            invariant
                self.fits(),
                width == self.grid.size.width,
                height == self.grid.size.height,
                y <= height,
                height % 2 == 1 ==> y % 2 == 1,
                height % 2 == 0 ==> y % 2 == 0,
                line_y == self.point.y - height as int / 2 - 1 + (if height % 2 == 1 {
                    (y as int - 1) / 2
                } else {
                    y as int / 2
                }),
                queue_extended(*old(terminal), *terminal),
            decreases height - y,
        {
            line_y = line_y + 1;
            terminal.set_cursor(Point { x: px, y: line_y });
            let mut x: u16 = 0;
            while x < width
                invariant
                    self.fits(),
                    width == self.grid.size.width,
                    height == self.grid.size.height,
                    y + 1 < height,
                    x <= width,
                    queue_extended(*old(terminal), *terminal),
                decreases width - x,
            {
                let upper_cell = self.grid.get_cell(Point { x, y });
                let lower_cell = self.grid.get_cell(Point { x, y: y + 1 });
                terminal.set_background_color(upper_cell.get_color());
                terminal.set_foreground_color(lower_cell.get_color());
                Self::draw_half_block(terminal);
                x += 1;
            }
            y += 2;
        }
    }

    /// Draws the share of solved clue lines as a bar under the grid.
    fn draw_progress_bar(&mut self, terminal: &mut Terminal, solved_rows: usize)
        requires
            old(self).fits(),
            solved_rows <= old(self).grid.size.width + old(self).grid.size.height,
        ensures
            *final(self) == *old(self),
            queue_extended(*old(terminal), *final(terminal)),
    {
        proof {
            crate::terminal::lemma_queue_extended_refl(*terminal);
        }
        terminal.set_cursor(Point { x: self.point.x, y: self.point.y + self.grid.size.height });

        let grid_width: u16 = self.grid.size.width * 2;
        let lines: u16 = self.grid.size.width + self.grid.size.height;
        proof {
            assert(solved_rows as int * (grid_width as int) <= 198 * 198) by (nonlinear_arith)
                requires
                    solved_rows <= 198,
                    grid_width <= 198,
            ;
            assert(solved_rows as int * grid_width as int <= lines as int * grid_width as int)
                by (nonlinear_arith)
                requires
                    solved_rows <= lines,
                    grid_width >= 0,
            ;
            assert(solved_rows as int * grid_width as int / lines as int <= grid_width as int)
                by (nonlinear_arith)
                requires
                    lines >= 1,
                    grid_width >= 0,
                    solved_rows as int * grid_width as int <= lines as int * grid_width as int,
            ;
        }
        let bar_width: u16 = ((solved_rows as u16) * grid_width) / lines;

        terminal.set_foreground_color(Color::Gray);
        let mut i: u16 = 0;
        while i < bar_width
            invariant
                queue_extended(*old(terminal), *terminal),
            decreases bar_width - i,
        {
            Self::draw_half_block(terminal);
            i += 1;
        }

        let rest = grid_width - bar_width;
        if rest > 0 {
            terminal.set_foreground_color(Color::DarkGray);
            let mut i: u16 = 0;
            while i < rest
                invariant
                    queue_extended(*old(terminal), *terminal),
                decreases rest - i,
            {
                Self::draw_half_block(terminal);
                i += 1;
            }
        }
    }

    /// Draws the arrow marking the resize handle at the grid's lower right.
    pub fn draw_resize_arrow(&mut self, terminal: &mut Terminal)
        ensures
            *final(self) == *old(self),
            queue_extended(*old(terminal), *final(terminal)),
    {
        terminal.set_foreground_color(Color::DarkGray);
        terminal.write(" \u{2198}");
    }

    /// Draws the picture, the grid, the clues and the progress bar, and
    /// reports whether every drawn clue line was solved — that is, whether
    /// the grid is solved.
    pub fn draw_all(&mut self, terminal: &mut Terminal) -> (r: bool)
        requires
            old(self).fits(),
        ensures
            *final(self) == *old(self),
            queue_extended(*old(terminal), *final(terminal)),
            r == old(self).grid.is_solved(),
    {
        self.draw_picture(terminal);
        self.draw_grid(terminal);
        let solved_rows = self.draw_clues(terminal);
        proof {
            lemma_num_solved_cols_bounds(self.grid, self.grid.size.width as int);
            lemma_num_solved_rows_bounds(self.grid, self.grid.size.height as int);
        }
        self.draw_progress_bar(terminal, solved_rows);
        self.draw_resize_arrow(terminal);
        let all = self.grid.size.width as usize + self.grid.size.height as usize;
        solved_rows == all
    }
}

} // verus!
