//! The atomic cell mark, its classification rules, and cell placement.

use crate::event::State;
use crate::grid::builder::Builder;
use crate::grid::tools::fill::{fill_spec, pidx};
use crate::grid::Grid;
use crate::terminal::util::{Color, Point};
use crate::terminal::{queue_extended, Terminal};
use crate::undo_redo_buffer::{point_in_bounds, Operation};
use vstd::prelude::*;

verus! {

broadcast use
    crate::terminal::lemma_queue_pushed_extended,
    crate::terminal::lemma_queue_wrote_extended,
    crate::terminal::lemma_queue_extended_trans;

/// One cell of the grid.
///
/// Only `Filled` counts toward clue satisfaction; every other variant is
/// "not filled" for clue purposes. Cells compare by full structural equality:
/// two `Measured` cells with different ordinals are not equal (flood fill
/// alone treats any two `Measured` cells as compatible).
#[derive(Clone, Copy, Debug)]
pub enum Cell {
    /// An unmarked cell.
    Empty,
    /// A cell the player marked as filled.
    Filled,
    /// A cell that may be filled; useful for "what if" reasoning.
    Maybed,
    /// A cell that is certainly empty.
    Crossed,
    /// A cell touched by the measurement tool. The ordinal is the cell's
    /// 1-based position along the measured line; it is not preserved when a
    /// grid is saved.
    Measured(Option<usize>),
}

impl PartialEq for Cell {
    fn eq(&self, other: &Cell) -> (r: bool) {
        match (*self, *other) {
            (Cell::Empty, Cell::Empty) => true,
            (Cell::Filled, Cell::Filled) => true,
            (Cell::Maybed, Cell::Maybed) => true,
            (Cell::Crossed, Cell::Crossed) => true,
            (Cell::Measured(a), Cell::Measured(b)) => match (a, b) {
                (None, None) => true,
                (Some(x), Some(y)) => x == y,
                _ => false,
            },
            _ => false,
        }
    }
}

impl Eq for Cell {

}

impl vstd::std_specs::cmp::PartialEqSpecImpl for Cell {
    open spec fn obeys_eq_spec() -> bool {
        true
    }

    open spec fn eq_spec(&self, other: &Cell) -> bool {
        *self == *other
    }
}

impl Default for Cell {
    /// A fresh cell is unmarked.
    fn default() -> (r: Cell)
        ensures
            r == Cell::Empty,
    {
        Cell::Empty
    }
}

/// The color each cell mark is drawn with.
pub open spec fn cell_color(c: Cell) -> Color {
    match c {
        Cell::Empty => Color::Black,
        Cell::Filled => Color::White,
        Cell::Maybed => Color::Blue,
        Cell::Crossed => Color::Red,
        Cell::Measured(_) => Color::Green,
    }
}

/// The color each cell mark is drawn with while hovered.
pub open spec fn cell_highlighted_color(c: Cell) -> Color {
    match c {
        Cell::Empty => Color::DarkGray,
        Cell::Filled => Color::Gray,
        Cell::Maybed => Color::DarkBlue,
        Cell::Crossed => Color::DarkRed,
        Cell::Measured(_) => Color::DarkGreen,
    }
}

/// The background shade of an empty cell: every five cells the shade
/// alternates, checkerboard-fashion, and highlighting darkens it.
pub open spec fn empty_cell_shade(point: Point, highlight: bool) -> u8 {
    let base: u8 = if ((point.x / 5) % 2 == 0) != ((point.y / 5) % 2 == 0) {
        238
    } else {
        240
    };
    if highlight {
        (base - 3) as u8
    } else {
        base
    }
}

/// What drawing one cell appends to the terminal: the cell's color (its
/// highlighted color while hovered) as background — checkerboard shades for
/// empty cells — then one two-character block, which for a measured ordinal
/// is the right-aligned number on a black foreground.
pub open spec fn cell_draw_effect(
    c: Cell,
    t1: Terminal,
    t2: Terminal,
    point: Point,
    highlight: bool,
) -> bool {
    let appended = t2.commands@.skip(t1.commands@.len() as int);
    let background = if highlight {
        cell_highlighted_color(c)
    } else {
        cell_color(c)
    };
    &&& t2.commands@.take(t1.commands@.len() as int) == t1.commands@
    &&& t2.commands@.len() >= t1.commands@.len()
    &&& t2.size == t1.size
    &&& t2.initialized == t1.initialized
    &&& t2.with_mouse == t1.with_mouse
    &&& match c {
        Cell::Empty => {
            &&& appended.len() == 2
            &&& appended[0] == crate::terminal::TerminalCommand::SetBackgroundColor(
                Color::Byte(empty_cell_shade(point, highlight)),
            )
            &&& (appended[1] matches crate::terminal::TerminalCommand::Write(s) && s@ == "  "@)
        },
        Cell::Measured(Some(ordinal)) => {
            &&& appended.len() == 3
            &&& appended[0] == crate::terminal::TerminalCommand::SetBackgroundColor(background)
            &&& appended[1] == crate::terminal::TerminalCommand::SetForegroundColor(Color::Black)
            &&& (appended[2] matches crate::terminal::TerminalCommand::Write(s) && s@
                == crate::util::decimal_pad_left(ordinal as nat))
        },
        _ => {
            &&& appended.len() == 2
            &&& appended[0] == crate::terminal::TerminalCommand::SetBackgroundColor(background)
            &&& (appended[1] matches crate::terminal::TerminalCommand::Write(s) && s@ == "  "@)
        },
    }
}

impl Cell {
    /// The color this cell is drawn with.
    pub fn get_color(&self) -> (r: Color)
        ensures
            r == cell_color(*self),
    {
        match *self {
            Cell::Empty => Color::Black,
            Cell::Filled => Color::White,
            Cell::Maybed => Color::Blue,
            Cell::Crossed => Color::Red,
            Cell::Measured(_) => Color::Green,
        }
    }

    /// The color this cell is drawn with while hovered.
    pub fn get_highlighted_color(&self) -> (r: Color)
        ensures
            r == cell_highlighted_color(*self),
    {
        match *self {
            Cell::Empty => Color::DarkGray,
            Cell::Filled => Color::Gray,
            Cell::Maybed => Color::DarkBlue,
            Cell::Crossed => Color::DarkRed,
            Cell::Measured(_) => Color::DarkGreen,
        }
    }

    /// Draws this cell as a two-character block at the cursor: its color as
    /// background, and a measured cell's ordinal as text. Empty cells use
    /// alternating background shades every five cells so the grid is easier
    /// to look at.
    pub fn draw(&self, terminal: &mut Terminal, point: Point, highlight: bool)
        ensures
            queue_extended(*old(terminal), *final(terminal)),
            cell_draw_effect(*self, *old(terminal), *final(terminal), point, highlight),
    {
        let ghost len1 = terminal.commands@.len() as int;
        let background_color = if highlight {
            self.get_highlighted_color()
        } else {
            self.get_color()
        };
        match *self {
            Cell::Empty => {
                let x_reached_point = (point.x / 5) % 2 == 0;
                let y_reached_point = (point.y / 5) % 2 == 0;
                let mut background_color_byte: u8 = if x_reached_point != y_reached_point {
                    238
                } else {
                    240
                };
                if highlight {
                    background_color_byte = background_color_byte - 3;
                }
                terminal.set_background_color(Color::Byte(background_color_byte));
                let ghost mid = terminal.commands@;
                terminal.write("  ");
                proof {
                    assert(background_color_byte == empty_cell_shade(point, highlight));
                    assert(mid[len1] == crate::terminal::TerminalCommand::SetBackgroundColor(
                        Color::Byte(background_color_byte),
                    ));
                    assert(terminal.commands@[len1] == terminal.commands@.take(len1 + 1)[len1]);
                    assert(terminal.commands@[len1] == mid[len1]);
                    assert(terminal.commands@[len1 + 1]
                        matches crate::terminal::TerminalCommand::Write(s) && s@ == "  "@);
                }
            },
            Cell::Measured(index) => {
                terminal.set_background_color(background_color);
                match index {
                    Some(index) => {
                        let ghost mid1 = terminal.commands@;
                        terminal.set_foreground_color(Color::Black);
                        let ghost mid2 = terminal.commands@;
                        let content = crate::util::decimal_string_pad_left(index as u64);
                        terminal.write(content.as_str());
                        proof {
                            assert(mid1[len1]
                                == crate::terminal::TerminalCommand::SetBackgroundColor(
                                background_color,
                            ));
                            assert(mid2[len1] == mid1[len1]);
                            assert(mid2[len1 + 1]
                                == crate::terminal::TerminalCommand::SetForegroundColor(
                                Color::Black,
                            ));
                            assert(terminal.commands@[len1] == terminal.commands@.take(
                                len1 + 2,
                            )[len1]);
                            assert(terminal.commands@[len1 + 1] == terminal.commands@.take(
                                len1 + 2,
                            )[len1 + 1]);
                            assert(terminal.commands@[len1] == mid2[len1]);
                            assert(terminal.commands@[len1 + 1] == mid2[len1 + 1]);
                            assert(terminal.commands@[len1 + 2]
                                matches crate::terminal::TerminalCommand::Write(s) && s@
                                == crate::util::decimal_pad_left(index as nat));
                        }
                    },
                    None => {
                        let ghost mid = terminal.commands@;
                        terminal.write("  ");
                        proof {
                            assert(mid[len1]
                                == crate::terminal::TerminalCommand::SetBackgroundColor(
                                background_color,
                            ));
                            assert(terminal.commands@[len1] == terminal.commands@.take(
                                len1 + 1,
                            )[len1]);
                            assert(terminal.commands@[len1] == mid[len1]);
                            assert(terminal.commands@[len1 + 1]
                                matches crate::terminal::TerminalCommand::Write(s) && s@
                                == "  "@);
                        }
                    },
                }
            },
            _ => {
                terminal.set_background_color(background_color);
                let ghost mid = terminal.commands@;
                terminal.write("  ");
                proof {
                    assert(mid[len1] == crate::terminal::TerminalCommand::SetBackgroundColor(
                        background_color,
                    ));
                    assert(terminal.commands@[len1] == terminal.commands@.take(len1 + 1)[len1]);
                    assert(terminal.commands@[len1] == mid[len1]);
                    assert(terminal.commands@[len1 + 1]
                        matches crate::terminal::TerminalCommand::Write(s) && s@ == "  "@);
                }
            },
        }
        proof {
            assert(terminal.commands@.take(len1) =~= old(terminal).commands@);
            if terminal.commands@.len() == len1 + 2 {
                assert(terminal.commands@.skip(len1) =~= seq![
                    terminal.commands@[len1],
                    terminal.commands@[len1 + 1],
                ]);
            }
            if terminal.commands@.len() == len1 + 3 {
                assert(terminal.commands@.skip(len1) =~= seq![
                    terminal.commands@[len1],
                    terminal.commands@[len1 + 1],
                    terminal.commands@[len1 + 2],
                ]);
            }
        }
    }
}

/// The grid cell a screen cursor point falls on: each cell is two screen
/// columns wide and one row tall.
pub open spec fn cursor_to_cell(builder_point: Point, cursor_point: Point) -> Point {
    Point {
        x: ((cursor_point.x - builder_point.x) / 2) as u16,
        y: (cursor_point.y - builder_point.y) as u16,
    }
}

/// Translates a screen point within the drawn grid to grid coordinates.
pub fn get_cell_point_from_cursor_point(cursor_point: Point, builder: &Builder) -> (r: Point)
    requires
        builder.point.x <= cursor_point.x < builder.point.x + 2 * builder.grid.size.width,
        builder.point.y <= cursor_point.y < builder.point.y + builder.grid.size.height,
    ensures
        r == cursor_to_cell(builder.point, cursor_point),
        point_in_bounds(r, builder.grid.size),
{
    Point {
        x: (cursor_point.x - builder.point.x) / 2,
        y: cursor_point.y - builder.point.y,
    }
}

/// Redraws the cell under one cursor point in its highlighted color.
fn highlight_cell(terminal: &mut Terminal, cursor_point: Point, builder: &Builder)
    requires
        builder.fits(),
        builder.point.x <= cursor_point.x < builder.point.x + 2 * builder.grid.size.width,
        builder.point.y <= cursor_point.y < builder.point.y + builder.grid.size.height,
    ensures
        queue_extended(*old(terminal), *final(terminal)),
{
    let mut cursor_point = cursor_point;
    if (cursor_point.x - builder.point.x) % 2 != 0 {
        cursor_point.x = cursor_point.x - 1;
    }
    terminal.set_cursor(cursor_point);
    let cell_point = get_cell_point_from_cursor_point(cursor_point, builder);
    let cell = builder.grid.get_cell(cell_point);
    cell.draw(terminal, cell_point, true);
}

/// Highlights the hovered cell's whole row and column, leaving the hovered
/// cell itself untouched.
pub fn draw_highlighted_cells(terminal: &mut Terminal, builder: &Builder, hovered_cell_point: Point)
    requires
        builder.fits(),
        builder.point.x <= hovered_cell_point.x < builder.point.x + 2 * builder.grid.size.width,
        builder.point.y <= hovered_cell_point.y < builder.point.y + builder.grid.size.height,
    ensures
        queue_extended(*old(terminal), *final(terminal)),
{
    proof {
        crate::terminal::lemma_queue_extended_refl(*terminal);
    }
    let row_end = builder.point.x + builder.grid.size.width * 2;
    let col_end = builder.point.y + builder.grid.size.height;

    // From the left of the grid to the pointer.
    let mut x = builder.point.x;
    while x <= hovered_cell_point.x - 2
        invariant
            builder.fits(),
            builder.point.y <= hovered_cell_point.y < builder.point.y + builder.grid.size.height,
            builder.point.x <= hovered_cell_point.x < builder.point.x + 2
                * builder.grid.size.width,
            builder.point.x <= x <= hovered_cell_point.x,
            queue_extended(*old(terminal), *terminal),
        decreases hovered_cell_point.x - x,
    {
        highlight_cell(terminal, Point { x, y: hovered_cell_point.y }, builder);
        x += 1;
    }
    // From the pointer to the right of the grid.
    if hovered_cell_point.x < row_end - 2 {
        let mut x = hovered_cell_point.x + 2;
        while x < row_end
            invariant
                builder.fits(),
                builder.point.y <= hovered_cell_point.y < builder.point.y
                    + builder.grid.size.height,
                row_end == builder.point.x + 2 * builder.grid.size.width,
                builder.point.x <= x,
                queue_extended(*old(terminal), *terminal),
            decreases row_end - x,
    {
            highlight_cell(terminal, Point { x, y: hovered_cell_point.y }, builder);
            x += 1;
        }
    }
    // From the top of the grid to the pointer.
    let mut y = builder.point.y;
    while y < hovered_cell_point.y
        invariant
            builder.fits(),
            builder.point.x <= hovered_cell_point.x < builder.point.x + 2
                * builder.grid.size.width,
            hovered_cell_point.y < builder.point.y + builder.grid.size.height,
            builder.point.y <= y,
            queue_extended(*old(terminal), *terminal),
        decreases hovered_cell_point.y - y,
    {
        highlight_cell(terminal, Point { x: hovered_cell_point.x, y }, builder);
        y += 1;
    }
    // From the pointer to the bottom of the grid.
    if hovered_cell_point.y < col_end - 1 {
        let mut y = hovered_cell_point.y + 1;
        while y < col_end
            invariant
                builder.fits(),
                builder.point.x <= hovered_cell_point.x < builder.point.x + 2
                    * builder.grid.size.width,
                col_end == builder.point.y + builder.grid.size.height,
                builder.point.y <= y,
                queue_extended(*old(terminal), *terminal),
            decreases col_end - y,
        {
            highlight_cell(terminal, Point { x: hovered_cell_point.x, y }, builder);
            y += 1;
        }
    }

    terminal.reset_colors();
}

/// The in-progress state of placing cells with the mouse or keyboard.
pub struct CellPlacement {
    /// The cell value being dragged across the grid, if a drag is under way.
    pub cell: Option<Cell>,
    /// The timestamp in milliseconds of when the first cell was placed.
    pub starting_time: Option<u64>,
    pub selected_cell_point: Option<Point>,
    pub measurement_point: Option<Point>,
    /// Whether the next placement runs the flood-fill tool.
    pub fill: bool,
}

impl Default for CellPlacement {
    /// No drag, no timer, nothing selected.
    fn default() -> (r: CellPlacement)
        ensures
            r.cell is None,
            r.starting_time is None,
            r.selected_cell_point is None,
            r.measurement_point is None,
            !r.fill,
    {
        CellPlacement {
            cell: None,
            starting_time: None,
            selected_cell_point: None,
            measurement_point: None,
            fill: false,
        }
    }
}

/// The grid after one single-cell placement: the cell at `cp` is set to
/// `placed` and the operation is logged at the history cursor, discarding
/// any undone tail.
pub open spec fn set_cell_effect(g1: Grid, g2: Grid, cp: Point, placed: Cell) -> bool {
    &&& g2.size == g1.size
    &&& g2.max_clues_size == g1.max_clues_size
    &&& g2.cells@ == g1.cells@.update(pidx(g1.size.width as int, cp), placed)
    &&& g2.undo_redo_buffer.buffer@ == g1.undo_redo_buffer.buffer@.take(
        g1.undo_redo_buffer.index as int,
    ).push(Operation::SetCell { point: cp, cell: placed })
    &&& g2.undo_redo_buffer.index == g1.undo_redo_buffer.index + 1
}

/// The grid after one flood-fill placement: the region around `cp` matching
/// `matched` is filled with `fillc` and the fill is logged at the cursor.
pub open spec fn fill_action_effect(g1: Grid, g2: Grid, cp: Point, matched: Cell, fillc: Cell) -> bool {
    &&& g2.size == g1.size
    &&& g2.max_clues_size == g1.max_clues_size
    &&& g2.horizontal_clues_solutions == g1.horizontal_clues_solutions
    &&& g2.vertical_clues_solutions == g1.vertical_clues_solutions
    &&& g2.cells@ == fill_spec(g1.cells@, g1.size, cp, matched, fillc)
    &&& g2.undo_redo_buffer.buffer@ == g1.undo_redo_buffer.buffer@.take(
        g1.undo_redo_buffer.index as int,
    ).push(Operation::Fill { point: cp, matched_cell: matched, fill_cell: fillc })
    &&& g2.undo_redo_buffer.index == g1.undo_redo_buffer.index + 1
}

/// What one placement does, decided by the drag state: while a drag
/// carries a cell value, that value is placed (or nothing happens where it
/// already is there); otherwise the chosen value is placed, toggling back
/// to `Empty` on the cell that already holds it, either as a single logged
/// cell or, with the fill tool armed, as a logged flood fill. The returned
/// state reports a solution exactly when the new buffer is solved (never in
/// editor mode, which recomputes clues instead).
pub open spec fn place_outcome(
    g1: Grid,
    g2: Grid,
    cp1: CellPlacement,
    cp2: CellPlacement,
    builder_point: Point,
    selected_cell_point: Point,
    cell_to_place: Cell,
    editor_toggled: bool,
    r: State,
) -> bool {
    let cp = cursor_to_cell(builder_point, selected_cell_point);
    let cur = g1.cells@[pidx(g1.size.width as int, cp)];
    match cp1.cell {
        Some(drag_cell) => {
            if cur == drag_cell {
                &&& g2 == g1
                &&& r is Continue
                &&& cp2.cell == cp1.cell
                &&& cp2.fill == cp1.fill
            } else {
                &&& set_cell_effect(g1, g2, cp, drag_cell)
                &&& cp2.cell == cp1.cell
                &&& cp2.fill == cp1.fill
                &&& (!editor_toggled && g2.is_solved() <==> r is Solved)
                &&& (editor_toggled ==> r is Continue)
            }
        },
        None => {
            let effective = if cur == cell_to_place {
                Cell::Empty
            } else {
                cell_to_place
            };
            if cp1.fill {
                &&& fill_action_effect(g1, g2, cp, cur, effective)
                &&& cp2.cell == Some(effective)
                &&& !cp2.fill
                &&& (g2.is_solved() <==> r is Solved)
                &&& (!g2.is_solved() <==> r is ClearAlert)
            } else {
                &&& set_cell_effect(g1, g2, cp, effective)
                &&& cp2.cell == Some(effective)
                &&& cp2.fill == cp1.fill
                &&& (!editor_toggled && g2.is_solved() <==> r is Solved)
                &&& (editor_toggled ==> r is Continue)
            }
        },
    }
}

impl CellPlacement {
    /// Places `cell_to_place` at the selected screen point: sets or toggles
    /// the cell there (or flood-fills from it when the fill tool is armed),
    /// logs the operation, redraws, and reports whether that solved the
    /// grid. In editor mode the touched row's and column's target clues are
    /// recomputed instead of testing for a solution.
    #[verifier::rlimit(100)]
    pub fn place(
        &mut self,
        terminal: &mut Terminal,
        builder: &mut Builder,
        selected_cell_point: Point,
        cell_to_place: Cell,
        editor_toggled: bool,
        now_millis: u64,
    ) -> (r: State)
        requires
            old(builder).fits(),
            old(builder).point.x <= selected_cell_point.x < old(builder).point.x + 2 * old(
                builder,
            ).grid.size.width,
            old(builder).point.y <= selected_cell_point.y < old(builder).point.y + old(
                builder,
            ).grid.size.height,
            editor_toggled ==> old(builder).point.y >= old(builder).grid.size.height,
        ensures
            queue_extended(*old(terminal), *final(terminal)),
            final(builder).point == old(builder).point,
            final(builder).grid.wf(),
            final(builder).grid.size == old(builder).grid.size,
            final(builder).fits(),
            final(self).starting_time == (if old(self).starting_time is Some {
                old(self).starting_time
            } else {
                Some(now_millis)
            }),
            final(self).selected_cell_point == old(self).selected_cell_point,
            final(self).measurement_point == old(self).measurement_point,
            old(builder).grid.history_consistent() ==> final(builder).grid.history_consistent(),
            !editor_toggled ==> final(builder).grid.horizontal_clues_solutions == old(
                builder,
            ).grid.horizontal_clues_solutions && final(builder).grid.vertical_clues_solutions
                == old(builder).grid.vertical_clues_solutions,
            place_outcome(
                old(builder).grid,
                final(builder).grid,
                *old(self),
                *final(self),
                old(builder).point,
                selected_cell_point,
                cell_to_place,
                editor_toggled,
                r,
            ),
    {
        proof {
            crate::terminal::lemma_queue_extended_refl(*terminal);
        }
        let starting_time: u64 = match self.starting_time {
            Some(t) => t,
            None => {
                self.starting_time = Some(now_millis);
                now_millis
            },
        };
        let elapsed: u64 = if now_millis >= starting_time {
            now_millis - starting_time
        } else {
            0
        };

        let cell_point = get_cell_point_from_cursor_point(selected_cell_point, builder);
        let ghost g0 = builder.grid;
        let grid_cell = builder.grid.get_cell(cell_point);

        let value_to_set: Cell = match self.cell {
            Some(drag_cell) => {
                if grid_cell == drag_cell {
                    builder.draw_grid(terminal);
                    // We know that this point is hovered.
                    draw_highlighted_cells(terminal, &builder, selected_cell_point);
                    return State::Continue;
                }
                drag_cell
            },
            None => {
                let mut cell_to_place = cell_to_place;
                if grid_cell == cell_to_place {
                    cell_to_place = Cell::Empty;
                }
                self.cell = Some(cell_to_place);

                if self.fill {
                    crate::grid::tools::fill::fill(
                        &mut builder.grid,
                        cell_point,
                        grid_cell,
                        cell_to_place,
                    );
                    builder.grid.undo_redo_buffer.push(
                        Operation::Fill {
                            point: cell_point,
                            matched_cell: grid_cell,
                            fill_cell: cell_to_place,
                        },
                    );
                    self.fill = false;
                    proof {
                        lemma_logged_step_consistent(
                            g0,
                            builder.grid,
                            Operation::Fill {
                                point: cell_point,
                                matched_cell: grid_cell,
                                fill_cell: cell_to_place,
                            },
                        );
                    }

                    let all_clues_solved = builder.draw_all(terminal);
                    if all_clues_solved {
                        return State::Solved(elapsed);
                    } else {
                        return State::ClearAlert;
                    }
                }

                cell_to_place
            },
        };

        builder.grid.set_cell(cell_point, value_to_set);
        builder.grid.undo_redo_buffer.push(
            Operation::SetCell { point: cell_point, cell: value_to_set },
        );
        proof {
            lemma_logged_step_consistent(
                g0,
                builder.grid,
                Operation::SetCell { point: cell_point, cell: value_to_set },
            );
        }

        if editor_toggled {
            builder.rebuild_clues(terminal, cell_point);
            // The grid should not be solved while editing it.
            let _ = builder.draw_all(terminal);
        } else {
            let all_clues_solved = builder.draw_all(terminal);
            if all_clues_solved {
                return State::Solved(elapsed);
            }
        }

        // We know that this point is hovered.
        draw_highlighted_cells(terminal, &builder, selected_cell_point);

        State::Continue
    }
}

/// A forward step that mutates the buffer exactly as its logged operation
/// replays, and logs it at the cursor, keeps the grid's history consistent.
pub proof fn lemma_logged_step_consistent(g1: Grid, g2: Grid, op: Operation)
    requires
        g1.undo_redo_buffer.index <= g1.undo_redo_buffer.buffer@.len(),
        g2.undo_redo_buffer.buffer@ == g1.undo_redo_buffer.buffer@.take(
            g1.undo_redo_buffer.index as int,
        ).push(op),
        g2.undo_redo_buffer.index == g1.undo_redo_buffer.index + 1,
        g2.size == g1.size,
        g2.cells@ == crate::undo_redo_buffer::apply_op(g1.cells@, g1.size, op),
    ensures
        g1.history_consistent() ==> g2.history_consistent(),
{
    if g1.history_consistent() {
        let pre = g1.undo_redo_buffer.buffer@.take(g1.undo_redo_buffer.index as int);
        let post = g2.undo_redo_buffer.buffer@.take(g2.undo_redo_buffer.index as int);
        assert(post =~= pre.push(op));
        assert(post.drop_last() =~= pre);
        assert(post.last() == op);
    }
}

} // verus!
