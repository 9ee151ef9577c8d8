//! Input handling: turning events into grid operations.
//!
//! Everything here is synchronous decision logic: the caller reads events,
//! performs file saving and window-resize waiting itself, and hands every
//! other event to `handle`.

use super::State;
use crate::editor::Editor;
use crate::grid::builder::Builder;
use crate::grid::cell::{
    cursor_to_cell, draw_highlighted_cells, get_cell_point_from_cursor_point, CellPlacement,
};
use crate::grid::{blank_cells, Cell, Grid};
use crate::terminal::event::{Event, Key, MouseButton, MouseEvent, MouseEventKind};
use crate::terminal::util::Point;
use crate::terminal::{queue_extended, Terminal};
use crate::undo_redo_buffer::{undo_step, redo_step, Operation};
use vstd::prelude::*;

verus! {

broadcast use
    crate::terminal::lemma_queue_pushed_extended,
    crate::terminal::lemma_queue_wrote_extended,
    crate::terminal::lemma_queue_extended_trans;

/// Whether a stored screen point lies on the drawn grid.
pub open spec fn on_grid(b: Builder, p: Point) -> bool {
    &&& b.point.x <= p.x < b.point.x + 2 * b.grid.size.width
    &&& b.point.y <= p.y < b.point.y + b.grid.size.height
}

/// The placement state only remembers screen points on the drawn grid.
pub open spec fn placement_on_grid(b: Builder, cp: CellPlacement) -> bool {
    &&& (cp.selected_cell_point matches Some(p) ==> on_grid(b, p))
    &&& (cp.measurement_point matches Some(p) ==> on_grid(b, p))
}

/// One measurement action, rasterized as the given line: the line runs from
/// `start` to `end` through in-bounds, pairwise distinct points; its marking
/// (sequential ordinals over `Empty` and `Measured` cells, everything else
/// kept) is applied to the buffer and logged at the history cursor; nothing
/// else of the grid changes.
pub open spec fn measured_with(g1: Grid, g2: Grid, start: Point, end: Point, pts: Seq<Point>) -> bool {
    &&& pts.len() >= 1
    &&& pts.first() == start
    &&& pts.last() == end
    &&& (forall|j: int|
        0 <= j < pts.len() ==> crate::undo_redo_buffer::point_in_bounds(
            #[trigger] pts[j],
            g1.size,
        ))
    &&& (forall|k: int, l: int| 0 <= k < l < pts.len() ==> pts[k] != pts[l])
    &&& g2.cells@ == crate::event::measure_spec(g1.cells@, g1.size.width as int, pts, 1)
    &&& g2.undo_redo_buffer.index == g1.undo_redo_buffer.index + 1
    &&& g2.undo_redo_buffer.buffer@.len() == g1.undo_redo_buffer.index + 1
    &&& g2.undo_redo_buffer.buffer@.drop_last() == g1.undo_redo_buffer.buffer@.take(
        g1.undo_redo_buffer.index as int,
    )
    &&& (g2.undo_redo_buffer.buffer@.last() matches Operation::Measure(v) && v@ == pts)
    &&& g2.size == g1.size
    &&& g2.horizontal_clues_solutions == g1.horizontal_clues_solutions
    &&& g2.vertical_clues_solutions == g1.vertical_clues_solutions
    &&& g2.max_clues_size == g1.max_clues_size
}

/// One measurement action over some rasterized line from `start` to `end`.
pub open spec fn measured_line_effect(g1: Grid, g2: Grid, start: Point, end: Point) -> bool {
    exists|pts: Seq<Point>| #[trigger] measured_with(g1, g2, start, end, pts)
}

/// The cell value each mouse button places.
pub open spec fn cell_of_button(button: MouseButton) -> Cell {
    match button {
        MouseButton::Left => Cell::Filled,
        MouseButton::Middle => Cell::Maybed,
        MouseButton::Right => Cell::Crossed,
    }
}

/// What a press or drag does: on the grid, the point becomes the selection
/// and the button's cell value is placed there (see `place_outcome`); off
/// the grid nothing happens and the caller decides (the resize handle).
pub open spec fn press_outcome(
    point: Point,
    button: MouseButton,
    b1: Builder,
    b2: Builder,
    cp1: CellPlacement,
    cp2: CellPlacement,
    editor_toggled: bool,
    now_millis: u64,
    r: State,
) -> bool {
    if on_grid(b1, point) {
        &&& cp2.selected_cell_point == Some(point)
        &&& cp2.measurement_point == cp1.measurement_point
        &&& cp2.starting_time == (if cp1.starting_time is Some {
            cp1.starting_time
        } else {
            Some(now_millis)
        })
        &&& crate::grid::cell::place_outcome(
            b1.grid,
            b2.grid,
            cp1,
            cp2,
            b1.point,
            point,
            cell_of_button(button),
            editor_toggled,
            r,
        )
    } else {
        &&& b2 == b1
        &&& cp2 == cp1
        &&& r is Continue
    }
}

/// What handling one mouse event does: presses and drags place the
/// button's cell, movement only updates the remembered hover point, and
/// anything else ends a drag by forgetting its cell value.
pub open spec fn mouse_event_outcome(
    event: MouseEvent,
    b1: Builder,
    b2: Builder,
    cp1: CellPlacement,
    cp2: CellPlacement,
    editor_toggled: bool,
    now_millis: u64,
    r: State,
) -> bool {
    match event.kind {
        MouseEventKind::Drag(button) => press_outcome(
            event.point,
            button,
            b1,
            b2,
            cp1,
            cp2,
            editor_toggled,
            now_millis,
            r,
        ),
        MouseEventKind::Press(button) => press_outcome(
            event.point,
            button,
            b1,
            b2,
            cp1,
            cp2,
            editor_toggled,
            now_millis,
            r,
        ),
        MouseEventKind::Move => {
            &&& r is Continue
            &&& b2.grid == b1.grid
            &&& b2.point == b1.point
            &&& (on_grid(b1, event.point) ==> cp2 == CellPlacement {
                selected_cell_point: Some(event.point),
                ..cp1
            })
            &&& (!on_grid(b1, event.point) ==> cp2 == cp1)
        },
        _ => {
            &&& r is Continue
            &&& b2 == b1
            &&& cp2 == CellPlacement { cell: None, ..cp1 }
        },
    }
}

/// Handles a mouse event: presses and drags place cells, movement updates
/// the highlighted cell. A press outside the grid (such as on the resize
/// handle) is left to the caller and answered with `Continue`.
pub fn handle_mouse(
    terminal: &mut Terminal,
    event: MouseEvent,
    builder: &mut Builder,
    editor_toggled: bool,
    cell_placement: &mut CellPlacement,
    now_millis: u64,
) -> (r: State)
    requires
        old(builder).fits(),
        placement_on_grid(*old(builder), *old(cell_placement)),
        editor_toggled ==> old(builder).point.y >= old(builder).grid.size.height,
    ensures
        queue_extended(*old(terminal), *final(terminal)),
        final(builder).point == old(builder).point,
        final(builder).grid.wf(),
        final(builder).grid.size == old(builder).grid.size,
        final(builder).fits(),
        placement_on_grid(*final(builder), *final(cell_placement)),
        old(builder).grid.history_consistent() ==> final(builder).grid.history_consistent(),
        !editor_toggled ==> final(builder).grid.horizontal_clues_solutions == old(
            builder,
        ).grid.horizontal_clues_solutions && final(builder).grid.vertical_clues_solutions == old(
            builder,
        ).grid.vertical_clues_solutions,
        mouse_event_outcome(
            event,
            *old(builder),
            *final(builder),
            *old(cell_placement),
            *final(cell_placement),
            editor_toggled,
            now_millis,
            r,
        ),
{
    proof {
        crate::terminal::lemma_queue_extended_refl(*terminal);
    }
    match event.kind {
        MouseEventKind::Drag(mouse_button) | MouseEventKind::Press(mouse_button) => {
            let selected_cell_point = event.point;
            if builder.contains(selected_cell_point) {
                let cell_to_place = match mouse_button {
                    MouseButton::Left => Cell::Filled,
                    MouseButton::Middle => Cell::Maybed,
                    MouseButton::Right => Cell::Crossed,
                };

                cell_placement.selected_cell_point = Some(selected_cell_point);

                cell_placement.place(
                    terminal,
                    builder,
                    selected_cell_point,
                    cell_to_place,
                    editor_toggled,
                    now_millis,
                )
            } else {
                State::Continue
            }
        },
        MouseEventKind::Move => {
            let point = event.point;
            builder.draw_grid(terminal);

            if builder.contains(point) {
                cell_placement.selected_cell_point = Some(point);
                // We know that this point is hovered.
                draw_highlighted_cells(terminal, &builder, point);
            }
            State::Continue
        },
        _ => {
            cell_placement.cell = None;
            State::Continue
        },
    }
}

/// Handles a key press: undo, redo, clear, the fill and measurement tools,
/// editor toggling, cell placement and cursor movement.
///
/// Two keys are split with the caller: saving the grid (`S` while the
/// editor is on) does file output and is the caller's to perform, and `L`
/// only reports `LoadGrid` here while the caller runs the actual load.
#[verifier::rlimit(100)]
pub fn handle_key(
    terminal: &mut Terminal,
    key_event: Key,
    builder: &mut Builder,
    editor: &mut Editor,
    cell_placement: &mut CellPlacement,
    now_millis: u64,
) -> (r: State)
    requires
        old(builder).fits(),
        placement_on_grid(*old(builder), *old(cell_placement)),
        old(editor).toggled ==> old(builder).point.y >= old(builder).grid.size.height,
    ensures
        queue_extended(*old(terminal), *final(terminal)),
        final(builder).point == old(builder).point,
        final(builder).grid.wf(),
        final(builder).grid.size == old(builder).grid.size,
        final(builder).fits(),
        placement_on_grid(*final(builder), *final(cell_placement)),
        old(builder).grid.history_consistent() ==> final(builder).grid.history_consistent(),
        !old(editor).toggled ==> final(builder).grid.horizontal_clues_solutions == old(
            builder,
        ).grid.horizontal_clues_solutions && final(builder).grid.vertical_clues_solutions == old(
            builder,
        ).grid.vertical_clues_solutions,
        final(editor).toggled == (if key_event is Tab {
            !old(editor).toggled
        } else {
            old(editor).toggled
        }),
        match key_event {
            Key::Char(c) => {
                if c == 'a' || c == 'A' {
                    &&& r is Continue
                    &&& (old(builder).grid.undo_redo_buffer.index > 0 ==> undo_step(
                        old(builder).grid,
                        final(builder).grid,
                    ) && final(builder).grid.history_consistent())
                    &&& (old(builder).grid.undo_redo_buffer.index == 0 ==> final(builder).grid
                        == old(builder).grid)
                } else if c == 'd' || c == 'D' {
                    &&& r is Continue
                    &&& (old(builder).grid.undo_redo_buffer.index < old(
                        builder,
                    ).grid.undo_redo_buffer.buffer@.len() ==> redo_step(
                        old(builder).grid,
                        final(builder).grid,
                    ) && final(builder).grid.history_consistent())
                    &&& (old(builder).grid.undo_redo_buffer.index == old(
                        builder,
                    ).grid.undo_redo_buffer.buffer@.len() ==> final(builder).grid == old(
                        builder,
                    ).grid)
                } else if c == 'c' || c == 'C' {
                    &&& r is Continue
                    &&& final(builder).grid.cells@ == blank_cells(old(builder).grid.size)
                    &&& final(builder).grid.undo_redo_buffer.buffer@ == old(
                        builder,
                    ).grid.undo_redo_buffer.buffer@.take(
                        old(builder).grid.undo_redo_buffer.index as int,
                    ).push(Operation::Clear)
                    &&& final(builder).grid.undo_redo_buffer.index == old(
                        builder,
                    ).grid.undo_redo_buffer.index + 1
                } else if c == 'f' || c == 'F' {
                    &&& r is Alert
                    &&& final(builder).grid == old(builder).grid
                    &&& final(cell_placement).fill
                } else if c == 'x' || c == 'X' {
                    match old(cell_placement).selected_cell_point {
                        Some(selected) => match old(cell_placement).measurement_point {
                            Some(measurement) => {
                                &&& r is ClearAlert
                                &&& final(cell_placement).measurement_point is None
                                &&& final(cell_placement).selected_cell_point == old(
                                    cell_placement,
                                ).selected_cell_point
                                &&& measured_line_effect(
                                    old(builder).grid,
                                    final(builder).grid,
                                    cursor_to_cell(old(builder).point, measurement),
                                    cursor_to_cell(old(builder).point, selected),
                                )
                            },
                            None => {
                                &&& r is Alert
                                &&& final(cell_placement).measurement_point == Some(selected)
                                &&& final(builder).grid == old(builder).grid
                            },
                        },
                        None => r is Continue && final(builder).grid == old(builder).grid,
                    }
                } else if c == 'l' || c == 'L' {
                    &&& r is LoadGrid
                    &&& final(builder).grid == old(builder).grid
                } else {
                    true
                }
            },
            Key::Tab => r is Alert && final(builder).grid == old(builder).grid,
            Key::Esc => r matches State::Exit(t) && t == old(cell_placement).starting_time,
            _ => true,
        },
{
    proof {
        crate::terminal::lemma_queue_extended_refl(*terminal);
    }
    match key_event {
        Key::Char('a') | Key::Char('A') => {
            if builder.grid.undo_last_cell() {
                // An undo cannot newly solve the grid: that solution would
                // already have been reached when the operation was first
                // applied.
                let _ = builder.draw_all(terminal);
            }
            State::Continue
        },
        Key::Char('d') | Key::Char('D') => {
            if builder.grid.redo_last_cell() {
                let _ = builder.draw_all(terminal);
            }
            State::Continue
        },
        Key::Char('c') | Key::Char('C') => {
            let ghost g0 = builder.grid;
            builder.grid.clear();
            builder.grid.undo_redo_buffer.push(Operation::Clear);
            proof {
                assert(builder.grid.cells@ =~= blank_cells(builder.grid.size));
                crate::grid::cell::lemma_logged_step_consistent(g0, builder.grid, Operation::Clear);
            }
            // A clear cannot newly solve the grid either: an empty buffer
            // that solved it would have solved it from the start.
            let _ = builder.draw_all(terminal);
            State::Continue
        },
        Key::Char('f') | Key::Char('F') => {
            cell_placement.fill = true;
            State::Alert(String::from_str("Set place to fill"))
        },
        Key::Char('x') | Key::Char('X') => {
            let selected = cell_placement.selected_cell_point;
            match selected {
                Some(selected_cell_point) => {
                    let measurement = cell_placement.measurement_point;
                    match measurement {
                        Some(measurement_point) => {
                            place_measured_cells(
                                terminal,
                                builder,
                                cell_placement,
                                selected_cell_point,
                                measurement_point,
                            )
                        },
                        None => {
                            cell_placement.measurement_point = Some(selected_cell_point);
                            State::Alert(String::from_str("Set second measurement point"))
                        },
                    }
                },
                None => State::Continue,
            }
        },
        Key::Tab => {
            editor.toggle();
            if editor.toggled {
                terminal.set_title("yayagram Editor");
                State::Alert(String::from_str("Editor enabled"))
            } else {
                terminal.set_title("yayagram");
                State::Alert(String::from_str("Editor disabled"))
            }
        },
        Key::Char('l') | Key::Char('L') => State::LoadGrid,
        Key::Char(char) => {
            let selected = cell_placement.selected_cell_point;
            match selected {
                Some(selected_cell_point) => {
                    let cell_to_place = match char {
                        'q' | 'Q' => Cell::Filled,
                        'w' | 'W' => Cell::Maybed,
                        'e' | 'E' => Cell::Crossed,
                        _ => {
                            return State::Continue;
                        },
                    };

                    let state = cell_placement.place(
                        terminal,
                        builder,
                        selected_cell_point,
                        cell_to_place,
                        editor.toggled,
                        now_millis,
                    );

                    cell_placement.cell = None;

                    state
                },
                None => State::Continue,
            }
        },
        Key::Up | Key::Down | Key::Left | Key::Right => {
            let selected_cell_point: Point = match cell_placement.selected_cell_point {
                Some(mut selected) => {
                    let row_end = builder.point.x + builder.grid.size.width * 2;
                    let col_end = builder.point.y + builder.grid.size.height;
                    match key_event {
                        Key::Up => {
                            if selected.y == builder.point.y {
                                selected.y = col_end - 1;
                            } else {
                                selected.y = selected.y - 1;
                            }
                        },
                        Key::Down => {
                            if selected.y + 1 >= col_end {
                                selected.y = builder.point.y;
                            } else {
                                selected.y = selected.y + 1;
                            }
                        },
                        Key::Left => {
                            if selected.x < builder.point.x + 2 {
                                selected.x = row_end - 2;
                            } else {
                                selected.x = selected.x - 2;
                            }
                        },
                        Key::Right => {
                            if selected.x < row_end - 2 {
                                selected.x = selected.x + 2;
                            } else {
                                selected.x = builder.point.x;
                            }
                        },
                        _ => {},
                    }
                    cell_placement.selected_cell_point = Some(selected);
                    selected
                },
                None => {
                    let grid_center = builder.get_center();
                    cell_placement.selected_cell_point = Some(grid_center);
                    grid_center
                },
            };

            builder.draw_grid(terminal);
            // We know that this point is hovered.
            draw_highlighted_cells(terminal, &builder, selected_cell_point);

            State::Continue
        },
        Key::Esc => State::Exit(cell_placement.starting_time),
        _ => State::Continue,
    }
}

/// Runs one measurement action: rasterizes the line between the two chosen
/// screen points, marks it on the grid, logs it and redraws.
fn place_measured_cells(
    terminal: &mut Terminal,
    builder: &mut Builder,
    cell_placement: &mut CellPlacement,
    selected_cell_point: Point,
    measurement_point: Point,
) -> (r: State)
    requires
        old(builder).fits(),
        on_grid(*old(builder), selected_cell_point),
        on_grid(*old(builder), measurement_point),
        old(cell_placement).selected_cell_point matches Some(p) ==> on_grid(*old(builder), p),
    ensures
        queue_extended(*old(terminal), *final(terminal)),
        final(builder).point == old(builder).point,
        final(builder).grid.wf(),
        final(builder).grid.size == old(builder).grid.size,
        final(builder).fits(),
        final(builder).grid.horizontal_clues_solutions == old(
            builder,
        ).grid.horizontal_clues_solutions,
        final(builder).grid.vertical_clues_solutions == old(builder).grid.vertical_clues_solutions,
        old(builder).grid.history_consistent() ==> final(builder).grid.history_consistent(),
        final(cell_placement).measurement_point is None,
        final(cell_placement).selected_cell_point == old(cell_placement).selected_cell_point,
        r is ClearAlert,
        measured_line_effect(
            old(builder).grid,
            final(builder).grid,
            cursor_to_cell(old(builder).point, measurement_point),
            cursor_to_cell(old(builder).point, selected_cell_point),
        ),
{
    proof {
        crate::terminal::lemma_queue_extended_refl(*terminal);
    }
    // The screen points become grid points we can index the buffer with.
    let start_point = get_cell_point_from_cursor_point(measurement_point, builder);
    let end_point = get_cell_point_from_cursor_point(selected_cell_point, builder);

    let line_points = crate::util::get_line_points(start_point, end_point);
    proof {
        assert forall|j: int|
            0 <= j < line_points@.len() implies crate::undo_redo_buffer::point_in_bounds(
            #[trigger] line_points@[j],
            builder.grid.size,
        ) by {
            assert(line_points@[j].x < builder.grid.size.width);
            assert(line_points@[j].y < builder.grid.size.height);
        }
    }

    let ghost g0 = builder.grid;
    let ghost pts = line_points@;
    let size = builder.grid.size;
    crate::event::set_measured_cells(&mut builder.grid.cells, size, &line_points);
    builder.grid.undo_redo_buffer.push(Operation::Measure(line_points));
    proof {
        let op = builder.grid.undo_redo_buffer.buffer@.last();
        crate::grid::cell::lemma_logged_step_consistent(g0, builder.grid, op);
        assert(builder.grid.undo_redo_buffer.buffer@.drop_last()
            =~= g0.undo_redo_buffer.buffer@.take(g0.undo_redo_buffer.index as int));
        assert(measured_with(g0, builder.grid, start_point, end_point, pts));
    }

    builder.draw_picture(terminal);
    builder.draw_grid(terminal);

    // We know that this point is hovered.
    draw_highlighted_cells(terminal, &builder, selected_cell_point);

    cell_placement.measurement_point = None;

    State::ClearAlert
}

/// Handles one input event and returns the next state.
///
/// Window resizes involve waiting for further events and are the caller's
/// to handle; they are answered with `Continue` here.
pub fn handle(
    terminal: &mut Terminal,
    event: Event,
    builder: &mut Builder,
    editor: &mut Editor,
    cell_placement: &mut CellPlacement,
    now_millis: u64,
) -> (r: State)
    requires
        old(builder).fits(),
        placement_on_grid(*old(builder), *old(cell_placement)),
        old(editor).toggled ==> old(builder).point.y >= old(builder).grid.size.height,
    ensures
        queue_extended(*old(terminal), *final(terminal)),
        final(builder).point == old(builder).point,
        final(builder).grid.wf(),
        final(builder).grid.size == old(builder).grid.size,
        final(builder).fits(),
        placement_on_grid(*final(builder), *final(cell_placement)),
        old(builder).grid.history_consistent() ==> final(builder).grid.history_consistent(),
        event matches Event::Mouse(mouse_event) ==> mouse_event_outcome(
            mouse_event,
            *old(builder),
            *final(builder),
            *old(cell_placement),
            *final(cell_placement),
            old(editor).toggled,
            now_millis,
            r,
        ),
        event is Resize ==> *final(builder) == *old(builder) && *final(cell_placement) == *old(
            cell_placement,
        ) && r is Continue,
{
    proof {
        crate::terminal::lemma_queue_extended_refl(*terminal);
    }
    match event {
        Event::Mouse(mouse_event) => handle_mouse(
            terminal,
            mouse_event,
            builder,
            editor.toggled,
            cell_placement,
            now_millis,
        ),
        Event::Key(key_event) => handle_key(
            terminal,
            key_event,
            builder,
            editor,
            cell_placement,
            now_millis,
        ),
        Event::Resize => State::Continue,
    }
}

} // verus!
