//! Tests of the grid builder's geometry and drawing entry points.

use yayagram::event::input::{handle_key, handle_mouse};
use yayagram::grid::builder::Builder;
use yayagram::grid::cell::CellPlacement;
use yayagram::editor::Editor;
use yayagram::event::State;
use yayagram::grid::{Cell, Grid};
use yayagram::terminal::event::{Key, MouseButton, MouseEvent, MouseEventKind};
use yayagram::terminal::util::{Point, Size};
use yayagram::terminal::Terminal;

fn get_terminal_and_builder() -> (Terminal, Builder) {
    let size = Size {
        width: 10,
        height: 5,
    };
    let cells = vec![Cell::Empty; size.width as usize * size.height as usize];
    let grid = Grid::new(size, cells);
    let terminal = Terminal::new(Size {
        width: 80,
        height: 24,
    });
    let builder = Builder::new(&terminal, grid);
    (terminal, builder)
}

#[test]
fn test_contains() {
    let (_, builder) = get_terminal_and_builder();

    assert!(!builder.contains(Point {
        x: builder.point.x - 1,
        y: builder.point.y - 1
    }));
    assert!(builder.contains(builder.point));
    assert!(!builder.contains(Point {
        x: builder.point.x + builder.grid.size.width,
        y: builder.point.y + builder.grid.size.height
    }));
}

#[test]
fn test_clear_clues() {
    let (mut terminal, mut builder) = get_terminal_and_builder();

    let previous_point = builder.point;
    builder.clear_clues(&mut terminal);
    assert_eq!(previous_point, builder.point);
}

#[test]
fn test_draw_grid() {
    let (mut terminal, mut builder) = get_terminal_and_builder();

    let previous_point = builder.point;
    builder.draw_grid(&mut terminal);
    assert_eq!(previous_point, builder.point);
}

#[test]
fn test_draw_picture() {
    let (mut terminal, mut builder) = get_terminal_and_builder();

    let previous_point = builder.point;
    builder.draw_picture(&mut terminal);
    assert_eq!(previous_point, builder.point);
}

#[test]
fn test_draw_empty_grid() {
    let (mut terminal, mut builder) = get_terminal_and_builder();

    let previous_point = builder.point;
    builder.empty_grid(&mut terminal);
    assert_eq!(previous_point, builder.point);
}

#[test]
fn test_draw_all() {
    let (mut terminal, mut builder) = get_terminal_and_builder();

    let previous_point = builder.point;
    let _ = builder.draw_all(&mut terminal);
    assert_eq!(previous_point, builder.point);
}

#[test]
fn test_draw_all_reports_the_solved_grid() {
    let size = Size {
        width: 2,
        height: 1,
    };
    let picture = vec![Cell::Filled, Cell::Empty];
    let grid = Grid::new(size, picture);
    let mut terminal = Terminal::new(Size {
        width: 80,
        height: 24,
    });
    let mut builder = Builder::new(&terminal, grid);

    // A blank buffer does not show the target clues.
    assert!(!builder.draw_all(&mut terminal));

    // Reproducing exactly the picture's filled cells solves the grid.
    builder.grid.set_cell(Point { x: 0, y: 0 }, Cell::Filled);
    assert!(builder.draw_all(&mut terminal));

    // Changing any single cell's filled status unsolves it again.
    builder.grid.set_cell(Point { x: 1, y: 0 }, Cell::Filled);
    assert!(!builder.draw_all(&mut terminal));
}

#[test]
fn test_mouse_press_places_a_cell() {
    let (mut terminal, mut builder) = get_terminal_and_builder();
    let mut cell_placement = CellPlacement::default();

    let event = MouseEvent {
        kind: MouseEventKind::Press(MouseButton::Left),
        point: builder.point,
    };
    let state = handle_mouse(
        &mut terminal,
        event,
        &mut builder,
        false,
        &mut cell_placement,
        1000,
    );
    assert!(matches!(state, State::Continue));
    assert_eq!(builder.grid.get_cell(Point { x: 0, y: 0 }), Cell::Filled);
    assert_eq!(builder.grid.undo_redo_buffer.buffer.len(), 1);
    assert_eq!(cell_placement.starting_time, Some(1000));
}

#[test]
fn test_undo_key_reverts_a_placement() {
    let (mut terminal, mut builder) = get_terminal_and_builder();
    let mut cell_placement = CellPlacement::default();
    let mut editor = Editor::default();

    let event = MouseEvent {
        kind: MouseEventKind::Press(MouseButton::Right),
        point: builder.point,
    };
    let _ = handle_mouse(
        &mut terminal,
        event,
        &mut builder,
        false,
        &mut cell_placement,
        0,
    );
    assert_eq!(builder.grid.get_cell(Point { x: 0, y: 0 }), Cell::Crossed);

    let state = handle_key(
        &mut terminal,
        Key::Char('a'),
        &mut builder,
        &mut editor,
        &mut cell_placement,
        0,
    );
    assert!(matches!(state, State::Continue));
    assert_eq!(builder.grid.get_cell(Point { x: 0, y: 0 }), Cell::Empty);

    let state = handle_key(
        &mut terminal,
        Key::Char('d'),
        &mut builder,
        &mut editor,
        &mut cell_placement,
        0,
    );
    assert!(matches!(state, State::Continue));
    assert_eq!(builder.grid.get_cell(Point { x: 0, y: 0 }), Cell::Crossed);
}

#[test]
fn test_measurement_keys_mark_a_line() {
    let (mut terminal, mut builder) = get_terminal_and_builder();
    let mut cell_placement = CellPlacement::default();
    let mut editor = Editor::default();

    cell_placement.selected_cell_point = Some(builder.point);
    let state = handle_key(
        &mut terminal,
        Key::Char('x'),
        &mut builder,
        &mut editor,
        &mut cell_placement,
        0,
    );
    assert!(matches!(state, State::Alert(_)));

    cell_placement.selected_cell_point = Some(Point {
        x: builder.point.x + 6,
        y: builder.point.y,
    });
    let state = handle_key(
        &mut terminal,
        Key::Char('x'),
        &mut builder,
        &mut editor,
        &mut cell_placement,
        0,
    );
    assert!(matches!(state, State::ClearAlert));
    for x in 0..4 {
        assert_eq!(
            builder.grid.get_cell(Point { x, y: 0 }),
            Cell::Measured(Some(x as usize + 1))
        );
    }
    assert_eq!(builder.grid.get_cell(Point { x: 4, y: 0 }), Cell::Empty);
}

#[test]
fn test_centered_point() {
    let (_, builder) = get_terminal_and_builder();
    // An 80 by 24 terminal centers a 10 by 5 grid without clues at 30, 10.
    assert_eq!(builder.point, Point { x: 30, y: 10 });
}
