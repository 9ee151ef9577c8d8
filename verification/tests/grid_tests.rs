//! Tests of the grid engine: clue derivation, clearing, the operation
//! history, flood fill and the measurement overlay.

use yayagram::event::set_measured_cells;
use yayagram::grid::tools::fill::fill;
use yayagram::grid::{Cell, Grid};
use yayagram::terminal::util::{Point, Size};
use yayagram::undo_redo_buffer::Operation;
use yayagram::util::get_line_points;

/// Creates a new grid from the given lines of text.
/// A `1` represents a filled cell, a ` ` represents an empty cell.
fn from_lines(lines: &[&str]) -> Grid {
    let width = lines.iter().map(|line| line.len()).max().unwrap();
    let height = lines.len();
    let size = Size {
        width: width as u16,
        height: height as u16,
    };
    let mut cells = Vec::<Cell>::new();
    for line in lines {
        for char in line.chars() {
            cells.push(match char {
                '1' => Cell::Filled,
                ' ' => Cell::Empty,
                _ => panic!("the strings must only contain '1' or ' '"),
            });
        }
    }
    Grid::new(size, cells)
}

#[test]
fn test_squared_grid() {
    let grid = from_lines(&[
        "1 1 111 1 ",
        " 1 11 111 ",
        "1111 11  1",
        "1 11 1  11",
        "1  111  11",
    ]);

    assert_eq!(
        grid.horizontal_clues_solutions,
        [
            vec![1, 1, 3, 1],
            vec![1, 2, 3],
            vec![4, 2, 1],
            vec![1, 2, 1, 2],
            vec![1, 3, 2],
        ]
    );

    assert_eq!(
        grid.vertical_clues_solutions,
        [
            vec![1, 3],
            vec![2],
            vec![1, 2],
            vec![4],
            vec![2, 1],
            vec![1, 3],
            vec![3],
            vec![1],
            vec![2, 2],
            vec![3]
        ]
    );
}

#[test]
fn test_non_squared_grid() {
    let grid = from_lines(&[
        " 111",
        " 1 1",
        "11 1",
        "1 1 ",
        "1  1",
        "  1 ",
    ]);

    assert_eq!(
        grid.horizontal_clues_solutions,
        [
            vec![3],
            vec![1, 1],
            vec![2, 1],
            vec![1, 1],
            vec![1, 1],
            vec![1],
        ]
    );

    assert_eq!(
        grid.vertical_clues_solutions,
        [vec![3], vec![3], vec![1, 1, 1], vec![3, 1]]
    );
}

#[test]
fn test_clear() {
    let mut grid = from_lines(&[
        "1111",
        "1111",
        "1111",
    ]);

    grid.clear();

    assert!(grid.cells.iter().all(|cell| *cell == Cell::Empty));
}

#[test]
fn test_clear_keeps_solutions() {
    let mut grid = from_lines(&[
        "1 1 111 1 ",
        " 1 11 111 ",
        "1111 11  1",
        "1 11 1  11",
        "1  111  11",
    ]);
    let horizontal = grid.horizontal_clues_solutions.clone();
    let vertical = grid.vertical_clues_solutions.clone();

    grid.clear();

    assert!(grid.cells.iter().all(|cell| *cell == Cell::Empty));
    assert_eq!(grid.horizontal_clues_solutions, horizontal);
    assert_eq!(grid.vertical_clues_solutions, vertical);
}

#[test]
fn test_construction_erases_filled_cells() {
    let grid = from_lines(&["11", " 1"]);
    assert!(grid.cells.iter().all(|cell| *cell == Cell::Empty));
    assert_eq!(grid.undo_redo_buffer.buffer.len(), 0);
    assert_eq!(grid.undo_redo_buffer.index, 0);
}

#[test]
fn test_current_clues_follow_the_buffer() {
    let mut grid = from_lines(&["1 1", "111"]);
    assert_eq!(grid.get_horizontal_clues(0), Vec::<u16>::new());
    grid.set_cell(Point { x: 0, y: 0 }, Cell::Filled);
    grid.set_cell(Point { x: 2, y: 0 }, Cell::Filled);
    assert_eq!(grid.get_horizontal_clues(0), vec![1, 1]);
    assert_eq!(grid.get_vertical_clues(0), vec![1]);
    // Non-filled marks never affect the clues.
    grid.set_cell(Point { x: 1, y: 0 }, Cell::Crossed);
    grid.set_cell(Point { x: 1, y: 1 }, Cell::Maybed);
    assert_eq!(grid.get_horizontal_clues(0), vec![1, 1]);
}

#[test]
fn test_undo_redo_round_trip() {
    let mut grid = from_lines(&["11", "1 "]);
    for (point, cell) in [
        (Point { x: 0, y: 0 }, Cell::Filled),
        (Point { x: 1, y: 0 }, Cell::Crossed),
        (Point { x: 0, y: 1 }, Cell::Maybed),
    ] {
        grid.set_cell(point, cell);
        grid.undo_redo_buffer.push(Operation::SetCell { point, cell });
    }
    let before = grid.cells.clone();

    assert!(grid.undo_last_cell());
    assert_ne!(grid.cells, before);
    assert!(grid.redo_last_cell());
    assert_eq!(grid.cells, before);

    // At the ends of the history, undo and redo report failure.
    assert!(!grid.redo_last_cell());
    assert!(grid.undo_last_cell());
    assert!(grid.undo_last_cell());
    assert!(grid.undo_last_cell());
    assert!(!grid.undo_last_cell());
    assert!(grid.cells.iter().all(|cell| *cell == Cell::Empty));
}

#[test]
fn test_undo_redo_replays_fill_and_clear() {
    let mut grid = from_lines(&["  ", "  "]);
    grid.set_cell(Point { x: 0, y: 0 }, Cell::Filled);
    grid.undo_redo_buffer.push(Operation::SetCell {
        point: Point { x: 0, y: 0 },
        cell: Cell::Filled,
    });
    fill(
        &mut grid,
        Point { x: 1, y: 1 },
        Cell::Empty,
        Cell::Crossed,
    );
    grid.undo_redo_buffer.push(Operation::Fill {
        point: Point { x: 1, y: 1 },
        matched_cell: Cell::Empty,
        fill_cell: Cell::Crossed,
    });
    let after_fill = grid.cells.clone();

    assert!(grid.undo_last_cell());
    assert!(grid.redo_last_cell());
    assert_eq!(grid.cells, after_fill);

    grid.clear();
    grid.undo_redo_buffer.push(Operation::Clear);
    assert!(grid.undo_last_cell());
    assert_eq!(grid.cells, after_fill);
    assert!(grid.redo_last_cell());
    assert!(grid.cells.iter().all(|cell| *cell == Cell::Empty));
}

#[test]
fn test_push_truncates_redo_branch() {
    let mut grid = from_lines(&["  "]);
    for x in 0..2 {
        let point = Point { x, y: 0 };
        grid.set_cell(point, Cell::Filled);
        grid.undo_redo_buffer.push(Operation::SetCell { point, cell: Cell::Filled });
    }
    assert!(grid.undo_last_cell());
    let point = Point { x: 1, y: 0 };
    grid.set_cell(point, Cell::Crossed);
    grid.undo_redo_buffer.push(Operation::SetCell { point, cell: Cell::Crossed });
    assert_eq!(grid.undo_redo_buffer.buffer.len(), 2);
    assert_eq!(grid.undo_redo_buffer.index, 2);
    // The redo branch was discarded: redoing is no longer possible.
    assert!(!grid.redo_last_cell());
}

#[test]
fn test_fill_with_equal_values_is_a_no_op() {
    let mut grid = from_lines(&["  ", "  "]);
    grid.set_cell(Point { x: 0, y: 0 }, Cell::Filled);
    let before = grid.cells.clone();
    fill(&mut grid, Point { x: 0, y: 0 }, Cell::Filled, Cell::Filled);
    assert_eq!(grid.cells, before);
}

#[test]
fn test_fill_replaces_a_region() {
    let mut grid = from_lines(&["   ", "   ", "   "]);
    fill(&mut grid, Point { x: 1, y: 1 }, Cell::Empty, Cell::Filled);
    assert!(grid.cells.iter().all(|cell| *cell == Cell::Filled));
}

#[test]
fn test_fill_does_not_cross_regions() {
    // Two empty regions in the corners, separated by a crossed diagonal.
    let mut grid = from_lines(&["   ", "   ", "   "]);
    grid.set_cell(Point { x: 2, y: 0 }, Cell::Crossed);
    grid.set_cell(Point { x: 1, y: 1 }, Cell::Crossed);
    grid.set_cell(Point { x: 0, y: 2 }, Cell::Crossed);

    fill(&mut grid, Point { x: 0, y: 0 }, Cell::Empty, Cell::Filled);

    // The upper left region was filled.
    assert_eq!(grid.get_cell(Point { x: 0, y: 0 }), Cell::Filled);
    assert_eq!(grid.get_cell(Point { x: 1, y: 0 }), Cell::Filled);
    assert_eq!(grid.get_cell(Point { x: 0, y: 1 }), Cell::Filled);
    // The separating cells and the lower right region are untouched.
    assert_eq!(grid.get_cell(Point { x: 1, y: 1 }), Cell::Crossed);
    assert_eq!(grid.get_cell(Point { x: 2, y: 1 }), Cell::Empty);
    assert_eq!(grid.get_cell(Point { x: 1, y: 2 }), Cell::Empty);
    assert_eq!(grid.get_cell(Point { x: 2, y: 2 }), Cell::Empty);
}

#[test]
fn test_fill_spans_measured_ordinals() {
    let mut grid = from_lines(&["   "]);
    let line = get_line_points(Point { x: 0, y: 0 }, Point { x: 2, y: 0 });
    let size = grid.size;
    set_measured_cells(&mut grid.cells, size, &line);
    assert_eq!(grid.get_cell(Point { x: 0, y: 0 }), Cell::Measured(Some(1)));
    // Measured cells with different ordinals are filled as one region.
    fill(
        &mut grid,
        Point { x: 1, y: 0 },
        Cell::Measured(Some(2)),
        Cell::Filled,
    );
    assert!(grid.cells.iter().all(|cell| *cell == Cell::Filled));
}

#[test]
fn test_measurement_is_non_destructive() {
    let mut grid = from_lines(&["    "]);
    grid.set_cell(Point { x: 1, y: 0 }, Cell::Filled);
    let line = get_line_points(Point { x: 0, y: 0 }, Point { x: 3, y: 0 });
    assert_eq!(line.len(), 4);
    let size = grid.size;
    set_measured_cells(&mut grid.cells, size, &line);
    // The filled cell is untouched; the empty cells are numbered from 1 in
    // line order.
    assert_eq!(grid.get_cell(Point { x: 0, y: 0 }), Cell::Measured(Some(1)));
    assert_eq!(grid.get_cell(Point { x: 1, y: 0 }), Cell::Filled);
    assert_eq!(grid.get_cell(Point { x: 2, y: 0 }), Cell::Measured(Some(2)));
    assert_eq!(grid.get_cell(Point { x: 3, y: 0 }), Cell::Measured(Some(3)));
}

#[test]
fn test_line_points_span_both_endpoints() {
    let line = get_line_points(Point { x: 1, y: 1 }, Point { x: 4, y: 3 });
    assert_eq!(line.first(), Some(&Point { x: 1, y: 1 }));
    assert_eq!(line.last(), Some(&Point { x: 4, y: 3 }));
    for point in &line {
        assert!(point.x >= 1 && point.x <= 4);
        assert!(point.y >= 1 && point.y <= 3);
    }
    for (i, a) in line.iter().enumerate() {
        for b in line.iter().skip(i + 1) {
            assert_ne!(a, b);
        }
    }
    for pair in line.windows(2) {
        assert!(pair[0].x.abs_diff(pair[1].x) <= 1);
        assert!(pair[0].y.abs_diff(pair[1].y) <= 1);
    }
}

#[test]
fn test_random_grid_starts_blank() {
    let grid = Grid::random(Size { width: 7, height: 4 });
    assert_eq!(grid.size, Size { width: 7, height: 4 });
    assert_eq!(grid.cells.len(), 28);
    assert!(grid.cells.iter().all(|cell| *cell == Cell::Empty));
    assert_eq!(grid.horizontal_clues_solutions.len(), 4);
    assert_eq!(grid.vertical_clues_solutions.len(), 7);
}
