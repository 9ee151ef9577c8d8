//! Tests of the saved grid format and the text helpers.

use yayagram::editor::{deserialize, load_grid, serialize};
use yayagram::grid::Grid;
use yayagram::undo_redo_buffer::UndoRedoBuffer;
use yayagram::format_seconds;
use yayagram::grid::Cell;
use yayagram::terminal::util::Size;
use yayagram::util::{decimal_string, decimal_string_pad_left, decimal_string_zero_pad};

/// A saved 2 by 2 grid: one filled, one crossed, one maybed, one measured.
const SAVED: &str = "\
+--------+\n\
|1111XXXX|\n\
|1111XXXX|\n\
|????RRRR|\n\
|????RRRR|\n\
+--------+\n\
\n\
1: filled, X: crossed, ?: maybed, R: measured";

#[test]
fn test_deserialize_reads_the_saved_marks() {
    let (size, cells) = deserialize(SAVED).unwrap();
    assert_eq!(size, Size { width: 2, height: 2 });
    assert_eq!(
        cells,
        vec![
            Cell::Filled,
            Cell::Crossed,
            Cell::Maybed,
            Cell::Measured(None),
        ]
    );
}

#[test]
fn test_load_grid_derives_clues_and_erases_filled_cells() {
    let grid = load_grid(SAVED).unwrap();
    assert_eq!(grid.size, Size { width: 2, height: 2 });
    // The single filled cell fixes the clue tables...
    assert_eq!(grid.horizontal_clues_solutions, [vec![1], vec![]]);
    assert_eq!(grid.vertical_clues_solutions, [vec![1], vec![]]);
    // ... and is then erased; the other marks stay visible.
    assert_eq!(
        grid.cells,
        vec![
            Cell::Empty,
            Cell::Crossed,
            Cell::Maybed,
            Cell::Measured(None),
        ]
    );
}

#[test]
fn test_deserialize_rejects_malformed_input() {
    let err = deserialize("").unwrap_err();
    assert_eq!(err.message, "expected line");
    assert_eq!(err.line_number, Some(1));

    let err = deserialize("+---+\nwhat|\n").unwrap_err();
    assert_eq!(err.message, "expected '|' or '+' at start of line");
    assert_eq!(err.line_number, Some(0));

    let err = deserialize("+---+\n|zzzz|\n").unwrap_err();
    assert_eq!(err.message, "expected ' ', '1', 'X', '?' or 'R'");
    assert_eq!(err.line_number, Some(0));

    let err = deserialize("+---+\n||\n").unwrap_err();
    assert_eq!(err.message, "no width");

    let err = deserialize("+---+\n|1111|\n|1111|\n|11111111|\n").unwrap_err();
    assert_eq!(err.message, "inconsistent width");
    assert_eq!(err.line_number, Some(1));

    let err = deserialize("+---+\n").unwrap_err();
    assert_eq!(err.message, "no width");
    assert_eq!(err.line_number, None);
}

/// A grid holding the given cells directly, with empty clue tables.
fn raw_grid(size: Size, cells: Vec<Cell>) -> Grid {
    Grid {
        size,
        cells,
        horizontal_clues_solutions: vec![vec![]; size.height as usize],
        vertical_clues_solutions: vec![vec![]; size.width as usize],
        max_clues_size: Size {
            width: 0,
            height: 0,
        },
        undo_redo_buffer: UndoRedoBuffer {
            buffer: Vec::new(),
            index: 0,
        },
    }
}

#[test]
fn test_serialize_writes_the_saved_format() {
    let grid = raw_grid(
        Size {
            width: 2,
            height: 2,
        },
        vec![
            Cell::Filled,
            Cell::Crossed,
            Cell::Maybed,
            Cell::Measured(Some(7)),
        ],
    );
    assert_eq!(serialize(&grid), SAVED);
}

#[test]
fn test_serialize_legend_lists_only_present_marks() {
    let grid = raw_grid(
        Size {
            width: 1,
            height: 1,
        },
        vec![Cell::Maybed],
    );
    assert_eq!(
        serialize(&grid),
        "+----+\n|????|\n|????|\n+----+\n\n?: maybed"
    );
}

#[test]
fn test_save_and_load_round_trip() {
    let cells = vec![
        Cell::Empty,
        Cell::Filled,
        Cell::Crossed,
        Cell::Maybed,
        Cell::Measured(Some(3)),
        Cell::Filled,
    ];
    let grid = raw_grid(
        Size {
            width: 3,
            height: 2,
        },
        cells,
    );
    let saved = serialize(&grid);
    let (size, loaded) = deserialize(&saved).unwrap();
    assert_eq!(size, grid.size);
    // Everything round-trips except measurement ordinals, which persistence
    // drops.
    assert_eq!(
        loaded,
        vec![
            Cell::Empty,
            Cell::Filled,
            Cell::Crossed,
            Cell::Maybed,
            Cell::Measured(None),
            Cell::Filled,
        ]
    );
}

#[test]
fn test_format_seconds() {
    assert_eq!(format_seconds(60 * 70 + 5), "01:10:05");
    assert_eq!(format_seconds(45 * 60 + 15), "00:45:15");
    assert_eq!(format_seconds(60 * 60 * 99), "99:00:00");
    assert_eq!(format_seconds(60 * 80), "01:20:00");
    assert_eq!(format_seconds(60 * 60 + 60 * 5 + 30), "01:05:30");
}

#[test]
fn test_decimal_strings() {
    assert_eq!(decimal_string(0), "0");
    assert_eq!(decimal_string(7), "7");
    assert_eq!(decimal_string(40321), "40321");
    assert_eq!(decimal_string_pad_left(7), " 7");
    assert_eq!(decimal_string_pad_left(12), "12");
    assert_eq!(decimal_string_pad_left(123), "123");
    assert_eq!(decimal_string_zero_pad(7), "07");
    assert_eq!(decimal_string_zero_pad(12), "12");
}
