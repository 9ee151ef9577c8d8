//! A terminal nonogram (picross) engine: a grid of cells marked by the player,
//! row and column clues derived from a hidden target picture, an undo/redo
//! history replayed from a blank buffer, a flood-fill tool and a line
//! measurement tool.

pub mod args;
pub mod debug;
pub mod editor;
pub mod event;
pub mod grid;
pub mod terminal;
pub mod undo_redo_buffer;
pub mod util;

use crate::grid::builder::Builder;
use crate::grid::Grid;
use crate::terminal::util::Point;
use crate::terminal::{queue_extended, queue_pushed, Terminal, TerminalCommand};
use vstd::prelude::*;

verus! {

broadcast use
    crate::terminal::lemma_queue_pushed_extended,
    crate::terminal::lemma_queue_wrote_extended,
    crate::terminal::lemma_queue_extended_trans;

/// Height of the progress bar drawn under the grid, in terminal rows.
pub const PROGRESS_BAR_HEIGHT: u16 = 1;

/// Height reserved for text above the grid, in terminal rows.
pub const TOP_TEXT_HEIGHT: u16 = 2;

/// Height reserved for text below the grid, in terminal rows.
pub const BOTTOM_TEXT_HEIGHT: u16 = 2;

/// One hour in seconds.
const HOUR: u64 = 60 * 60;

/// The rows the small picture takes: two grid rows per text line, rounded
/// up.
pub open spec fn picture_height_spec(g: Grid) -> int {
    g.size.height as int / 2 + (if g.size.height % 2 == 1 {
        1int
    } else {
        0int
    })
}

/// The rows the small picture takes: two grid rows per text line, rounded
/// up.
pub fn get_picture_height(grid: &Grid) -> (r: u16)
    ensures
        r == picture_height_spec(*grid),
{
    let mut picture_height = grid.size.height / 2;
    if grid.size.height % 2 == 1 {
        picture_height += 1;
    }
    picture_height
}

/// The rows the whole layout takes: text above, the taller of picture and
/// column clues, the grid, the progress bar and the text below.
pub fn total_height(grid: &Grid) -> (r: u16)
    requires
        grid.wf(),
        grid.max_clues_size.height <= 99,
    ensures
        r == TOP_TEXT_HEIGHT + (if picture_height_spec(*grid) >= grid.max_clues_size.height {
            picture_height_spec(*grid)
        } else {
            grid.max_clues_size.height as int
        }) + grid.size.height + PROGRESS_BAR_HEIGHT + BOTTOM_TEXT_HEIGHT,
{
    let picture_height = get_picture_height(grid);
    let middle = if picture_height >= grid.max_clues_size.height {
        picture_height
    } else {
        grid.max_clues_size.height
    };
    TOP_TEXT_HEIGHT + middle + grid.size.height + PROGRESS_BAR_HEIGHT + BOTTOM_TEXT_HEIGHT
}

/// Where text above the grid is positioned.
#[derive(Clone, Copy, PartialEq, Eq, Structural, Debug)]
pub enum TopTextPosition {
    /// Above the clues, because the text fits over the grid and does not
    /// overlap with the picture.
    AboveClues,
    /// Above the picture, because the text would overlap with it otherwise.
    AbovePicture,
}

/// Chooses where text of the given length goes above the grid.
pub fn get_top_text_position(builder: &Builder, text_len: usize) -> (r: TopTextPosition)
    requires
        text_len <= 0xffff,
        builder.grid.size.width <= 99,
    ensures
        r == (if text_len <= 2 * builder.grid.size.width as int {
            TopTextPosition::AboveClues
        } else {
            TopTextPosition::AbovePicture
        }),
{
    if text_len as u16 <= builder.grid.size.width * 2 {
        TopTextPosition::AboveClues
    } else {
        TopTextPosition::AbovePicture
    }
}

/// Whether centered text of the given length fits above the grid at every
/// position the layout may choose.
pub open spec fn top_text_fits(b: Builder, text_len: int, y_alignment: int) -> bool {
    &&& 0 <= text_len <= 0xffff
    &&& b.grid.size.width <= 99
    &&& text_len / 2 <= b.point.x + b.grid.size.width
    &&& b.point.x + b.grid.size.width <= 0xffff
    &&& b.point.y >= b.grid.max_clues_size.height + 1 + y_alignment
    &&& b.point.y >= picture_height_spec(b.grid) + 1 + y_alignment
}

/// The height that top text is raised above the grid by: the column clue
/// stacks' height when the text fits over the grid (or the caller fixed that
/// position), the picture's height otherwise.
pub open spec fn top_text_height(b: Builder, text_len: int, position: Option<
    TopTextPosition,
>) -> int {
    let chosen = match position {
        Some(position) => position,
        None => if text_len <= 2 * b.grid.size.width as int {
            TopTextPosition::AboveClues
        } else {
            TopTextPosition::AbovePicture
        },
    };
    match chosen {
        TopTextPosition::AboveClues => b.grid.max_clues_size.height as int,
        TopTextPosition::AbovePicture => picture_height_spec(b.grid),
    }
}

/// Sets the cursor for drawing centered text above the grid: above the
/// clues when the text fits there, above the picture otherwise.
pub fn set_cursor_for_top_text(
    terminal: &mut Terminal,
    builder: &Builder,
    text_len: usize,
    y_alignment: u16,
    top_text_position: Option<TopTextPosition>,
)
    requires
        top_text_fits(*builder, text_len as int, y_alignment as int),
    ensures
        queue_pushed(
            *old(terminal),
            *final(terminal),
            TerminalCommand::MoveTo(
                Point {
                    x: (builder.point.x + builder.grid.size.width - text_len as int / 2) as u16,
                    y: (builder.point.y - top_text_height(
                        *builder,
                        text_len as int,
                        top_text_position,
                    ) - 1 - y_alignment) as u16,
                },
            ),
        ),
{
    let picture_height = get_picture_height(&builder.grid);

    let position = match top_text_position {
        Some(position) => position,
        None => get_top_text_position(builder, text_len),
    };
    let height = match position {
        TopTextPosition::AboveClues => builder.grid.max_clues_size.height,
        TopTextPosition::AbovePicture => picture_height,
    };

    terminal.set_cursor(
        Point {
            x: builder.point.x + builder.grid.size.width - (text_len as u16) / 2,
            y: ((builder.point.y - height) - 1) - y_alignment,
        },
    );
}

/// Sets the cursor for drawing centered text below the grid, under the
/// progress bar.
pub fn set_cursor_for_bottom_text(
    terminal: &mut Terminal,
    builder: &Builder,
    text_len: usize,
    y_alignment: u16,
)
    requires
        text_len <= 0xffff,
        text_len as int / 2 <= builder.point.x + builder.grid.size.width,
        builder.point.x + builder.grid.size.width <= 0xffff,
        builder.point.y + builder.grid.size.height + 1 + y_alignment <= 0xffff,
    ensures
        queue_pushed(
            *old(terminal),
            *final(terminal),
            TerminalCommand::MoveTo(
                Point {
                    x: (builder.point.x + builder.grid.size.width - text_len as int / 2) as u16,
                    y: (builder.point.y + builder.grid.size.height + 1 + y_alignment) as u16,
                },
            ),
        ),
{
    let mut y = builder.point.y + builder.grid.size.height;
    y += 1;  // Make way for the progress bar

    terminal.set_cursor(
        Point {
            x: builder.point.x + builder.grid.size.width - (text_len as u16) / 2,
            y: y + y_alignment,
        },
    );
}

/// Draws the help lines naming the basic controls below the grid.
pub fn draw_basic_controls_help(terminal: &mut Terminal, builder: &Builder)
    requires
        builder.point.x + builder.grid.size.width >= 13,
        builder.point.x + builder.grid.size.width <= 0xffff,
        builder.point.y + builder.grid.size.height + 2 <= 0xffff,
    ensures
        queue_extended(*old(terminal), *final(terminal)),
{
    proof {
        crate::terminal::lemma_queue_extended_refl(*terminal);
    }
    terminal.set_foreground_color(crate::terminal::util::Color::DarkGray);
    set_cursor_for_bottom_text(terminal, builder, 26, 0);
    terminal.write("A: Undo, D: Redo, C: Clear");
    set_cursor_for_bottom_text(terminal, builder, 19, 1);
    terminal.write("X: Measure, F: Fill");
    terminal.reset_colors();
}

/// Formats seconds as zero-padded hours, minutes and seconds.
pub fn format_seconds(total_seconds: u64) -> (r: String)
    ensures
        r@ =~= crate::util::decimal_zero_pad((total_seconds as nat) / 3600) + seq![':']
            + crate::util::decimal_zero_pad(((total_seconds as nat) / 60) % 60) + seq![':']
            + crate::util::decimal_zero_pad((total_seconds as nat) % 60),
{
    proof {
        reveal_strlit(":");
    }
    let seconds = total_seconds % 60;
    let minutes = total_seconds / 60 % 60;
    let hours = total_seconds / HOUR;
    let mut r = crate::util::decimal_string_zero_pad(hours);
    r.append(":");
    let minutes_text = crate::util::decimal_string_zero_pad(minutes);
    r.append(minutes_text.as_str());
    r.append(":");
    let seconds_text = crate::util::decimal_string_zero_pad(seconds);
    r.append(seconds_text.as_str());
    r
}

} // verus!
