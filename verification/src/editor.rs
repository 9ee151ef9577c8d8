//! The grid editor: authoring state and the persisted grid format.

use crate::grid::{
    as_ints, cleared_of_filled, col_bools, is_max_clues_height, is_max_clues_width, line_clues,
    row_bools, Cell, Grid,
};
use crate::terminal::util::Size;
use vstd::prelude::*;
use vstd::string::StringSliceAdditionalSpecFns;

verus! {

/// The editor's authoring state. Whether it is on decides if placing a cell
/// edits the puzzle's targets instead of playing against them. The filename
/// remembers where the caller last saved the grid.
pub struct Editor {
    pub toggled: bool,
    pub filename: String,
}

impl Editor {
    /// Switches the editor on or off.
    pub fn toggle(&mut self)
        ensures
            final(self).toggled == !old(self).toggled,
            final(self).filename == old(self).filename,
    {
        self.toggled = !self.toggled;
    }
}

impl Default for Editor {
    /// The editor starts switched off with no file.
    fn default() -> (r: Editor)
        ensures
            !r.toggled,
            r.filename@.len() == 0,
    {
        Editor { toggled: false, filename: String::new() }
    }
}

/// An error loading a saved grid: a message and, where one line is at
/// fault, its number.
#[derive(Debug)]
pub struct LoadError {
    pub message: &'static str,
    pub line_number: Option<usize>,
}

/// Whether a parsed cell is one the grid format can hold: any mark, with
/// measurement ordinals collapsed to none.
pub open spec fn loaded_cell(c: Cell) -> bool {
    match c {
        Cell::Measured(o) => o is None,
        _ => true,
    }
}

/// The position of the line break that ends the line starting at `pos`, or
/// the end of the input.
pub open spec fn line_end_from(b: Seq<u8>, pos: int) -> int
    decreases b.len() - pos,
    when 0 <= pos <= b.len()
{
    if pos >= b.len() {
        b.len() as int
    } else if b[pos] == 10 {
        pos
    } else {
        line_end_from(b, pos + 1)
    }
}

/// The line's end lies between its start and the end of the input.
pub proof fn lemma_line_end_from_bounds(b: Seq<u8>, pos: int)
    requires
        0 <= pos <= b.len(),
    ensures
        pos <= line_end_from(b, pos) <= b.len(),
    decreases b.len() - pos,
{
    if pos < b.len() && b[pos] != 10 {
        lemma_line_end_from_bounds(b, pos + 1);
    }
}

/// The start of the line after the one starting at `pos`.
pub open spec fn next_line_pos(b: Seq<u8>, pos: int) -> int {
    let line_end = line_end_from(b, pos);
    if line_end < b.len() {
        line_end + 1
    } else {
        line_end
    }
}

/// The cell a format character stands for.
pub open spec fn cell_of_byte(c: u8) -> Option<Cell> {
    if c == 32 {
        Some(Cell::Empty)
    } else if c == 49 {
        Some(Cell::Filled)
    } else if c == 88 {
        Some(Cell::Crossed)
    } else if c == 63 {
        Some(Cell::Maybed)
    } else if c == 82 {
        Some(Cell::Measured(None))
    } else {
        None
    }
}

/// The cells of one row line: one cell from every fourth character after the
/// opening border, up to the closing border or the line's end; an unknown
/// character is a parse failure.
pub open spec fn parse_row_cells(b: Seq<u8>, cpos: int, line_end: int) -> Option<Seq<Cell>>
    decreases line_end - cpos,
    when 0 <= cpos && line_end <= b.len()
{
    if cpos >= line_end {
        Some(Seq::empty())
    } else if b[cpos] == 124 {
        Some(Seq::empty())
    } else {
        match cell_of_byte(b[cpos]) {
            None => None,
            Some(cell) => {
                if line_end - cpos < 4 {
                    Some(seq![cell])
                } else {
                    match parse_row_cells(b, cpos + 4, line_end) {
                        None => None,
                        Some(rest) => Some(seq![cell] + rest),
                    }
                }
            },
        }
    }
}

/// The outcome once the rows end: the parsed grid, or a missing dimension.
pub open spec fn finish_parse(width: int, height: int, cells: Seq<Cell>) -> Result<
    (Size, Seq<Cell>),
    (Seq<char>, Option<int>),
> {
    if width == 0 {
        Err(("no width"@, None))
    } else if height == 0 {
        Err(("no height"@, None))
    } else {
        Ok((Size { width: width as u16, height: height as u16 }, cells))
    }
}

/// The row blocks from `pos` on, given the width fixed by the first row
/// (0 while none was seen), the rows read and the cells collected so far,
/// and the current row block's number: each block is a border line of cells
/// and a duplicate line under it; a dash line or the input's end closes the
/// grid. The first row fixes the width, every later row must repeat it, and
/// both dimensions must fit the engine's 1 to 99 range.
pub open spec fn parse_rows(
    b: Seq<u8>,
    pos: int,
    width: int,
    height: int,
    cells: Seq<Cell>,
    index: int,
) -> Result<(Size, Seq<Cell>), (Seq<char>, Option<int>)>
    decreases b.len() - pos,
    when 0 <= pos <= b.len()
    via parse_rows_decreases
{
    if pos >= b.len() {
        finish_parse(width, height, cells)
    } else if b[pos] == 43 {
        finish_parse(width, height, cells)
    } else if b[pos] != 124 {
        Err(("expected '|' or '+' at start of line"@, Some(index)))
    } else {
        let line_end = line_end_from(b, pos);
        match parse_row_cells(b, pos + 1, line_end) {
            None => Err(("expected ' ', '1', 'X', '?' or 'R'"@, Some(index))),
            Some(row) => {
                if width == 0 && row.len() == 0 {
                    Err(("no width"@, Some(index)))
                } else if width == 0 && row.len() > 99 {
                    Err(("grid too large"@, Some(index)))
                } else if width != 0 && row.len() != width {
                    Err(("inconsistent width"@, Some(index)))
                } else if height >= 99 {
                    Err(("grid too large"@, Some(index)))
                } else {
                    parse_rows(
                        b,
                        next_line_pos(b, next_line_pos(b, pos)),
                        if width == 0 {
                            row.len() as int
                        } else {
                            width
                        },
                        height + 1,
                        cells + row,
                        index + 1,
                    )
                }
            },
        }
    }
}

#[via_fn]
proof fn parse_rows_decreases(
    b: Seq<u8>,
    pos: int,
    width: int,
    height: int,
    cells: Seq<Cell>,
    index: int,
) {
    if 0 <= pos < b.len() {
        lemma_line_end_from_bounds(b, pos);
        let next1 = next_line_pos(b, pos);
        lemma_line_end_from_bounds(b, next1);
    }
}

/// What the grid format grammar yields for an input: the parsed size and
/// cells, or the error message with the failing row block's number. The
/// opening dash line's content is not inspected, and anything after the
/// closing dash line (the legend) is ignored.
pub open spec fn parse_grid(b: Seq<u8>) -> Result<(Size, Seq<Cell>), (Seq<char>, Option<int>)> {
    if b.len() == 0 {
        Err(("expected line"@, Some(1)))
    } else {
        parse_rows(b, next_line_pos(b, 0), 0, 0, Seq::empty(), 0)
    }
}

/// Parses the bordered ASCII grid format: a dash line, then two text lines
/// per row between `|` borders with four characters per cell, closed by
/// another dash line. Success and the parsed grid are exactly what the
/// format grammar (`parse_grid`) assigns to the input; on failure the
/// grammar's error message and row block are reported.
#[verifier::loop_isolation(false)]
#[verifier::rlimit(100)]
pub fn deserialize(str: &str) -> (r: Result<(Size, Vec<Cell>), LoadError>)
    ensures
        match r {
            Ok(p) => parse_grid(str.spec_bytes()) == Ok::<
                (Size, Seq<Cell>),
                (Seq<char>, Option<int>),
            >((p.0, p.1@)),
            Err(e) => parse_grid(str.spec_bytes()) matches Err(f) && f.0 == e.message@ && (
            match e.line_number {
                Some(l) => f.1 == Some(l as int),
                None => f.1 is None,
            }),
        },
        r matches Ok(p) ==> ({
            &&& 1 <= p.0.width <= 99
            &&& 1 <= p.0.height <= 99
            &&& p.1@.len() == p.0.width as int * p.0.height as int
            &&& forall|i: int| 0 <= i < p.1@.len() ==> loaded_cell(#[trigger] p.1@[i])
        }),
{
    let b = str.as_bytes_vec();
    let ghost bytes = str.spec_bytes();
    let n = b.len();
    if n == 0 {
        return Err(LoadError { message: "expected line", line_number: Some(1) });
    }

    // Skip the opening dash line.
    let mut pos: usize = 0;
    while pos < n && b[pos] != 10
        invariant
            pos <= n,
            line_end_from(bytes, pos as int) == line_end_from(bytes, 0),
        decreases n - pos,
    {
        pos += 1;
    }
    if pos < n {
        pos += 1;
    }
    proof {
        assert(pos == next_line_pos(bytes, 0));
    }

    let mut cells: Vec<Cell> = Vec::new();
    let mut width: u16 = 0;
    let mut height: u16 = 0;
    let mut index: usize = 0;
    proof {
        assert(cells@ =~= Seq::<Cell>::empty());
    }

    while pos < n && b[pos] != 43
        invariant
            pos <= n,
            width <= 99,
            height <= 99,
            width == 0 ==> height == 0 && cells@.len() == 0,
            width > 0 ==> 1 <= width && height >= 1 && cells@.len() == width as int
                * height as int,
            index == height,
            forall|i: int| 0 <= i < cells@.len() ==> loaded_cell(#[trigger] cells@[i]),
            parse_rows(bytes, pos as int, width as int, height as int, cells@, index as int)
                == parse_grid(bytes),
        decreases n - pos,
    {
        let ghost cells_before = cells@;
        if b[pos] != 124 {
            return Err(
                LoadError {
                    message: "expected '|' or '+' at start of line",
                    line_number: Some(index),
                },
            );
        }

        // Find this line's end.
        let mut line_end = pos;
        while line_end < n && b[line_end] != 10
            invariant
                pos <= line_end <= n,
                line_end_from(bytes, line_end as int) == line_end_from(bytes, pos as int),
            decreases n - line_end,
        {
            line_end += 1;
        }
        proof {
            assert(line_end == line_end_from(bytes, pos as int));
            lemma_line_end_from_bounds(bytes, pos as int + 1);
        }

        // Read one cell every four characters until the closing border.
        let ghost base = cells@.len();
        let ghost row_opt = parse_row_cells(bytes, pos as int + 1, line_end as int);
        let mut line_width: usize = 0;
        let mut cpos = pos + 1;
        loop
            invariant
                pos + 1 <= cpos <= line_end,
                cpos == pos + 1 + 4 * line_width,
                cells@.len() == base + line_width,
                cells@.take(base as int) == cells_before,
                forall|i: int| 0 <= i < cells@.len() ==> loaded_cell(#[trigger] cells@[i]),
                row_opt == (match parse_row_cells(bytes, cpos as int, line_end as int) {
                    None => None::<Seq<Cell>>,
                    Some(rest) => Some(cells@.skip(base as int) + rest),
                }),
            decreases line_end - cpos,
        {
            if cpos >= line_end {
                proof {
                    assert(cells@.skip(base as int) + Seq::<Cell>::empty() =~= cells@.skip(
                        base as int,
                    ));
                }
                break ;
            }
            let c = b[cpos];
            if c == 124 {
                proof {
                    assert(cells@.skip(base as int) + Seq::<Cell>::empty() =~= cells@.skip(
                        base as int,
                    ));
                }
                break ;
            }
            let cell = if c == 32 {
                Cell::Empty
            } else if c == 49 {
                Cell::Filled
            } else if c == 88 {
                Cell::Crossed
            } else if c == 63 {
                Cell::Maybed
            } else if c == 82 {
                Cell::Measured(None)
            } else {
                proof {
                    assert(cell_of_byte(bytes[cpos as int]) is None);
                    assert(row_opt is None);
                }
                return Err(
                    LoadError {
                        message: "expected ' ', '1', 'X', '?' or 'R'",
                        line_number: Some(index),
                    },
                );
            };
            cells.push(cell);
            line_width += 1;
            if line_end - cpos < 4 {
                proof {
                    assert(parse_row_cells(bytes, cpos as int, line_end as int) == Some(
                        seq![cell],
                    ));
                    assert(cells@.take(base as int) =~= cells_before);
                    assert(cells@.skip(base as int).drop_last() + seq![cell] =~= cells@.skip(
                        base as int,
                    ));
                }
                break ;
            }
            proof {
                assert(cells@.take(base as int) =~= cells_before);
                assert(forall|rest: Seq<Cell>|
                    cells@.skip(base as int).drop_last() + (seq![cell] + rest) =~= cells@.skip(
                        base as int,
                    ) + rest);
            }
            cpos += 4;
        }
        proof {
            assert(row_opt == Some(cells@.skip(base as int)));
            assert(line_width == cells@.skip(base as int).len());
        }
        let ghost row = cells@.skip(base as int);

        if width == 0 {
            if line_width == 0 {
                return Err(LoadError { message: "no width", line_number: Some(index) });
            }
            if line_width > 99 {
                return Err(LoadError { message: "grid too large", line_number: Some(index) });
            }
            width = line_width as u16;
        } else {
            if line_width != width as usize {
                return Err(LoadError { message: "inconsistent width", line_number: Some(index) });
            }
        }
        if height >= 99 {
            return Err(LoadError { message: "grid too large", line_number: Some(index) });
        }
        height += 1;
        index += 1;
        proof {
            assert(cells@ =~= cells_before + row);
            assert(cells@.len() == width as int * height as int) by (nonlinear_arith)
                requires
                    cells@.len() == width as int * (height as int - 1) + width as int,
            ;
        }

        // Skip past this line and the duplicate line under it.
        pos = if line_end < n {
            line_end + 1
        } else {
            n
        };
        let ghost pos1 = pos as int;
        let mut dup_end = pos;
        while dup_end < n && b[dup_end] != 10
            invariant
                pos <= dup_end <= n,
                line_end_from(bytes, dup_end as int) == line_end_from(bytes, pos as int),
            decreases n - dup_end,
        {
            dup_end += 1;
        }
        pos = if dup_end < n {
            dup_end + 1
        } else {
            n
        };
        proof {
            assert(pos == next_line_pos(bytes, pos1));
        }
    }

    if width == 0 {
        return Err(LoadError { message: "no width", line_number: None });
    }
    if height == 0 {
        return Err(LoadError { message: "no height", line_number: None });
    }
    Ok((Size { width, height }, cells))
}

/// Parses a saved grid and builds a playable grid from it: the marks in the
/// file become the hidden target, and play starts with its `Filled` cells
/// erased and an empty history. A load error is the parser's, passed on
/// unchanged, and constructs no grid.
pub fn load_grid(file_content: &str) -> (r: Result<Grid, LoadError>)
    ensures
        match r {
            Ok(g) => ({
                &&& parse_grid(file_content.spec_bytes()) matches Ok(q) && g.size == q.0
                    && g.cells@ == cleared_of_filled(q.1) && (forall|y: int|
                    0 <= y < q.0.height as int ==> as_ints(
                        (#[trigger] g.horizontal_clues_solutions@[y])@,
                    ) == line_clues(row_bools(q.1, q.0.width as int, y))) && (forall|x: int|
                    0 <= x < q.0.width as int ==> as_ints(
                        (#[trigger] g.vertical_clues_solutions@[x])@,
                    ) == line_clues(col_bools(q.1, q.0.width as int, q.0.height as int, x)))
                &&& is_max_clues_width(
                    g.horizontal_clues_solutions@,
                    g.max_clues_size.width as int,
                )
                &&& is_max_clues_height(
                    g.vertical_clues_solutions@,
                    g.max_clues_size.height as int,
                )
                &&& g.wf()
                &&& g.undo_redo_buffer.buffer@.len() == 0
                &&& g.undo_redo_buffer.index == 0
                &&& forall|i: int| 0 <= i < g.cells@.len() ==> !((#[trigger] g.cells@[i]) is Filled)
            }),
            Err(e) => parse_grid(file_content.spec_bytes()) matches Err(f) && f.0 == e.message@
                && (match e.line_number {
                Some(l) => f.1 == Some(l as int),
                None => f.1 is None,
            }),
        },
{
    let parsed = deserialize(file_content);
    match parsed {
        Ok((size, cells)) => {
            let grid = Grid::new(size, cells);
            proof {
                assert(forall|i: int|
                    0 <= i < grid.cells@.len() ==> !((#[trigger] grid.cells@[i]) is Filled));
            }
            Ok(grid)
        },
        Err(e) => Err(e),
    }
}

/// `s` repeated `n` times.
pub open spec fn repeat_seq(s: Seq<char>, n: int) -> Seq<char>
    decreases n,
{
    if n <= 0 {
        Seq::empty()
    } else {
        s + repeat_seq(s, n - 1)
    }
}

/// The dashed border line of a grid of the given width.
pub open spec fn dash_line_spec(width: int) -> Seq<char> {
    "+"@ + repeat_seq("----"@, width) + "+\n"@
}

/// The four characters standing for one cell; a measurement mark's ordinal
/// is not preserved.
pub open spec fn cell_text(c: Cell) -> Seq<char> {
    match c {
        Cell::Empty => "    "@,
        Cell::Filled => "1111"@,
        Cell::Crossed => "XXXX"@,
        Cell::Maybed => "????"@,
        Cell::Measured(_) => "RRRR"@,
    }
}

/// The texts of row `y`'s cells from column `x` on.
pub open spec fn row_cells_text(cells: Seq<Cell>, width: int, y: int, x: int) -> Seq<char>
    decreases width - x,
{
    if x >= width {
        Seq::empty()
    } else {
        cell_text(cells[y * width + x]) + row_cells_text(cells, width, y, x + 1)
    }
}

/// One of the two identical text lines of row `y`.
pub open spec fn row_line_spec(cells: Seq<Cell>, width: int, y: int) -> Seq<char> {
    "|"@ + row_cells_text(cells, width, y, 0) + "|\n"@
}

/// The doubled row lines of all rows from `y` on.
pub open spec fn rows_text(cells: Seq<Cell>, width: int, height: int, y: int) -> Seq<char>
    decreases height - y,
{
    if y >= height {
        Seq::empty()
    } else {
        row_line_spec(cells, width, y) + row_line_spec(cells, width, y) + rows_text(
            cells,
            width,
            height,
            y + 1,
        )
    }
}

/// One comma-separated legend entry, present or not.
pub open spec fn legend_entry(present: bool, first: bool, text: Seq<char>) -> Seq<char> {
    if present {
        (if first {
            Seq::empty()
        } else {
            ", "@
        }) + text
    } else {
        Seq::empty()
    }
}

/// Whether the buffer holds a `Filled` cell.
pub open spec fn holds_filled(cells: Seq<Cell>) -> bool {
    exists|i: int| 0 <= i < cells.len() && (#[trigger] cells[i]) is Filled
}

/// Whether the buffer holds a `Crossed` cell.
pub open spec fn holds_crossed(cells: Seq<Cell>) -> bool {
    exists|i: int| 0 <= i < cells.len() && (#[trigger] cells[i]) is Crossed
}

/// Whether the buffer holds a `Maybed` cell.
pub open spec fn holds_maybed(cells: Seq<Cell>) -> bool {
    exists|i: int| 0 <= i < cells.len() && (#[trigger] cells[i]) is Maybed
}

/// Whether the buffer holds a `Measured` cell, with any ordinal.
pub open spec fn holds_measured(cells: Seq<Cell>) -> bool {
    exists|i: int| 0 <= i < cells.len() && (#[trigger] cells[i]) is Measured
}

/// The legend under a saved grid: one entry per mark the grid holds, in a
/// fixed order, comma-separated.
pub open spec fn legend_spec(cells: Seq<Cell>) -> Seq<char> {
    let f = holds_filled(cells);
    let c = holds_crossed(cells);
    let m = holds_maybed(cells);
    let r = holds_measured(cells);
    legend_entry(f, true, "1: filled"@) + legend_entry(c, !f, "X: crossed"@) + legend_entry(
        m,
        !f && !c,
        "?: maybed"@,
    ) + legend_entry(r, !f && !c && !m, "R: measured"@)
}

/// The saved form of a grid: a dashed border, two text lines per row with
/// four characters per cell, another dashed border, a blank line and the
/// legend of the marks used.
pub open spec fn serialize_spec(size: Size, cells: Seq<Cell>) -> Seq<char> {
    dash_line_spec(size.width as int) + rows_text(cells, size.width as int, size.height as int, 0)
        + dash_line_spec(size.width as int) + "\n"@ + legend_spec(cells)
}

/// Appends the dashed border line for the given width.
fn append_dash_line(out: &mut String, width: u16)
    ensures
        final(out)@ == old(out)@ + dash_line_spec(width as int),
{
    out.append("+");
    let mut k: u16 = 0;
    while k < width
        invariant
            k <= width,
            out@ + repeat_seq("----"@, width as int - k as int) == old(out)@ + "+"@ + repeat_seq(
                "----"@,
                width as int,
            ),
        decreases width - k,
    {
        proof {
            assert(repeat_seq("----"@, width as int - k as int) == "----"@ + repeat_seq(
                "----"@,
                width as int - k as int - 1,
            ));
        }
        out.append("----");
        k += 1;
    }
    out.append("+\n");
    proof {
        assert(final(out)@ =~= old(out)@ + dash_line_spec(width as int));
    }
}

/// Appends one text line of row `y`.
fn append_row_line(out: &mut String, grid: &Grid, y: u16)
    requires
        grid.wf(),
        y < grid.size.height,
    ensures
        final(out)@ == old(out)@ + row_line_spec(
            grid.cells@,
            grid.size.width as int,
            y as int,
        ),
{
    let ghost w = grid.size.width as int;
    out.append("|");
    let mut x: u16 = 0;
    while x < grid.size.width
        invariant
            grid.wf(),
            y < grid.size.height,
            x <= grid.size.width,
            w == grid.size.width as int,
            out@ + row_cells_text(grid.cells@, w, y as int, x as int) == old(out)@ + "|"@
                + row_cells_text(grid.cells@, w, y as int, 0),
        decreases grid.size.width - x,
    {
        let cell = grid.get_cell(crate::terminal::util::Point { x, y });
        proof {
            assert(row_cells_text(grid.cells@, w, y as int, x as int) == cell_text(
                grid.cells@[y as int * w + x as int],
            ) + row_cells_text(grid.cells@, w, y as int, x as int + 1));
        }
        match cell {
            Cell::Empty => out.append("    "),
            Cell::Filled => out.append("1111"),
            Cell::Crossed => out.append("XXXX"),
            Cell::Maybed => out.append("????"),
            Cell::Measured(_) => out.append("RRRR"),
        }
        x += 1;
    }
    out.append("|\n");
    proof {
        assert(final(out)@ =~= old(out)@ + row_line_spec(grid.cells@, w, y as int));
    }
}

/// The saved form of the grid, exactly as the loader reads it back:
/// measurement ordinals are dropped, everything else round-trips.
pub fn serialize(grid: &Grid) -> (r: String)
    requires
        grid.wf(),
    ensures
        r@ == serialize_spec(grid.size, grid.cells@),
{
    let ghost w = grid.size.width as int;
    let ghost h = grid.size.height as int;
    let mut out = String::new();
    append_dash_line(&mut out, grid.size.width);
    let mut y: u16 = 0;
    while y < grid.size.height
        invariant
            grid.wf(),
            y <= grid.size.height,
            w == grid.size.width as int,
            h == grid.size.height as int,
            out@ + rows_text(grid.cells@, w, h, y as int) == dash_line_spec(w) + rows_text(
                grid.cells@,
                w,
                h,
                0,
            ),
        decreases grid.size.height - y,
    {
        proof {
            assert(rows_text(grid.cells@, w, h, y as int) == row_line_spec(
                grid.cells@,
                w,
                y as int,
            ) + row_line_spec(grid.cells@, w, y as int) + rows_text(
                grid.cells@,
                w,
                h,
                y as int + 1,
            ));
        }
        append_row_line(&mut out, grid, y);
        append_row_line(&mut out, grid, y);
        y += 1;
    }
    append_dash_line(&mut out, grid.size.width);
    out.append("\n");

    let mut has_filled = false;
    let mut has_crossed = false;
    let mut has_maybed = false;
    let mut has_measured = false;
    let mut i: usize = 0;
    let n = grid.cells.len();
    while i < n
        invariant
            i <= n,
            n == grid.cells@.len(),
            has_filled == exists|j: int| 0 <= j < i && (#[trigger] grid.cells@[j]) is Filled,
            has_crossed == exists|j: int| 0 <= j < i && (#[trigger] grid.cells@[j]) is Crossed,
            has_maybed == exists|j: int| 0 <= j < i && (#[trigger] grid.cells@[j]) is Maybed,
            has_measured == exists|j: int| 0 <= j < i && (#[trigger] grid.cells@[j]) is Measured,
        decreases n - i,
    {
        match grid.cells[i] {
            Cell::Empty => {},
            Cell::Filled => {
                has_filled = true;
            },
            Cell::Crossed => {
                has_crossed = true;
            },
            Cell::Maybed => {
                has_maybed = true;
            },
            Cell::Measured(_) => {
                has_measured = true;
            },
        }
        i += 1;
    }
    proof {
        assert(has_filled == holds_filled(grid.cells@));
        assert(has_crossed == holds_crossed(grid.cells@));
        assert(has_maybed == holds_maybed(grid.cells@));
        assert(has_measured == holds_measured(grid.cells@));
    }

    let mut first = true;
    if has_filled {
        out.append("1: filled");
        first = false;
    }
    if has_crossed {
        if !first {
            out.append(", ");
        }
        out.append("X: crossed");
        first = false;
    }
    if has_maybed {
        if !first {
            out.append(", ");
        }
        out.append("?: maybed");
        first = false;
    }
    if has_measured {
        if !first {
            out.append(", ");
        }
        out.append("R: measured");
    }
    proof {
        assert(out@ =~= serialize_spec(grid.size, grid.cells@));
    }
    out
}

} // verus!\n