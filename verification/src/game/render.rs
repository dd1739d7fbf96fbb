//! Boards and cell sets as text: `█` for a marked cell, `.` for any other,
//! the highest row first.

use super::board::Board;
use crate::numeric::{lemma_max_range, lemma_min_range, max_range, min_range};
use crate::text::string_of;
use vstd::prelude::*;

verus! {

/// The columns of a list of cells, by index.
pub open spec fn columns(cells: Seq<(i8, i8)>) -> spec_fn(int) -> int {
    |i: int| cells[i].0 as int
}

/// The rows of a list of cells, by index.
pub open spec fn rows(cells: Seq<(i8, i8)>) -> spec_fn(int) -> int {
    |i: int| cells[i].1 as int
}

/// The rectangle that a picture shows: columns `min_col..=max_col` and rows
/// `min_row..=max_row`.
pub struct Frame {
    pub min_col: int,
    pub max_col: int,
    pub min_row: int,
    pub max_row: int,
}

/// The rectangle shown for the given cells and size. With a width and a
/// height it starts at the origin and has that size. If either is 0 it is
/// the smallest rectangle that holds every cell, and the single cell at the
/// origin when there are none.
///
/// Columns and rows are `i8`: of a width or height above 128 only the
/// lowest eight bits count, as a signed number, and a frame that ends
/// before it starts shows nothing.
pub open spec fn frame_of(cells: Seq<(i8, i8)>, width: usize, height: usize) -> Frame {
    if width == 0 || height == 0 {
        if cells.len() == 0 {
            Frame { min_col: 0, max_col: 0, min_row: 0, max_row: 0 }
        } else {
            Frame {
                min_col: min_range(0, cells.len() as int, columns(cells), 127),
                max_col: max_range(0, cells.len() as int, columns(cells), -128),
                min_row: min_range(0, cells.len() as int, rows(cells), 127),
                max_row: max_range(0, cells.len() as int, rows(cells), -128),
            }
        }
    } else {
        Frame {
            min_col: 0,
            max_col: ((width - 1) as i8) as int,
            min_row: 0,
            max_row: ((height - 1) as i8) as int,
        }
    }
}

/// The character that stands for a cell.
pub open spec fn symbol(marked: bool) -> char {
    if marked {
        '█'
    } else {
        '.'
    }
}

/// The picture of one row, from column `min_col` up to, not including,
/// `upto`.
pub open spec fn row_text(marked: spec_fn(int, int) -> bool, row: int, min_col: int, upto: int) -> Seq<
    char,
>
    decreases upto - min_col,
{
    if upto <= min_col {
        Seq::empty()
    } else {
        row_text(marked, row, min_col, upto - 1).push(symbol(marked(upto - 1, row)))
    }
}

/// The picture of the `lines` highest rows of the frame: one line for each
/// row, the highest first, with a line feed between two lines.
pub open spec fn grid_text(marked: spec_fn(int, int) -> bool, frame: Frame, lines: int) -> Seq<char>
    decreases lines,
{
    if lines <= 0 {
        Seq::empty()
    } else {
        let above = grid_text(marked, frame, lines - 1);
        let line = row_text(marked, frame.max_row - (lines - 1), frame.min_col, frame.max_col + 1);
        if lines == 1 {
            above + line
        } else {
            above.push('\n') + line
        }
    }
}

/// The whole picture of the frame.
pub open spec fn picture(marked: spec_fn(int, int) -> bool, frame: Frame) -> Seq<char> {
    grid_text(marked, frame, frame.max_row - frame.min_row + 1)
}

/// The cells of a list, as a predicate on column and row.
pub open spec fn listed(cells: Seq<(i8, i8)>) -> spec_fn(int, int) -> bool {
    |col: int, row: int| exists|i: int| 0 <= i < cells.len() && cells[i] == (col as i8, row as i8)
}

/// The filled cells of a board, as a predicate on column and row.
pub open spec fn filled_cells(board: Board) -> spec_fn(int, int) -> bool {
    |col: int, row: int| board.filled(row, col)
}

/// Checks whether the list holds the cell.
fn holds_cell(cells: &[(i8, i8)], col: i8, row: i8) -> (found: bool)
    ensures
        found == listed(cells@)(col as int, row as int),
{
    let mut i: usize = 0;
    while i < cells.len()
        invariant
            i <= cells@.len(),
            forall|j: int| 0 <= j < i ==> cells@[j] != (col, row),
        decreases cells@.len() - i,
    {
        if cells[i].0 == col && cells[i].1 == row {
            assert(cells@[i as int] == (col as int as i8, row as int as i8));
            return true;
        }
        i += 1;
    }
    false
}

/// Finds the frame of a list of cells when no size is given.
fn frame_around(cells: &[(i8, i8)]) -> (frame: (i8, i8, i8, i8))
    ensures
        frame_of(cells@, 0, 0) == (Frame {
            min_col: frame.0 as int,
            max_col: frame.1 as int,
            min_row: frame.2 as int,
            max_row: frame.3 as int,
        }),
        frame.0 <= frame.1,
        frame.2 <= frame.3,
{
    if cells.len() == 0 {
        return (0, 0, 0, 0);
    }
    let mut min_col: i8 = 127;
    let mut max_col: i8 = -128;
    let mut min_row: i8 = 127;
    let mut max_row: i8 = -128;
    let mut i: usize = 0;
    while i < cells.len()
        invariant
            i <= cells@.len(),
            min_col == min_range(0, i as int, columns(cells@), 127),
            max_col == max_range(0, i as int, columns(cells@), -128),
            min_row == min_range(0, i as int, rows(cells@), 127),
            max_row == max_range(0, i as int, rows(cells@), -128),
        decreases cells@.len() - i,
    {
        let (col, row) = cells[i];
        if col < min_col {
            min_col = col;
        }
        if col > max_col {
            max_col = col;
        }
        if row < min_row {
            min_row = row;
        }
        if row > max_row {
            max_row = row;
        }
        i += 1;
    }
    proof {
        let n = cells@.len() as int;
        lemma_min_range(0, n, columns(cells@), 127);
        lemma_max_range(0, n, columns(cells@), -128);
        lemma_min_range(0, n, rows(cells@), 127);
        lemma_max_range(0, n, rows(cells@), -128);
        assert(columns(cells@)(0) >= min_col && columns(cells@)(0) <= max_col);
        assert(rows(cells@)(0) >= min_row && rows(cells@)(0) <= max_row);
    }
    (min_col, max_col, min_row, max_row)
}

/// Renders a set of cells as a text grid.
///
/// Cells are rendered as `█`, empty spaces as `.`. The grid is displayed
/// top-to-bottom (highest row first), without a line feed at the end.
///
/// If `width` or `height` is 0, bounds are calculated from the cells.
pub fn visualize_cells(cells: &[(i8, i8)], width: usize, height: usize) -> (text: String)
    ensures
        text@ == picture(listed(cells@), frame_of(cells@, width, height)),
{
    let (min_col, max_col, min_row, max_row) = if width == 0 || height == 0 {
        frame_around(cells)
    } else {
        (
            0i8,
            #[verifier::truncate]
            ((width - 1) as i8),
            0i8,
            #[verifier::truncate]
            ((height - 1) as i8),
        )
    };
    let ghost frame = frame_of(cells@, width, height);
    let ghost marked = listed(cells@);
    let lines: i16 = max_row as i16 - min_row as i16 + 1;
    let mut chars: Vec<char> = Vec::new();
    let mut line: i16 = 0;
    while line < lines
        invariant
            0 <= line,
            line <= lines || line == 0,
            lines == max_row - min_row + 1,
            frame == (Frame {
                min_col: min_col as int,
                max_col: max_col as int,
                min_row: min_row as int,
                max_row: max_row as int,
            }),
            marked == listed(cells@),
            chars@ == grid_text(marked, frame, line as int),
        decreases lines - line,
    {
        let row: i8 = (max_row as i16 - line) as i8;
        if line > 0 {
            chars.push('\n');
        }
        let ghost before = chars@;
        let mut col: i16 = min_col as i16;
        while col <= max_col as i16
            invariant
                min_col <= col,
                col <= max_col + 1 || col == min_col,
                marked == listed(cells@),
                chars@ == before + row_text(marked, row as int, min_col as int, col as int),
            decreases max_col + 1 - col,
        {
            let found = holds_cell(cells, col as i8, row);
            chars.push(if found {
                '█'
            } else {
                '.'
            });
            assert(chars@ =~= before + row_text(marked, row as int, min_col as int, col + 1));
            col += 1;
        }
        assert(row_text(marked, row as int, min_col as int, col as int) == row_text(
            marked,
            row as int,
            min_col as int,
            max_col + 1,
        ));
        line += 1;
    }
    string_of(&chars)
}

/// The picture of a board does not depend on how its cells are listed: two
/// ways of marking cells that agree inside the frame give the same picture.
pub proof fn lemma_same_marks_same_picture(
    a: spec_fn(int, int) -> bool,
    b: spec_fn(int, int) -> bool,
    frame: Frame,
    lines: int,
)
    requires
        forall|col: int, row: int|
            frame.min_col <= col <= frame.max_col && frame.min_row <= row <= frame.max_row
                ==> #[trigger] a(col, row) == b(col, row),
        lines <= frame.max_row - frame.min_row + 1,
    ensures
        grid_text(a, frame, lines) == grid_text(b, frame, lines),
    decreases lines,
{
    if lines > 0 {
        lemma_same_marks_same_picture(a, b, frame, lines - 1);
        lemma_same_marks_same_row(
            a,
            b,
            frame.max_row - (lines - 1),
            frame.min_col,
            frame.max_col + 1,
        );
    }
}

/// Two ways of marking cells that agree on a stretch of a row give the same
/// picture of it.
pub proof fn lemma_same_marks_same_row(
    a: spec_fn(int, int) -> bool,
    b: spec_fn(int, int) -> bool,
    row: int,
    min_col: int,
    upto: int,
)
    requires
        forall|col: int| min_col <= col < upto ==> #[trigger] a(col, row) == b(col, row),
    ensures
        row_text(a, row, min_col, upto) == row_text(b, row, min_col, upto),
    decreases upto - min_col,
{
    if upto > min_col {
        lemma_same_marks_same_row(a, b, row, min_col, upto - 1);
    }
}

impl Board {
    /// The frame of the whole board.
    pub open spec fn frame() -> Frame {
        Frame { min_col: 0, max_col: 9, min_row: 0, max_row: 19 }
    }

    /// Lists the filled cells as `(col, row)`, row by row from the bottom.
    pub fn occupied_cells(&self) -> (cells: Vec<(i8, i8)>)
        ensures
            forall|col: int, row: int|
                0 <= col < 10 && 0 <= row < 20 ==> listed(cells@)(col, row) == self.filled(row, col),
    {
        let mut cells: Vec<(i8, i8)> = Vec::new();
        let mut row: usize = 0;
        while row < 20
            invariant
                row <= 20,
                forall|i: int|
                    0 <= i < cells@.len() ==> 0 <= (#[trigger] cells@[i]).0 < 10 && 0 <= cells@[i].1
                        < row && self.filled(cells@[i].1 as int, cells@[i].0 as int),
                forall|c: int, r: int|
                    0 <= c < 10 && 0 <= r < row && self.filled(r, c) ==> listed(cells@)(c, r),
            decreases 20 - row,
        {
            let mut col: usize = 0;
            while col < 10
                invariant
                    row < 20,
                    col <= 10,
                    forall|i: int|
                        0 <= i < cells@.len() ==> 0 <= (#[trigger] cells@[i]).0 < 10 && 0
                            <= cells@[i].1 <= row && self.filled(
                            cells@[i].1 as int,
                            cells@[i].0 as int,
                        ) && (cells@[i].1 == row ==> cells@[i].0 < col),
                    forall|c: int, r: int|
                        0 <= c < 10 && 0 <= r < row && self.filled(r, c) ==> listed(cells@)(c, r),
                    forall|c: int| 0 <= c < col && self.filled(row as int, c) ==> listed(cells@)(
                        c,
                        row as int,
                    ),
                decreases 10 - col,
            {
                if self.cells[row][col] {
                    let ghost earlier = cells@;
                    cells.push((col as i8, row as i8));
                    proof {
                        let n = earlier.len() as int;
                        assert(cells@[n] == (col as int as i8, row as int as i8));
                        assert forall|c: int, r: int|
                            0 <= c < 10 && 0 <= r < row && self.filled(r, c) implies listed(cells@)(
                            c,
                            r,
                        ) by {
                            let i = choose|i: int|
                                0 <= i < earlier.len() && earlier[i] == (c as i8, r as i8);
                            assert(cells@[i] == earlier[i]);
                        }
                        assert forall|c: int|
                            0 <= c < col + 1 && self.filled(row as int, c) implies listed(cells@)(
                            c,
                            row as int,
                        ) by {
                            if c < col {
                                let i = choose|i: int|
                                    0 <= i < earlier.len() && earlier[i] == (c as i8, row as int as i8);
                                assert(cells@[i] == earlier[i]);
                            }
                        }
                    }
                }
                col += 1;
            }
            row += 1;
        }
        proof {
            assert forall|col: int, row: int| 0 <= col < 10 && 0 <= row < 20 implies listed(cells@)(
                col,
                row,
            ) == self.filled(row, col) by {
                if listed(cells@)(col, row) {
                    let i = choose|i: int|
                        0 <= i < cells@.len() && cells@[i] == (col as i8, row as i8);
                    assert(self.filled(cells@[i].1 as int, cells@[i].0 as int));
                }
            }
        }
        cells
    }

    /// The board as text: twenty lines of ten characters, the top row
    /// first, `█` for a filled cell and `.` for an empty one.
    pub fn to_text(&self) -> (text: String)
        ensures
            text@ == picture(filled_cells(*self), Self::frame()),
    {
        let cells = self.occupied_cells();
        proof {
            lemma_same_marks_same_picture(
                listed(cells@),
                filled_cells(*self),
                Self::frame(),
                20,
            );
        }
        visualize_cells(cells.as_slice(), 10, 20)
    }
}

} // verus!
