//! What a cell of the board looks like on screen: its kind, its colour, the
//! characters that stand for it and the room it takes.

use crate::game::{Board, Tetromino};
use crate::text::string_of;
use vstd::prelude::*;

verus! {

/// Info panel width.
pub const INFO_PANEL_WIDTH: u16 = 20;

/// Minimum cell width.
pub const MIN_CELL_WIDTH: u16 = 2;

/// Minimum cell height.
pub const MIN_CELL_HEIGHT: u16 = 1;

/// What stands in a cell of the picture.
#[derive(Debug, Clone, Copy, PartialEq, Eq, Structural)]
pub enum CellType {
    Empty,
    Filled,
    Shadow,
}

/// The colours of the picture.
#[derive(Debug, Clone, Copy, PartialEq, Eq, Structural)]
pub enum CellColor {
    Gray,
    DarkGray,
    Cyan,
    Yellow,
    Magenta,
    Green,
    Red,
    Blue,
    LightRed,
}

/// The colour of each tetromino.
pub open spec fn color_of(tetromino: Tetromino) -> CellColor {
    match tetromino {
        Tetromino::I => CellColor::Cyan,
        Tetromino::O => CellColor::Yellow,
        Tetromino::T => CellColor::Magenta,
        Tetromino::S => CellColor::Green,
        Tetromino::Z => CellColor::Red,
        Tetromino::J => CellColor::Blue,
        Tetromino::L => CellColor::LightRed,
    }
}

/// Returns the color for a tetromino type.
pub fn tetromino_color(tetromino: Tetromino) -> (color: CellColor)
    ensures
        color == color_of(tetromino),
{
    match tetromino {
        Tetromino::I => CellColor::Cyan,
        Tetromino::O => CellColor::Yellow,
        Tetromino::T => CellColor::Magenta,
        Tetromino::S => CellColor::Green,
        Tetromino::Z => CellColor::Red,
        Tetromino::J => CellColor::Blue,
        Tetromino::L => CellColor::LightRed,
    }
}

/// `value`, or `floor` if `value` is below it.
pub open spec fn at_least(value: int, floor: int) -> int {
    if value < floor {
        floor
    } else {
        value
    }
}

/// The size of a cell, as `(width, height)` in characters, that makes the
/// board with its border fit an area of the given size. A character is
/// about twice as high as wide, so a cell is twice as wide as high, or as
/// near to that as the area allows; it is never smaller than 2 by 1.
pub open spec fn cell_size(area_width: int, area_height: int) -> (int, int) {
    let max_width = at_least(area_width - 2, 0) / 10;
    let max_height = at_least(area_height - 2, 0) / 20;
    if max_width >= max_height * 2 {
        (at_least(max_height * 2, 2), at_least(max_height, 1))
    } else {
        (at_least(max_width, 2), at_least((max_width + 1) / 2, 1))
    }
}

/// Calculates optimal cell dimensions to fit the board in an area of the
/// given width and height. Returns `(cell_width, cell_height)` that
/// maintains roughly square cells.
pub fn calculate_cell_size(area_width: u16, area_height: u16) -> (size: (u16, u16))
    ensures
        size.0 == cell_size(area_width as int, area_height as int).0,
        size.1 == cell_size(area_width as int, area_height as int).1,
{
    let available_width = if area_width >= 2 {
        area_width - 2
    } else {
        0
    };
    let available_height = if area_height >= 2 {
        area_height - 2
    } else {
        0
    };
    let max_cell_width = available_width / 10;
    let max_cell_height = available_height / 20;
    let cell_width;
    let cell_height;
    if max_cell_width >= max_cell_height * 2 {
        cell_height = max_cell_height;
        cell_width = cell_height * 2;
    } else {
        cell_width = max_cell_width;
        cell_height = (cell_width + 1) / 2;
    }
    (
        if cell_width < MIN_CELL_WIDTH {
            MIN_CELL_WIDTH
        } else {
            cell_width
        },
        if cell_height < MIN_CELL_HEIGHT {
            MIN_CELL_HEIGHT
        } else {
            cell_height
        },
    )
}

/// One of the four cells is `(col, row)`.
pub open spec fn among(cells: [(i8, i8); 4], col: int, row: int) -> bool {
    exists|k: int| 0 <= k < 4 && cells[k] == (col as i8, row as i8)
}

/// Checks whether one of the four cells is `(col, row)`.
fn is_among(cells: &[(i8, i8); 4], col: i8, row: i8) -> (found: bool)
    ensures
        found == among(*cells, col as int, row as int),
{
    let mut k: usize = 0;
    while k < 4
        invariant
            k <= 4,
            forall|j: int| 0 <= j < k ==> cells[j] != (col, row),
        decreases 4 - k,
    {
        if cells[k].0 == col && cells[k].1 == row {
            assert(cells[k as int] == (col as int as i8, row as int as i8));
            return true;
        }
        k += 1;
    }
    false
}

/// What the cell at `(col, row)` shows: a block of the board in gray; else
/// a cell of the piece in flight in the piece's colour; else a cell of the
/// ghost in dark gray; else nothing.
pub open spec fn appearance(
    board: Board,
    col: int,
    row: int,
    current: Option<([(i8, i8); 4], Tetromino)>,
    ghost: Option<[(i8, i8); 4]>,
) -> (CellType, Option<CellColor>) {
    if board.filled(row, col) {
        (CellType::Filled, Some(CellColor::Gray))
    } else if current is Some && among(current.unwrap().0, col, row) {
        (CellType::Filled, Some(color_of(current.unwrap().1)))
    } else if ghost is Some && among(ghost.unwrap(), col, row) {
        (CellType::Shadow, Some(CellColor::DarkGray))
    } else {
        (CellType::Empty, None)
    }
}

/// Determines what to display for a cell.
pub fn get_cell_appearance(
    board: &Board,
    col: usize,
    board_row: usize,
    current_cells: Option<([(i8, i8); 4], Tetromino)>,
    ghost_cells: Option<[(i8, i8); 4]>,
) -> (look: (CellType, Option<CellColor>))
    requires
        col < 10,
        board_row < 20,
    ensures
        look == appearance(*board, col as int, board_row as int, current_cells, ghost_cells),
{
    if board.cells[board_row][col] {
        return (CellType::Filled, Some(CellColor::Gray));
    }
    match current_cells {
        Some((cells, tetromino)) => {
            if is_among(&cells, col as i8, board_row as i8) {
                return (CellType::Filled, Some(tetromino_color(tetromino)));
            }
        },
        None => {},
    }
    match ghost_cells {
        Some(cells) => {
            if is_among(&cells, col as i8, board_row as i8) {
                return (CellType::Shadow, Some(CellColor::DarkGray));
            }
        },
        None => {},
    }
    (CellType::Empty, None)
}

/// The character that a kind of cell is drawn with.
pub open spec fn glyph(cell_type: CellType) -> char {
    match cell_type {
        CellType::Empty => ' ',
        CellType::Filled => '█',
        CellType::Shadow => '░',
    }
}

/// Renders a cell using block characters: its character, `width` times.
pub fn render_cell(cell_type: CellType, width: u16) -> (text: String)
    ensures
        text@ == Seq::new(width as nat, |i: int| glyph(cell_type)),
{
    let mark = match cell_type {
        CellType::Empty => ' ',
        CellType::Filled => '█',
        CellType::Shadow => '░',
    };
    let mut chars: Vec<char> = Vec::new();
    let mut i: u16 = 0;
    while i < width
        invariant
            i <= width,
            mark == glyph(cell_type),
            chars@ == Seq::new(i as nat, |k: int| glyph(cell_type)),
        decreases width - i,
    {
        chars.push(mark);
        assert(chars@ =~= Seq::new((i + 1) as nat, |k: int| glyph(cell_type)));
        i += 1;
    }
    string_of(&chars)
}

} // verus!
