use harmonomino::eval_fns::ef18_row_holes::RowHoles;
use harmonomino::eval_fns::EvalFn;
use harmonomino::game::Board;

const EF: &dyn EvalFn = &RowHoles;

#[test]
fn ef18_row_holes_test_no_holes() {
    let board = Board::new();
    assert_eq!(EF.eval(&board), 0);
}

#[test]
fn test_one_row_with_hole() {
    let mut board = Board::new();
    // Block at row 1, hole at row 0
    board.cells[1][0] = true;
    assert_eq!(EF.eval(&board), 1);
}

#[test]
fn test_multiple_holes_same_row() {
    let mut board = Board::new();
    // Blocks at row 1 in columns 0 and 5, holes at row 0
    board.cells[1][0] = true;
    board.cells[1][5] = true;
    // Still only 1 row with holes
    assert_eq!(EF.eval(&board), 1);
}

#[test]
fn test_multiple_rows_with_holes() {
    let mut board = Board::new();
    // Block at row 5 creates holes in rows 0-4
    board.cells[5][0] = true;
    assert_eq!(EF.eval(&board), 5);
}

#[test]
fn test_scattered_holes() {
    let mut board = Board::new();
    // Block at row 2 col 0
    board.cells[2][0] = true;
    // Block at row 4 col 5
    board.cells[4][5] = true;
    // Rows with holes: 0, 1 (from col 0), and 0, 1, 2, 3 (from col 5)
    // Unique rows: 0, 1, 2, 3 = 4 rows
    assert_eq!(EF.eval(&board), 4);
}
