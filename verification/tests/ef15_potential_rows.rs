use harmonomino::eval_fns::ef15_potential_rows::PotentialRows;
use harmonomino::eval_fns::EvalFn;
use harmonomino::game::Board;

const EF: &dyn EvalFn = &PotentialRows;

#[test]
fn ef15_potential_rows_test_no_holes() {
    let board = Board::new();
    assert_eq!(EF.eval(&board), 0);
}

#[test]
fn test_no_potential_rows() {
    let mut board = Board::new();
    // Hole at row 0, sparse row above
    board.cells[1][0] = true;
    board.cells[1][1] = true;
    assert_eq!(EF.eval(&board), 0);
}

#[test]
fn test_one_potential_row() {
    let mut board = Board::new();
    // Create a hole at row 0 (need block above it)
    board.cells[1][0] = true;
    // Fill row 2 with 9 cells (>8)
    for col in 0..9 {
        board.cells[2][col] = true;
    }
    assert_eq!(EF.eval(&board), 1);
}

#[test]
fn test_row_with_exactly_8_not_counted() {
    let mut board = Board::new();
    board.cells[1][0] = true; // Creates hole at row 0
    // Fill row 2 with exactly 8 cells
    for col in 0..8 {
        board.cells[2][col] = true;
    }
    assert_eq!(EF.eval(&board), 0);
}
