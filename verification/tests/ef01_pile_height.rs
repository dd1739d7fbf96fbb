use harmonomino::eval_fns::ef01_pile_height::PileHeight;
use harmonomino::eval_fns::EvalFn;
use harmonomino::game::Board;

const EF: &dyn EvalFn = &PileHeight;

#[test]
fn test_pile_height_empty_board() {
    let board = Board::new();
    assert_eq!(EF.eval(&board), 0);
}

#[test]
fn test_pile_height_bottom_row() {
    let mut board = Board::new();
    board.cells[0][0] = true;
    assert_eq!(EF.eval(&board), 1);
}

#[test]
fn test_pile_height_top_row() {
    let mut board = Board::new();
    board.cells[19][0] = true;
    assert_eq!(EF.eval(&board), 20);
}

#[test]
fn test_pile_height_middle() {
    let mut board = Board::new();
    board.cells[12][5] = true; // Row 12 (0-indexed) -> pile height 13
    assert_eq!(EF.eval(&board), 13);
}
