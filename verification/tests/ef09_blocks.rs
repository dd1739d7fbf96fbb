use harmonomino::eval_fns::ef09_blocks::Blocks;
use harmonomino::eval_fns::EvalFn;
use harmonomino::game::Board;

const EF: &dyn EvalFn = &Blocks;

#[test]
fn ef09_blocks_test_blocks_empty_board() {
    let board = Board::new();
    assert_eq!(EF.eval(&board), 0);
}

#[test]
fn ef09_blocks_test_blocks_partial_board() {
    let mut board = Board::new();
    board.cells[0][0] = true;
    board.cells[1][1] = true;
    assert_eq!(EF.eval(&board), 2);
}
