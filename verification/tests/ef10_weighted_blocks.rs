use harmonomino::eval_fns::ef10_weighted_blocks::WeightedBlocks;
use harmonomino::eval_fns::EvalFn;
use harmonomino::game::Board;

const EF: &dyn EvalFn = &WeightedBlocks;

#[test]
fn ef10_weighted_blocks_test_blocks_empty_board() {
    let board = Board::new();
    assert_eq!(EF.eval(&board), 0);
}

#[test]
fn ef10_weighted_blocks_test_blocks_partial_board() {
    let mut board = Board::new();
    board.cells[0][0] = true; // Weighs 1
    board.cells[1][1] = true; // Weighs 2
    assert_eq!(EF.eval(&board), 3);
}
