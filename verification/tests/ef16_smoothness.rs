use harmonomino::eval_fns::ef16_smoothness::Eval;
use harmonomino::eval_fns::EvalFn;
use harmonomino::game::Board;

const EF: &dyn EvalFn = &Eval;

#[test]
fn ef16_smoothness_test_empty_board() {
    let board = Board::new();
    // All heights are 0, all differences are 0
    assert_eq!(EF.eval(&board), 0);
}

#[test]
fn test_flat_surface() {
    let mut board = Board::new();
    for col in 0..Board::WIDTH {
        board.cells[0][col] = true;
    }
    // All heights are 1, all differences are 0
    assert_eq!(EF.eval(&board), 0);
}

#[test]
fn test_single_column() {
    let mut board = Board::new();
    // Column 0 has height 5, rest have 0
    for row in 0..5 {
        board.cells[row][0] = true;
    }
    // |5-0| + |0-0|*8 + |0-5| = 5 + 0 + 5 = 10
    assert_eq!(EF.eval(&board), 10);
}

#[test]
fn test_staircase() {
    let mut board = Board::new();
    // Heights: 1, 2, 3, 4, 5, 6, 7, 8, 9, 10
    for col in 0..Board::WIDTH {
        for row in 0..=col {
            board.cells[row][col] = true;
        }
    }
    // Adjacent diffs: all are 1, so 9 * 1 = 9
    // First-last diff: |1-10| = 9
    // Total = 9 + 9 = 18
    assert_eq!(EF.eval(&board), 18);
}
