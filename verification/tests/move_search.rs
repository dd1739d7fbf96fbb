use harmonomino::agent::simulator::{
    best_in_row, best_placement, find_best_move, try_placement, ScoringMode,
};
use harmonomino::game::{Board, Rotation, Tetromino};

const ZERO: [i64; 16] = [0; 16];

fn bottom_row_open_on_the_left() -> Board {
    let mut board = Board::new();
    for col in 4..10 {
        board.cells[0][col] = true;
    }
    board
}

#[test]
fn an_i_piece_on_an_empty_board_clears_nothing() {
    let board = Board::new();
    let (after, rows) =
        find_best_move(&board, Tetromino::I, &ZERO, ScoringMode::Full, 16).expect("a move");
    assert_eq!(rows, 0);
    assert_eq!(after.cell_count(), 4);
}

fn second_row_open_on_the_left() -> Board {
    let mut board = Board::new();
    for col in 0..4 {
        board.cells[0][col] = true;
    }
    for col in 4..10 {
        board.cells[1][col] = true;
    }
    board
}

#[test]
fn the_i_piece_completes_the_bottom_row() {
    // The bottom row lacks columns 0 to 3: the I laid flat there clears it.
    let board = bottom_row_open_on_the_left();
    for mode in [ScoringMode::Full, ScoringMode::RowsOnly] {
        let (after, rows) =
            find_best_move(&board, Tetromino::I, &ZERO, mode, 16).expect("a move");
        assert_eq!(rows, 1);
        assert_eq!(after, Board::new());
    }
    // Heuristics alone find it too when blocks are held against a board.
    let mut weights = ZERO;
    weights[6] = -1_000_000;
    let (after, rows) =
        find_best_move(&board, Tetromino::I, &weights, ScoringMode::HeuristicsOnly, 16)
            .expect("a move");
    assert_eq!(rows, 1);
    assert!(after.is_empty());

    let best = best_placement(&board, Tetromino::I, &ZERO, ScoringMode::Full, 16).expect("a move");
    assert_eq!((best.rotation, best.row, best.col), (0, 0, 0));
    assert_eq!(best.score, 1_000_000);
    assert_eq!(best.rows_cleared, 1);
}

#[test]
fn every_resting_place_is_tried() {
    // On an empty board every shape in every state can lie on the floor
    // against either wall, and no further to the right.
    let board = Board::new();
    for shape in Tetromino::ALL {
        for rotation in 0..4u8 {
            let cells = shape.cells(Rotation(rotation));
            let width = cells.iter().map(|&(c, _)| c as u8).max().expect("four cells") + 1;
            assert_eq!(cells.iter().map(|&(c, _)| c).min(), Some(0));
            assert_eq!(cells.iter().map(|&(_, r)| r).min(), Some(0));
            for col in [0, 10 - width] {
                let placed =
                    try_placement(&board, shape, &ZERO, ScoringMode::RowsOnly, 16, rotation, 0, col)
                        .expect("a place on the floor");
                assert_eq!(placed.board.cell_count(), 4);
                for &(c, r) in &cells {
                    assert!(placed.board.cells[r as usize][(col + c as u8) as usize]);
                }
            }
            if width > 1 {
                let beyond = 11 - width;
                assert!(try_placement(
                    &board,
                    shape,
                    &ZERO,
                    ScoringMode::RowsOnly,
                    16,
                    rotation,
                    0,
                    beyond
                )
                .is_none());
            }
        }
    }
}

#[test]
fn equal_scores_go_to_the_first_slot() {
    let board = Board::new();
    let best =
        best_placement(&board, Tetromino::O, &ZERO, ScoringMode::RowsOnly, 16).expect("a move");
    assert_eq!((best.rotation, best.row, best.col), (0, 0, 0));
    let mut expected = Board::new();
    expected.cells[0][0] = true;
    expected.cells[0][1] = true;
    expected.cells[1][0] = true;
    expected.cells[1][1] = true;
    assert_eq!(best.board, expected);

    // The I lies flat in the left corner, in its first state.
    let best =
        best_placement(&board, Tetromino::I, &ZERO, ScoringMode::RowsOnly, 16).expect("a move");
    assert_eq!((best.rotation, best.row, best.col), (0, 0, 0));
    let mut flat = Board::new();
    for col in 0..4 {
        flat.cells[0][col] = true;
    }
    assert_eq!(best.board, flat);
}

#[test]
fn the_upright_i_piece_fills_a_gap_at_the_left_wall() {
    // Four rows lack column 0 only: the I stood upright there clears them.
    let mut board = Board::new();
    for row in 0..4 {
        for col in 1..10 {
            board.cells[row][col] = true;
        }
    }
    let (after, rows) =
        find_best_move(&board, Tetromino::I, &ZERO, ScoringMode::RowsOnly, 16).expect("a move");
    assert_eq!(rows, 4);
    assert_eq!(after, Board::new());
    let best =
        best_placement(&board, Tetromino::I, &ZERO, ScoringMode::RowsOnly, 16).expect("a move");
    assert_eq!((best.rotation, best.row, best.col), (1, 0, 0));

    // With every other cell of the board filled it is the only place, and
    // every row goes.
    let mut board = Board::from_cells([[true; 10]; 20]);
    for row in 0..4 {
        board.cells[row][0] = false;
    }
    let (after, rows) =
        find_best_move(&board, Tetromino::I, &ZERO, ScoringMode::RowsOnly, 16).expect("a move");
    assert_eq!(rows, 20);
    assert!(after.is_empty());
    for shape in [Tetromino::O, Tetromino::T, Tetromino::S] {
        assert!(find_best_move(&board, shape, &ZERO, ScoringMode::RowsOnly, 16).is_none());
    }
}

#[test]
fn a_full_board_has_no_move() {
    let board = Board::from_cells([[true; 10]; 20]);
    for shape in Tetromino::ALL {
        assert!(find_best_move(&board, shape, &ZERO, ScoringMode::Full, 16).is_none());
        assert!(best_placement(&board, shape, &ZERO, ScoringMode::Full, 16).is_none());
    }
}

#[test]
fn the_cell_count_follows_the_move() {
    let mut board = bottom_row_open_on_the_left();
    board.cells[1][9] = true;
    board.cells[2][9] = true;
    board.cells[1][0] = true;
    let mut weights = ZERO;
    for (i, w) in weights.iter_mut().enumerate() {
        *w = (i as i64 - 8) * 250_000;
    }
    for shape in Tetromino::ALL {
        for mode in [
            ScoringMode::Full,
            ScoringMode::HeuristicsOnly,
            ScoringMode::RowsOnly,
        ] {
            for n_weights in [0usize, 3, 16, 40] {
                let (after, rows) =
                    find_best_move(&board, shape, &weights, mode, n_weights).expect("a move");
                assert_eq!(after.cell_count() + 10 * rows, board.cell_count() + 4);
                assert!(after.full_rows().is_empty());
            }
        }
    }
}

#[test]
fn the_search_gives_the_same_answer_every_time() {
    let mut board = bottom_row_open_on_the_left();
    board.cells[1][5] = true;
    let mut weights = ZERO;
    weights[1] = -3_000_000;
    weights[0] = -500_000;
    let first = find_best_move(&board, Tetromino::S, &weights, ScoringMode::Full, 16);
    for _ in 0..20 {
        assert_eq!(
            find_best_move(&board, Tetromino::S, &weights, ScoringMode::Full, 16),
            first
        );
    }
}

#[test]
fn holes_are_avoided_when_they_weigh_against() {
    // One gap in the bottom row at column 0, the rest filled up to row 0.
    let mut board = Board::new();
    for col in 1..10 {
        board.cells[0][col] = true;
    }
    let mut weights = ZERO;
    weights[1] = -1_000_000;
    let best = best_placement(&board, Tetromino::I, &weights, ScoringMode::HeuristicsOnly, 16)
        .expect("a move");
    // Flat over columns 0 to 3 the I would cover the gap; over columns 1 to
    // 4 it leaves no hole.
    assert_eq!((best.rotation, best.row, best.col), (0, 1, 1));
    assert_eq!(best.score, 0);
    assert_eq!(best.rows_cleared, 0);
    assert_eq!(best.board.column_height(0), 0);
    let covered = try_placement(
        &board,
        Tetromino::I,
        &weights,
        ScoringMode::HeuristicsOnly,
        16,
        0,
        1,
        0,
    )
    .expect("legal");
    assert_eq!(covered.score, -1_000_000);
}

#[test]
fn scores_follow_the_mode() {
    let board = second_row_open_on_the_left();
    let mut weights = ZERO;
    weights[6] = 2_000_000;
    // The I flat on the left of row 1: one row cleared, four blocks left.
    let full = try_placement(&board, Tetromino::I, &weights, ScoringMode::Full, 16, 0, 1, 0)
        .expect("legal");
    assert_eq!(full.rows_cleared, 1);
    assert_eq!(full.score, 9_000_000);
    // The I upright on column 2: fourteen blocks left, none cleared.
    let upright = try_placement(&board, Tetromino::I, &weights, ScoringMode::Full, 16, 1, 1, 2)
        .expect("legal");
    assert_eq!(upright.rows_cleared, 0);
    assert_eq!(upright.score, 28_000_000);
    let heuristics =
        try_placement(&board, Tetromino::I, &weights, ScoringMode::HeuristicsOnly, 16, 0, 1, 0)
            .expect("legal");
    assert_eq!(heuristics.score, 8_000_000);
    let rows_only =
        try_placement(&board, Tetromino::I, &weights, ScoringMode::RowsOnly, 16, 0, 1, 0)
            .expect("legal");
    assert_eq!(rows_only.score, 1_000_000);
    // With fewer weights than the index of the block count, it weighs nothing.
    let cut = try_placement(&board, Tetromino::I, &weights, ScoringMode::Full, 6, 1, 1, 2)
        .expect("legal");
    assert_eq!(cut.score, 0);
    // Floating and overlapping slots are no placements.
    assert!(try_placement(&board, Tetromino::I, &weights, ScoringMode::Full, 16, 0, 5, 0).is_none());
    assert!(try_placement(&board, Tetromino::I, &weights, ScoringMode::Full, 16, 0, 0, 0).is_none());
    assert!(try_placement(&board, Tetromino::I, &weights, ScoringMode::Full, 16, 0, 1, 3).is_none());
}

#[test]
fn a_row_of_slots_gives_its_first_best() {
    let board = second_row_open_on_the_left();
    // On the floor, to the right of the blocks: columns 4 to 6 are legal,
    // none clears.
    let best = best_in_row(&board, Tetromino::I, &ZERO, ScoringMode::RowsOnly, 16, 0, 0)
        .expect("legal");
    assert_eq!((best.rotation, best.row, best.col), (0, 0, 4));
    assert_eq!(best.rows_cleared, 0);
    // In row 1 the gap on the left is the only place, and it clears.
    let best = best_in_row(&board, Tetromino::I, &ZERO, ScoringMode::RowsOnly, 16, 0, 1)
        .expect("legal");
    assert_eq!((best.rotation, best.row, best.col), (0, 1, 0));
    assert_eq!(best.rows_cleared, 1);
    // One row up, flat on the blocks of row 1: columns 1 to 6 are legal,
    // none clears.
    let best = best_in_row(&board, Tetromino::I, &ZERO, ScoringMode::RowsOnly, 16, 0, 2)
        .expect("legal");
    assert_eq!((best.rotation, best.row, best.col), (0, 2, 1));
    assert_eq!(best.rows_cleared, 0);
    assert!(best_in_row(&board, Tetromino::I, &ZERO, ScoringMode::RowsOnly, 16, 0, 5).is_none());
}

#[test]
fn scoring_modes_have_names() {
    assert_eq!(ScoringMode::Full.name(), "full");
    assert_eq!(ScoringMode::HeuristicsOnly.name(), "heuristics-only");
    assert_eq!(ScoringMode::RowsOnly.name(), "rows-only");
    assert_eq!(ScoringMode::from_name("full"), Some(ScoringMode::Full));
    assert_eq!(
        ScoringMode::from_name("heuristics-only"),
        Some(ScoringMode::HeuristicsOnly)
    );
    assert_eq!(ScoringMode::from_name("rows-only"), Some(ScoringMode::RowsOnly));
    assert_eq!(ScoringMode::from_name("Full"), None);
    assert_eq!(ScoringMode::from_name(""), None);
    assert_eq!("rows-only".parse::<ScoringMode>(), Ok(ScoringMode::RowsOnly));
    assert_eq!(
        "fast".parse::<ScoringMode>(),
        Err("unknown scoring mode 'fast': expected full, heuristics-only, or rows-only".to_string())
    );
    assert_eq!(ScoringMode::default(), ScoringMode::Full);
}
