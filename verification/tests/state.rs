use harmonomino::game::{FallingPiece, GameState, MoveResult, Rotation, Tetromino};

#[test]
fn test_new_game() {
    let game = GameState::new();
    assert!(game.is_active());
    assert!(!game.is_game_over());
    assert!(game.current.is_some());
    assert_eq!(game.rows_cleared, 0);
}

#[test]
fn test_move_left_right() {
    let mut game = GameState::with_pieces(Tetromino::T, Tetromino::I);
    let initial_col = game.current.expect("should have piece").col;

    assert_eq!(game.move_right(), MoveResult::Moved);
    assert_eq!(
        game.current.expect("should have piece").col,
        initial_col + 1
    );

    assert_eq!(game.move_left(), MoveResult::Moved);
    assert_eq!(game.current.expect("should have piece").col, initial_col);
}

#[test]
fn test_hard_drop() {
    let mut game = GameState::with_pieces(Tetromino::O, Tetromino::I);
    let result = game.hard_drop();

    assert!(
        matches!(result, MoveResult::Locked { rows_cleared: 0 }),
        "Expected Locked result with 0 rows cleared"
    );

    // Piece should have landed and new piece spawned
    assert!(game.is_active());
    assert!(game.current.is_some());
}

#[test]
fn test_rotation() {
    let mut game = GameState::with_pieces(Tetromino::T, Tetromino::I);
    // Move piece down to give room for rotation
    game.current = Some(FallingPiece {
        tetromino: Tetromino::T,
        rotation: Rotation(0),
        col: 3,
        row: 10, // Middle of board
    });
    let initial_rotation = game.current.expect("should have piece").rotation;

    assert_eq!(game.rotate_cw(), MoveResult::Moved);
    assert_ne!(
        game.current.expect("should have piece").rotation,
        initial_rotation
    );
}

#[test]
fn test_line_clear() {
    let mut game = GameState::with_pieces(Tetromino::I, Tetromino::I);

    // Fill the bottom row except for columns 0-3 (where I piece will go)
    for col in 4..10 {
        game.board.cells[0][col] = true;
    }

    // Move I piece to column 0 and hard drop
    game.current = Some(FallingPiece {
        tetromino: Tetromino::I,
        rotation: Rotation(0),
        col: 0,
        row: 1,
    });

    let result = game.hard_drop();
    assert!(
        matches!(result, MoveResult::Locked { rows_cleared: 1 }),
        "Expected Locked result with 1 row cleared"
    );
}
