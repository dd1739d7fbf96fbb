use harmonomino::agent::simulator::{ScoringMode, Simulator, MAX_GAME_LENGTH};
use harmonomino::game::{
    Board, FallingPiece, GamePhase, GameState, MoveResult, Rotation, Tetromino,
};
use rand::rngs::StdRng;
use rand::SeedableRng;

const ZERO: [i64; 16] = [0; 16];

#[test]
fn five_squares_clear_two_rows() {
    let sim = Simulator::new(ZERO, 100, ScoringMode::RowsOnly);
    assert_eq!(sim.play_pieces(&vec![Tetromino::O; 4]), 0);
    assert_eq!(sim.play_pieces(&vec![Tetromino::O; 5]), 2);
    assert_eq!(sim.play_pieces(&vec![Tetromino::O; 9]), 2);
    assert_eq!(sim.play_pieces(&vec![Tetromino::O; 10]), 4);
    assert_eq!(sim.play_pieces(&Vec::new()), 0);
}

#[test]
fn a_game_plays_no_more_pieces_than_its_length() {
    let pieces = vec![Tetromino::O; 10];
    assert_eq!(Simulator::new(ZERO, 4, ScoringMode::RowsOnly).play_pieces(&pieces), 0);
    assert_eq!(Simulator::new(ZERO, 5, ScoringMode::RowsOnly).play_pieces(&pieces), 2);
    assert_eq!(Simulator::new(ZERO, 0, ScoringMode::RowsOnly).play_pieces(&pieces), 0);
}

#[test]
fn pieces_after_the_last_one_played_do_not_matter() {
    let sim = Simulator::new(ZERO, 5, ScoringMode::Full);
    let mut a = vec![Tetromino::O; 5];
    let mut b = a.clone();
    a.extend([Tetromino::I, Tetromino::T]);
    b.extend([Tetromino::Z; 7]);
    assert_eq!(sim.play_pieces(&a), sim.play_pieces(&b));
}

#[test]
fn rows_cleared_never_exceed_what_the_pieces_bring() {
    // A thousand pieces bring 4000 cells, and a cleared row takes ten.
    let mut weights = ZERO;
    weights[0] = 1_000_000;
    let sim = Simulator::new(weights, 1000, ScoringMode::HeuristicsOnly);
    let total = sim.play_pieces(&vec![Tetromino::I; 1000]);
    assert!(total <= 400);
}

#[test]
fn seeded_games_repeat() {
    let mut weights = ZERO;
    weights[1] = -4_000_000;
    weights[0] = -1_000_000;
    for seed in [0u64, 1, 99, 1234] {
        let first = Simulator::new(weights, 60, ScoringMode::Full)
            .simulate_game_with_rng(&mut StdRng::seed_from_u64(seed));
        let second = Simulator::new(weights, 60, ScoringMode::Full)
            .simulate_game_with_rng(&mut StdRng::seed_from_u64(seed));
        assert_eq!(first, second);
        assert!(first <= 20 * 60);
    }
}

#[test]
fn simulator_settings() {
    let sim = Simulator::new(ZERO, 7, ScoringMode::RowsOnly);
    assert_eq!(sim.n_weights, 16);
    assert_eq!(sim.max_length, 7);
    let sim = sim.with_n_weights(3);
    assert_eq!(sim.n_weights, 3);
    assert_eq!(sim.max_length, 7);
    assert_eq!(sim.scoring_mode, ScoringMode::RowsOnly);
    assert!(sim.simulate_game() <= 140);
    assert_eq!(MAX_GAME_LENGTH, (u64::from(u32::MAX) * 10 + 9) / 4);
}

#[test]
fn random_pieces_are_pieces() {
    let mut rng = StdRng::seed_from_u64(5);
    let mut seen = Vec::new();
    for _ in 0..200 {
        let shape = Tetromino::random_with_rng(&mut rng);
        assert!(Tetromino::ALL.contains(&shape));
        if !seen.contains(&shape) {
            seen.push(shape);
        }
    }
    assert_eq!(seen.len(), 7);
    assert!(Tetromino::ALL.contains(&Tetromino::random()));
}

#[test]
fn new_games_start_on_an_empty_board() {
    let mut rng = StdRng::seed_from_u64(11);
    let game = GameState::new_with_rng(&mut rng);
    assert!(game.board.is_empty());
    assert!(game.is_active());
    assert_eq!(game.rows_cleared, 0);
    let piece = game.current.expect("a piece");
    assert_eq!((piece.col, piece.row), piece.tetromino.spawn_position());

    let mut board = Board::new();
    board.cells[0][0] = true;
    let game = GameState::from_board_with_rng(board, &mut rng);
    assert_eq!(game.board, board);
    assert!(game.current.is_some());
    assert_eq!(game.phase, GamePhase::Falling);
    let game = GameState::from_board(board);
    assert_eq!(game.board, board);
    assert!(GameState::default().board.is_empty());
}

#[test]
fn a_piece_stops_at_the_walls() {
    let mut game = GameState::with_pieces(Tetromino::O, Tetromino::I);
    for _ in 0..4 {
        assert_eq!(game.move_left(), MoveResult::Moved);
    }
    assert_eq!(game.move_left(), MoveResult::Blocked);
    assert_eq!(game.current.expect("a piece").col, 0);
    for _ in 0..8 {
        assert_eq!(game.move_right(), MoveResult::Moved);
    }
    assert_eq!(game.move_right(), MoveResult::Blocked);
    assert_eq!(game.current.expect("a piece").col, 8);
}

#[test]
fn a_piece_that_cannot_fall_is_locked() {
    let mut game = GameState::with_pieces(Tetromino::O, Tetromino::I);
    for _ in 0..18 {
        assert_eq!(game.move_down(), MoveResult::Moved);
    }
    assert_eq!(game.tick(), MoveResult::Locked { rows_cleared: 0 });
    assert_eq!(game.board.cell_count(), 4);
    let piece = game.current.expect("the next piece");
    assert_eq!(piece.tetromino, Tetromino::I);
    assert_eq!((piece.col, piece.row), (3, 18));
}

#[test]
fn the_game_goes_on_after_a_lock_whatever_comes_next() {
    // Every shape finds room where it spawns above a piece on the floor.
    for next in Tetromino::ALL {
        let mut game = GameState::with_pieces(Tetromino::O, next);
        assert!(game.piece_fits());
        assert_eq!(game.move_left(), MoveResult::Moved);
        assert_eq!(game.hard_drop(), MoveResult::Locked { rows_cleared: 0 });
        assert!(game.is_active());
        let entered = game.current.expect("the next piece");
        assert_eq!(entered.tetromino, next);
        assert_eq!((entered.col, entered.row), next.spawn_position());
        assert!(game.piece_fits());
        assert_eq!(game.board.cell_count(), 4);
        assert_eq!(game.tick(), MoveResult::Moved);
    }
}

#[test]
fn the_state_says_what_the_next_step_does() {
    let mut game = GameState::with_pieces(Tetromino::O, Tetromino::I);
    assert!(game.piece_fits());
    assert!(game.counter_has_room());
    assert!(!game.step_locks());
    assert!(game.drop_locks());
    // On the floor a step locks.
    game.current = Some(harmonomino::game::FallingPiece {
        row: 0,
        ..game.current.expect("a piece")
    });
    assert!(game.step_locks());
    // A counter near its end has no room for twenty rows more.
    game.rows_cleared = u32::MAX - 19;
    assert!(!game.counter_has_room());
    game.rows_cleared = u32::MAX - 20;
    assert!(game.counter_has_room());
    // A piece on a block does not fit, and a drop would not lock it.
    game.board.cells[0][4] = true;
    assert!(!game.piece_fits());
    assert!(!game.drop_locks());
    assert!(game.step_locks());
    // Without a piece, or with the game over, nothing locks.
    game.current = None;
    assert!(game.piece_fits());
    assert!(!game.step_locks());
    assert!(!game.drop_locks());
    let mut over = GameState::with_pieces(Tetromino::O, Tetromino::I);
    over.phase = harmonomino::game::GamePhase::GameOver;
    assert!(!over.step_locks());
    assert!(!over.drop_locks());
}

#[test]
fn a_game_without_a_piece_in_play_takes_every_move() {
    let mut game = GameState::with_pieces(Tetromino::O, Tetromino::O);
    game.current = None;
    game.rows_cleared = u32::MAX;
    assert_eq!(game.tick(), MoveResult::GameOver);
    assert_eq!(game.move_down(), MoveResult::GameOver);
    assert_eq!(game.hard_drop(), MoveResult::GameOver);
    game.phase = harmonomino::game::GamePhase::GameOver;
    game.current = Some(FallingPiece::spawn(Tetromino::T));
    assert_eq!(game.tick(), MoveResult::GameOver);
    assert_eq!(game.hard_drop(), MoveResult::GameOver);
    assert_eq!(game.rows_cleared, u32::MAX);
}

#[test]
fn the_ghost_shows_where_the_piece_lands() {
    let game = GameState::with_pieces(Tetromino::I, Tetromino::O);
    let ghost = game.ghost_piece().expect("a ghost");
    assert_eq!((ghost.col, ghost.row), (3, 0));
    assert_eq!(game.current.expect("a piece").row, 18);
    let mut none = game;
    none.current = None;
    assert!(none.ghost_piece().is_none());
}

#[test]
fn a_turn_is_kicked_off_the_wall() {
    let mut game = GameState::with_pieces(Tetromino::I, Tetromino::O);
    // Upright against the right wall: the cells are in column 9.
    game.current = Some(FallingPiece {
        tetromino: Tetromino::I,
        rotation: Rotation(1),
        col: 7,
        row: 5,
    });
    // Flat it would reach columns 7 to 10; one column left it fits.
    assert_eq!(game.rotate_cw(), MoveResult::Moved);
    let piece = game.current.expect("a piece");
    assert_eq!(piece.rotation, Rotation(2));
    assert_eq!((piece.col, piece.row), (6, 5));

    assert_eq!(game.rotate_ccw(), MoveResult::Moved);
    assert_eq!(game.current.expect("a piece").rotation, Rotation(1));
}

#[test]
fn a_turn_without_room_is_blocked() {
    let mut game = GameState::with_pieces(Tetromino::I, Tetromino::O);
    for row in 0..20 {
        for col in 0..10 {
            game.board.cells[row][col] = col != 4;
        }
    }
    game.board.cells[19] = [false; 10];
    game.board.cells[19][0] = true;
    // Upright in the shaft at column 4.
    game.current = Some(FallingPiece {
        tetromino: Tetromino::I,
        rotation: Rotation(1),
        col: 2,
        row: 3,
    });
    let before = game;
    assert_eq!(game.rotate_cw(), MoveResult::Blocked);
    assert_eq!(game.current.expect("a piece").rotation, before.current.expect("a piece").rotation);
    assert_eq!(game.board, before.board);
}

#[test]
fn the_game_is_over_when_the_next_piece_does_not_fit() {
    let mut game = GameState::with_pieces(Tetromino::O, Tetromino::O);
    // A column under the spawn cells, up to row 17, and the O put on top of it.
    for row in 0..16 {
        game.board.cells[row][4] = true;
    }
    let result = game.hard_drop();
    assert_eq!(result, MoveResult::Locked { rows_cleared: 0 });
    assert!(game.is_active());
    // The next O lands on rows 18 and 19; the one after finds its place taken.
    let result = game.hard_drop();
    assert_eq!(result, MoveResult::GameOver);
    assert!(game.is_game_over());
    assert!(game.current.is_none());
    assert_eq!(game.move_left(), MoveResult::GameOver);
    assert_eq!(game.rotate_cw(), MoveResult::GameOver);
    assert_eq!(game.hard_drop(), MoveResult::GameOver);
    assert_eq!(game.tick(), MoveResult::GameOver);
}

#[test]
fn rows_are_counted_over_locks() {
    let mut game = GameState::with_pieces(Tetromino::I, Tetromino::I);
    for col in 4..10 {
        game.board.cells[0][col] = true;
        game.board.cells[1][col] = true;
    }
    game.current = Some(FallingPiece {
        tetromino: Tetromino::I,
        rotation: Rotation(0),
        col: 0,
        row: 5,
    });
    assert_eq!(game.hard_drop(), MoveResult::Locked { rows_cleared: 1 });
    assert_eq!(game.rows_cleared, 1);
    game.next = Tetromino::I;
    game.current = Some(FallingPiece {
        tetromino: Tetromino::I,
        rotation: Rotation(0),
        col: 0,
        row: 5,
    });
    assert_eq!(game.hard_drop(), MoveResult::Locked { rows_cleared: 1 });
    assert_eq!(game.rows_cleared, 2);
    assert!(game.board.is_empty());
}

#[test]
fn sideways_moves_and_turns_take_any_state() {
    let mut game = GameState::with_pieces(Tetromino::O, Tetromino::I);
    // The piece overlaps a block: it can still be moved off it.
    game.board.cells[18][4] = true;
    assert_eq!(game.move_left(), MoveResult::Blocked);
    assert_eq!(game.move_right(), MoveResult::Moved);
    assert_eq!(game.current.expect("a piece").col, 5);

    // A piece at the end of the coordinates has nowhere to go.
    game.current = Some(FallingPiece {
        tetromino: Tetromino::T,
        rotation: Rotation(0),
        col: -128,
        row: 127,
    });
    assert_eq!(game.move_left(), MoveResult::Blocked);
    assert_eq!(game.move_right(), MoveResult::Blocked);
    assert_eq!(game.rotate_cw(), MoveResult::Blocked);
    assert_eq!(game.rotate_ccw(), MoveResult::Blocked);
    assert!(game.ghost_piece().is_none());
    assert_eq!(game.hard_drop(), MoveResult::GameOver);
    assert!(game.is_active());
}

#[test]
fn a_draw_stands_for_the_piece_at_its_index() {
    assert_eq!(Tetromino::from_index(0), Tetromino::I);
    assert_eq!(Tetromino::from_index(1), Tetromino::O);
    assert_eq!(Tetromino::from_index(2), Tetromino::T);
    assert_eq!(Tetromino::from_index(3), Tetromino::S);
    assert_eq!(Tetromino::from_index(4), Tetromino::Z);
    assert_eq!(Tetromino::from_index(5), Tetromino::J);
    assert_eq!(Tetromino::from_index(6), Tetromino::L);
    for (index, shape) in Tetromino::ALL.into_iter().enumerate() {
        assert_eq!(Tetromino::from_index(index), shape);
    }
}
