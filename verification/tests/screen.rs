use harmonomino::agent::ScoringMode;
use harmonomino::game::{Board, GamePhase, GameState, MoveResult, Tetromino};
use harmonomino::tui::cells::{CellColor, CellType, INFO_PANEL_WIDTH};
use harmonomino::tui::{
    calculate_cell_size, get_cell_appearance, handle_key, render_cell, tetromino_color, Action,
    Key, VersusApp,
};

#[test]
fn cells_are_sized_to_the_area() {
    // Height is the limit: 22 rows for 20 cells.
    assert_eq!(calculate_cell_size(80, 24), (2, 1));
    assert_eq!(calculate_cell_size(202, 42), (4, 2));
    // Width is the limit: 30 columns for 10 cells.
    assert_eq!(calculate_cell_size(32, 100), (3, 2));
    assert_eq!(calculate_cell_size(52, 200), (5, 3));
    // Never smaller than 2 by 1.
    assert_eq!(calculate_cell_size(0, 0), (2, 1));
    assert_eq!(calculate_cell_size(1, 1000), (2, 1));
    assert_eq!(calculate_cell_size(u16::MAX, u16::MAX), (6552, 3276));
    assert_eq!(INFO_PANEL_WIDTH, 20);
}

#[test]
fn cells_are_drawn_with_block_characters() {
    assert_eq!(render_cell(CellType::Filled, 3), "███");
    assert_eq!(render_cell(CellType::Empty, 2), "  ");
    assert_eq!(render_cell(CellType::Shadow, 1), "░");
    assert_eq!(render_cell(CellType::Filled, 0), "");
}

#[test]
fn every_piece_has_its_colour() {
    assert_eq!(tetromino_color(Tetromino::I), CellColor::Cyan);
    assert_eq!(tetromino_color(Tetromino::O), CellColor::Yellow);
    assert_eq!(tetromino_color(Tetromino::T), CellColor::Magenta);
    assert_eq!(tetromino_color(Tetromino::S), CellColor::Green);
    assert_eq!(tetromino_color(Tetromino::Z), CellColor::Red);
    assert_eq!(tetromino_color(Tetromino::J), CellColor::Blue);
    assert_eq!(tetromino_color(Tetromino::L), CellColor::LightRed);
}

#[test]
fn a_cell_shows_the_board_then_the_piece_then_the_ghost() {
    let mut board = Board::new();
    board.cells[0][0] = true;
    let piece = ([(0, 0), (1, 0), (2, 0), (1, 1)], Tetromino::T);
    let ghost = [(1, 0), (3, 0), (4, 0), (5, 0)];

    assert_eq!(
        get_cell_appearance(&board, 0, 0, Some(piece), Some(ghost)),
        (CellType::Filled, Some(CellColor::Gray))
    );
    assert_eq!(
        get_cell_appearance(&board, 1, 0, Some(piece), Some(ghost)),
        (CellType::Filled, Some(CellColor::Magenta))
    );
    assert_eq!(
        get_cell_appearance(&board, 3, 0, Some(piece), Some(ghost)),
        (CellType::Shadow, Some(CellColor::DarkGray))
    );
    assert_eq!(
        get_cell_appearance(&board, 3, 0, None, Some(ghost)),
        (CellType::Shadow, Some(CellColor::DarkGray))
    );
    assert_eq!(
        get_cell_appearance(&board, 9, 19, Some(piece), Some(ghost)),
        (CellType::Empty, None)
    );
    assert_eq!(
        get_cell_appearance(&board, 1, 1, Some(piece), None),
        (CellType::Filled, Some(CellColor::Magenta))
    );
    assert_eq!(get_cell_appearance(&board, 1, 0, None, None), (CellType::Empty, None));
}

#[test]
fn keys_have_their_meanings() {
    let falling = GamePhase::Falling;
    assert_eq!(handle_key(Key::Char('q'), falling), Action::Quit);
    assert_eq!(handle_key(Key::Esc, falling), Action::Quit);
    assert_eq!(handle_key(Key::Char('r'), falling), Action::Restart);
    assert_eq!(handle_key(Key::Char('p'), falling), Action::TogglePause);
    assert_eq!(handle_key(Key::Left, falling), Action::MoveLeft);
    assert_eq!(handle_key(Key::Char('a'), falling), Action::MoveLeft);
    assert_eq!(handle_key(Key::Right, falling), Action::MoveRight);
    assert_eq!(handle_key(Key::Char('d'), falling), Action::MoveRight);
    assert_eq!(handle_key(Key::Down, falling), Action::SoftDrop);
    assert_eq!(handle_key(Key::Char('s'), falling), Action::SoftDrop);
    assert_eq!(handle_key(Key::Char(' '), falling), Action::HardDrop);
    assert_eq!(handle_key(Key::Up, falling), Action::RotateCw);
    assert_eq!(handle_key(Key::Char('x'), falling), Action::RotateCw);
    assert_eq!(handle_key(Key::Char('w'), falling), Action::RotateCw);
    assert_eq!(handle_key(Key::Char('z'), falling), Action::RotateCcw);
    assert_eq!(handle_key(Key::Char('Q'), falling), Action::Extra(Key::Char('Q')));
    assert_eq!(handle_key(Key::Backspace, falling), Action::Extra(Key::Backspace));
    assert_eq!(handle_key(Key::Other, falling), Action::Extra(Key::Other));
}

#[test]
fn enter_restarts_a_game_that_is_over() {
    assert_eq!(handle_key(Key::Enter, GamePhase::GameOver), Action::Restart);
    assert_eq!(handle_key(Key::Enter, GamePhase::Falling), Action::Extra(Key::Enter));
    assert_eq!(handle_key(Key::Char('r'), GamePhase::GameOver), Action::Restart);
}

#[test]
fn the_agent_gets_every_piece_the_player_locks() {
    let mut app = VersusApp::new([0; 16], ScoringMode::RowsOnly);
    assert!(app.agent_board.is_empty());
    assert!(!app.agent_game_over);
    app.user_game = GameState::with_pieces(Tetromino::O, Tetromino::O);

    // Moves that lock nothing leave the agent alone.
    app.move_left();
    app.soft_drop();
    app.rotate_cw();
    app.on_tick();
    assert!(app.agent_board.is_empty());

    app.hard_drop();
    assert_eq!(app.user_game.board.cell_count(), 4);
    assert_eq!(app.agent_board.cell_count(), 4);
    // The agent puts the square in its first slot.
    assert!(app.agent_board.cells[0][0] && app.agent_board.cells[1][1]);
    assert_eq!(app.agent_rows_cleared, 0);

    // The piece after the next is drawn at random: an O is sure to find
    // its place, so that the lock is reported.
    app.user_game.next = Tetromino::O;
    app.hard_drop();
    assert_eq!(app.agent_board.cell_count(), 8);
}

#[test]
fn the_agent_is_fed_only_by_locks() {
    let mut app = VersusApp::new([0; 16], ScoringMode::RowsOnly);
    app.handle_lock(MoveResult::Moved, Some(Tetromino::I));
    app.handle_lock(MoveResult::Blocked, Some(Tetromino::I));
    app.handle_lock(MoveResult::GameOver, Some(Tetromino::I));
    app.handle_lock(MoveResult::Locked { rows_cleared: 1 }, None);
    assert!(app.agent_board.is_empty());
    app.handle_lock(MoveResult::Locked { rows_cleared: 0 }, Some(Tetromino::I));
    assert_eq!(app.agent_board.cell_count(), 4);
    // The I lies flat in the first slot: on the floor, against the left
    // wall.
    for col in 0..4 {
        assert_eq!(app.agent_board.column_height(col), 1);
    }
}

#[test]
fn the_agent_counts_its_rows_and_gives_up_on_a_full_board() {
    let mut app = VersusApp::new([0; 16], ScoringMode::RowsOnly);
    for row in 0..2 {
        for col in 2..10 {
            app.agent_board.cells[row][col] = true;
        }
    }
    app.agent_place(Tetromino::O);
    assert_eq!(app.agent_rows_cleared, 2);
    assert!(app.agent_board.is_empty());

    app.agent_board = Board::from_cells([[true; 10]; 20]);
    app.agent_place(Tetromino::T);
    assert!(app.agent_game_over);
    assert_eq!(app.agent_rows_cleared, 2);
    // An agent that is out places nothing more, whatever its counter says.
    app.agent_board = Board::new();
    app.agent_rows_cleared = u32::MAX;
    app.agent_place(Tetromino::T);
    assert!(app.agent_board.is_empty());
}

#[test]
fn backspace_lets_the_agent_start_from_the_players_board() {
    let mut app = VersusApp::new([0; 16], ScoringMode::Full);
    app.user_game.board.cells[0][3] = true;
    app.user_game.rows_cleared = 7;
    app.agent_game_over = true;
    app.handle_extra_key(Key::Char('b'));
    assert!(app.agent_board.is_empty());
    assert!(app.agent_game_over);
    app.handle_extra_key(Key::Backspace);
    assert_eq!(app.agent_board, app.user_game.board);
    assert_eq!(app.agent_rows_cleared, 7);
    assert!(!app.agent_game_over);
}

#[test]
fn the_versus_game_pauses_quits_and_restarts() {
    let mut app = VersusApp::new([0; 16], ScoringMode::Full);
    app.user_game = GameState::with_pieces(Tetromino::O, Tetromino::I);
    app.toggle_pause();
    assert!(app.paused);
    app.hard_drop();
    app.move_right();
    app.rotate_ccw();
    assert!(app.user_game.board.is_empty());
    assert_eq!(app.user_game.current.expect("a piece").col, 4);
    app.toggle_pause();
    app.move_right();
    assert_eq!(app.user_game.current.expect("a piece").col, 5);
    app.hard_drop();
    app.quit();
    assert!(app.should_quit);
    app.restart();
    assert!(app.user_game.board.is_empty());
    assert!(app.agent_board.is_empty());
    assert_eq!(app.agent_rows_cleared, 0);
    assert!(!app.paused);
}
