use harmonomino::game::{Board, FallingPiece, Rotation, Tetromino};

fn piece(tetromino: Tetromino, rotation: u8, col: i8, row: i8) -> FallingPiece {
    FallingPiece {
        tetromino,
        rotation: Rotation(rotation),
        col,
        row,
    }
}

fn full_row() -> [bool; 10] {
    [true; 10]
}

#[test]
fn full_board_counts_200_and_clears_to_nothing() {
    let mut board = Board::from_cells([[true; 10]; 20]);
    assert_eq!(board.cell_count(), 200);
    let cleared = board.clear_full_rows();
    assert_eq!(cleared, 20);
    assert_eq!(board.cell_count(), 0);
    assert!(board.is_empty());
}

#[test]
fn clearing_keeps_the_other_rows_in_order() {
    let mut board = Board::new();
    board.cells[0] = full_row();
    board.cells[1][0] = true;
    board.cells[2] = full_row();
    board.cells[3][5] = true;
    assert_eq!(board.full_rows(), vec![0, 2]);
    assert_eq!(board.cell_count(), 22);

    let cleared = board.clear_full_rows();

    assert_eq!(cleared, 2);
    assert_eq!(board.cell_count(), 2);
    let mut expected = Board::new();
    expected.cells[0][0] = true;
    expected.cells[1][5] = true;
    assert_eq!(board, expected);
}

#[test]
fn no_row_is_full_after_clearing() {
    let mut board = Board::new();
    for row in [0usize, 1, 4, 7, 19] {
        board.cells[row] = full_row();
    }
    board.cells[2][3] = true;
    board.cells[18][9] = true;
    let before = board.cell_count();
    let cleared = board.clear_full_rows();
    assert_eq!(cleared, 5);
    assert_eq!(board.cell_count(), before - 10 * cleared);
    for row in 0..Board::HEIGHT {
        assert!(!board.is_row_full(row));
    }
    assert!(board.full_rows().is_empty());
}

#[test]
fn clearing_a_board_without_full_rows_changes_nothing() {
    let mut board = Board::new();
    board.cells[0][0] = true;
    board.cells[5][5] = true;
    let before = board;
    assert_eq!(board.clear_full_rows(), 0);
    assert_eq!(board, before);
}

#[test]
fn remove_row_shifts_the_rows_above_down() {
    let mut board = Board::new();
    board.cells[0][0] = true;
    board.cells[1][1] = true;
    board.cells[2][2] = true;
    board.cells[19][9] = true;
    board.remove_row(1);
    let mut expected = Board::new();
    expected.cells[0][0] = true;
    expected.cells[1][2] = true;
    expected.cells[18][9] = true;
    assert_eq!(board, expected);
}

#[test]
fn bounds_and_occupancy() {
    assert!(Board::in_bounds(0, 0));
    assert!(Board::in_bounds(9, 19));
    assert!(!Board::in_bounds(10, 0));
    assert!(!Board::in_bounds(0, 20));
    assert!(!Board::in_bounds(-1, 5));
    assert!(!Board::in_bounds(5, -1));

    let mut board = Board::new();
    board.cells[3][4] = true;
    assert!(board.is_occupied(4, 3));
    assert!(!board.is_occupied(3, 4));
    assert!(board.is_occupied(-1, 0));
    assert!(board.is_occupied(0, 20));
}

#[test]
fn placing_needs_free_cells_inside_the_board() {
    let board = Board::new();
    assert!(board.can_place(&piece(Tetromino::T, 0, 3, 17)));
    assert!(board.can_place(&piece(Tetromino::T, 0, 3, 18)));
    assert!(board.can_place(&piece(Tetromino::T, 0, 7, 0)));
    // The T reaches column 10.
    assert!(!board.can_place(&piece(Tetromino::T, 0, 8, 0)));
    // The T's top cell reaches row 20.
    assert!(!board.can_place(&piece(Tetromino::T, 0, 3, 19)));
    // The origin is a corner of the piece: outside the board it leaves a
    // cell outside.
    assert!(board.can_place(&piece(Tetromino::I, 0, 0, 0)));
    assert!(!board.can_place(&piece(Tetromino::I, 0, 0, -1)));
    assert!(!board.can_place(&piece(Tetromino::I, 1, -1, 0)));
    // Origins at the far end of the type are simply not placeable.
    assert!(!board.can_place(&piece(Tetromino::I, 0, 127, 127)));
    assert!(!board.can_place(&piece(Tetromino::I, 0, -128, -128)));

    let mut taken = Board::new();
    taken.cells[0][0] = true;
    assert!(!taken.can_place(&piece(Tetromino::O, 0, 0, 0)));
    assert!(taken.can_place(&piece(Tetromino::O, 0, 1, 0)));
}

#[test]
fn locking_needs_something_to_rest_on() {
    let mut board = Board::new();
    assert!(board.can_lock(&piece(Tetromino::O, 0, 0, 0)));
    assert!(!board.can_lock(&piece(Tetromino::O, 0, 0, 5)));
    board.cells[4][0] = true;
    assert!(board.can_lock(&piece(Tetromino::O, 0, 0, 5)));
    // It overlaps: not placeable, so not lockable.
    assert!(!board.can_lock(&piece(Tetromino::O, 0, 0, 4)));
    // The horizontal I lies on the floor with its origin in row 0, and
    // floats one row up.
    assert!(board.can_lock(&piece(Tetromino::I, 0, 3, 0)));
    assert!(!board.can_lock(&piece(Tetromino::I, 0, 3, 1)));
    assert!(!board.can_lock(&piece(Tetromino::I, 0, 3, -1)));
}

#[test]
fn place_fills_the_four_cells() {
    let mut board = Board::new();
    board.cells[0][9] = true;
    let t = piece(Tetromino::T, 0, 0, 0);
    let placed = board.with_piece(&t);
    assert_eq!(placed.cell_count(), board.cell_count() + 4);
    board.place(&t);
    assert_eq!(board, placed);
    let mut expected = Board::new();
    expected.cells[0][9] = true;
    expected.cells[0][0] = true;
    expected.cells[0][1] = true;
    expected.cells[0][2] = true;
    expected.cells[1][1] = true;
    assert_eq!(board, expected);
}

#[test]
fn hard_drop_lands_on_the_floor_or_on_blocks() {
    let mut board = Board::new();
    let o = piece(Tetromino::O, 0, 4, 18);
    let landed = board.hard_drop(&o).expect("fits");
    assert_eq!((landed.col, landed.row), (4, 0));
    assert_eq!(board.drop_distance(&o), 18);

    board.cells[0][4] = true;
    let landed = board.hard_drop(&o).expect("fits");
    assert_eq!((landed.col, landed.row), (4, 1));
    assert_eq!(board.drop_distance(&o), 17);

    board.cells[18][5] = true;
    assert!(board.hard_drop(&o).is_none());
}

#[test]
fn drop_distance_of_a_resting_piece_is_zero() {
    let board = Board::new();
    assert_eq!(board.drop_distance(&piece(Tetromino::O, 0, 0, 0)), 0);
    assert_eq!(board.drop_distance(&piece(Tetromino::I, 0, 0, -128)), 0);
}

#[test]
fn column_height_is_one_above_the_highest_block() {
    let mut board = Board::new();
    assert_eq!(board.column_height(0), 0);
    board.cells[0][0] = true;
    board.cells[5][0] = true;
    board.cells[19][9] = true;
    assert_eq!(board.column_height(0), 6);
    assert_eq!(board.column_height(1), 0);
    assert_eq!(board.column_height(9), 20);
}

#[test]
fn row_queries() {
    let mut board = Board::new();
    assert!(board.is_empty());
    board.cells[2] = full_row();
    board.cells[3][1] = true;
    assert!(!board.is_empty());
    assert!(board.is_row_full(2));
    assert!(!board.is_row_full(3));
    assert_eq!(board.row_cells(2), 10);
    assert_eq!(board.row_cells(3), 1);
    assert_eq!(board.row_cells(4), 0);
    assert_eq!(board.cell_count(), 11);
}

#[test]
fn rows_in_both_directions() {
    let mut board = Board::new();
    board.cells[0][0] = true;
    board.cells[19][9] = true;
    let up = board.rows_bottom_up();
    assert_eq!(up.len(), 20);
    assert_eq!(up[0], (0, board.cells[0]));
    assert_eq!(up[19], (19, board.cells[19]));
    let down = board.rows_top_down();
    assert_eq!(down.len(), 20);
    assert_eq!(down[0], (0, board.cells[19]));
    assert_eq!(down[19], (19, board.cells[0]));
}

#[test]
fn positions_and_cells_flattened() {
    let positions = Board::all_positions();
    assert_eq!(positions.len(), 200);
    assert_eq!(positions[0], (0, 0));
    assert_eq!(positions[1], (0, 1));
    assert_eq!(positions[20], (1, 0));
    assert_eq!(positions[199], (9, 19));

    let mut board = Board::new();
    board.cells[0][1] = true;
    board.cells[1][0] = true;
    let cells = board.all_cells();
    assert_eq!(cells.len(), 200);
    assert!(cells[1]);
    assert!(cells[10]);
    assert_eq!(cells.iter().filter(|&&c| c).count(), 2);
}

#[test]
fn default_board_is_empty() {
    assert_eq!(Board::default(), Board::new());
    assert_eq!(Board::new().cell_count(), 0);
}

#[test]
fn pieces_spawn_at_the_top_in_the_middle() {
    assert_eq!(Tetromino::O.spawn_position(), (4, 18));
    for shape in [
        Tetromino::I,
        Tetromino::T,
        Tetromino::S,
        Tetromino::Z,
        Tetromino::J,
        Tetromino::L,
    ] {
        assert_eq!(shape.spawn_position(), (3, 18));
    }
    let board = Board::new();
    for shape in Tetromino::ALL {
        let spawned = FallingPiece::spawn(shape);
        assert_eq!((spawned.col, spawned.row), shape.spawn_position());
        assert_eq!(spawned.rotation, Rotation(0));
        // Every piece is on the board where it spawns, in its two top
        // rows.
        assert!(board.can_place(&spawned), "{shape:?}");
        assert!(spawned.cells().iter().all(|&(_, row)| row == 18 || row == 19));
        assert!(spawned.cells().iter().any(|&(_, row)| row == 18));
        assert!(!board.can_place(&spawned.moved(0, 2)), "{shape:?}");
    }
}

#[test]
fn rotation_states_turn_in_a_cycle() {
    assert_eq!(Rotation(0).clockwise(), Rotation(1));
    assert_eq!(Rotation(3).clockwise(), Rotation(0));
    assert_eq!(Rotation(0).counter_clockwise(), Rotation(3));
    assert_eq!(Rotation(255).clockwise(), Rotation(0));
    assert_eq!(Rotation(255).counter_clockwise(), Rotation(2));
    assert_eq!(Rotation::default(), Rotation(0));
    let p = piece(Tetromino::L, 1, 2, 3);
    assert_eq!(p.rotated_cw().rotation, Rotation(2));
    assert_eq!(p.rotated_ccw().rotation, Rotation(0));
    assert_eq!(p.cells(), [(2, 3), (2, 4), (2, 5), (3, 3)]);
}

#[test]
fn a_piece_moves_within_the_coordinates() {
    let p = piece(Tetromino::S, 2, 5, 6);
    let moved = p.checked_moved(-2, 3).expect("in range");
    assert_eq!((moved.col, moved.row), (3, 9));
    assert_eq!((moved.tetromino, moved.rotation), (Tetromino::S, Rotation(2)));
    assert_eq!((p.moved(1, -1).col, p.moved(1, -1).row), (6, 5));
    assert!(piece(Tetromino::S, 0, 127, 0).checked_moved(1, 0).is_none());
    assert!(piece(Tetromino::S, 0, 0, -128).checked_moved(0, -1).is_none());
    assert!(piece(Tetromino::S, 0, 127, -128).checked_moved(-1, 1).is_some());
}

#[test]
fn a_row_beyond_the_top_removes_the_top_row() {
    let mut board = Board::new();
    board.cells[18][1] = true;
    board.cells[19][2] = true;
    board.remove_row(25);
    let mut expected = Board::new();
    expected.cells[18][1] = true;
    assert_eq!(board, expected);
    board.remove_row(19);
    assert_eq!(board, expected);
}

#[test]
fn offsets_are_the_table_counted_from_its_corner() {
    for shape in Tetromino::ALL {
        for rotation in 0..8u8 {
            let table = shape.rotation_cells(rotation);
            let left = table.iter().map(|&(c, _)| c).min().expect("four cells");
            let low = table.iter().map(|&(_, r)| r).min().expect("four cells");
            let cells = shape.cells(Rotation(rotation));
            for k in 0..4 {
                assert_eq!(cells[k], (table[k].0 - left, table[k].1 - low));
            }
            assert_eq!(table, shape.rotation_cells(rotation % 4));
        }
    }
    // The flat I lies in the row of its origin, the upright I in its column.
    assert_eq!(
        Tetromino::I.cells(Rotation(2)),
        [(0, 0), (1, 0), (2, 0), (3, 0)]
    );
    assert_eq!(
        Tetromino::I.cells(Rotation(3)),
        [(0, 0), (0, 1), (0, 2), (0, 3)]
    );
    assert_eq!(
        Tetromino::T.cells(Rotation(0)),
        [(0, 0), (1, 0), (2, 0), (1, 1)]
    );
    // Cells at the far end of the type are still cells.
    let far = piece(Tetromino::O, 0, 126, 126);
    assert_eq!(far.cells(), [(126, 126), (127, 126), (126, 127), (127, 127)]);
}
