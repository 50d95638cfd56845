use twenty_forty_eight::board::GameBoard;
use twenty_forty_eight::moves::Direction;
use twenty_forty_eight::hash::board_hash;
use twenty_forty_eight::hash::ZobristTable;
use twenty_forty_eight::web::GameState;

#[test]
fn test_board_hash_is_pure() {
    let grid = vec![2, 4, 8, 16, 0, 0, 0, 0, 0, 2, 0, 0, 0, 0, 0, 2];
    assert_eq!(board_hash(&grid), board_hash(&grid));
    let mut other = grid.clone();
    other[5] = 2;
    assert_ne!(board_hash(&grid), board_hash(&other));
}

#[test]
fn test_table_hash_deterministic_across_tables() {
    let t1 = ZobristTable::new();
    let t2 = ZobristTable::new();
    let mut a = GameBoard::new();
    let mut b = GameBoard::new();
    let grid = vec![2, 4, 8, 16, 0, 0, 0, 0, 0, 2, 0, 0, 0, 0, 0, 2];
    a.set_board(grid.clone());
    b.set_board(grid);
    assert_eq!(a.board_hash(&t1), b.board_hash(&t2));
}

#[test]
fn test_table_hash_separates_nearby_grids() {
    let t = ZobristTable::new();
    let mut a = GameBoard::new();
    let mut b = GameBoard::new();
    a.set_board(vec![2, 0, 0, 0, 0, 0, 0, 0, 0, 0, 0, 0, 0, 0, 0, 0]);
    b.set_board(vec![4, 0, 0, 0, 0, 0, 0, 0, 0, 0, 0, 0, 0, 0, 0, 0]);
    assert_ne!(a.board_hash(&t), b.board_hash(&t));
}

#[test]
fn test_move_hash_matches_moved_board() {
    let t = ZobristTable::new();
    let mut board = GameBoard::new();
    board.set_board(vec![2, 2, 0, 0, 0, 0, 0, 0, 0, 0, 0, 0, 0, 0, 0, 0]);
    let h = board.get_move_hash(Direction::Left, &t);
    let mut moved = board.clone();
    assert!(moved.move_tiles(Direction::Left));
    assert_eq!(h, moved.board_hash(&t));
}

#[test]
fn test_game_state_snapshot() {
    let mut board = GameBoard::new();
    board.set_board(vec![2, 4, 0, 0, 0, 0, 0, 0, 0, 0, 0, 0, 0, 0, 0, 0]);
    let state = GameState::from_board(&board);
    assert_eq!(state.board, board.get_board());
    assert_eq!(state.score, 6);
    assert_eq!(state.max_tile, 4);
    assert!(!state.game_over);
}

#[test]
fn test_direction_all_order() {
    let all = Direction::all();
    assert_eq!(
        all,
        vec![Direction::Up, Direction::Down, Direction::Left, Direction::Right]
    );
}
