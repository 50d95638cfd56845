use twenty_forty_eight::board::GameBoard;
use twenty_forty_eight::moves::Direction;

#[test]
fn test_merge_row_basic() {
    // Test basic merging
    let row = vec![2, 2, 0, 0];
    let (result, moved) = GameBoard::merge_row(&row);
    assert_eq!(result, vec![4, 0, 0, 0]);
    assert!(moved);
}

#[test]
fn test_merge_row_no_merge() {
    // Test no possible merges
    let row = vec![2, 4, 8, 16];
    let (result, moved) = GameBoard::merge_row(&row);
    assert_eq!(result, vec![2, 4, 8, 16]);
    assert!(!moved);
}

#[test]
fn test_merge_row_with_gaps() {
    // Test moving tiles without merging (gaps close but values don't merge)
    let row = vec![2, 0, 2, 0];
    let (result, moved) = GameBoard::merge_row(&row);
    assert_eq!(result, vec![2, 2, 0, 0]);
    assert!(moved);
}

#[test]
fn test_merge_row_multiple_merges() {
    // Test multiple merges in one row
    let row = vec![2, 2, 4, 4];
    let (result, moved) = GameBoard::merge_row(&row);
    assert_eq!(result, vec![4, 8, 0, 0]);
    assert!(moved);
}

#[test]
fn test_merge_row_no_consecutive_merges() {
    // Test that tiles don't merge consecutively
    let row = vec![4, 2, 2, 0];
    let (result, moved) = GameBoard::merge_row(&row);
    assert_eq!(result, vec![4, 4, 0, 0]);
    assert!(moved);
}

#[test]
fn test_calculate_empty_mask() {
    let board = vec![2, 0, 4, 0, 0, 8, 0, 16, 32, 0, 64, 0, 0, 128, 0, 256];
    let mask = GameBoard::calculate_empty_mask(&board);
    // Empty positions: (0,1), (0,3), (1,0), (1,2), (2,1), (2,3), (3,0), (3,2)
    let expected = (1 << 1) | (1 << 3) | (1 << 4) | (1 << 6) | (1 << 9) | (1 << 11) | (1 << 12)
        | (1 << 14);
    assert_eq!(mask, expected);
}

#[test]
fn test_calculate_max_tile() {
    let board = vec![
        2, 4, 8, 16, 32, 64, 128, 256, 512, 1024, 2048, 4096, 8192, 16384, 32768, 65536,
    ];
    assert_eq!(GameBoard::calculate_max_tile(&board), 65536);
}

#[test]
fn test_count_empty_cells() {
    let mut board = GameBoard::new();
    board.set_board(vec![2, 0, 4, 0, 0, 8, 0, 16, 32, 0, 64, 0, 0, 128, 0, 256]);
    assert_eq!(board.count_empty_cells(), 8);
}

#[test]
fn test_is_game_over_with_empty_cells() {
    let mut board = GameBoard::new();
    board.set_board(vec![
        2, 0, 4, 8, 16, 32, 64, 128, 256, 512, 1024, 2048, 4096, 8192, 16384, 32768,
    ]);
    assert!(!board.is_game_over());
}

#[test]
fn test_is_game_over_with_possible_merges() {
    let mut board = GameBoard::new();
    // Two 32768s can merge
    board.set_board(vec![
        2, 4, 8, 16, 32, 64, 128, 256, 512, 1024, 2048, 4096, 8192, 16384, 32768, 32768,
    ]);
    assert!(!board.is_game_over());
}

#[test]
fn test_is_game_over_true() {
    let mut board = GameBoard::new();
    board.set_board(vec![
        2, 4, 8, 16, 32, 64, 128, 256, 512, 1024, 2048, 4096, 8192, 16384, 32768, 65536,
    ]);
    assert!(board.is_game_over());
}

#[test]
fn test_move_tiles_left() {
    let mut board = GameBoard::new();
    board.set_board(vec![2, 0, 2, 0, 4, 4, 0, 0, 0, 8, 0, 8, 16, 0, 0, 0]);

    let moved = board.move_tiles(Direction::Left);
    assert!(moved);

    let expected = vec![
        2, 2, 0, 0, // 2,0,2,0 -> 2,2,0,0 (no merge, just move)
        8, 0, 0, 0, // 4,4,0,0 -> 8,0,0,0 (merge)
        8, 8, 0, 0, // 0,8,0,8 -> 8,8,0,0 (no merge, just move)
        16, 0, 0, 0, // 16,0,0,0 -> 16,0,0,0 (no change)
    ];
    assert_eq!(board.get_board(), expected);
}

#[test]
fn test_move_tiles_right() {
    let mut board = GameBoard::new();
    board.set_board(vec![2, 0, 2, 0, 4, 4, 0, 0, 0, 8, 0, 8, 16, 0, 0, 0]);

    let moved = board.move_tiles(Direction::Right);
    assert!(moved);

    let expected = vec![
        0, 0, 2, 2, // 2,0,2,0 -> 0,0,2,2 (no merge, just move right)
        0, 0, 0, 8, // 4,4,0,0 -> 0,0,0,8 (merge and move right)
        0, 0, 8, 8, // 0,8,0,8 -> 0,0,8,8 (no merge, just move right)
        0, 0, 0, 16, // 16,0,0,0 -> 0,0,0,16 (move right)
    ];
    assert_eq!(board.get_board(), expected);
}

#[test]
fn test_move_tiles_up_and_down() {
    let mut board = GameBoard::new();
    board.set_board(vec![2, 0, 0, 0, 2, 0, 0, 0, 4, 0, 0, 0, 0, 0, 0, 0]);
    assert!(board.move_tiles(Direction::Up));
    assert_eq!(
        board.get_board(),
        vec![4, 0, 0, 0, 4, 0, 0, 0, 0, 0, 0, 0, 0, 0, 0, 0]
    );
    assert!(board.move_tiles(Direction::Down));
    assert_eq!(
        board.get_board(),
        vec![0, 0, 0, 0, 0, 0, 0, 0, 0, 0, 0, 0, 8, 0, 0, 0]
    );
}

#[test]
fn test_move_count_and_score() {
    let mut board = GameBoard::new();
    let start = board.get_move_count();
    board.set_board(vec![2, 2, 0, 0, 0, 0, 0, 0, 0, 0, 0, 0, 0, 0, 0, 0]);
    assert!(board.move_tiles(Direction::Left));
    assert_eq!(board.get_move_count(), start + 1);
    assert_eq!(board.get_score(), 4);
    assert_eq!(board.get_max_tile(), 4);
    // an illegal move changes nothing
    assert!(!board.move_tiles(Direction::Left));
    assert_eq!(board.get_move_count(), start + 1);
}

#[test]
fn test_new_board_has_two_tiles() {
    let board = GameBoard::new();
    assert_eq!(board.count_empty_cells(), 14);
    let score = board.get_score();
    assert!(score >= 4 && score <= 8);
    for v in board.get_board() {
        assert!(v == 0 || v == 2 || v == 4);
    }
    assert!(!board.is_game_over());
}

#[test]
fn test_add_random_tile_fills_one_cell() {
    let mut board = GameBoard::new();
    board.set_board(vec![2, 4, 8, 16, 32, 64, 128, 256, 512, 1024, 2048, 4096, 8192, 16384, 0, 0]);
    let before = board.count_empty_cells();
    board.add_random_tile_self();
    assert_eq!(board.count_empty_cells(), before - 1);
    let grid = board.get_board();
    let spawned: Vec<u32> = grid.iter().copied().filter(|&v| v == 2 || v == 4).collect();
    assert!(spawned.len() >= 1);
}

#[test]
fn test_get_empty_cells_lists_each_empty_cell() {
    let mut board = GameBoard::new();
    board.set_board(vec![2, 0, 4, 0, 0, 8, 0, 16, 32, 0, 64, 0, 0, 128, 0, 256]);
    let cells = board.get_empty_cells();
    assert_eq!(cells.len(), 8);
    for (r, c) in cells {
        assert_eq!(board.get_board()[4 * r + c], 0);
    }
}

#[test]
fn test_move_then_not_terminal_with_empty_cell() {
    let mut board = GameBoard::new();
    board.set_board(vec![2, 2, 4, 8, 0, 0, 0, 0, 0, 0, 0, 0, 0, 0, 0, 0]);
    assert!(board.move_tiles(Direction::Left));
    assert!(board.count_empty_cells() > 0);
    assert!(!board.is_game_over());
}
