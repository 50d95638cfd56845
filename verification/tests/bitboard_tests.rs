use twenty_forty_eight::bitboard::BitBoard;

#[test]
fn test_bitboard_basic() {
    let mut board = BitBoard::new();
    board.set_tile(0, 0, 2);
    board.set_tile(0, 1, 4);

    assert_eq!(board.get_tile(0, 0), 2);
    assert_eq!(board.get_tile(0, 1), 4);
    assert_eq!(board.get_tile(0, 2), 0);
}

#[test]
fn test_bitboard_move_left() {
    let mut board = BitBoard::new();
    board.set_tile(0, 0, 2);
    board.set_tile(0, 2, 2);

    let (new_board, moved) = board.move_left();

    assert!(moved);
    assert_eq!(new_board.get_tile(0, 0), 4);
    assert_eq!(new_board.get_tile(0, 1), 0);
    assert_eq!(new_board.get_tile(0, 2), 0);
    assert_eq!(new_board.get_tile(0, 3), 0);
}

#[test]
fn test_bitboard_count_empty() {
    let mut board = BitBoard::new();
    assert_eq!(board.count_empty(), 16);

    board.set_tile(0, 0, 2);
    assert_eq!(board.count_empty(), 15);
}

#[test]
fn test_bitboard_other_moves() {
    let mut board = BitBoard::new();
    board.set_tile(0, 0, 2);
    board.set_tile(2, 0, 2);

    let (up, moved_up) = board.move_up();
    assert!(moved_up);
    assert_eq!(up.get_tile(0, 0), 4);

    let (down, moved_down) = board.move_down();
    assert!(moved_down);
    assert_eq!(down.get_tile(3, 0), 4);

    let (right, moved_right) = board.move_right();
    assert!(moved_right);
    assert_eq!(right.get_tile(0, 3), 2);
    assert_eq!(right.get_tile(2, 3), 2);
}

#[test]
fn test_bitboard_merge_row_bits() {
    // exponents merge once per adjacent pair after compaction
    let (merged, moved) = BitBoard::merge_row_bits(&vec![1, 0, 1, 0]);
    assert_eq!(merged, vec![2, 0, 0, 0]);
    assert!(moved);

    let (stuck, moved2) = BitBoard::merge_row_bits(&vec![1, 2, 3, 4]);
    assert_eq!(stuck, vec![1, 2, 3, 4]);
    assert!(!moved2);
}

#[test]
fn test_bitboard_max_tile_and_to_array() {
    let mut board = BitBoard::new();
    board.set_tile(1, 2, 8);
    board.set_tile(3, 3, 32);
    assert_eq!(board.get_max_tile(), 32);
    assert!(board.is_empty(0, 0));
    assert!(!board.is_empty(1, 2));
    let arr = board.to_array();
    assert_eq!(arr.len(), 16);
    assert_eq!(arr[4 * 1 + 2], 8);
    assert_eq!(arr[4 * 3 + 3], 32);
}

#[test]
fn test_bitboard_add_random_tile() {
    let mut board = BitBoard::new();
    board.add_random_tile();
    assert_eq!(board.count_empty(), 15);
    let max = board.get_max_tile();
    assert!(max == 2 || max == 4);
}
