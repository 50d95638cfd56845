use twenty_forty_eight::board::GameBoard;
use twenty_forty_eight::cache::EnhancedTranspositionTable;
use twenty_forty_eight::deepening::IterativeDeepeningConfig;
use twenty_forty_eight::eval::EvaluationWeights;
use twenty_forty_eight::hash::ZobristTable;
use twenty_forty_eight::moves::Direction;

#[test]
fn test_smart_depth_calculation() {
    let mut board = GameBoard::new();

    // Early game should have deeper search
    board.set_board(vec![2, 0, 0, 0, 0, 0, 0, 0, 0, 0, 0, 0, 0, 0, 0, 0]);
    let early_depth = board.calculate_smart_depth();

    // Late game should have shallower search
    board.set_board(vec![1024, 512, 256, 128, 64, 32, 16, 8, 4, 2, 4, 2, 2, 4, 0, 0]);
    let late_depth = board.calculate_smart_depth();

    assert!(early_depth >= late_depth);
}

#[test]
fn test_strategic_empty_cells() {
    let mut board = GameBoard::new();
    board.set_board(vec![2, 4, 8, 16, 0, 0, 0, 0, 0, 0, 0, 0, 0, 0, 0, 0]);

    let strategic_cells = board.get_strategic_empty_cells();
    assert!(!strategic_cells.is_empty());
    assert!(strategic_cells.len() <= 8);
}

#[test]
fn test_iterative_deepening() {
    let mut board = GameBoard::new();
    board.set_board(vec![2, 4, 8, 16, 0, 0, 0, 0, 0, 0, 0, 0, 0, 0, 0, 0]);

    let config = IterativeDeepeningConfig {
        max_time_ms: 100,
        min_depth: 2,
        max_depth: 6,
        time_per_move_ms: 50,
    };

    let table = ZobristTable::new();
    let mut cache = EnhancedTranspositionTable::new();
    let best_move = board.find_best_move_iterative(&config, &table, &mut cache);
    assert!(best_move.is_some());
}

#[test]
fn test_adaptive_time_limit() {
    let mut board = GameBoard::new();

    // Early game
    board.set_board(vec![2, 0, 0, 0, 0, 0, 0, 0, 0, 0, 0, 0, 0, 0, 0, 0]);
    assert_eq!(board.get_adaptive_time_limit(), 100);

    // Late game
    board.set_board(vec![1024, 512, 256, 128, 64, 32, 16, 8, 4, 2, 4, 2, 2, 4, 2, 0]);
    assert!(board.get_adaptive_time_limit() >= 500);
}

#[test]
fn test_move_ordering() {
    let mut board = GameBoard::new();
    board.set_board(vec![2, 4, 8, 16, 0, 0, 0, 0, 0, 0, 0, 0, 0, 0, 0, 0]);

    let ordered_moves = board.order_moves();
    assert!(!ordered_moves.is_empty());
    assert!(ordered_moves.len() <= 4);
}

#[test]
fn test_order_moves_lists_exactly_the_legal_directions() {
    let mut board = GameBoard::new();
    // only Right and Down change this board
    board.set_board(vec![2, 0, 0, 0, 0, 0, 0, 0, 0, 0, 0, 0, 0, 0, 0, 0]);
    let ordered = board.order_moves();
    assert_eq!(ordered.len(), 2);
    assert!(ordered.contains(&Direction::Right));
    assert!(ordered.contains(&Direction::Down));
    assert!(!ordered.contains(&Direction::Left));
    assert!(!ordered.contains(&Direction::Up));
}

#[test]
fn test_order_moves_puts_weakest_move_last() {
    let mut board = GameBoard::new();
    // Left and Right keep the 4 in a corner; Down strictly scores lowest
    board.set_board(vec![2, 2, 0, 0, 0, 0, 0, 0, 0, 0, 0, 0, 0, 0, 0, 0]);
    let ordered = board.order_moves();
    assert_eq!(ordered.len(), 3);
    assert_eq!(ordered[2], Direction::Down);
}

#[test]
fn test_count_merges_after_move() {
    let mut board = GameBoard::new();
    // moving left leaves 8 next to 8 on the top row
    board.set_board(vec![8, 0, 0, 8, 0, 0, 0, 0, 0, 0, 0, 0, 0, 0, 0, 0]);
    assert_eq!(board.count_merges_after_move(Direction::Left), 1);
    assert_eq!(board.count_merges_after_move(Direction::Right), 1);
}

#[test]
fn test_find_best_move_none_when_stuck() {
    let mut board = GameBoard::new();
    board.set_board(vec![
        2, 4, 8, 16, 32, 64, 128, 256, 512, 1024, 2048, 4096, 8192, 16384, 32768, 65536,
    ]);
    let table = ZobristTable::new();
    let mut cache = EnhancedTranspositionTable::new();
    assert_eq!(board.find_best_move(&table, &mut cache), None);
}

#[test]
fn test_find_best_move_changes_board() {
    let mut board = GameBoard::new();
    board.set_board(vec![2, 2, 4, 8, 0, 0, 0, 0, 0, 0, 0, 0, 0, 0, 0, 0]);
    let table = ZobristTable::new();
    let mut cache = EnhancedTranspositionTable::new();
    let chosen = board.find_best_move(&table, &mut cache).expect("a legal move exists");
    let mut after = board.clone();
    assert!(after.move_tiles(chosen));
}

#[test]
fn test_depth_zero_returns_direct_evaluation() {
    let mut board = GameBoard::new();
    board.set_board(vec![2, 4, 8, 16, 0, 0, 0, 0, 0, 2, 0, 0, 0, 0, 0, 2]);
    let table = ZobristTable::new();
    let mut cache = EnhancedTranspositionTable::new();
    let start = std::time::Instant::now();
    let direct = board.evaluate_board();
    let searched = board.expectimax(0, true, i64::MIN / 2, i64::MAX / 2, &table, &mut cache, &start, u64::MAX);
    assert_eq!(searched, direct);
}

#[test]
fn test_adaptive_depth_formula() {
    let mut board = GameBoard::new();
    board.set_board(vec![2, 0, 0, 0, 0, 0, 0, 0, 0, 0, 0, 0, 0, 0, 0, 0]);
    assert_eq!(board.calculate_adaptive_depth(), 9);
    board.set_board(vec![512, 2, 4, 8, 16, 32, 64, 128, 2, 4, 8, 16, 32, 64, 0, 0]);
    assert_eq!(board.calculate_adaptive_depth(), 9);
}

#[test]
fn test_adaptive_weights_progression() {
    let early_weights = EvaluationWeights::for_game_state(4, 12);
    let late_weights = EvaluationWeights::for_game_state(1024, 3);

    // Early game should prioritize empty cells more
    assert!(early_weights.empty > late_weights.empty);

    // Late game should prioritize corner and monotonicity more
    assert!(late_weights.corner > early_weights.corner);
    assert!(late_weights.monotonicity > early_weights.monotonicity);
}

#[test]
fn test_can_merge_tiles() {
    let mut board = GameBoard::new();
    board.set_board(vec![2, 0, 0, 2, 4, 8, 0, 4, 0, 0, 0, 0, 2, 0, 0, 0]);
    // clear path along the top row
    assert!(board.can_merge_tiles(0, 0, 0, 3));
    // the 8 blocks the second row
    assert!(!board.can_merge_tiles(1, 0, 1, 3));
    // clear path down the first column
    assert!(board.can_merge_tiles(1, 0, 3, 0));
    // different row and column never merge
    assert!(!board.can_merge_tiles(0, 0, 1, 3));
}

#[test]
fn test_evaluation_is_deterministic() {
    let mut a = GameBoard::new();
    let mut b = GameBoard::new();
    let grid = vec![2, 4, 8, 16, 0, 0, 0, 0, 0, 2, 0, 0, 0, 0, 0, 2];
    a.set_board(grid.clone());
    b.set_board(grid);
    assert_eq!(a.evaluate_board(), b.evaluate_board());
}

#[test]
fn test_evaluation_exact_value_on_empty_board() {
    let mut board = GameBoard::new();
    board.set_board(vec![0; 16]);
    // every heuristic vanishes except the empty-cell bonus: 27 * 16
    assert_eq!(board.evaluate_board(), 432);
}
