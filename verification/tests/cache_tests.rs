use twenty_forty_eight::cache::clear_cache;
use twenty_forty_eight::cache::get_cache_stats;
use twenty_forty_eight::cache::EnhancedTranspositionTable;
use twenty_forty_eight::moves::Direction;

#[test]
fn test_enhanced_transposition_table() {
    // Test storing and retrieving
    let mut cache = EnhancedTranspositionTable::new();
    let hash = 12345;
    let score = 100;
    let depth = 5;
    let alpha = -1000;
    let beta = 1000;

    cache.store(hash, score, depth, alpha, beta, None);

    let retrieved = cache.lookup(hash, depth, alpha, beta);
    assert_eq!(retrieved, Some(score));
}

#[test]
fn test_depth_replacement() {
    let mut cache = EnhancedTranspositionTable::new();
    let hash = 12345;

    // Store shallow search
    cache.store(hash, 50, 3, -1000, 1000, None);

    // Try to store deeper search
    cache.store(hash, 100, 5, -1000, 1000, None);

    // Should get the deeper search result
    let retrieved = cache.lookup(hash, 5, -1000, 1000);
    assert_eq!(retrieved, Some(100));
}

#[test]
fn test_shallow_store_keeps_deep_entry() {
    let mut cache = EnhancedTranspositionTable::new();
    let hash = 777;
    cache.store(hash, 100, 5, -1000, 1000, Some(Direction::Left));
    // a shallower result must not evict the depth-5 entry
    cache.store(hash, 42, 3, -1000, 1000, Some(Direction::Right));
    assert_eq!(cache.lookup(hash, 5, -1000, 1000), Some(100));
    assert_eq!(cache.get_best_move(hash), Some(Direction::Left));
}

#[test]
fn test_lookup_depth_and_window_rules() {
    let mut cache = EnhancedTranspositionTable::new();
    let hash = 9;
    cache.store(hash, 100, 4, -1000, 1000, None);
    // stored shallower than requested: unusable
    assert_eq!(cache.lookup(hash, 5, -1000, 1000), None);
    // an exact entry answers any window at its own depth
    assert_eq!(cache.lookup(hash, 4, 900, 1000), Some(100));

    // a lower-bound entry (score >= beta) answers only when it still
    // reaches the current beta
    let mut c2 = EnhancedTranspositionTable::new();
    c2.store(hash, 500, 4, -1000, 400, None);
    assert_eq!(c2.lookup(hash, 4, -1000, 450), Some(500));
    assert_eq!(c2.lookup(hash, 4, -1000, 800), None);
}

#[test]
fn test_clear_and_stats() {
    let mut cache = EnhancedTranspositionTable::new();
    cache.store(1, 10, 1, -5, 5, None);
    cache.store(2, 20, 1, -5, 5, None);
    let _ = cache.lookup(1, 1, -5, 5);
    let _ = cache.lookup(3, 1, -5, 5);
    let (hits, misses, size) = get_cache_stats(&cache);
    assert_eq!(hits, 1);
    assert_eq!(misses, 1);
    assert_eq!(size, 2);
    clear_cache(&mut cache);
    let (h2, m2, s2) = get_cache_stats(&cache);
    assert_eq!((h2, m2, s2), (0, 0, 0));
}

#[test]
fn test_selective_clear() {
    let mut cache = EnhancedTranspositionTable::new();
    cache.store(1, 10, 2, -1000, 1000, None);
    cache.store(2, 20, 6, -1000, 1000, None);
    cache.selective_clear(5);
    assert_eq!(cache.lookup(1, 1, -1000, 1000), None);
    assert_eq!(cache.lookup(2, 1, -1000, 1000), Some(20));
}

#[test]
fn test_collision_counter() {
    let mut cache = EnhancedTranspositionTable::new();
    cache.store(5, 10, 7, -1000, 1000, None);
    cache.store(5, 99, 2, -1000, 1000, None);
    let stats = cache.get_cache_stats();
    assert_eq!(stats.2, 1);
    assert_eq!(stats.3, 1);
}
