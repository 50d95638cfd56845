//! A verified engine for the 4x4 sliding-tile merging puzzle.
//!
//! The library holds the board representation, the move rules, the heuristic
//! position evaluator, a transposition cache, and an expectimax search with
//! alpha-beta pruning and iterative deepening.  Scores are scaled integers
//! (ten units per heuristic point), so every arithmetic step is verified.

pub mod bitboard;
pub mod board;
pub mod cache;
pub mod deepening;
pub mod eval;
pub mod hash;
pub mod moves;
pub mod ordering;
pub mod search;
pub mod web;

mod clock;
mod rng;

pub use bitboard::BitBoard;
pub use board::GameBoard;
pub use cache::clear_cache;
pub use cache::get_cache_stats;
pub use cache::EnhancedTranspositionTable;
pub use deepening::IterativeDeepeningConfig;
pub use eval::EvaluationWeights;
pub use hash::ZobristTable;
pub use moves::Direction;
