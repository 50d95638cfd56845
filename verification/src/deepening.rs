//! The depth/time controller: iterative deepening under a wall-clock
//! budget.  The minimum depth always completes and sets a move; each
//! further depth is adopted only once it finishes inside the budget, and
//! the loop stops early on a decisive score or a nearly spent budget.

use std::time::Instant;
use vstd::prelude::*;
use crate::board::GameBoard;
use crate::board::apply_move;
use crate::board::count_zeros;
use crate::board::grid_sum;
use crate::board::move_changes;
use crate::board::SUM_LIMIT;
use crate::cache::EnhancedTranspositionTable;
use crate::clock::elapsed_ms;
use crate::clock::instant_now;
use crate::hash::zobrist_hash_spec;
use crate::hash::ZobristTable;
use crate::moves::Direction;
use crate::search::cache_bounded;
use crate::search::NEG_INF;
use crate::search::POS_INF;

verus! {

/// A depth's best score past which deeper search is pointless, in tenths
/// of a heuristic point.
pub const DECISIVE_SCORE: i64 = 100_000;

/// The budget and depth window of a timed search.
#[derive(Debug, Clone)]
pub struct IterativeDeepeningConfig {
    pub max_time_ms: u64,
    pub min_depth: u32,
    pub max_depth: u32,
    pub time_per_move_ms: u64,
}

impl Default for IterativeDeepeningConfig {
    /// A budget tuned for responsive play.
    fn default() -> (r: IterativeDeepeningConfig)
        ensures
            r.max_time_ms == 200,
            r.min_depth == 4,
            r.max_depth == 10,
            r.time_per_move_ms == 150,
    {
        IterativeDeepeningConfig {
            max_time_ms: 200,
            min_depth: 4,
            max_depth: 10,
            time_per_move_ms: 150,
        }
    }
}

/// The wall-clock budget chosen for one move: fuller boards get more
/// time, since they sit closer to a critical decision.
pub open spec fn time_limit_spec(empty: int) -> u64 {
    if empty >= 12 {
        100
    } else if empty >= 8 {
        150
    } else if empty >= 4 {
        250
    } else {
        500
    }
}

impl GameBoard {
    /// The hash of the position a move leads to (of this position, when
    /// the move changes nothing).
    pub fn get_move_hash(&self, direction: Direction, table: &ZobristTable) -> (r: u64)
        requires
            self.wf(),
            table.wf(),
            grid_sum(self.grid@) <= SUM_LIMIT,
            self.move_count < u32::MAX,
        ensures
            r == zobrist_hash_spec(
                if move_changes(self.grid@, direction) {
                    apply_move(self.grid@, direction)
                } else {
                    self.grid@
                },
                table.keys@,
            ),
    {
        let mut nb = self.duplicate();
        let _ = nb.move_tiles(direction);
        nb.board_hash(table)
    }

    /// Milliseconds to spend on the next move, from the empty-cell count.
    pub fn get_adaptive_time_limit(&self) -> (r: u64)
        requires
            self.wf(),
        ensures
            r == time_limit_spec(count_zeros(self.grid@)),
    {
        let empty_cells = self.count_empty_cells();
        if empty_cells >= 12 {
            100
        } else if empty_cells >= 8 {
            150
        } else if empty_cells >= 4 {
            250
        } else {
            500
        }
    }

    /// Iterative deepening under `config`'s clock budget: none exactly
    /// when no direction changes the board, else a direction that does.
    /// The minimum depth always completes; deeper results are adopted
    /// only when their depth finished inside the budget.
    pub fn find_best_move_iterative(
        &self,
        config: &IterativeDeepeningConfig,
        table: &ZobristTable,
        cache: &mut EnhancedTranspositionTable,
    ) -> (r: Option<Direction>)
        requires
            self.wf(),
            table.wf(),
            cache_bounded(*old(cache)),
            grid_sum(self.grid@) + 64 <= SUM_LIMIT,
            self.move_count as int + 17 <= u32::MAX,
            1 <= config.min_depth <= 16,
            config.max_depth <= 16,
        ensures
            cache_bounded(*final(cache)),
            match r {
                Some(d) => move_changes(self.grid@, d),
                None => forall|d: Direction| !move_changes(self.grid@, d),
            },
    {
        let start = instant_now();
        let ordered = self.order_moves();
        if ordered.len() == 0 {
            proof {
                assert forall|d: Direction| !move_changes(self.grid@, d) by {
                    if move_changes(self.grid@, d) {
                        assert(ordered@.contains(d));
                    }
                }
            }
            return None;
        }
        let mut best: Direction = ordered[0];
        proof {
            assert(ordered@[0] == best);
            assert(ordered@.contains(best));
        }
        let mut depth = config.min_depth;
        let mut first = true;
        let mut stop = false;
        while depth <= config.max_depth && !stop
            invariant
                self.wf(),
                table.wf(),
                cache_bounded(*cache),
                grid_sum(self.grid@) + 64 <= SUM_LIMIT,
                self.move_count as int + 17 <= u32::MAX,
                1 <= depth <= 17,
                config.max_depth <= 16,
                ordered@.len() >= 1,
                ordered@.contains(best),
                forall|d: Direction| ordered@.contains(d) ==> move_changes(self.grid@, d),
            decreases config.max_depth + 1 - depth, (if stop {
                0int
            } else {
                1int
            }),
        {
            if !first && elapsed_ms(&start) >= config.max_time_ms {
                stop = true;
            } else {
                let mut depth_best: Direction = best;
                let mut depth_best_score: i64 = NEG_INF;
                let mut al: i64 = NEG_INF;
                let mut k: usize = 0;
                while k < ordered.len()
                    invariant
                        self.wf(),
                        table.wf(),
                        cache_bounded(*cache),
                        grid_sum(self.grid@) + 64 <= SUM_LIMIT,
                        self.move_count as int + 17 <= u32::MAX,
                        1 <= depth <= 17,
                        k <= ordered@.len(),
                        ordered@.contains(depth_best),
                        forall|d: Direction| ordered@.contains(d) ==> move_changes(self.grid@, d),
                    decreases ordered@.len() - k,
                {
                    let d = ordered[k];
                    proof {
                        assert(ordered@[k as int] == d);
                        assert(ordered@.contains(d));
                    }
                    let mut nb = self.duplicate();
                    let _moved = nb.move_tiles(d);
                    let s = nb.expectimax(
                        depth - 1,
                        false,
                        al,
                        POS_INF,
                        table,
                        cache,
                        &start,
                        config.max_time_ms,
                    );
                    if s > depth_best_score {
                        depth_best_score = s;
                        depth_best = d;
                        if s > al {
                            al = s;
                        }
                    }
                    k += 1;
                }
                if first || elapsed_ms(&start) < config.max_time_ms {
                    best = depth_best;
                }
                first = false;
                if depth_best_score > DECISIVE_SCORE {
                    stop = true;
                }
                if elapsed_ms(&start) >= (config.max_time_ms / 10) * 8 {
                    stop = true;
                }
                depth += 1;
            }
        }
        Some(best)
    }
}

} // verus!
