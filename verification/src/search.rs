//! The search engine: expectimax over alternating decision and chance
//! nodes, with alpha-beta pruning at decision nodes, the transposition
//! cache consulted and refreshed at every node, and depth chosen from
//! board features.

use std::time::Instant;
use vstd::prelude::*;
use crate::board::GameBoard;
use crate::board::count_zeros;
use crate::board::grid_sum;
use crate::board::max_cell;
use crate::board::move_changes;
use crate::board::terminal_spec;
use crate::board::SUM_LIMIT;
use crate::cache::store_spec;
use crate::cache::EnhancedTranspositionTable;
use crate::cache::TranspositionEntry;
use crate::clock::elapsed_ms;
use crate::clock::instant_now;
use crate::eval::eval_spec;
use crate::eval::EVAL_BOUND;
use crate::hash::zobrist_hash_spec;
use crate::hash::ZobristTable;
use crate::moves::Direction;

verus! {

/// The fixed sentinel for a lost position reached mid-search; it lies
/// strictly below every reachable evaluation.
pub const LOSS_SCORE: i64 = -0x20_0000_0000_0000;

/// Initial alpha-beta window bounds, outside every reachable score.
pub const NEG_INF: i64 = -0x4000_0000_0000_0000;

pub const POS_INF: i64 = 0x4000_0000_0000_0000;

/// Width of the band every search score stays in.
pub const SCORE_SPAN: u64 = 0x30_0000_0000_0000;

/// Every score the cache holds lies in the band the search can produce.
pub open spec fn cache_bounded(c: EnhancedTranspositionTable) -> bool {
    forall|k: u64|
        #[trigger] c.entries().contains_key(k) ==> LOSS_SCORE <= c.entries()[k].score < EVAL_BOUND
}

/// A store of an in-band score keeps every cached score in band.
pub proof fn lemma_store_keeps_bounded(
    m: Map<u64, TranspositionEntry>,
    hash: u64,
    score: i64,
    depth: u32,
    alpha: i64,
    beta: i64,
    mv: Option<Direction>,
)
    requires
        forall|k: u64| #[trigger] m.contains_key(k) ==> LOSS_SCORE <= m[k].score < EVAL_BOUND,
        LOSS_SCORE <= score < EVAL_BOUND,
    ensures
        forall|k: u64|
            #[trigger] store_spec(m, hash, score, depth, alpha, beta, mv).contains_key(k)
                ==> LOSS_SCORE <= store_spec(m, hash, score, depth, alpha, beta, mv)[k].score
                < EVAL_BOUND,
{
    let m2 = store_spec(m, hash, score, depth, alpha, beta, mv);
    let e = TranspositionEntry {
        score,
        depth,
        best_move: mv,
        node_type: crate::cache::classify(score, alpha, beta),
    };
    assert forall|k: u64| #[trigger] m2.contains_key(k) implies LOSS_SCORE <= m2[k].score
        < EVAL_BOUND by {
        if m.contains_key(hash) && m[hash].depth > depth {
            assert(m2 == m);
        } else {
            let mi = m.insert(hash, e);
            if mi.len() > crate::cache::CACHE_CAPACITY {
                assert(m2 == Map::<u64, TranspositionEntry>::empty());
            } else {
                assert(m2 == mi);
                if k != hash {
                    assert(m.contains_key(k) && mi[k] == m[k]);
                }
            }
        }
    }
}

/// The depth the search runs at, from how full the board is and how
/// large its best tile has grown.
pub open spec fn adaptive_depth_spec(empty: int, max_tile: u32) -> u32 {
    let base: u32 = if empty <= 2 {
        6
    } else if empty <= 5 {
        7
    } else if empty <= 8 {
        8
    } else {
        9
    };
    if max_tile >= 512 {
        (base + 3) as u32
    } else if max_tile >= 256 {
        (base + 2) as u32
    } else if max_tile >= 128 {
        (base + 1) as u32
    } else {
        base
    }
}

/// Count of distinct non-zero tile values among the first `i` cells.
pub open spec fn distinct_rec(g: Seq<u32>, i: int) -> int
    decreases i,
{
    if i <= 0 {
        0
    } else {
        distinct_rec(g, i - 1) + (if g[i - 1] != 0 && !g.take(i - 1).contains(g[i - 1]) {
            1int
        } else {
            0int
        })
    }
}

/// Board complexity on a 0..1000 scale: value variety, one-move merges
/// over all four directions, and the monotonicity deficit.
pub open spec fn complexity_spec(g: Seq<u32>) -> int {
    let merges = crate::ordering::merges_after(g, Direction::Up) + crate::ordering::merges_after(
        g,
        Direction::Down,
    ) + crate::ordering::merges_after(g, Direction::Left) + crate::ordering::merges_after(
        g,
        Direction::Right,
    );
    let deficit = 500 - (if crate::eval::mono_spec(g) / 2 < 500 {
        crate::eval::mono_spec(g) / 2
    } else {
        500
    });
    let raw = 100 * distinct_rec(g, 16) + 125 * merges + deficit;
    if raw < 1000 {
        raw
    } else {
        1000
    }
}

/// The refined depth rule: fuller boards search shallower, large tiles
/// and complex boards push the depth up, clamped to 3..9.
pub open spec fn smart_depth_spec(g: Seq<u32>) -> u32 {
    let base: u32 = if count_zeros(g) <= 2 {
        4
    } else if count_zeros(g) <= 5 {
        5
    } else if count_zeros(g) <= 8 {
        6
    } else if count_zeros(g) <= 12 {
        7
    } else {
        8
    };
    let bonus: u32 = if max_cell(g) >= 1024 {
        2
    } else if max_cell(g) >= 512 {
        1
    } else {
        0
    };
    let adj: u32 = if complexity_spec(g) > 700 {
        1
    } else {
        0
    };
    let total = (base + bonus + adj) as u32;
    if total < 3 {
        3
    } else if total > 9 {
        9
    } else {
        total
    }
}

impl GameBoard {
    /// The plain fixed depth rule: emptier boards search deeper, and
    /// a grown board adds up to three levels.
    pub fn calculate_adaptive_depth(&self) -> (r: u32)
        requires
            self.wf(),
        ensures
            r == adaptive_depth_spec(count_zeros(self.grid@), max_cell(self.grid@)),
            6 <= r <= 12,
    {
        let empty_cells = self.count_empty_cells();
        let max_tile = self.get_max_tile();
        let base_depth: u32 = if empty_cells <= 2 {
            6
        } else if empty_cells <= 5 {
            7
        } else if empty_cells <= 8 {
            8
        } else {
            9
        };
        if max_tile >= 512 {
            base_depth + 3
        } else if max_tile >= 256 {
            base_depth + 2
        } else if max_tile >= 128 {
            base_depth + 1
        } else {
            base_depth
        }
    }

    /// Count of distinct non-zero tile values on the board.
    fn distinct_tile_values(&self) -> (r: u32)
        requires
            self.grid@.len() == 16,
        ensures
            r == distinct_rec(self.grid@, 16),
            r <= 16,
    {
        let ghost g = self.grid@;
        let mut count: u32 = 0;
        let mut i: usize = 0;
        while i < 16
            invariant
                self.grid@ == g,
                g.len() == 16,
                i <= 16,
                count <= i,
                count == distinct_rec(g, i as int),
            decreases 16 - i,
        {
            let v = self.grid[i];
            if v != 0 {
                let mut seen = false;
                let mut j: usize = 0;
                while j < i
                    invariant
                        self.grid@ == g,
                        g.len() == 16,
                        i < 16,
                        j <= i,
                        seen == (exists|x: int| 0 <= x < j && g[x] == v),
                    decreases i - j,
                {
                    if self.grid[j] == v {
                        seen = true;
                    }
                    j += 1;
                }
                proof {
                    if seen {
                        let x = choose|x: int| 0 <= x < i && g[x] == v;
                        assert(g.take(i as int)[x] == v);
                    } else {
                        if g.take(i as int).contains(v) {
                            let x = choose|x: int|
                                0 <= x < i && g.take(i as int)[x] == v;
                            assert(g[x] == v);
                        }
                    }
                    assert(seen == g.take(i as int).contains(v));
                }
                if !seen {
                    count += 1;
                }
            }
            i += 1;
        }
        count
    }

    /// Board complexity on a 0..1000 scale.
    fn calculate_board_complexity(&self) -> (r: u32)
        requires
            self.wf(),
            grid_sum(self.grid@) <= SUM_LIMIT,
            self.move_count < u32::MAX,
        ensures
            r == complexity_spec(self.grid@),
            r <= 1000,
    {
        let distinct = self.distinct_tile_values();
        let m_up = self.count_merges_after_move(Direction::Up);
        let m_down = self.count_merges_after_move(Direction::Down);
        let m_left = self.count_merges_after_move(Direction::Left);
        let m_right = self.count_merges_after_move(Direction::Right);
        let merges = m_up + m_down + m_left + m_right;
        let mono = self.calculate_monotonicity();
        let half = ((mono as u64) / 2) as u64;
        let capped: u64 = if half < 500 {
            half
        } else {
            500
        };
        let deficit: u32 = 500 - (capped as u32);
        let raw: u32 = 100 * distinct + 125 * merges + deficit;
        if raw < 1000 {
            raw
        } else {
            1000
        }
    }

    /// The refined depth rule, clamped to 3..9.
    pub fn calculate_smart_depth(&self) -> (r: u32)
        requires
            self.wf(),
            grid_sum(self.grid@) <= SUM_LIMIT,
            self.move_count < u32::MAX,
        ensures
            r == smart_depth_spec(self.grid@),
            3 <= r <= 9,
    {
        let empty_cells = self.count_empty_cells();
        let max_tile = self.get_max_tile();
        let complexity = self.calculate_board_complexity();
        let base_depth: u32 = if empty_cells <= 2 {
            4
        } else if empty_cells <= 5 {
            5
        } else if empty_cells <= 8 {
            6
        } else if empty_cells <= 12 {
            7
        } else {
            8
        };
        let tile_bonus: u32 = if max_tile >= 1024 {
            2
        } else if max_tile >= 512 {
            1
        } else {
            0
        };
        let complexity_adjustment: u32 = if complexity > 700 {
            1
        } else {
            0
        };
        let total = base_depth + tile_bonus + complexity_adjustment;
        if total < 3 {
            3
        } else if total > 9 {
            9
        } else {
            total
        }
    }

    /// First cell holding the largest tile, as `(row, col)`.
    pub fn find_max_tile_position(&self) -> (r: Option<(usize, usize)>)
        requires
            self.wf(),
        ensures
            ({
                let p = first_index_of(self.grid@, max_cell(self.grid@), 0);
                &&& 0 <= p <= 16
                &&& r == if p < 16 {
                    Some((((p / 4) as usize, (p % 4) as usize)))
                } else {
                    None::<(usize, usize)>
                }
            }),
    {
        let max_tile = self.get_max_tile();
        let mut i: usize = 0;
        while i < 16
            invariant
                self.wf(),
                max_tile == max_cell(self.grid@),
                i <= 16,
                first_index_of(self.grid@, max_tile, 0) == first_index_of(
                    self.grid@,
                    max_tile,
                    i as int,
                ),
            decreases 16 - i,
        {
            if self.grid[i] == max_tile {
                return Some((i / 4, i % 4));
            }
            i += 1;
        }
        None
    }

    /// The strategic worth of spawning on an empty cell: corners and
    /// edges, nearness to the largest tile, merge chances, and a penalty
    /// for splitting a monotone run.  A bounded heuristic, used only to
    /// order and prune chance-node candidates.
    fn score_empty_cell(&self, row: usize, col: usize) -> (r: i64)
        requires
            self.wf(),
            row < 4,
            col < 4,
        ensures
            -100 <= r <= 2000,
    {
        let mut score: i64 = 0;
        if (row == 0 || row == 3) && (col == 0 || col == 3) {
            score += 200;
        } else if row == 0 || row == 3 || col == 0 || col == 3 {
            score += 100;
        }
        if let Some(mp) = self.find_max_tile_position() {
            proof {
                let p = first_index_of(self.grid@, max_cell(self.grid@), 0);
                assert(p < 16);
                assert(mp.0 < 4 && mp.1 < 4);
            }
            let dr = if row >= mp.0 {
                row - mp.0
            } else {
                mp.0 - row
            };
            let dc = if col >= mp.1 {
                col - mp.1
            } else {
                mp.1 - col
            };
            let dist = (dr + dc) as u64;
            score += (150u64 / (dist + 1)) as i64;
        }
        let mut merge_potential: i64 = 0;
        if row > 0 {
            let n = self.grid[4 * (row - 1) + col];
            if n == 2 || n == 4 {
                merge_potential += 1;
            }
        }
        if row < 3 {
            let n = self.grid[4 * (row + 1) + col];
            if n == 2 || n == 4 {
                merge_potential += 1;
            }
        }
        if col > 0 {
            let n = self.grid[4 * row + col - 1];
            if n == 2 || n == 4 {
                merge_potential += 1;
            }
        }
        if col < 3 {
            let n = self.grid[4 * row + col + 1];
            if n == 2 || n == 4 {
                merge_potential += 1;
            }
        }
        score += merge_potential * 50;
        let mut penalty: i64 = 0;
        if col > 0 && col < 3 {
            let left = self.grid[4 * row + col - 1];
            let right = self.grid[4 * row + col + 1];
            if left > 0 && right > 0 && ((left > 4 && right > 4) || (left < 2 && right < 2)) {
                penalty += 1;
            }
        }
        if row > 0 && row < 3 {
            let up = self.grid[4 * (row - 1) + col];
            let down = self.grid[4 * (row + 1) + col];
            if up > 0 && down > 0 && ((up > 4 && down > 4) || (up < 2 && down < 2)) {
                penalty += 1;
            }
        }
        score - penalty * 30
    }

    /// Keep the best-scoring six to eight of many candidate spawn cells.
    /// Every returned cell comes from the input list.
    pub fn prioritize_empty_cells(&self, cells: Vec<(usize, usize)>) -> (r: Vec<(usize, usize)>)
        requires
            self.wf(),
            8 < cells@.len() <= 16,
            forall|k: int|
                0 <= k < cells@.len() ==> {
                    let p = #[trigger] cells@[k];
                    &&& p.0 < 4
                    &&& p.1 < 4
                    &&& self.grid@[4 * (p.0 as int) + (p.1 as int)] == 0
                },
        ensures
            6 <= r@.len() <= 8,
            forall|k: int|
                0 <= k < r@.len() ==> {
                    let p = #[trigger] r@[k];
                    &&& p.0 < 4
                    &&& p.1 < 4
                    &&& self.grid@[4 * (p.0 as int) + (p.1 as int)] == 0
                },
    {
        let mut cells = cells;
        let n = cells.len();
        let mut scores: Vec<i64> = Vec::new();
        let mut k: usize = 0;
        while k < n
            invariant
                self.wf(),
                8 < n <= 16,
                cells@.len() == n,
                k <= n,
                scores@.len() == k,
                forall|x: int|
                    0 <= x < cells@.len() ==> {
                        let p = #[trigger] cells@[x];
                        &&& p.0 < 4
                        &&& p.1 < 4
                        &&& self.grid@[4 * (p.0 as int) + (p.1 as int)] == 0
                    },
            decreases n - k,
        {
            let p = cells[k];
            let s = self.score_empty_cell(p.0, p.1);
            scores.push(s);
            k += 1;
        }
        let half = n / 2;
        let limit: usize = if half < 6 {
            6
        } else if half > 8 {
            8
        } else {
            half
        };
        let mut round: usize = 0;
        while round < limit
            invariant
                self.wf(),
                8 < n <= 16,
                limit <= 8,
                limit <= n,
                cells@.len() == n,
                scores@.len() == n,
                round <= limit,
                forall|x: int|
                    0 <= x < cells@.len() ==> {
                        let p = #[trigger] cells@[x];
                        &&& p.0 < 4
                        &&& p.1 < 4
                        &&& self.grid@[4 * (p.0 as int) + (p.1 as int)] == 0
                    },
            decreases limit - round,
        {
            let mut mi: usize = round;
            let mut j: usize = round + 1;
            while j < n
                invariant
                    cells@.len() == n,
                    scores@.len() == n,
                    round < n,
                    round <= mi < n,
                    round < j <= n,
                decreases n - j,
            {
                if scores[j] > scores[mi] {
                    mi = j;
                }
                j += 1;
            }
            let pa = cells[round];
            let pb = cells[mi];
            cells[round] = pb;
            cells[mi] = pa;
            let sa = scores[round];
            let sb = scores[mi];
            scores[round] = sb;
            scores[mi] = sa;
            round += 1;
        }
        let mut out: Vec<(usize, usize)> = Vec::new();
        let mut k2: usize = 0;
        while k2 < limit
            invariant
                cells@.len() == n,
                limit <= n,
                6 <= limit <= 8,
                k2 <= limit,
                out@.len() == k2,
                forall|x: int|
                    0 <= x < cells@.len() ==> {
                        let p = #[trigger] cells@[x];
                        &&& p.0 < 4
                        &&& p.1 < 4
                        &&& self.grid@[4 * (p.0 as int) + (p.1 as int)] == 0
                    },
                forall|x: int|
                    0 <= x < out@.len() ==> {
                        let p = #[trigger] out@[x];
                        &&& p.0 < 4
                        &&& p.1 < 4
                        &&& self.grid@[4 * (p.0 as int) + (p.1 as int)] == 0
                    },
            decreases limit - k2,
        {
            out.push(cells[k2]);
            k2 += 1;
        }
        out
    }

    /// The spawn cells a chance node explores: every empty cell while
    /// few are empty, else a pruned strategic subset.  Non-empty exactly
    /// when the board has an empty cell.
    pub fn get_strategic_empty_cells(&self) -> (r: Vec<(usize, usize)>)
        requires
            self.wf(),
        ensures
            forall|k: int|
                0 <= k < r@.len() ==> {
                    let p = #[trigger] r@[k];
                    &&& p.0 < 4
                    &&& p.1 < 4
                    &&& self.grid@[4 * (p.0 as int) + (p.1 as int)] == 0
                },
            r@.len() > 0 <==> count_zeros(self.grid@) > 0,
            r@.len() <= 16,
    {
        let all = self.get_empty_cells();
        proof {
            crate::board::lemma_count_zeros_bounds(self.grid@);
        }
        if all.len() <= 8 {
            return all;
        }
        self.prioritize_empty_cells(all)
    }

    /// One expectimax node.  At depth zero, or when the clock has run
    /// past the budget, the heuristic evaluation is returned directly; a
    /// lost position returns the loss sentinel; otherwise the node
    /// consults the cache, explores moves or spawn cells, and stores what
    /// it computed.
    pub fn expectimax(
        &self,
        depth: u32,
        is_maximizing: bool,
        alpha: i64,
        beta: i64,
        table: &ZobristTable,
        cache: &mut EnhancedTranspositionTable,
        start: &Instant,
        budget_ms: u64,
    ) -> (r: i64)
        requires
            self.wf(),
            table.wf(),
            cache_bounded(*old(cache)),
            grid_sum(self.grid@) + 4 * (depth as int) <= SUM_LIMIT,
            self.move_count as int + depth as int <= u32::MAX,
        ensures
            cache_bounded(*final(cache)),
            LOSS_SCORE <= r < EVAL_BOUND,
            depth == 0 ==> r == eval_spec(self.grid@),
            depth > 0 && terminal_spec(self.grid@) ==> r == LOSS_SCORE,
            depth > 0 && !terminal_spec(self.grid@) ==> (crate::cache::lookup_spec(
                old(cache).entries(),
                zobrist_hash_spec(self.grid@, table.keys@),
                depth,
                alpha,
                beta,
            ) matches Some(s) ==> r == s || r == eval_spec(self.grid@)),
            depth > 0 && !terminal_spec(self.grid@) && !is_maximizing && count_zeros(self.grid@)
                == 0 && crate::cache::lookup_spec(
                old(cache).entries(),
                zobrist_hash_spec(self.grid@, table.keys@),
                depth,
                alpha,
                beta,
            ) is None ==> r == eval_spec(self.grid@),
            depth > 0 && !terminal_spec(self.grid@) && is_maximizing && (forall|d: Direction|
                !move_changes(self.grid@, d)) && crate::cache::lookup_spec(
                old(cache).entries(),
                zobrist_hash_spec(self.grid@, table.keys@),
                depth,
                alpha,
                beta,
            ) is None ==> r == eval_spec(self.grid@),
        decreases depth,
    {
        if depth == 0 {
            return self.evaluate_board();
        }
        if self.is_game_over() {
            return LOSS_SCORE;
        }
        if elapsed_ms(start) >= budget_ms {
            return self.evaluate_board();
        }
        let hash = self.board_hash(table);
        match cache.lookup(hash, depth, alpha, beta) {
            Some(cached) => {
                return cached;
            },
            None => {},
        }
        if is_maximizing {
            let dirs = self.order_moves();
            let mut best: i64 = LOSS_SCORE;
            let mut best_move: Option<Direction> = None;
            let mut any = false;
            let mut al = alpha;
            let mut k: usize = 0;
            while k < dirs.len() && al < beta
                invariant
                    self.wf(),
                    table.wf(),
                    cache_bounded(*cache),
                    grid_sum(self.grid@) + 4 * (depth as int) <= SUM_LIMIT,
                    self.move_count as int + depth as int <= u32::MAX,
                    depth >= 1,
                    LOSS_SCORE <= best < EVAL_BOUND,
                    k <= dirs@.len(),
                    forall|d: Direction| dirs@.contains(d) ==> move_changes(self.grid@, d),
                    any ==> exists|d: Direction| move_changes(self.grid@, d),
                decreases dirs@.len() - k,
            {
                let d = dirs[k];
                proof {
                    assert(dirs@[k as int] == d);
                    assert(dirs@.contains(d));
                }
                let mut nb = self.duplicate();
                let _moved = nb.move_tiles(d);
                let s = nb.expectimax(depth - 1, false, al, beta, table, cache, start, budget_ms);
                any = true;
                if s > best {
                    best = s;
                    best_move = Some(d);
                }
                if s > al {
                    al = s;
                }
                k += 1;
            }
            if !any {
                return self.evaluate_board();
            }
            let ghost before = cache.entries();
            cache.store(hash, best, depth, al, beta, best_move);
            proof {
                lemma_store_keeps_bounded(before, hash, best, depth, al, beta, best_move);
            }
            best
        } else {
            let cells = self.get_strategic_empty_cells();
            if cells.len() == 0 {
                return self.evaluate_board();
            }
            let mut total_off: u64 = 0;
            let mut k: usize = 0;
            while k < cells.len()
                invariant
                    self.wf(),
                    table.wf(),
                    cache_bounded(*cache),
                    grid_sum(self.grid@) + 4 * (depth as int) <= SUM_LIMIT,
                    self.move_count as int + depth as int <= u32::MAX,
                    depth >= 1,
                    cells@.len() <= 16,
                    k <= cells@.len(),
                    total_off <= 10 * (k as u64) * (SCORE_SPAN - 1),
                    forall|x: int|
                        0 <= x < cells@.len() ==> {
                            let p = #[trigger] cells@[x];
                            &&& p.0 < 4
                            &&& p.1 < 4
                            &&& self.grid@[4 * (p.0 as int) + (p.1 as int)] == 0
                        },
                decreases cells@.len() - k,
            {
                let p = cells[k];
                let flat = 4 * p.0 + p.1;
                let mut nb2 = self.duplicate();
                nb2.place_tile(flat, 2);
                let s2 = nb2.expectimax(
                    depth - 1,
                    true,
                    alpha,
                    beta,
                    table,
                    cache,
                    start,
                    budget_ms,
                );
                let mut nb4 = self.duplicate();
                nb4.place_tile(flat, 4);
                let s4 = nb4.expectimax(
                    depth - 1,
                    true,
                    alpha,
                    beta,
                    table,
                    cache,
                    start,
                    budget_ms,
                );
                let off2 = (s2 - LOSS_SCORE) as u64;
                let off4 = (s4 - LOSS_SCORE) as u64;
                proof {
                    assert(off2 <= SCORE_SPAN - 1);
                    assert(off4 <= SCORE_SPAN - 1);
                    assert(total_off + 9 * off2 + off4 <= 10 * ((k + 1) as u64) * (SCORE_SPAN - 1)
                        && 10 * ((k + 1) as u64) * (SCORE_SPAN - 1)
                        <= 0x2000_0000_0000_0000) by (nonlinear_arith)
                        requires
                            total_off <= 10 * (k as u64) * (SCORE_SPAN - 1),
                            off2 <= SCORE_SPAN - 1,
                            off4 <= SCORE_SPAN - 1,
                            k < 16,
                    ;
                }
                total_off = total_off + 9 * off2 + off4;
                k += 1;
            }
            let denom = 10 * (cells.len() as u64);
            let avg_off = total_off / denom;
            proof {
                assert(total_off <= denom * (SCORE_SPAN - 1));
                assert(avg_off <= SCORE_SPAN - 1) by (nonlinear_arith)
                    requires
                        denom > 0,
                        total_off <= denom * (SCORE_SPAN - 1),
                        avg_off == total_off / denom,
                ;
            }
            let avg = LOSS_SCORE + (avg_off as i64);
            let ghost before = cache.entries();
            cache.store(hash, avg, depth, alpha, beta, None);
            proof {
                lemma_store_keeps_bounded(before, hash, avg, depth, alpha, beta, None);
            }
            avg
        }
    }

    /// The move the search judges best: none exactly when no direction
    /// changes the board, else a direction that does change it.
    pub fn find_best_move(
        &self,
        table: &ZobristTable,
        cache: &mut EnhancedTranspositionTable,
    ) -> (r: Option<Direction>)
        requires
            self.wf(),
            table.wf(),
            cache_bounded(*old(cache)),
            grid_sum(self.grid@) + 64 <= SUM_LIMIT,
            self.move_count as int + 16 <= u32::MAX,
        ensures
            cache_bounded(*final(cache)),
            match r {
                Some(d) => move_changes(self.grid@, d),
                None => forall|d: Direction| !move_changes(self.grid@, d),
            },
    {
        let depth = self.calculate_smart_depth();
        let ordered = self.order_moves();
        if ordered.len() == 0 {
            proof {
                assert forall|d: Direction| !move_changes(self.grid@, d) by {
                    if move_changes(self.grid@, d) {
                        assert(ordered@.contains(d));
                    }
                }
            }
            return None;
        }
        let start = instant_now();
        let mut best_score: i64 = NEG_INF;
        let mut best: Direction = ordered[0];
        proof {
            assert(ordered@[0] == best);
            assert(ordered@.contains(best));
        }
        let mut k: usize = 0;
        while k < ordered.len()
            invariant
                self.wf(),
                table.wf(),
                cache_bounded(*cache),
                grid_sum(self.grid@) + 64 <= SUM_LIMIT,
                self.move_count as int + 16 <= u32::MAX,
                1 <= depth <= 9,
                k <= ordered@.len(),
                ordered@.len() >= 1,
                ordered@.contains(best),
                forall|d: Direction| ordered@.contains(d) ==> move_changes(self.grid@, d),
            decreases ordered@.len() - k,
        {
            let d = ordered[k];
            proof {
                assert(ordered@[k as int] == d);
                assert(ordered@.contains(d));
            }
            let mut nb = self.duplicate();
            let _moved = nb.move_tiles(d);
            let s = nb.expectimax(
                depth - 1,
                false,
                NEG_INF,
                POS_INF,
                table,
                cache,
                &start,
                u64::MAX,
            );
            if s > best_score {
                best_score = s;
                best = d;
            }
            k += 1;
        }
        Some(best)
    }
}

/// First index at or after `i` holding value `v`, or 16 when none does.
pub open spec fn first_index_of(g: Seq<u32>, v: u32, i: int) -> int
    decreases 16 - i,
{
    if i < 0 || i >= 16 {
        16
    } else if g[i] == v {
        i
    } else {
        first_index_of(g, v, i + 1)
    }
}

} // verus!
