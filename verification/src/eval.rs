//! The heuristic position evaluator.
//!
//! One consolidated, deterministic, side-effect-free scoring function: a
//! weighted sum of monotonicity, smoothness, empty-cell count, corner and
//! edge placement of large tiles, one-move merge potential, a fixed
//! snake-ordered positional weighting, and an isolation penalty.  All
//! weights are integers in tenths of a heuristic point, so fractional
//! tunings carry over without floating point; the exact values are a
//! documented, tunable choice.

use vstd::prelude::*;
use crate::board::GameBoard;
use crate::board::count_zeros;
use crate::board::row_seq;
use crate::board::col_seq;

verus! {

pub const W_MONOTONICITY: i64 = 10;

pub const W_SMOOTHNESS: i64 = 1;

pub const W_EMPTY: i64 = 27;

pub const W_CORNER: i64 = 15;

pub const W_EDGE: i64 = 1;

pub const W_MERGE: i64 = 2;

pub const W_SNAKE: i64 = 10;

pub const W_ISOLATION: i64 = -5;

pub const W_POSITION: i64 = 10;

/// Every evaluation stays within this magnitude; the terminal-loss
/// sentinel of the search lies strictly outside it.
pub const EVAL_BOUND: i64 = 0x10_0000_0000_0000;

/// The tunable weights of the evaluator, one per heuristic, in tenths.
#[derive(Debug, Clone)]
pub struct EvaluationWeights {
    pub monotonicity: i64,
    pub smoothness: i64,
    pub empty: i64,
    pub corner: i64,
    pub edge: i64,
    pub merge: i64,
    pub snake: i64,
    pub isolation: i64,
    pub position: i64,
}

impl Default for EvaluationWeights {
    /// The weighting `evaluate_board` is fixed to.
    fn default() -> (r: EvaluationWeights)
        ensures
            r.monotonicity == W_MONOTONICITY,
            r.smoothness == W_SMOOTHNESS,
            r.empty == W_EMPTY,
            r.corner == W_CORNER,
            r.edge == W_EDGE,
            r.merge == W_MERGE,
            r.snake == W_SNAKE,
            r.isolation == W_ISOLATION,
            r.position == W_POSITION,
    {
        EvaluationWeights {
            monotonicity: W_MONOTONICITY,
            smoothness: W_SMOOTHNESS,
            empty: W_EMPTY,
            corner: W_CORNER,
            edge: W_EDGE,
            merge: W_MERGE,
            snake: W_SNAKE,
            isolation: W_ISOLATION,
            position: W_POSITION,
        }
    }
}

impl EvaluationWeights {
    /// Weights adapted to the stage of the game, on a progress scale set
    /// by the largest tile: early boards weigh free cells most, late
    /// boards weigh structure and corner control most.
    pub fn for_game_state(max_tile: u32, empty_cells: usize) -> (r: EvaluationWeights)
        ensures
            r.monotonicity == 12 + 2 * progress_of(max_tile),
            r.smoothness == 1 + progress_of(max_tile),
            r.empty == 40 - progress_of(max_tile),
            r.corner == 20 + 3 * progress_of(max_tile),
            r.edge == 5 + progress_of(max_tile),
            r.merge == 5,
            r.snake == W_SNAKE,
            r.isolation == W_ISOLATION,
            r.position == 12 + progress_of(max_tile),
    {
        let _ = empty_cells;
        let p = if max_tile >= 1024 {
            10i64
        } else if max_tile >= 512 {
            8i64
        } else if max_tile >= 128 {
            6i64
        } else if max_tile >= 32 {
            4i64
        } else {
            2i64
        };
        EvaluationWeights {
            monotonicity: 12 + 2 * p,
            smoothness: 1 + p,
            empty: 40 - p,
            corner: 20 + 3 * p,
            edge: 5 + p,
            merge: 5,
            snake: W_SNAKE,
            isolation: W_ISOLATION,
            position: 12 + p,
        }
    }
}

/// Progress towards the endgame on a 2..10 scale, from the largest tile.
pub open spec fn progress_of(max_tile: u32) -> int {
    if max_tile >= 1024 {
        10
    } else if max_tile >= 512 {
        8
    } else if max_tile >= 128 {
        6
    } else if max_tile >= 32 {
        4
    } else {
        2
    }
}

/// The cell in row `r`, column `c` of a row-major grid.
pub open spec fn cell_at(g: Seq<u32>, r: int, c: int) -> u32 {
    g[4 * r + c]
}

/// Two cells see each other: same row or column, empty cells between.
pub open spec fn can_merge_spec(g: Seq<u32>, r1: int, c1: int, r2: int, c2: int) -> bool {
    if r1 == r2 {
        forall|c: int|
            (if c1 < c2 {
                c1
            } else {
                c2
            }) < c < (if c1 < c2 {
                c2
            } else {
                c1
            }) ==> #[trigger] cell_at(g, r1, c) == 0
    } else if c1 == c2 {
        forall|r: int|
            (if r1 < r2 {
                r1
            } else {
                r2
            }) < r < (if r1 < r2 {
                r2
            } else {
                r1
            }) ==> #[trigger] cell_at(g, r, c1) == 0
    } else {
        false
    }
}

pub open spec fn abs_diff(a: u32, b: u32) -> int {
    if a >= b {
        a - b
    } else {
        b - a
    }
}

/// The non-zero cells of a line, in order.
pub open spec fn nonzeros(s: Seq<u32>) -> Seq<u32>
    decreases s.len(),
{
    if s.len() == 0 {
        Seq::empty()
    } else if s[0] == 0 {
        nonzeros(s.skip(1))
    } else {
        seq![s[0]] + nonzeros(s.skip(1))
    }
}

/// The monotonicity credit of one compacted line, folded pairwise: a run
/// in one direction accumulates the smaller cell of each step, and a
/// direction reversal forfeits the accumulated credit.
pub open spec fn mono_steps(s: Seq<u32>, dir: int, acc: int) -> int
    decreases s.len(),
{
    if s.len() <= 1 {
        acc
    } else {
        let a = s[0];
        let b = s[1];
        if a > b {
            mono_steps(
                s.skip(1),
                -1,
                if dir > 0 {
                    0
                } else if dir < 0 {
                    acc + b
                } else {
                    b as int
                },
            )
        } else if b > a {
            mono_steps(
                s.skip(1),
                1,
                if dir < 0 {
                    0
                } else if dir > 0 {
                    acc + a
                } else {
                    a as int
                },
            )
        } else {
            mono_steps(s.skip(1), dir, acc)
        }
    }
}

/// The monotonicity credit of one line: its first cell followed by the
/// non-zero remainder, folded pairwise.
pub open spec fn mono_line(line: Seq<u32>) -> int {
    mono_steps(seq![line[0]] + nonzeros(line.skip(1)), 0, 0)
}

/// Total monotonicity credit over the four rows and four columns.
pub open spec fn mono_spec(g: Seq<u32>) -> int {
    mono_line(row_seq(g, 0)) + mono_line(row_seq(g, 1)) + mono_line(row_seq(g, 2)) + mono_line(
        row_seq(g, 3),
    ) + mono_line(col_seq(g, 0)) + mono_line(col_seq(g, 1)) + mono_line(col_seq(g, 2)) + mono_line(
        col_seq(g, 3),
    )
}

/// Smoothness contribution of cell `i`: minus the jump to its right and
/// lower occupied neighbours.
pub open spec fn smooth_term(g: Seq<u32>, i: int) -> int {
    if g[i] == 0 {
        0
    } else {
        (if i % 4 < 3 && g[i + 1] != 0 {
            -abs_diff(g[i], g[i + 1])
        } else {
            0
        }) + (if i < 12 && g[i + 4] != 0 {
            -abs_diff(g[i], g[i + 4])
        } else {
            0
        })
    }
}

pub open spec fn smooth_rec(g: Seq<u32>, i: int) -> int
    decreases i,
{
    if i <= 0 {
        0
    } else {
        smooth_rec(g, i - 1) + smooth_term(g, i - 1)
    }
}

/// Negative sum of the value jumps over all adjacent occupied pairs.
pub open spec fn smooth_spec(g: Seq<u32>) -> int {
    smooth_rec(g, 16)
}

/// Merge potential of cell `i`: its value once per equal neighbour.
pub open spec fn merge_term(g: Seq<u32>, i: int) -> int {
    if g[i] == 0 {
        0
    } else {
        g[i] * ((if i >= 4 && g[i - 4] == g[i] {
            1int
        } else {
            0int
        }) + (if i < 12 && g[i + 4] == g[i] {
            1int
        } else {
            0int
        }) + (if i % 4 > 0 && g[i - 1] == g[i] {
            1int
        } else {
            0int
        }) + (if i % 4 < 3 && g[i + 1] == g[i] {
            1int
        } else {
            0int
        }))
    }
}

pub open spec fn merge_rec(g: Seq<u32>, i: int) -> int
    decreases i,
{
    if i <= 0 {
        0
    } else {
        merge_rec(g, i - 1) + merge_term(g, i - 1)
    }
}

/// Total one-move merge potential of the grid.
pub open spec fn merge_spec(g: Seq<u32>) -> int {
    merge_rec(g, 16)
}

/// Snake-path weight of cell `i`: the path walks the rows boustrophedon
/// from the top-left, worth 16 down to 1.
pub open spec fn snake_w(i: int) -> int {
    seq![16int, 15, 14, 13, 9, 10, 11, 12, 8, 7, 6, 5, 1, 2, 3, 4][i]
}

/// Positional weight of cell `i`: a fixed matrix favouring the top row.
pub open spec fn pos_w(i: int) -> int {
    seq![20int, 19, 18, 17, 12, 13, 14, 15, 11, 10, 9, 8, 0, 1, 2, 3][i]
}

pub open spec fn snake_rec(g: Seq<u32>, i: int) -> int
    decreases i,
{
    if i <= 0 {
        0
    } else {
        snake_rec(g, i - 1) + g[i - 1] * snake_w(i - 1)
    }
}

pub open spec fn snake_spec(g: Seq<u32>) -> int {
    snake_rec(g, 16)
}

pub open spec fn pos_rec(g: Seq<u32>, i: int) -> int
    decreases i,
{
    if i <= 0 {
        0
    } else {
        pos_rec(g, i - 1) + g[i - 1] * pos_w(i - 1)
    }
}

pub open spec fn position_spec(g: Seq<u32>) -> int {
    pos_rec(g, 16)
}

pub open spec fn on_edge(i: int) -> bool {
    i / 4 == 0 || i / 4 == 3 || i % 4 == 0 || i % 4 == 3
}

pub open spec fn on_corner(i: int) -> bool {
    (i / 4 == 0 || i / 4 == 3) && (i % 4 == 0 || i % 4 == 3)
}

/// Edge credit of cell `i`, in tenths of its value: large tiles earn two
/// tenths on an edge and three more in a corner.
pub open spec fn edge_term(g: Seq<u32>, i: int) -> int {
    if g[i] >= 32 {
        (if on_edge(i) {
            2 * g[i]
        } else {
            0int
        }) + (if on_corner(i) {
            3 * g[i]
        } else {
            0int
        })
    } else {
        0
    }
}

pub open spec fn edge_rec(g: Seq<u32>, i: int) -> int
    decreases i,
{
    if i <= 0 {
        0
    } else {
        edge_rec(g, i - 1) + edge_term(g, i - 1)
    }
}

pub open spec fn edge_spec(g: Seq<u32>) -> int {
    edge_rec(g, 16)
}

/// Isolation penalty of cell `i`: its value, when it is large and every
/// in-bounds neighbour is empty.
pub open spec fn iso_term(g: Seq<u32>, i: int) -> int {
    if g[i] >= 64 && (i < 4 || g[i - 4] == 0) && (i >= 12 || g[i + 4] == 0) && (i % 4 == 0 || g[i
        - 1] == 0) && (i % 4 == 3 || g[i + 1] == 0) {
        g[i] as int
    } else {
        0
    }
}

pub open spec fn iso_rec(g: Seq<u32>, i: int) -> int
    decreases i,
{
    if i <= 0 {
        0
    } else {
        iso_rec(g, i - 1) + iso_term(g, i - 1)
    }
}

pub open spec fn iso_spec(g: Seq<u32>) -> int {
    iso_rec(g, 16)
}

/// The scan for the first cell holding the largest tile: state is the
/// best value and its flat index so far.
pub open spec fn first_max_rec(g: Seq<u32>, i: int, best: u32, bestpos: int) -> (u32, int)
    decreases 16 - i,
{
    if i < 0 || i >= 16 {
        (best, bestpos)
    } else if g[i] > best {
        first_max_rec(g, i + 1, g[i], i)
    } else {
        first_max_rec(g, i + 1, best, bestpos)
    }
}

/// Corner credit: the largest tile is worth eight of itself in the
/// top-left corner, four in any other corner, and minus two elsewhere.
pub open spec fn corner_spec(g: Seq<u32>) -> int {
    let mp = first_max_rec(g, 0, 0, 0);
    if mp.1 == 0 {
        8 * mp.0
    } else if mp.1 == 3 || mp.1 == 12 || mp.1 == 15 {
        4 * mp.0
    } else {
        -2 * mp.0
    }
}

/// The one evaluation the search optimizes: the weighted sum of all
/// heuristics under the fixed default weighting.
#[verifier::opaque]
pub open spec fn eval_spec(g: Seq<u32>) -> int {
    W_MONOTONICITY * mono_spec(g) + W_SMOOTHNESS * smooth_spec(g) + W_EMPTY * count_zeros(g)
        + W_CORNER * corner_spec(g) + W_EDGE * edge_spec(g) + W_MERGE * merge_spec(g) + W_SNAKE
        * snake_spec(g) + W_ISOLATION * iso_spec(g) + W_POSITION * position_spec(g)
}

impl GameBoard {
    pub(crate) fn extract_row(&self, r: usize) -> (line: Vec<u32>)
        requires
            self.grid@.len() == 16,
            r < 4,
        ensures
            line@ == row_seq(self.grid@, r as int),
            line@.len() == 4,
    {
        let mut line: Vec<u32> = Vec::new();
        line.push(self.grid[4 * r]);
        line.push(self.grid[4 * r + 1]);
        line.push(self.grid[4 * r + 2]);
        line.push(self.grid[4 * r + 3]);
        proof {
            assert(line@ =~= row_seq(self.grid@, r as int));
        }
        line
    }

    pub(crate) fn extract_col(&self, c: usize) -> (line: Vec<u32>)
        requires
            self.grid@.len() == 16,
            c < 4,
        ensures
            line@ == col_seq(self.grid@, c as int),
            line@.len() == 4,
    {
        let mut line: Vec<u32> = Vec::new();
        line.push(self.grid[c]);
        line.push(self.grid[c + 4]);
        line.push(self.grid[c + 8]);
        line.push(self.grid[c + 12]);
        proof {
            assert(line@ =~= col_seq(self.grid@, c as int));
        }
        line
    }

    /// The monotonicity credit of one four-cell line.
    fn mono_line_exec(line: &Vec<u32>) -> (r: i64)
        requires
            line@.len() == 4,
        ensures
            r == mono_line(line@),
            0 <= r <= 0x4_0000_0000,
    {
        let mut compact: Vec<u32> = Vec::new();
        compact.push(line[0]);
        let ghost tail = nonzeros(line@.skip(1));
        let mut j: usize = 1;
        proof {
            assert(compact@ =~= seq![line@[0]]);
            assert(seq![line@[0]] + nonzeros(line@.skip(1)) =~= compact@ + nonzeros(
                line@.skip(1),
            ));
        }
        while j < 4
            invariant
                line@.len() == 4,
                1 <= j <= 4,
                compact@.len() <= j,
                compact@.len() >= 1,
                seq![line@[0]] + nonzeros(line@.skip(1)) == compact@ + nonzeros(
                    line@.skip(j as int),
                ),
            decreases 4 - j,
        {
            let ghost rest = line@.skip(j as int);
            proof {
                assert(rest[0] == line@[j as int]);
                assert(rest.skip(1) =~= line@.skip(j as int + 1));
                if line@[j as int] != 0 {
                    assert(nonzeros(rest) == seq![rest[0]] + nonzeros(rest.skip(1)));
                    assert(compact@ + nonzeros(rest) =~= compact@.push(rest[0]) + nonzeros(
                        rest.skip(1),
                    ));
                }
            }
            if line[j] != 0 {
                compact.push(line[j]);
            }
            j += 1;
        }
        proof {
            assert(line@.skip(4) =~= Seq::<u32>::empty());
            assert(compact@ == seq![line@[0]] + nonzeros(line@.skip(1)));
        }
        let ghost full = compact@;
        let mut dir: i64 = 0;
        let mut acc: i64 = 0;
        let mut k: usize = 0;
        proof {
            assert(full.skip(0) =~= full);
        }
        while k + 1 < compact.len()
            invariant
                compact@ == full,
                full.len() <= 4,
                k <= full.len(),
                0 <= acc <= 0x1_0000_0000 * (k as int),
                -1 <= dir <= 1,
                mono_steps(full, 0, 0) == mono_steps(full.skip(k as int), dir as int, acc as int),
            decreases full.len() - k,
        {
            let ghost rem = full.skip(k as int);
            proof {
                assert(rem.len() >= 2);
                assert(rem[0] == full[k as int]);
                assert(rem[1] == full[k as int + 1]);
                assert(rem.skip(1) =~= full.skip(k as int + 1));
            }
            let a = compact[k];
            let b = compact[k + 1];
            if a > b {
                acc = if dir > 0 {
                    0
                } else if dir < 0 {
                    acc + (b as i64)
                } else {
                    b as i64
                };
                dir = -1;
            } else if b > a {
                acc = if dir < 0 {
                    0
                } else if dir > 0 {
                    acc + (a as i64)
                } else {
                    a as i64
                };
                dir = 1;
            }
            k += 1;
        }
        proof {
            assert(full.skip(k as int).len() <= 1);
            assert(mono_steps(full.skip(k as int), dir as int, acc as int) == acc as int);
        }
        acc
    }

    /// Total monotonicity credit of the board over rows and columns.
    pub(crate) fn calculate_monotonicity(&self) -> (r: i64)
        requires
            self.grid@.len() == 16,
        ensures
            r == mono_spec(self.grid@),
            0 <= r <= 0x20_0000_0000,
    {
        let mut acc: i64 = 0;
        let r0 = Self::mono_line_exec(&self.extract_row(0));
        let r1 = Self::mono_line_exec(&self.extract_row(1));
        let r2 = Self::mono_line_exec(&self.extract_row(2));
        let r3 = Self::mono_line_exec(&self.extract_row(3));
        let c0 = Self::mono_line_exec(&self.extract_col(0));
        let c1 = Self::mono_line_exec(&self.extract_col(1));
        let c2 = Self::mono_line_exec(&self.extract_col(2));
        let c3 = Self::mono_line_exec(&self.extract_col(3));
        acc = r0 + r1 + r2 + r3 + c0 + c1 + c2 + c3;
        acc
    }

    /// Negative sum of value jumps between adjacent occupied cells.
    pub(crate) fn calculate_smoothness(&self) -> (r: i64)
        requires
            self.grid@.len() == 16,
        ensures
            r == smooth_spec(self.grid@),
            -0x20_0000_0000 <= r <= 0,
    {
        let mut acc: i64 = 0;
        let mut i: usize = 0;
        while i < 16
            invariant
                self.grid@.len() == 16,
                i <= 16,
                acc == smooth_rec(self.grid@, i as int),
                -0x2_0000_0000 * (i as int) <= acc <= 0,
            decreases 16 - i,
        {
            let v = self.grid[i];
            if v != 0 {
                if i % 4 < 3 && self.grid[i + 1] != 0 {
                    let n = self.grid[i + 1];
                    let d = if v >= n {
                        (v - n) as i64
                    } else {
                        (n - v) as i64
                    };
                    acc = acc - d;
                }
                if i < 12 && self.grid[i + 4] != 0 {
                    let n = self.grid[i + 4];
                    let d = if v >= n {
                        (v - n) as i64
                    } else {
                        (n - v) as i64
                    };
                    acc = acc - d;
                }
            }
            i += 1;
        }
        acc
    }

    /// Sum, over occupied cells, of the cell value per equal neighbour.
    pub(crate) fn calculate_merge_potential(&self) -> (r: i64)
        requires
            self.grid@.len() == 16,
        ensures
            r == merge_spec(self.grid@),
            0 <= r <= 0x100_0000_0000,
    {
        let mut acc: i64 = 0;
        let mut i: usize = 0;
        while i < 16
            invariant
                self.grid@.len() == 16,
                i <= 16,
                acc == merge_rec(self.grid@, i as int),
                0 <= acc <= 0x10_0000_0000 * (i as int),
            decreases 16 - i,
        {
            let v = self.grid[i];
            if v != 0 {
                let mut count: i64 = 0;
                if i >= 4 && self.grid[i - 4] == v {
                    count += 1;
                }
                if i < 12 && self.grid[i + 4] == v {
                    count += 1;
                }
                if i % 4 > 0 && self.grid[i - 1] == v {
                    count += 1;
                }
                if i % 4 < 3 && self.grid[i + 1] == v {
                    count += 1;
                }
                proof {
                    assert(0 <= (v as i64) * count <= 0x10_0000_0000) by (nonlinear_arith)
                        requires
                            0 <= count <= 4,
                            0 <= (v as i64) <= 0xFFFF_FFFF,
                    ;
                }
                acc = acc + (v as i64) * count;
            }
            i += 1;
        }
        acc
    }

    fn snake_weight(i: usize) -> (r: i64)
        requires
            i < 16,
        ensures
            r == snake_w(i as int),
            1 <= r <= 16,
    {
        let w: i64 = if i < 4 {
            16 - (i as i64)
        } else if i < 8 {
            5 + (i as i64)
        } else if i < 12 {
            16 - (i as i64)
        } else {
            (i as i64) - 11
        };
        w
    }

    fn position_weight(i: usize) -> (r: i64)
        requires
            i < 16,
        ensures
            r == pos_w(i as int),
            0 <= r <= 20,
    {
        let w: i64 = if i < 4 {
            20 - (i as i64)
        } else if i < 8 {
            8 + (i as i64)
        } else if i < 12 {
            19 - (i as i64)
        } else {
            (i as i64) - 12
        };
        w
    }

    /// Weighted sum of tiles along the fixed snake path.
    pub(crate) fn calculate_snake_pattern(&self) -> (r: i64)
        requires
            self.grid@.len() == 16,
        ensures
            r == snake_spec(self.grid@),
            0 <= r <= 0x1000_0000_0000,
    {
        let mut acc: i64 = 0;
        let mut i: usize = 0;
        while i < 16
            invariant
                self.grid@.len() == 16,
                i <= 16,
                acc == snake_rec(self.grid@, i as int),
                0 <= acc <= 0x10_0000_0000 * (i as int),
            decreases 16 - i,
        {
            let v = self.grid[i];
            let w = Self::snake_weight(i);
            proof {
                assert(0 <= (v as i64) * w <= 0x10_0000_0000) by (nonlinear_arith)
                    requires
                        1 <= w <= 16,
                        0 <= (v as i64) <= 0xFFFF_FFFF,
                ;
            }
            acc = acc + (v as i64) * w;
            i += 1;
        }
        acc
    }

    /// Weighted sum of tiles under the fixed positional matrix.
    pub(crate) fn calculate_position_score(&self) -> (r: i64)
        requires
            self.grid@.len() == 16,
        ensures
            r == position_spec(self.grid@),
            0 <= r <= 0x1000_0000_0000,
    {
        let mut acc: i64 = 0;
        let mut i: usize = 0;
        while i < 16
            invariant
                self.grid@.len() == 16,
                i <= 16,
                acc == pos_rec(self.grid@, i as int),
                0 <= acc <= 0x20_0000_0000 * (i as int),
            decreases 16 - i,
        {
            let v = self.grid[i];
            let w = Self::position_weight(i);
            proof {
                assert(0 <= (v as i64) * w <= 0x20_0000_0000) by (nonlinear_arith)
                    requires
                        0 <= w <= 20,
                        0 <= (v as i64) <= 0xFFFF_FFFF,
                ;
            }
            acc = acc + (v as i64) * w;
            i += 1;
        }
        acc
    }

    /// Edge credit in tenths of the tile values.
    pub(crate) fn calculate_edge_bonus(&self) -> (r: i64)
        requires
            self.grid@.len() == 16,
        ensures
            r == edge_spec(self.grid@),
            0 <= r <= 0x1000_0000_0000,
    {
        let mut acc: i64 = 0;
        let mut i: usize = 0;
        while i < 16
            invariant
                self.grid@.len() == 16,
                i <= 16,
                acc == edge_rec(self.grid@, i as int),
                0 <= acc <= 0x10_0000_0000 * (i as int),
            decreases 16 - i,
        {
            let v = self.grid[i];
            if v >= 32 {
                let r4 = i / 4;
                let c4 = i % 4;
                if r4 == 0 || r4 == 3 || c4 == 0 || c4 == 3 {
                    acc = acc + 2 * (v as i64);
                }
                if (r4 == 0 || r4 == 3) && (c4 == 0 || c4 == 3) {
                    acc = acc + 3 * (v as i64);
                }
            }
            i += 1;
        }
        acc
    }

    /// Total isolation penalty: large tiles with only empty neighbours.
    pub(crate) fn calculate_isolation_penalty(&self) -> (r: i64)
        requires
            self.grid@.len() == 16,
        ensures
            r == iso_spec(self.grid@),
            0 <= r <= 0x100_0000_0000,
    {
        let mut acc: i64 = 0;
        let mut i: usize = 0;
        while i < 16
            invariant
                self.grid@.len() == 16,
                i <= 16,
                acc == iso_rec(self.grid@, i as int),
                0 <= acc <= 0x1_0000_0000 * (i as int),
            decreases 16 - i,
        {
            let v = self.grid[i];
            if v >= 64 {
                let mut isolated = true;
                if i >= 4 && self.grid[i - 4] != 0 {
                    isolated = false;
                }
                if i < 12 && self.grid[i + 4] != 0 {
                    isolated = false;
                }
                if i % 4 > 0 && self.grid[i - 1] != 0 {
                    isolated = false;
                }
                if i % 4 < 3 && self.grid[i + 1] != 0 {
                    isolated = false;
                }
                if isolated {
                    acc = acc + (v as i64);
                }
            }
            i += 1;
        }
        acc
    }

    /// Credit for where the largest tile sits: best in the top-left
    /// corner, good in any corner, penalized in the interior.
    pub(crate) fn calculate_corner_bonus(&self) -> (r: i64)
        requires
            self.grid@.len() == 16,
        ensures
            r == corner_spec(self.grid@),
            -0x2_0000_0000 <= r <= 0x10_0000_0000,
    {
        let mut best: u32 = 0;
        let mut bestpos: usize = 0;
        let mut i: usize = 0;
        while i < 16
            invariant
                self.grid@.len() == 16,
                i <= 16,
                bestpos < 16,
                first_max_rec(self.grid@, 0, 0u32, 0) == first_max_rec(
                    self.grid@,
                    i as int,
                    best,
                    bestpos as int,
                ),
            decreases 16 - i,
        {
            if self.grid[i] > best {
                best = self.grid[i];
                bestpos = i;
            }
            i += 1;
        }
        let b = best as i64;
        proof {
            assert(0 <= b <= 0xFFFF_FFFF);
        }
        if bestpos == 0 {
            8 * b
        } else if bestpos == 3 || bestpos == 12 || bestpos == 15 {
            4 * b
        } else {
            0 - 2 * b
        }
    }

    /// Whether the tiles at two cells could reach each other: they share
    /// a row or column and every cell strictly between them is empty.
    pub fn can_merge_tiles(&self, row1: usize, col1: usize, row2: usize, col2: usize) -> (r:
        bool)
        requires
            self.grid@.len() == 16,
            row1 < 4,
            col1 < 4,
            row2 < 4,
            col2 < 4,
        ensures
            r == can_merge_spec(self.grid@, row1 as int, col1 as int, row2 as int, col2 as int),
    {
        if row1 == row2 {
            let start_col = if col1 < col2 {
                col1
            } else {
                col2
            };
            let end_col = if col1 < col2 {
                col2
            } else {
                col1
            };
            let mut col = start_col + 1;
            while col < end_col
                invariant
                    self.grid@.len() == 16,
                    row1 < 4,
                    row1 == row2,
                    col1 < 4,
                    col2 < 4,
                    start_col == (if col1 < col2 {
                        col1
                    } else {
                        col2
                    }),
                    end_col == (if col1 < col2 {
                        col2
                    } else {
                        col1
                    }),
                    start_col < col <= 4,
                    end_col <= 4,
                    forall|c: int|
                        start_col < c < col ==> #[trigger] cell_at(self.grid@, row1 as int, c)
                            == 0,
                decreases end_col - col,
            {
                if self.grid[4 * row1 + col] != 0 {
                    proof {
                        assert(cell_at(self.grid@, row1 as int, col as int) != 0);
                    }
                    return false;
                }
                col += 1;
            }
            return true;
        }
        if col1 == col2 {
            let start_row = if row1 < row2 {
                row1
            } else {
                row2
            };
            let end_row = if row1 < row2 {
                row2
            } else {
                row1
            };
            let mut row = start_row + 1;
            while row < end_row
                invariant
                    self.grid@.len() == 16,
                    col1 < 4,
                    col1 == col2,
                    row1 != row2,
                    row1 < 4,
                    row2 < 4,
                    start_row == (if row1 < row2 {
                        row1
                    } else {
                        row2
                    }),
                    end_row == (if row1 < row2 {
                        row2
                    } else {
                        row1
                    }),
                    start_row < row <= 4,
                    end_row <= 4,
                    forall|c: int|
                        start_row < c < row ==> #[trigger] cell_at(self.grid@, c, col1 as int)
                            == 0,
                decreases end_row - row,
            {
                if self.grid[4 * row + col1] != 0 {
                    proof {
                        assert(cell_at(self.grid@, row as int, col1 as int) != 0);
                    }
                    return false;
                }
                row += 1;
            }
            return true;
        }
        false
    }

    /// The heuristic value of this position under the fixed weighting:
    /// deterministic, side-effect-free, and exactly `eval_spec`.
    pub fn evaluate_board(&self) -> (r: i64)
        requires
            self.grid@.len() == 16,
        ensures
            r == eval_spec(self.grid@),
            -EVAL_BOUND < r < EVAL_BOUND,
    {
        let mono = self.calculate_monotonicity();
        let smooth = self.calculate_smoothness();
        let empty = self.count_empty_cells() as i64;
        let corner = self.calculate_corner_bonus();
        let edge = self.calculate_edge_bonus();
        let merge = self.calculate_merge_potential();
        let snake = self.calculate_snake_pattern();
        let iso = self.calculate_isolation_penalty();
        let position = self.calculate_position_score();
        proof {
            reveal(eval_spec);
            crate::board::lemma_count_zeros_bounds(self.grid@);
        }
        W_MONOTONICITY * mono + W_SMOOTHNESS * smooth + W_EMPTY * empty + W_CORNER * corner
            + W_EDGE * edge + W_MERGE * merge + W_SNAKE * snake + W_ISOLATION * iso + W_POSITION
            * position
    }
}

} // verus!
