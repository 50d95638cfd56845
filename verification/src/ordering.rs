//! The move orderer: a cheap pre-score per legal move, used to explore
//! promising directions first so alpha-beta cutoffs come early.  It never
//! decides which move is best, only the order of exploration.

use vstd::prelude::*;
use crate::board::GameBoard;
use crate::board::apply_move;
use crate::board::count_zeros;
use crate::board::grid_sum;
use crate::board::max_cell;
use crate::board::move_changes;
use crate::board::row_seq;
use crate::board::col_seq;
use crate::board::SUM_LIMIT;
use crate::moves::Direction;
use crate::moves::all_directions;
use crate::moves::lemma_all_directions_complete;
use crate::moves::lemma_all_directions_distinct;

verus! {

/// One horizontally adjacent equal pair anchored at cell `i`.
pub open spec fn hpair_term(g: Seq<u32>, i: int) -> int {
    if i % 4 < 3 && g[i] != 0 && g[i] == g[i + 1] {
        1
    } else {
        0
    }
}

pub open spec fn hpair_rec(g: Seq<u32>, i: int) -> int
    decreases i,
{
    if i <= 0 {
        0
    } else {
        hpair_rec(g, i - 1) + hpair_term(g, i - 1)
    }
}

/// One vertically adjacent equal pair anchored at cell `i`.
pub open spec fn vpair_term(g: Seq<u32>, i: int) -> int {
    if i < 12 && g[i] != 0 && g[i] == g[i + 4] {
        1
    } else {
        0
    }
}

pub open spec fn vpair_rec(g: Seq<u32>, i: int) -> int
    decreases i,
{
    if i <= 0 {
        0
    } else {
        vpair_rec(g, i - 1) + vpair_term(g, i - 1)
    }
}

/// How many merges the board offers right after a move in `d`: adjacent
/// equal pairs along the move's axis, or zero for an illegal move.
#[verifier::opaque]
pub open spec fn merges_after(g: Seq<u32>, d: Direction) -> int {
    if !move_changes(g, d) {
        0
    } else {
        match d {
            Direction::Left | Direction::Right => hpair_rec(apply_move(g, d), 16),
            Direction::Up | Direction::Down => vpair_rec(apply_move(g, d), 16),
        }
    }
}

/// Between cells `j` and `j + 1`, occupied cells never step down.
pub open spec fn step_up_ok(s: Seq<u32>, j: int) -> bool {
    s[j] != 0 && s[j + 1] != 0 ==> s[j] <= s[j + 1]
}

/// Between cells `j` and `j + 1`, occupied cells never step up.
pub open spec fn step_down_ok(s: Seq<u32>, j: int) -> bool {
    s[j] != 0 && s[j + 1] != 0 ==> s[j] >= s[j + 1]
}

/// The occupied cells of a line never step down / never step up.
pub open spec fn line_nondecreasing(s: Seq<u32>) -> bool {
    forall|j: int| 0 <= j < 3 ==> #[trigger] step_up_ok(s, j)
}

pub open spec fn line_nonincreasing(s: Seq<u32>) -> bool {
    forall|j: int| 0 <= j < 3 ==> #[trigger] step_down_ok(s, j)
}

pub open spec fn line_mono_credit(s: Seq<u32>) -> int {
    if line_nondecreasing(s) || line_nonincreasing(s) {
        10
    } else {
        0
    }
}

/// Ten points per row and column that runs one way.
pub open spec fn fast_mono_spec(g: Seq<u32>) -> int {
    line_mono_credit(row_seq(g, 0)) + line_mono_credit(row_seq(g, 1)) + line_mono_credit(
        row_seq(g, 2),
    ) + line_mono_credit(row_seq(g, 3)) + line_mono_credit(col_seq(g, 0)) + line_mono_credit(
        col_seq(g, 1),
    ) + line_mono_credit(col_seq(g, 2)) + line_mono_credit(col_seq(g, 3))
}

/// The largest tile sits in one of the four corners.
pub open spec fn max_in_corner(g: Seq<u32>) -> bool {
    g[0] == max_cell(g) || g[3] == max_cell(g) || g[12] == max_cell(g) || g[15] == max_cell(g)
}

/// The cheap ordering score of a legal move, in tenths: merges opened,
/// corner control, coarse monotonicity, and free cells.
#[verifier::opaque]
pub open spec fn fast_score_spec(g: Seq<u32>, d: Direction) -> int {
    let ng = apply_move(g, d);
    500 * merges_after(g, d) + (if max_in_corner(ng) {
        1000int
    } else {
        0int
    }) + 5 * fast_mono_spec(ng) + 20 * count_zeros(ng)
}

impl GameBoard {
    /// Count the adjacent equal pairs a move leaves along its own axis;
    /// an illegal move counts zero.
    pub fn count_merges_after_move(&self, direction: Direction) -> (r: u32)
        requires
            self.wf(),
            grid_sum(self.grid@) <= SUM_LIMIT,
            self.move_count < u32::MAX,
        ensures
            r == merges_after(self.grid@, direction),
            r <= 16,
    {
        proof {
            reveal(merges_after);
        }
        let mut nb = self.duplicate();
        if !nb.move_tiles(direction) {
            return 0;
        }
        let ghost ng = nb.grid@;
        let mut count: u32 = 0;
        let mut i: usize = 0;
        let horizontal = match direction {
            Direction::Left | Direction::Right => true,
            Direction::Up | Direction::Down => false,
        };
        while i < 16
            invariant
                nb.grid@ == ng,
                ng.len() == 16,
                i <= 16,
                count <= i,
                count == if horizontal {
                    hpair_rec(ng, i as int)
                } else {
                    vpair_rec(ng, i as int)
                },
            decreases 16 - i,
        {
            let v = nb.grid[i];
            if horizontal {
                if i % 4 < 3 && v != 0 && nb.grid[i + 1] == v {
                    count += 1;
                }
            } else {
                if i < 12 && v != 0 && nb.grid[i + 4] == v {
                    count += 1;
                }
            }
            i += 1;
        }
        count
    }

    /// The one-way credit of a single line.
    fn line_mono_exec(line: &Vec<u32>) -> (r: i64)
        requires
            line@.len() == 4,
        ensures
            r == line_mono_credit(line@),
            0 <= r <= 10,
    {
        let mut increasing = true;
        let mut decreasing = true;
        let mut j: usize = 0;
        while j < 3
            invariant
                line@.len() == 4,
                j <= 3,
                increasing == (forall|x: int| 0 <= x < j ==> #[trigger] step_up_ok(line@, x)),
                decreasing == (forall|x: int| 0 <= x < j ==> #[trigger] step_down_ok(line@, x)),
            decreases 3 - j,
        {
            let cur = line[j];
            let nxt = line[j + 1];
            let ghost inc0 = increasing;
            let ghost dec0 = decreasing;
            if cur != 0 && nxt != 0 {
                if cur < nxt {
                    decreasing = false;
                }
                if cur > nxt {
                    increasing = false;
                }
            }
            proof {
                assert(increasing == (inc0 && step_up_ok(line@, j as int)));
                assert(decreasing == (dec0 && step_down_ok(line@, j as int)));
                assert forall|x: int| 0 <= x < j + 1 && increasing implies #[trigger] step_up_ok(
                    line@,
                    x,
                ) by {}
                assert forall|x: int| 0 <= x < j + 1 && decreasing implies #[trigger] step_down_ok(
                    line@,
                    x,
                ) by {}
            }
            j += 1;
        }
        if increasing || decreasing {
            10
        } else {
            0
        }
    }

    /// Ten points per row and column whose occupied cells run one way.
    fn fast_monotonicity_score(&self) -> (r: i64)
        requires
            self.grid@.len() == 16,
        ensures
            r == fast_mono_spec(self.grid@),
            0 <= r <= 80,
    {
        let r0 = Self::line_mono_exec(&self.extract_row(0));
        let r1 = Self::line_mono_exec(&self.extract_row(1));
        let r2 = Self::line_mono_exec(&self.extract_row(2));
        let r3 = Self::line_mono_exec(&self.extract_row(3));
        let c0 = Self::line_mono_exec(&self.extract_col(0));
        let c1 = Self::line_mono_exec(&self.extract_col(1));
        let c2 = Self::line_mono_exec(&self.extract_col(2));
        let c3 = Self::line_mono_exec(&self.extract_col(3));
        r0 + r1 + r2 + r3 + c0 + c1 + c2 + c3
    }

    /// The cheap ordering score of one direction: the flag says whether
    /// the move is legal at all, and only then does the score bind.
    pub(crate) fn fast_move_score(&self, direction: Direction) -> (r: (bool, i64))
        requires
            self.wf(),
            grid_sum(self.grid@) <= SUM_LIMIT,
            self.move_count < u32::MAX,
        ensures
            r.0 == move_changes(self.grid@, direction),
            r.0 ==> r.1 == fast_score_spec(self.grid@, direction),
            0 <= r.1 <= 10_000,
    {
        proof {
            reveal(fast_score_spec);
        }
        let mut nb = self.duplicate();
        if !nb.move_tiles(direction) {
            return (false, 0);
        }
        let merges = self.count_merges_after_move(direction);
        let mut score: i64 = 500 * (merges as i64);
        let max_tile = nb.get_max_tile();
        if nb.grid[0] == max_tile || nb.grid[3] == max_tile || nb.grid[12] == max_tile
            || nb.grid[15] == max_tile {
            score += 1000;
        }
        score += 5 * nb.fast_monotonicity_score();
        let empties = nb.count_empty_cells();
        proof {
            crate::board::lemma_count_zeros_bounds(nb.grid@);
            assert(empties <= 16);
        }
        score += 20 * (empties as i64);
        (true, score)
    }

    /// The legal directions, best cheap score first.  Exactly the
    /// directions that change the board appear, each once.
    #[verifier::rlimit(80)]
    pub fn order_moves(&self) -> (r: Vec<Direction>)
        requires
            self.wf(),
            grid_sum(self.grid@) <= SUM_LIMIT,
            self.move_count < u32::MAX,
        ensures
            forall|d: Direction| r@.contains(d) <==> move_changes(self.grid@, d),
            forall|a: int, b: int| 0 <= a < b < r@.len() ==> r@[a] != r@[b],
            forall|a: int, b: int|
                0 <= a < b < r@.len() ==> #[trigger] fast_score_spec(self.grid@, r@[a])
                    >= #[trigger] fast_score_spec(self.grid@, r@[b]),
            r@.len() <= 4,
    {
        let dirs = Direction::all();
        let mut legal: Vec<bool> = Vec::new();
        let mut scores: Vec<i64> = Vec::new();
        let mut k: usize = 0;
        while k < 4
            invariant
                self.wf(),
                grid_sum(self.grid@) <= SUM_LIMIT,
                self.move_count < u32::MAX,
                dirs@ == all_directions(),
                k <= 4,
                legal@.len() == k,
                scores@.len() == k,
                forall|j: int|
                    0 <= j < k ==> legal@[j] == move_changes(self.grid@, #[trigger] dirs@[j]),
                forall|j: int|
                    0 <= j < k ==> (legal@[j] ==> scores@[j] == fast_score_spec(
                        self.grid@,
                        #[trigger] dirs@[j],
                    )),
            decreases 4 - k,
        {
            let fs = self.fast_move_score(dirs[k]);
            legal.push(fs.0);
            scores.push(fs.1);
            k += 1;
        }
        let mut taken: Vec<bool> = Vec::new();
        taken.push(false);
        taken.push(false);
        taken.push(false);
        taken.push(false);
        let mut out: Vec<Direction> = Vec::new();
        let mut round: usize = 0;
        while round < 4
            invariant
                dirs@ == all_directions(),
                legal@.len() == 4,
                scores@.len() == 4,
                taken@.len() == 4,
                round <= 4,
                out@.len() <= round,
                forall|j: int| 0 <= j < 4 ==> taken@[j] ==> legal@[j],
                forall|j: int|
                    0 <= j < 4 ==> (taken@[j] <==> out@.contains(#[trigger] dirs@[j])),
                forall|a: int, b: int| 0 <= a < b < out@.len() ==> out@[a] != out@[b],
                untaken_legal(legal@, taken@) <= 4 - round,
                forall|j: int|
                    0 <= j < 4 ==> legal@[j] == move_changes(self.grid@, #[trigger] dirs@[j]),
                forall|j: int|
                    0 <= j < 4 ==> (legal@[j] ==> scores@[j] == fast_score_spec(
                        self.grid@,
                        #[trigger] dirs@[j],
                    )),
                forall|x: int, y: int|
                    0 <= x < y < out@.len() ==> #[trigger] fast_score_spec(self.grid@, out@[x])
                        >= #[trigger] fast_score_spec(self.grid@, out@[y]),
                forall|p: int, j: int|
                    0 <= p < out@.len() && 0 <= j < 4 && legal@[j] && !taken@[j]
                        ==> #[trigger] fast_score_spec(self.grid@, out@[p]) >= #[trigger] scores@[
                        j],
            decreases 4 - round,
        {
            let mut bi: usize = 4;
            let mut bs: i64 = 0;
            let mut j: usize = 0;
            while j < 4
                invariant
                    legal@.len() == 4,
                    taken@.len() == 4,
                    scores@.len() == 4,
                    j <= 4,
                    bi == 4 || (bi < 4 && legal@[bi as int] && !taken@[bi as int]),
                    bi == 4 ==> forall|m: int| 0 <= m < j ==> !(legal@[m] && !taken@[m]),
                    bi < 4 ==> bs == scores@[bi as int],
                    forall|m: int|
                        0 <= m < j && legal@[m] && !taken@[m] ==> bi < 4 && scores@[bi as int]
                            >= #[trigger] scores@[m],
                decreases 4 - j,
            {
                if legal[j] && !taken[j] {
                    if bi == 4 || scores[j] > bs {
                        bi = j;
                        bs = scores[j];
                    }
                }
                j += 1;
            }
            if bi < 4 {
                let d = dirs[bi];
                let ghost out0 = out@;
                let ghost taken0 = taken@;
                proof {
                    lemma_orderer_step(self.grid@, scores@, legal@, taken0, out0, bi as int);
                }
                out.push(d);
                taken[bi] = true;
                proof {
                    assert(out@ =~= out0.push(d));
                    assert(taken@ =~= taken0.update(bi as int, true));
                }
            } else {
                proof {
                    assert(untaken_legal(legal@, taken@) == 0);
                }
            }
            round += 1;
        }
        proof {
            lemma_orderer_done(self.grid@, legal@, taken@, out@);
        }
        out
    }
}

/// Emitting the still-unemitted legal direction `bi`, when its pre-score
/// tops every legal direction still outstanding, keeps the orderer's
/// bookkeeping intact: one fewer direction is outstanding, the emitted
/// list still mirrors the flags, stays free of repeats, stays sorted
/// best-first, and still dominates everything outstanding.
pub proof fn lemma_orderer_step(
    g: Seq<u32>,
    scores: Seq<i64>,
    legal: Seq<bool>,
    taken: Seq<bool>,
    out: Seq<Direction>,
    bi: int,
)
    requires
        legal.len() == 4,
        taken.len() == 4,
        scores.len() == 4,
        0 <= bi < 4,
        legal[bi],
        !taken[bi],
        forall|j: int| 0 <= j < 4 ==> (taken[j] <==> out.contains(#[trigger] all_directions()[j])),
        forall|a: int, b: int| 0 <= a < b < out.len() ==> out[a] != out[b],
        forall|j: int|
            0 <= j < 4 ==> (legal[j] ==> scores[j] == fast_score_spec(
                g,
                #[trigger] all_directions()[j],
            )),
        forall|p: int, j: int|
            0 <= p < out.len() && 0 <= j < 4 && legal[j] && !taken[j]
                ==> #[trigger] fast_score_spec(g, out[p]) >= #[trigger] scores[j],
        forall|x: int, y: int|
            0 <= x < y < out.len() ==> #[trigger] fast_score_spec(g, out[x])
                >= #[trigger] fast_score_spec(g, out[y]),
        forall|j: int| 0 <= j < 4 && legal[j] && !taken[j] ==> scores[bi] >= #[trigger] scores[j],
    ensures
        untaken_legal(legal, taken.update(bi, true)) == untaken_legal(legal, taken) - 1,
        forall|j: int|
            0 <= j < 4 ==> (taken.update(bi, true)[j] <==> out.push(
                all_directions()[bi],
            ).contains(#[trigger] all_directions()[j])),
        forall|a: int, b: int|
            0 <= a < b < out.push(all_directions()[bi]).len() ==> out.push(
                all_directions()[bi],
            )[a] != out.push(all_directions()[bi])[b],
        forall|x: int, y: int|
            0 <= x < y < out.push(all_directions()[bi]).len() ==> #[trigger] fast_score_spec(
                g,
                out.push(all_directions()[bi])[x],
            ) >= #[trigger] fast_score_spec(g, out.push(all_directions()[bi])[y]),
        forall|p: int, j: int|
            0 <= p < out.push(all_directions()[bi]).len() && 0 <= j < 4 && legal[j] && !taken.update(
                bi,
                true,
            )[j] ==> #[trigger] fast_score_spec(g, out.push(all_directions()[bi])[p])
                >= #[trigger] scores[j],
{
    lemma_all_directions_distinct();
    let d = all_directions()[bi];
    let out1 = out.push(d);
    let taken1 = taken.update(bi, true);
    assert(!out.contains(d));
    assert forall|j: int| 0 <= j < 4 implies (taken1[j] <==> out1.contains(
        #[trigger] all_directions()[j],
    )) by {
        if j == bi {
            assert(out1[out.len() as int] == d);
        } else {
            if out1.contains(all_directions()[j]) {
                let x = choose|x: int| 0 <= x < out1.len() && out1[x] == all_directions()[j];
                if x == out.len() {
                    assert(all_directions()[j] == all_directions()[bi]);
                    assert(false);
                } else {
                    assert(out[x] == all_directions()[j]);
                }
            }
            if taken1[j] {
                assert(out.contains(all_directions()[j]));
                let x = choose|x: int| 0 <= x < out.len() && out[x] == all_directions()[j];
                assert(out1[x] == all_directions()[j]);
            }
        }
    }
    assert forall|a: int, b: int| 0 <= a < b < out1.len() implies out1[a] != out1[b] by {
        if b == out.len() {
            assert(out1[a] == out[a]);
            if out[a] == d {
                assert(out.contains(d));
            }
        }
    }
    assert(fast_score_spec(g, d) == scores[bi]);
    assert forall|x: int, y: int| 0 <= x < y < out1.len() implies #[trigger] fast_score_spec(
        g,
        out1[x],
    ) >= #[trigger] fast_score_spec(g, out1[y]) by {
        assert(out1[x] == out[x]);
        if y == out.len() {
            assert(out1[y] == d);
            assert(fast_score_spec(g, out[x]) >= scores[bi]);
        } else {
            assert(out1[y] == out[y]);
        }
    }
    assert forall|p: int, j: int|
        0 <= p < out1.len() && 0 <= j < 4 && legal[j] && !taken1[j] implies #[trigger] fast_score_spec(
        g,
        out1[p],
    ) >= #[trigger] scores[j] by {
        assert(!taken[j]);
        if p == out.len() {
            assert(out1[p] == d);
        } else {
            assert(out1[p] == out[p]);
            assert(fast_score_spec(g, out[p]) >= scores[j]);
        }
    }
}

/// Once no legal direction is outstanding, the emitted list holds exactly
/// the directions that change the board.
pub proof fn lemma_orderer_done(
    g: Seq<u32>,
    legal: Seq<bool>,
    taken: Seq<bool>,
    out: Seq<Direction>,
)
    requires
        legal.len() == 4,
        taken.len() == 4,
        untaken_legal(legal, taken) <= 0,
        forall|j: int| 0 <= j < 4 ==> taken[j] ==> legal[j],
        forall|j: int| 0 <= j < 4 ==> (taken[j] <==> out.contains(#[trigger] all_directions()[j])),
        forall|j: int| 0 <= j < 4 ==> legal[j] == move_changes(g, #[trigger] all_directions()[j]),
    ensures
        forall|d: Direction| out.contains(d) <==> move_changes(g, d),
{
    assert forall|d: Direction| out.contains(d) <==> move_changes(g, d) by {
        lemma_all_directions_complete(d);
        let j = choose|j: int| 0 <= j < 4 && all_directions()[j] == d;
        if move_changes(g, d) {
            assert(legal[j]);
            assert(taken[j]);
        }
        if out.contains(d) {
            assert(taken[j]);
        }
    }
}

/// How many directions are legal but not yet emitted by the orderer.
pub open spec fn untaken_legal(legal: Seq<bool>, taken: Seq<bool>) -> int {
    (if legal[0] && !taken[0] {
        1int
    } else {
        0int
    }) + (if legal[1] && !taken[1] {
        1int
    } else {
        0int
    }) + (if legal[2] && !taken[2] {
        1int
    } else {
        0int
    }) + (if legal[3] && !taken[3] {
        1int
    } else {
        0int
    })
}

} // verus!
