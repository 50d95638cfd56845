//! The 4x4 board: grid state, the merge rule, legal-move application,
//! the terminal-state test, and the cached empty-mask / max-tile scan results.
//!
//! The grid is stored row-major as sixteen `u32` cells, cell `(r, c)` at
//! index `4 * r + c`.  A cell is `0` (empty) or a tile value.  All proofs
//! about moves go through `merge_line`, the one-line merge rule: scan the
//! line towards the target edge, skip empty cells, and merge a pair of
//! equal tiles only when they are adjacent in the original line, so a tile
//! produced by a merge never merges again within the same move.

use vstd::prelude::*;
use crate::moves::Direction;
use crate::rng::random_below;

verus! {

/// Ceiling on the sum of all tiles that the move and scoring arithmetic
/// assumes; it keeps every intermediate `u32` addition free of overflow.
pub const SUM_LIMIT: u64 = 0x8000_0000;

/// Sum of the cells of a (partial) grid line, as an unbounded integer.
pub open spec fn grid_sum(s: Seq<u32>) -> int
    decreases s.len(),
{
    if s.len() == 0 {
        0
    } else {
        s[0] + grid_sum(s.skip(1))
    }
}

/// The non-padded result of merging one line towards its front:
/// zeros are skipped, and two equal tiles merge only when adjacent
/// in the original line.
pub open spec fn merge_pairs(s: Seq<u32>) -> Seq<u32>
    decreases s.len(),
{
    if s.len() == 0 {
        Seq::empty()
    } else if s[0] == 0 {
        merge_pairs(s.skip(1))
    } else if s.len() >= 2 && s[1] == s[0] {
        seq![(s[0] + s[0]) as u32] + merge_pairs(s.skip(2))
    } else {
        seq![s[0]] + merge_pairs(s.skip(1))
    }
}

/// A run of `n` empty cells.
pub open spec fn zero_cells(n: int) -> Seq<u32> {
    Seq::new(n as nat, |i: int| 0u32)
}

/// One merged line, padded back to four cells.
pub open spec fn merge_line(s: Seq<u32>) -> Seq<u32> {
    merge_pairs(s) + zero_cells(4 - merge_pairs(s).len())
}

pub proof fn lemma_sum_nonneg(s: Seq<u32>)
    ensures
        grid_sum(s) >= 0,
    decreases s.len(),
{
    if s.len() > 0 {
        lemma_sum_nonneg(s.skip(1));
    }
}

pub proof fn lemma_sum_concat(a: Seq<u32>, b: Seq<u32>)
    ensures
        grid_sum(a + b) == grid_sum(a) + grid_sum(b),
    decreases a.len(),
{
    if a.len() == 0 {
        assert(a + b =~= b);
    } else {
        assert((a + b).skip(1) =~= a.skip(1) + b);
        lemma_sum_concat(a.skip(1), b);
    }
}

pub proof fn lemma_sum_push(s: Seq<u32>, x: u32)
    ensures
        grid_sum(s.push(x)) == grid_sum(s) + x,
{
    assert(s.push(x) =~= s + seq![x]);
    lemma_sum_concat(s, seq![x]);
    assert(grid_sum(seq![x]) == x + grid_sum(seq![x].skip(1)));
    assert(seq![x].skip(1) =~= Seq::<u32>::empty());
}

pub proof fn lemma_sum_single(x: u32)
    ensures
        grid_sum(seq![x]) == x,
{
    assert(seq![x].skip(1) =~= Seq::<u32>::empty());
    assert(grid_sum(seq![x]) == x + grid_sum(seq![x].skip(1)));
}

/// Unfold the sum of a line over its first two cells.
pub proof fn lemma_sum_unfold2(s: Seq<u32>)
    requires
        s.len() >= 2,
    ensures
        grid_sum(s) == s[0] + s[1] + grid_sum(s.skip(2)),
{
    let s1 = s.skip(1);
    assert(s1[0] == s[1]);
    assert(s1.skip(1) =~= s.skip(2));
    assert(grid_sum(s) == s[0] + grid_sum(s1));
    assert(grid_sum(s1) == s1[0] + grid_sum(s1.skip(1)));
}

pub proof fn lemma_sum_zero_cells(n: int)
    ensures
        n >= 0 ==> grid_sum(zero_cells(n)) == 0,
    decreases n,
{
    if n > 0 {
        assert(zero_cells(n).skip(1) =~= zero_cells(n - 1));
        lemma_sum_zero_cells(n - 1);
    }
}

/// Merging never lengthens a line and, as long as the merged additions
/// cannot truncate, never changes its sum.
pub proof fn lemma_merge_pairs_basic(s: Seq<u32>)
    requires
        grid_sum(s) <= 0xFFFF_FFFF,
    ensures
        merge_pairs(s).len() <= s.len(),
        grid_sum(merge_pairs(s)) == grid_sum(s),
    decreases s.len(),
{
    if s.len() == 0 {
    } else if s[0] == 0 {
        assert(grid_sum(s) == s[0] + grid_sum(s.skip(1)));
        lemma_merge_pairs_basic(s.skip(1));
    } else if s.len() >= 2 && s[1] == s[0] {
        lemma_sum_unfold2(s);
        lemma_sum_nonneg(s.skip(2));
        lemma_merge_pairs_basic(s.skip(2));
        let m = (s[0] + s[0]) as u32;
        assert(m == s[0] + s[1]);
        lemma_sum_concat(seq![m], merge_pairs(s.skip(2)));
        lemma_sum_single(m);
    } else {
        assert(grid_sum(s) == s[0] + grid_sum(s.skip(1)));
        lemma_merge_pairs_basic(s.skip(1));
        lemma_sum_concat(seq![s[0]], merge_pairs(s.skip(1)));
        lemma_sum_single(s[0]);
    }
}

/// The two leading cells never exceed the line's sum.
pub proof fn lemma_sum_first_two(s: Seq<u32>)
    requires
        s.len() >= 2,
    ensures
        s[0] + s[1] <= grid_sum(s),
        s[0] <= grid_sum(s),
{
    lemma_sum_unfold2(s);
    lemma_sum_nonneg(s.skip(2));
}

/// Number of empty cells in a (partial) grid.
pub open spec fn count_zeros(s: Seq<u32>) -> int
    decreases s.len(),
{
    if s.len() == 0 {
        0
    } else {
        (if s[0] == 0 {
            1int
        } else {
            0int
        }) + count_zeros(s.skip(1))
    }
}

/// The larger of two cell values.
pub open spec fn max2(a: u32, b: u32) -> u32 {
    if a >= b {
        a
    } else {
        b
    }
}

/// Largest cell value of a (partial) grid, `0` when it is empty.
pub open spec fn max_cell(s: Seq<u32>) -> u32
    decreases s.len(),
{
    if s.len() == 0 {
        0
    } else {
        max2(s[0], max_cell(s.skip(1)))
    }
}

/// The 16-bit mask over cells `i..16`: bit `i` is set exactly when cell `i`
/// is empty.
pub open spec fn empty_mask_rec(s: Seq<u32>, i: int) -> u16
    decreases 16 - i,
{
    if i < 0 || i >= 16 {
        0u16
    } else {
        (if s[i] == 0 {
            1u16 << (i as u16)
        } else {
            0u16
        }) | empty_mask_rec(s, i + 1)
    }
}

/// The bitmask of empty cells, one bit per cell in row-major order.
pub open spec fn empty_mask_spec(s: Seq<u32>) -> u16 {
    empty_mask_rec(s, 0)
}

pub proof fn lemma_count_zeros_bounds(s: Seq<u32>)
    ensures
        0 <= count_zeros(s) <= s.len(),
        count_zeros(s) == 0 <==> (forall|i: int| 0 <= i < s.len() ==> s[i] != 0),
    decreases s.len(),
{
    if s.len() > 0 {
        lemma_count_zeros_bounds(s.skip(1));
        assert(forall|i: int| 0 <= i < s.skip(1).len() ==> s.skip(1)[i] == s[i + 1]);
        if s[0] != 0 && count_zeros(s.skip(1)) == 0 {
            assert(forall|i: int| 0 < i < s.len() ==> s[i] == s.skip(1)[i - 1]);
        }
    }
}

/// Sum of a grid after one cell is overwritten.
pub proof fn lemma_sum_update(s: Seq<u32>, i: int, v: u32)
    requires
        0 <= i < s.len(),
    ensures
        grid_sum(s.update(i, v)) == grid_sum(s) - s[i] + v,
    decreases s.len(),
{
    let t = s.update(i, v);
    if i == 0 {
        assert(t.skip(1) =~= s.skip(1));
        assert(grid_sum(t) == t[0] + grid_sum(t.skip(1)));
    } else {
        assert(t.skip(1) =~= s.skip(1).update(i - 1, v));
        lemma_sum_update(s.skip(1), i - 1, v);
        assert(grid_sum(t) == t[0] + grid_sum(t.skip(1)));
    }
}

/// Count of empty cells after one empty cell is filled.
pub proof fn lemma_count_zeros_update(s: Seq<u32>, i: int, v: u32)
    requires
        0 <= i < s.len(),
        s[i] == 0,
        v != 0,
    ensures
        count_zeros(s.update(i, v)) == count_zeros(s) - 1,
    decreases s.len(),
{
    let t = s.update(i, v);
    if i == 0 {
        assert(t.skip(1) =~= s.skip(1));
    } else {
        assert(t.skip(1) =~= s.skip(1).update(i - 1, v));
        lemma_count_zeros_update(s.skip(1), i - 1, v);
    }
}

/// Row `r` of a grid, left to right.
pub open spec fn row_seq(g: Seq<u32>, r: int) -> Seq<u32> {
    seq![g[4 * r], g[4 * r + 1], g[4 * r + 2], g[4 * r + 3]]
}

/// Column `c` of a grid, top to bottom.
pub open spec fn col_seq(g: Seq<u32>, c: int) -> Seq<u32> {
    seq![g[c], g[c + 4], g[c + 8], g[c + 12]]
}

/// A four-cell line, reversed.
pub open spec fn rev4(s: Seq<u32>) -> Seq<u32> {
    seq![s[3], s[2], s[1], s[0]]
}

/// The line a move in direction `d` reads: rows for Left/Right, columns
/// for Up/Down.
pub open spec fn line_of(g: Seq<u32>, d: Direction, l: int) -> Seq<u32> {
    match d {
        Direction::Left | Direction::Right => row_seq(g, l),
        Direction::Up | Direction::Down => col_seq(g, l),
    }
}

/// Line `l` after a move in direction `d`: merged towards the target edge,
/// which for Right and Down means merging the reversed line.
pub open spec fn merged_line_for(g: Seq<u32>, d: Direction, l: int) -> Seq<u32> {
    match d {
        Direction::Left => merge_line(row_seq(g, l)),
        Direction::Right => rev4(merge_line(rev4(row_seq(g, l)))),
        Direction::Up => merge_line(col_seq(g, l)),
        Direction::Down => rev4(merge_line(rev4(col_seq(g, l)))),
    }
}

/// The whole grid after a move in direction `d` (whether or not the move
/// would count as legal).
pub open spec fn apply_move(g: Seq<u32>, d: Direction) -> Seq<u32> {
    Seq::new(
        16,
        |i: int|
            match d {
                Direction::Left | Direction::Right => merged_line_for(g, d, i / 4)[i % 4],
                Direction::Up | Direction::Down => merged_line_for(g, d, i % 4)[i / 4],
            },
    )
}

/// A move in direction `d` is legal exactly when it changes the grid.
#[verifier::opaque]
pub open spec fn move_changes(g: Seq<u32>, d: Direction) -> bool {
    apply_move(g, d) != g
}

pub proof fn lemma_sum4(s: Seq<u32>)
    requires
        s.len() == 4,
    ensures
        grid_sum(s) == s[0] + s[1] + s[2] + s[3],
{
    assert(s.skip(1)[0] == s[1]);
    assert(s.skip(1).skip(1) =~= s.skip(2));
    assert(s.skip(2)[0] == s[2]);
    assert(s.skip(2).skip(1) =~= s.skip(3));
    assert(s.skip(3)[0] == s[3]);
    assert(s.skip(3).skip(1) =~= s.skip(4));
    assert(s.skip(4) =~= Seq::<u32>::empty());
    assert(grid_sum(s) == s[0] + grid_sum(s.skip(1)));
    assert(grid_sum(s.skip(1)) == s[1] + grid_sum(s.skip(2)));
    assert(grid_sum(s.skip(2)) == s[2] + grid_sum(s.skip(3)));
    assert(grid_sum(s.skip(3)) == s[3] + grid_sum(s.skip(4)));
}

/// A grid's sum splits over its four rows.
pub proof fn lemma_row_decomp(g: Seq<u32>)
    requires
        g.len() == 16,
    ensures
        grid_sum(g) == grid_sum(row_seq(g, 0)) + grid_sum(row_seq(g, 1)) + grid_sum(row_seq(g, 2))
            + grid_sum(row_seq(g, 3)),
{
    let r0 = row_seq(g, 0);
    let r1 = row_seq(g, 1);
    let r2 = row_seq(g, 2);
    let r3 = row_seq(g, 3);
    assert(g =~= r0 + r1 + r2 + r3);
    lemma_sum_concat(r0 + r1 + r2, r3);
    lemma_sum_concat(r0 + r1, r2);
    lemma_sum_concat(r0, r1);
}

/// A grid's sum splits over its four columns as well.
pub proof fn lemma_col_decomp(g: Seq<u32>)
    requires
        g.len() == 16,
    ensures
        grid_sum(g) == grid_sum(col_seq(g, 0)) + grid_sum(col_seq(g, 1)) + grid_sum(col_seq(g, 2))
            + grid_sum(col_seq(g, 3)),
{
    lemma_row_decomp(g);
    lemma_sum4(row_seq(g, 0));
    lemma_sum4(row_seq(g, 1));
    lemma_sum4(row_seq(g, 2));
    lemma_sum4(row_seq(g, 3));
    lemma_sum4(col_seq(g, 0));
    lemma_sum4(col_seq(g, 1));
    lemma_sum4(col_seq(g, 2));
    lemma_sum4(col_seq(g, 3));
}

/// The padded merged line keeps the original line's length and sum.
pub proof fn lemma_merge_line_props(s: Seq<u32>)
    requires
        s.len() == 4,
        grid_sum(s) <= 0xFFFF_FFFF,
    ensures
        merge_line(s).len() == 4,
        grid_sum(merge_line(s)) == grid_sum(s),
{
    lemma_merge_pairs_basic(s);
    lemma_sum_concat(merge_pairs(s), zero_cells(4 - merge_pairs(s).len()));
    lemma_sum_zero_cells(4 - merge_pairs(s).len());
}

pub proof fn lemma_rev4_sum(s: Seq<u32>)
    requires
        s.len() == 4,
    ensures
        rev4(s).len() == 4,
        grid_sum(rev4(s)) == grid_sum(s),
{
    lemma_sum4(s);
    lemma_sum4(rev4(s));
}

/// Each line the move reads sums to at most the whole grid, and its merged
/// form keeps that line's sum and length.
pub proof fn lemma_merged_line_props(g: Seq<u32>, d: Direction, l: int)
    requires
        g.len() == 16,
        0 <= l < 4,
        grid_sum(g) <= SUM_LIMIT,
    ensures
        grid_sum(line_of(g, d, l)) <= grid_sum(g),
        merged_line_for(g, d, l).len() == 4,
        grid_sum(merged_line_for(g, d, l)) == grid_sum(line_of(g, d, l)),
{
    lemma_row_decomp(g);
    lemma_col_decomp(g);
    lemma_sum_nonneg(row_seq(g, 0));
    lemma_sum_nonneg(row_seq(g, 1));
    lemma_sum_nonneg(row_seq(g, 2));
    lemma_sum_nonneg(row_seq(g, 3));
    lemma_sum_nonneg(col_seq(g, 0));
    lemma_sum_nonneg(col_seq(g, 1));
    lemma_sum_nonneg(col_seq(g, 2));
    lemma_sum_nonneg(col_seq(g, 3));
    let line = line_of(g, d, l);
    match d {
        Direction::Left | Direction::Up => {
            lemma_merge_line_props(line);
        },
        Direction::Right | Direction::Down => {
            lemma_rev4_sum(line);
            lemma_merge_line_props(rev4(line));
            lemma_rev4_sum(merge_line(rev4(line)));
        },
    }
}

/// A move rearranges and merges tiles but never changes the grid's sum.
pub proof fn lemma_apply_move_props(g: Seq<u32>, d: Direction)
    requires
        g.len() == 16,
        grid_sum(g) <= SUM_LIMIT,
    ensures
        apply_move(g, d).len() == 16,
        grid_sum(apply_move(g, d)) == grid_sum(g),
{
    let a = apply_move(g, d);
    lemma_merged_line_props(g, d, 0);
    lemma_merged_line_props(g, d, 1);
    lemma_merged_line_props(g, d, 2);
    lemma_merged_line_props(g, d, 3);
    match d {
        Direction::Left | Direction::Right => {
            assert(row_seq(a, 0) =~= merged_line_for(g, d, 0));
            assert(row_seq(a, 1) =~= merged_line_for(g, d, 1));
            assert(row_seq(a, 2) =~= merged_line_for(g, d, 2));
            assert(row_seq(a, 3) =~= merged_line_for(g, d, 3));
            lemma_row_decomp(a);
            lemma_row_decomp(g);
        },
        Direction::Up | Direction::Down => {
            assert(col_seq(a, 0) =~= merged_line_for(g, d, 0));
            assert(col_seq(a, 1) =~= merged_line_for(g, d, 1));
            assert(col_seq(a, 2) =~= merged_line_for(g, d, 2));
            assert(col_seq(a, 3) =~= merged_line_for(g, d, 3));
            lemma_col_decomp(a);
            lemma_col_decomp(g);
        },
    }
}

/// The board is out of play exactly when it is full and no two adjacent
/// cells, row- or column-wise, hold equal values.
pub open spec fn is_full(g: Seq<u32>) -> bool {
    forall|i: int| 0 <= i < 16 ==> g[i] != 0
}

/// Cell `i` has an equal neighbour to its right or below it.
pub open spec fn adjacent_equal_at(g: Seq<u32>, i: int) -> bool {
    (i % 4 < 3 && g[i] == g[i + 1]) || (i < 12 && g[i] == g[i + 4])
}

pub open spec fn has_adjacent_equal(g: Seq<u32>) -> bool {
    exists|i: int| 0 <= i < 16 && #[trigger] adjacent_equal_at(g, i)
}

pub open spec fn terminal_spec(g: Seq<u32>) -> bool {
    is_full(g) && !has_adjacent_equal(g)
}

/// Whenever an empty cell exists the position is not terminal; in
/// particular no position reached by a move with room left is terminal.
pub proof fn lemma_empty_not_terminal(g: Seq<u32>)
    requires
        g.len() == 16,
        count_zeros(g) > 0,
    ensures
        !terminal_spec(g),
{
    lemma_count_zeros_bounds(g);
}

/// The `(row, col)` pairs of the empty cells at flat index `i` and above,
/// in row-major order.
pub open spec fn empty_cells_rec(g: Seq<u32>, i: int) -> Seq<(usize, usize)>
    decreases 16 - i,
{
    if i < 0 || i >= 16 {
        Seq::empty()
    } else if g[i] == 0 {
        seq![((i / 4) as usize, (i % 4) as usize)] + empty_cells_rec(g, i + 1)
    } else {
        empty_cells_rec(g, i + 1)
    }
}

/// All empty cells of the grid as `(row, col)` pairs, row-major.
pub open spec fn empty_cells_spec(g: Seq<u32>) -> Seq<(usize, usize)> {
    empty_cells_rec(g, 0)
}

/// The empty-cell list names exactly the empty cells: one entry per empty
/// cell, each in bounds and empty on the grid.
pub proof fn lemma_empty_cells_rec_props(g: Seq<u32>, i: int)
    requires
        g.len() == 16,
        0 <= i <= 16,
    ensures
        empty_cells_rec(g, i).len() == count_zeros(g.skip(i)),
        forall|k: int|
            0 <= k < empty_cells_rec(g, i).len() ==> {
                let p = #[trigger] empty_cells_rec(g, i)[k];
                &&& p.0 < 4
                &&& p.1 < 4
                &&& i <= 4 * (p.0 as int) + (p.1 as int) < 16
                &&& g[4 * (p.0 as int) + (p.1 as int)] == 0
            },
        forall|j: int|
            i <= j < 16 && g[j] == 0 ==> empty_cells_rec(g, i).contains(
                (((j / 4) as usize, (j % 4) as usize)),
            ),
    decreases 16 - i,
{
    if i < 16 {
        lemma_empty_cells_rec_props(g, i + 1);
        let rest = g.skip(i);
        assert(rest[0] == g[i]);
        assert(rest.skip(1) =~= g.skip(i + 1));
        if g[i] == 0 {
            let p = ((i / 4) as usize, (i % 4) as usize);
            let whole = empty_cells_rec(g, i);
            assert(whole[0] == p);
            assert(forall|k: int|
                1 <= k < whole.len() ==> whole[k] == empty_cells_rec(g, i + 1)[k - 1]);
            assert(forall|j: int|
                i <= j < 16 && g[j] == 0 ==> whole.contains(
                    (((j / 4) as usize, (j % 4) as usize)),
                )) by {
                assert forall|j: int| i <= j < 16 && g[j] == 0 implies whole.contains(
                    (((j / 4) as usize, (j % 4) as usize)),
                ) by {
                    if j == i {
                        assert(whole[0] == (((j / 4) as usize, (j % 4) as usize)));
                    } else {
                        let q = (((j / 4) as usize, (j % 4) as usize));
                        let k = choose|k: int|
                            0 <= k < empty_cells_rec(g, i + 1).len() && #[trigger] empty_cells_rec(
                                g,
                                i + 1,
                            )[k] == q;
                        assert(whole[k + 1] == q);
                    }
                }
            }
        } else {
            assert(forall|j: int|
                i <= j < 16 && g[j] == 0 ==> i + 1 <= j);
        }
    } else {
        assert(g.skip(16) =~= Seq::<u32>::empty());
    }
}

/// The playing board: the grid, a move counter, and two cached scan
/// results that well-formedness ties to a fresh scan of the grid.
#[derive(Debug, Clone)]
pub struct GameBoard {
    pub grid: Vec<u32>,
    pub move_count: u32,
    pub empty_mask: u16,
    pub max_tile: u32,
}

impl GameBoard {
    /// Merge one line of four cells towards its front.  Returns the merged
    /// line and whether it differs from the input.
    pub fn merge_row(row: &Vec<u32>) -> (r: (Vec<u32>, bool))
        requires
            row@.len() == 4,
            grid_sum(row@) <= SUM_LIMIT,
        ensures
            r.0@ == merge_line(row@),
            r.0@.len() == 4,
            r.1 == (r.0@ != row@),
            grid_sum(r.0@) == grid_sum(row@),
    {
        let mut out: Vec<u32> = Vec::new();
        let mut i: usize = 0;
        proof {
            assert(row@.skip(0) =~= row@);
            assert(Seq::<u32>::empty() + merge_pairs(row@) =~= merge_pairs(row@));
        }
        while i < 4
            invariant
                row@.len() == 4,
                grid_sum(row@) <= SUM_LIMIT,
                i <= 4,
                out@.len() <= i,
                merge_pairs(row@) == out@ + merge_pairs(row@.skip(i as int)),
                grid_sum(out@) + grid_sum(row@.skip(i as int)) == grid_sum(row@),
            decreases 4 - i,
        {
            let ghost rest = row@.skip(i as int);
            if row[i] == 0 {
                proof {
                    assert(rest[0] == row@[i as int]);
                    assert(rest.skip(1) =~= row@.skip(i + 1));
                }
                i += 1;
            } else if i + 1 < 4 && row[i] == row[i + 1] {
                proof {
                    assert(rest[0] == row@[i as int]);
                    assert(rest[1] == row@[i + 1]);
                    assert(rest.skip(2) =~= row@.skip(i + 2));
                    lemma_sum_first_two(rest);
                    lemma_sum_nonneg(out@);
                    assert(row@[i as int] + row@[i as int] <= SUM_LIMIT);
                    assert(merge_pairs(rest) == seq![(rest[0] + rest[0]) as u32] + merge_pairs(
                        rest.skip(2),
                    ));
                    assert(out@ + merge_pairs(rest) =~= out@.push((rest[0] + rest[0]) as u32)
                        + merge_pairs(rest.skip(2)));
                    lemma_sum_push(out@, (rest[0] + rest[0]) as u32);
                    lemma_sum_unfold2(rest);
                }
                let v = row[i] + row[i];
                out.push(v);
                i += 2;
            } else {
                proof {
                    assert(rest[0] == row@[i as int]);
                    assert(rest.skip(1) =~= row@.skip(i + 1));
                    if rest.len() >= 2 {
                        assert(rest[1] == row@[i + 1]);
                    }
                    assert(merge_pairs(rest) == seq![rest[0]] + merge_pairs(rest.skip(1)));
                    assert(out@ + merge_pairs(rest) =~= out@.push(rest[0]) + merge_pairs(rest.skip(1)));
                    lemma_sum_push(out@, rest[0]);
                    assert(grid_sum(rest) == rest[0] + grid_sum(rest.skip(1)));
                }
                let v = row[i];
                out.push(v);
                i += 1;
            }
        }
        proof {
            assert(row@.skip(4) =~= Seq::<u32>::empty());
            assert(merge_pairs(row@) =~= out@);
            lemma_merge_pairs_basic(row@);
        }
        while out.len() < 4
            invariant
                merge_pairs(row@).len() <= out@.len() <= 4,
                out@ =~= merge_pairs(row@) + zero_cells(out@.len() - merge_pairs(row@).len()),
            decreases 4 - out@.len(),
        {
            let ghost before = out@;
            out.push(0);
            proof {
                assert(out@ =~= merge_pairs(row@) + zero_cells(
                    out@.len() - merge_pairs(row@).len(),
                ));
            }
        }
        proof {
            assert(out@ =~= merge_line(row@));
            lemma_sum_concat(merge_pairs(row@), zero_cells(4 - merge_pairs(row@).len()));
            lemma_sum_zero_cells(4 - merge_pairs(row@).len());
            lemma_merge_pairs_basic(row@);
        }
        let mut moved = false;
        let mut j: usize = 0;
        while j < 4
            invariant
                out@.len() == 4,
                row@.len() == 4,
                j <= 4,
                moved == exists|k: int| 0 <= k < j && out@[k] != row@[k],
            decreases 4 - j,
        {
            if out[j] != row[j] {
                moved = true;
            }
            j += 1;
        }
        proof {
            if moved {
                assert(out@ != row@);
            } else {
                assert(out@ =~= row@);
            }
        }
        (out, moved)
    }

    /// The cached empty-mask and max-tile always equal what a fresh scan
    /// of the grid would produce.
    pub open spec fn wf(self) -> bool {
        &&& self.grid@.len() == 16
        &&& self.empty_mask == empty_mask_spec(self.grid@)
        &&& self.max_tile == max_cell(self.grid@)
    }

    /// The bitmask of empty cells of a grid, bit `4 * row + col` per cell.
    pub fn calculate_empty_mask(grid: &Vec<u32>) -> (mask: u16)
        requires
            grid@.len() == 16,
        ensures
            mask == empty_mask_spec(grid@),
    {
        let mut mask: u16 = 0;
        let mut i: usize = 0;
        proof {
            let r0 = empty_mask_rec(grid@, 0);
            assert(0u16 | r0 == r0) by (bit_vector);
        }
        while i < 16
            invariant
                grid@.len() == 16,
                i <= 16,
                empty_mask_spec(grid@) == mask | empty_mask_rec(grid@, i as int),
            decreases 16 - i,
        {
            let ghost m0 = mask;
            let ghost rest = empty_mask_rec(grid@, i as int + 1);
            let ghost bit = if grid@[i as int] == 0 {
                1u16 << (i as u16)
            } else {
                0u16
            };
            if grid[i] == 0 {
                mask = mask | (1u16 << (i as u16));
            }
            proof {
                assert(m0 | (bit | rest) == (m0 | bit) | rest) by (bit_vector);
                assert(m0 | 0u16 == m0) by (bit_vector);
            }
            i += 1;
        }
        proof {
            assert(mask | empty_mask_rec(grid@, 16) == mask) by (bit_vector);
        }
        mask
    }

    /// The largest tile of a grid.
    pub fn calculate_max_tile(grid: &Vec<u32>) -> (m: u32)
        requires
            grid@.len() == 16,
        ensures
            m == max_cell(grid@),
    {
        let mut m: u32 = 0;
        let mut i: usize = 0;
        proof {
            assert(grid@.skip(0) =~= grid@);
        }
        while i < 16
            invariant
                grid@.len() == 16,
                i <= 16,
                max_cell(grid@) == max2(m, max_cell(grid@.skip(i as int))),
            decreases 16 - i,
        {
            let ghost rest = grid@.skip(i as int);
            proof {
                assert(rest[0] == grid@[i as int]);
                assert(rest.skip(1) =~= grid@.skip(i as int + 1));
            }
            if grid[i] > m {
                m = grid[i];
            }
            i += 1;
        }
        proof {
            assert(grid@.skip(16) =~= Seq::<u32>::empty());
        }
        m
    }

    /// A copy of the sixteen cells, row-major.
    pub fn get_board(&self) -> (r: Vec<u32>)
        ensures
            r@ == self.grid@,
    {
        let mut r: Vec<u32> = Vec::new();
        let mut i: usize = 0;
        while i < self.grid.len()
            invariant
                i <= self.grid@.len(),
                r@ =~= self.grid@.take(i as int),
            decreases self.grid@.len() - i,
        {
            r.push(self.grid[i]);
            i += 1;
        }
        proof {
            assert(self.grid@.take(self.grid@.len() as int) =~= self.grid@);
        }
        r
    }

    /// Replace the grid and refresh both cached scans.
    pub fn set_board(&mut self, board: Vec<u32>)
        requires
            board@.len() == 16,
        ensures
            final(self).wf(),
            final(self).grid@ == board@,
            final(self).move_count == old(self).move_count,
    {
        let empty_mask = Self::calculate_empty_mask(&board);
        let max_tile = Self::calculate_max_tile(&board);
        self.grid = board;
        self.empty_mask = empty_mask;
        self.max_tile = max_tile;
    }

    /// How many moves have changed this board so far.
    pub fn get_move_count(&self) -> (r: u32)
        ensures
            r == self.move_count,
    {
        self.move_count
    }

    /// The cached largest tile.
    pub fn get_max_tile(&self) -> (r: u32)
        requires
            self.wf(),
        ensures
            r == max_cell(self.grid@),
    {
        self.max_tile
    }

    /// Sum of all tile values.
    pub fn get_score(&self) -> (r: u32)
        requires
            self.grid@.len() == 16,
            grid_sum(self.grid@) <= u32::MAX,
        ensures
            r == grid_sum(self.grid@),
    {
        let mut acc: u32 = 0;
        let mut i: usize = 0;
        proof {
            assert(self.grid@.skip(0) =~= self.grid@);
            lemma_sum_nonneg(self.grid@);
        }
        while i < 16
            invariant
                self.grid@.len() == 16,
                grid_sum(self.grid@) <= u32::MAX,
                i <= 16,
                acc + grid_sum(self.grid@.skip(i as int)) == grid_sum(self.grid@),
                acc <= grid_sum(self.grid@),
            decreases 16 - i,
        {
            let ghost rest = self.grid@.skip(i as int);
            proof {
                assert(rest[0] == self.grid@[i as int]);
                assert(rest.skip(1) =~= self.grid@.skip(i as int + 1));
                lemma_sum_nonneg(rest.skip(1));
            }
            acc = acc + self.grid[i];
            i += 1;
        }
        acc
    }

    /// How many cells are empty.
    pub fn count_empty_cells(&self) -> (r: usize)
        requires
            self.grid@.len() == 16,
        ensures
            r == count_zeros(self.grid@),
    {
        let mut acc: usize = 0;
        let mut i: usize = 0;
        proof {
            assert(self.grid@.skip(0) =~= self.grid@);
        }
        while i < 16
            invariant
                self.grid@.len() == 16,
                i <= 16,
                acc <= i,
                acc + count_zeros(self.grid@.skip(i as int)) == count_zeros(self.grid@),
            decreases 16 - i,
        {
            let ghost rest = self.grid@.skip(i as int);
            proof {
                assert(rest[0] == self.grid@[i as int]);
                assert(rest.skip(1) =~= self.grid@.skip(i as int + 1));
            }
            if self.grid[i] == 0 {
                acc += 1;
            }
            i += 1;
        }
        acc
    }

    /// Push every line towards the edge that `direction` names, merging
    /// adjacent equal tiles once each.  Returns whether the grid changed;
    /// only then are the grid, the move counter and the cached scans
    /// updated.
    pub fn move_tiles(&mut self, direction: Direction) -> (moved: bool)
        requires
            old(self).wf(),
            grid_sum(old(self).grid@) <= SUM_LIMIT,
            old(self).move_count < u32::MAX,
        ensures
            final(self).wf(),
            moved == move_changes(old(self).grid@, direction),
            final(self).grid@ == if moved {
                apply_move(old(self).grid@, direction)
            } else {
                old(self).grid@
            },
            final(self).move_count as int == if moved {
                old(self).move_count + 1
            } else {
                old(self).move_count as int
            },
            grid_sum(final(self).grid@) == grid_sum(old(self).grid@),
    {
        proof {
            reveal(move_changes);
        }
        let ghost g = self.grid@;
        let mut lines: Vec<Vec<u32>> = Vec::new();
        let mut l: usize = 0;
        while l < 4
            invariant
                self.grid@ == g,
                g.len() == 16,
                grid_sum(g) <= SUM_LIMIT,
                l <= 4,
                lines@.len() == l,
                forall|j: int|
                    0 <= j < l ==> (#[trigger] lines@[j])@ == merged_line_for(g, direction, j)
                        && lines@[j]@.len() == 4,
            decreases 4 - l,
        {
            let mut orig: Vec<u32> = Vec::new();
            match direction {
                Direction::Left => {
                    orig.push(self.grid[4 * l]);
                    orig.push(self.grid[4 * l + 1]);
                    orig.push(self.grid[4 * l + 2]);
                    orig.push(self.grid[4 * l + 3]);
                    proof {
                        assert(orig@ =~= row_seq(g, l as int));
                    }
                },
                Direction::Right => {
                    orig.push(self.grid[4 * l + 3]);
                    orig.push(self.grid[4 * l + 2]);
                    orig.push(self.grid[4 * l + 1]);
                    orig.push(self.grid[4 * l]);
                    proof {
                        assert(orig@ =~= rev4(row_seq(g, l as int)));
                    }
                },
                Direction::Up => {
                    orig.push(self.grid[l]);
                    orig.push(self.grid[l + 4]);
                    orig.push(self.grid[l + 8]);
                    orig.push(self.grid[l + 12]);
                    proof {
                        assert(orig@ =~= col_seq(g, l as int));
                    }
                },
                Direction::Down => {
                    orig.push(self.grid[l + 12]);
                    orig.push(self.grid[l + 8]);
                    orig.push(self.grid[l + 4]);
                    orig.push(self.grid[l]);
                    proof {
                        assert(orig@ =~= rev4(col_seq(g, l as int)));
                    }
                },
            }
            proof {
                lemma_merged_line_props(g, direction, l as int);
                match direction {
                    Direction::Left | Direction::Up => {},
                    Direction::Right | Direction::Down => {
                        lemma_rev4_sum(line_of(g, direction, l as int));
                    },
                }
            }
            let mr = Self::merge_row(&orig);
            let merged: Vec<u32> = match direction {
                Direction::Left | Direction::Up => mr.0,
                Direction::Right | Direction::Down => {
                    let m = mr.0;
                    let mut rv: Vec<u32> = Vec::new();
                    rv.push(m[3]);
                    rv.push(m[2]);
                    rv.push(m[1]);
                    rv.push(m[0]);
                    proof {
                        assert(rv@ =~= rev4(m@));
                    }
                    rv
                },
            };
            proof {
                assert(merged@ =~= merged_line_for(g, direction, l as int));
            }
            lines.push(merged);
            l += 1;
        }
        let ghost a = apply_move(g, direction);
        proof {
            lemma_apply_move_props(g, direction);
        }
        let mut ng: Vec<u32> = Vec::new();
        let mut idx: usize = 0;
        while idx < 16
            invariant
                lines@.len() == 4,
                forall|j: int|
                    0 <= j < 4 ==> (#[trigger] lines@[j])@ == merged_line_for(g, direction, j)
                        && lines@[j]@.len() == 4,
                a == apply_move(g, direction),
                a.len() == 16,
                idx <= 16,
                ng@.len() == idx,
                forall|k: int| 0 <= k < idx ==> ng@[k] == a[k],
            decreases 16 - idx,
        {
            let li: usize = match direction {
                Direction::Left | Direction::Right => idx / 4,
                Direction::Up | Direction::Down => idx % 4,
            };
            let pi: usize = match direction {
                Direction::Left | Direction::Right => idx % 4,
                Direction::Up | Direction::Down => idx / 4,
            };
            let line = &lines[li];
            let v = line[pi];
            ng.push(v);
            proof {
                assert(a[idx as int] == merged_line_for(g, direction, li as int)[pi as int]);
            }
            idx += 1;
        }
        proof {
            assert(ng@ =~= a);
        }
        let mut moved = false;
        let mut k: usize = 0;
        while k < 16
            invariant
                ng@.len() == 16,
                self.grid@ == g,
                g.len() == 16,
                k <= 16,
                moved == exists|j: int| 0 <= j < k && ng@[j] != g[j],
            decreases 16 - k,
        {
            if ng[k] != self.grid[k] {
                moved = true;
            }
            k += 1;
        }
        proof {
            if moved {
                assert(ng@ != g);
            } else {
                assert(ng@ =~= g);
            }
        }
        if moved {
            let em = Self::calculate_empty_mask(&ng);
            let mt = Self::calculate_max_tile(&ng);
            self.grid = ng;
            self.empty_mask = em;
            self.max_tile = mt;
            self.move_count = self.move_count + 1;
        }
        moved
    }

    /// True exactly when the board is full and no two adjacent cells share
    /// a value, so that no direction can change the board.
    pub fn is_game_over(&self) -> (r: bool)
        requires
            self.grid@.len() == 16,
        ensures
            r == terminal_spec(self.grid@),
    {
        if self.count_empty_cells() > 0 {
            proof {
                lemma_count_zeros_bounds(self.grid@);
            }
            return false;
        }
        proof {
            lemma_count_zeros_bounds(self.grid@);
        }
        let mut i: usize = 0;
        while i < 16
            invariant
                self.grid@.len() == 16,
                i <= 16,
                forall|j: int| 0 <= j < i ==> !#[trigger] adjacent_equal_at(self.grid@, j),
            decreases 16 - i,
        {
            let v = self.grid[i];
            if i % 4 < 3 && self.grid[i + 1] == v {
                proof {
                    assert(adjacent_equal_at(self.grid@, i as int));
                }
                return false;
            }
            if i < 12 && self.grid[i + 4] == v {
                proof {
                    assert(adjacent_equal_at(self.grid@, i as int));
                }
                return false;
            }
            i += 1;
        }
        true
    }

    /// Every empty cell as a `(row, col)` pair, row-major.
    pub fn get_empty_cells(&self) -> (r: Vec<(usize, usize)>)
        requires
            self.grid@.len() == 16,
        ensures
            r@ == empty_cells_spec(self.grid@),
            r@.len() == count_zeros(self.grid@),
            forall|k: int|
                0 <= k < r@.len() ==> {
                    let p = #[trigger] r@[k];
                    &&& p.0 < 4
                    &&& p.1 < 4
                    &&& self.grid@[4 * (p.0 as int) + (p.1 as int)] == 0
                },
    {
        let ghost g = self.grid@;
        let mut out: Vec<(usize, usize)> = Vec::new();
        let mut i: usize = 0;
        proof {
            assert(Seq::<(usize, usize)>::empty() + empty_cells_rec(g, 0) =~= empty_cells_rec(
                g,
                0,
            ));
        }
        while i < 16
            invariant
                self.grid@ == g,
                g.len() == 16,
                i <= 16,
                empty_cells_spec(g) == out@ + empty_cells_rec(g, i as int),
            decreases 16 - i,
        {
            if self.grid[i] == 0 {
                let p = (i / 4, i % 4);
                proof {
                    assert(empty_cells_rec(g, i as int) == seq![p] + empty_cells_rec(
                        g,
                        i as int + 1,
                    ));
                    assert(out@ + empty_cells_rec(g, i as int) =~= out@.push(p)
                        + empty_cells_rec(g, i as int + 1));
                }
                out.push(p);
            }
            i += 1;
        }
        proof {
            assert(empty_cells_spec(g) =~= out@);
            lemma_empty_cells_rec_props(g, 0);
            assert(g.skip(0) =~= g);
        }
        out
    }

    /// Flat indices of the empty cells of a grid, row-major.
    fn empty_cell_list(grid: &Vec<u32>) -> (r: Vec<usize>)
        requires
            grid@.len() == 16,
        ensures
            r@.len() == count_zeros(grid@),
            forall|k: int|
                0 <= k < r@.len() ==> (#[trigger] r@[k]) < 16 && grid@[r@[k] as int] == 0,
    {
        let ghost g = grid@;
        let mut out: Vec<usize> = Vec::new();
        let mut i: usize = 0;
        proof {
            assert(g.skip(0) =~= g);
        }
        while i < 16
            invariant
                grid@ == g,
                g.len() == 16,
                i <= 16,
                out@.len() + count_zeros(g.skip(i as int)) == count_zeros(g),
                forall|k: int|
                    0 <= k < out@.len() ==> (#[trigger] out@[k]) < i && g[out@[k] as int] == 0,
            decreases 16 - i,
        {
            let ghost rest = g.skip(i as int);
            proof {
                assert(rest[0] == g[i as int]);
                assert(rest.skip(1) =~= g.skip(i as int + 1));
            }
            if grid[i] == 0 {
                out.push(i);
            }
            i += 1;
        }
        proof {
            assert(g.skip(16) =~= Seq::<u32>::empty());
        }
        out
    }

    /// Place one tile, of value 2 with probability nine in ten and 4
    /// otherwise, on a uniformly chosen empty cell; a full grid is left
    /// unchanged.
    fn add_random_tile_grid(grid: &mut Vec<u32>)
        requires
            old(grid)@.len() == 16,
        ensures
            final(grid)@.len() == 16,
            count_zeros(old(grid)@) == 0 ==> final(grid)@ == old(grid)@,
            count_zeros(old(grid)@) > 0 ==> exists|i: int|
                0 <= i < 16 && old(grid)@[i] == 0 && (final(grid)@ == old(grid)@.update(i, 2u32)
                    || final(grid)@ == old(grid)@.update(i, 4u32)),
            grid_sum(final(grid)@) <= grid_sum(old(grid)@) + 4,
            count_zeros(old(grid)@) > 0 ==> count_zeros(final(grid)@) == count_zeros(old(grid)@)
                - 1,
    {
        let cells = Self::empty_cell_list(grid);
        proof {
            lemma_count_zeros_bounds(grid@);
        }
        if cells.len() > 0 {
            let k = random_below(cells.len() as u32);
            let idx = cells[k as usize];
            let v: u32 = if random_below(10) < 9 {
                2
            } else {
                4
            };
            proof {
                lemma_sum_update(grid@, idx as int, v);
                lemma_count_zeros_update(grid@, idx as int, v);
            }
            grid[idx] = v;
        }
    }

    /// A fresh board: an empty grid with two random starting tiles, each
    /// a 2 or a 4, so exactly fourteen cells stay empty.
    pub fn new() -> (r: GameBoard)
        ensures
            r.wf(),
            r.move_count == 0,
            grid_sum(r.grid@) <= 8,
            count_zeros(r.grid@) == 14,
            forall|i: int|
                0 <= i < 16 ==> (#[trigger] r.grid@[i] == 0 || r.grid@[i] == 2 || r.grid@[i]
                    == 4),
    {
        let mut grid: Vec<u32> = Vec::new();
        let mut i: usize = 0;
        while i < 16
            invariant
                i <= 16,
                grid@.len() == i,
                grid_sum(grid@) == 0,
                count_zeros(grid@) == i,
                forall|k: int| 0 <= k < i ==> #[trigger] grid@[k] == 0,
            decreases 16 - i,
        {
            proof {
                lemma_sum_push(grid@, 0u32);
                lemma_count_zeros_push(grid@, 0u32);
            }
            grid.push(0);
            i += 1;
        }
        let ghost g0 = grid@;
        Self::add_random_tile_grid(&mut grid);
        let ghost g1 = grid@;
        Self::add_random_tile_grid(&mut grid);
        let ghost g2 = grid@;
        proof {
            let i1 = choose|i: int|
                0 <= i < 16 && g0[i] == 0 && (g1 == g0.update(i, 2u32) || g1 == g0.update(
                    i,
                    4u32,
                ));
            let i2 = choose|i: int|
                0 <= i < 16 && g1[i] == 0 && (g2 == g1.update(i, 2u32) || g2 == g1.update(
                    i,
                    4u32,
                ));
            assert(forall|k: int|
                0 <= k < 16 ==> (#[trigger] g1[k] == 0 || g1[k] == 2 || g1[k] == 4));
            assert(forall|k: int|
                0 <= k < 16 ==> (#[trigger] g2[k] == 0 || g2[k] == 2 || g2[k] == 4));
        }
        let empty_mask = Self::calculate_empty_mask(&grid);
        let max_tile = Self::calculate_max_tile(&grid);
        GameBoard { grid, move_count: 0, empty_mask, max_tile }
    }

    /// An independent copy of this board, field for field.
    pub fn duplicate(&self) -> (r: GameBoard)
        ensures
            r.grid@ == self.grid@,
            r.move_count == self.move_count,
            r.empty_mask == self.empty_mask,
            r.max_tile == self.max_tile,
    {
        let grid = self.get_board();
        GameBoard {
            grid,
            move_count: self.move_count,
            empty_mask: self.empty_mask,
            max_tile: self.max_tile,
        }
    }

    /// Put a tile of value `v` on the empty cell at flat index `idx` and
    /// refresh the cached scans; the move counter is untouched.
    pub fn place_tile(&mut self, idx: usize, v: u32)
        requires
            old(self).wf(),
            idx < 16,
            old(self).grid@[idx as int] == 0,
            v != 0,
        ensures
            final(self).wf(),
            final(self).grid@ == old(self).grid@.update(idx as int, v),
            final(self).move_count == old(self).move_count,
            grid_sum(final(self).grid@) == grid_sum(old(self).grid@) + v,
            count_zeros(final(self).grid@) == count_zeros(old(self).grid@) - 1,
    {
        proof {
            lemma_sum_update(self.grid@, idx as int, v);
            lemma_count_zeros_update(self.grid@, idx as int, v);
        }
        self.grid[idx] = v;
        let em = Self::calculate_empty_mask(&self.grid);
        let mt = Self::calculate_max_tile(&self.grid);
        self.empty_mask = em;
        self.max_tile = mt;
    }

    /// Spawn one random tile on this board and refresh the cached scans.
    pub fn add_random_tile_self(&mut self)
        requires
            old(self).wf(),
        ensures
            final(self).wf(),
            final(self).move_count == old(self).move_count,
            grid_sum(final(self).grid@) <= grid_sum(old(self).grid@) + 4,
            count_zeros(old(self).grid@) == 0 ==> final(self).grid@ == old(self).grid@,
            count_zeros(old(self).grid@) > 0 ==> exists|i: int|
                0 <= i < 16 && old(self).grid@[i] == 0 && (final(self).grid@
                    == old(self).grid@.update(i, 2u32) || final(self).grid@
                    == old(self).grid@.update(i, 4u32)),
            count_zeros(old(self).grid@) > 0 ==> count_zeros(final(self).grid@) == count_zeros(
                old(self).grid@,
            ) - 1,
    {
        Self::add_random_tile_grid(&mut self.grid);
        let em = Self::calculate_empty_mask(&self.grid);
        let mt = Self::calculate_max_tile(&self.grid);
        self.empty_mask = em;
        self.max_tile = mt;
    }
}

/// Appending a cell extends the zero count by one exactly when the cell
/// is empty.
pub proof fn lemma_count_zeros_push(s: Seq<u32>, x: u32)
    ensures
        count_zeros(s.push(x)) == count_zeros(s) + if x == 0 {
            1int
        } else {
            0int
        },
    decreases s.len(),
{
    if s.len() == 0 {
        assert(s.push(x)[0] == x);
        assert(s.push(x).skip(1) =~= Seq::<u32>::empty());
        assert(count_zeros(s.push(x)) == (if x == 0 {
            1int
        } else {
            0int
        }) + count_zeros(Seq::<u32>::empty()));
    } else {
        assert(s.push(x)[0] == s[0]);
        assert(s.push(x).skip(1) =~= s.skip(1).push(x));
        lemma_count_zeros_push(s.skip(1), x);
        assert(count_zeros(s.push(x)) == (if s[0] == 0 {
            1int
        } else {
            0int
        }) + count_zeros(s.skip(1).push(x)));
    }
}

} // verus!
