//! A packed board: sixteen 4-bit cells in one `u64`, each holding the
//! base-2 logarithm of its tile (0 for an empty cell).  Lines merge by
//! compacting the non-zero exponents first and then merging adjacent
//! equal pairs once, each merge raising the exponent by one.

use vstd::prelude::*;
use crate::rng::random_below;

verus! {

/// The 4-bit cell `i` of a packed board.
pub open spec fn nib(b: u64, i: u64) -> u64 {
    (b >> ((4 * i) as u64)) & 0xF
}

/// Writing one cell leaves every other cell alone.
proof fn lemma_set_nib(b: u64, i: u64, e: u64, j: u64)
    by (bit_vector)
    requires
        i < 16,
        j < 16,
        e < 16,
    ensures
        ({
            let nb = (b & !(0xFu64 << ((4 * i) as u64))) | (e << ((4 * i) as u64));
            ((nb >> ((4 * j) as u64)) & 0xF) == if j == i {
                e
            } else {
                (b >> ((4 * j) as u64)) & 0xF
            }
        }),
{
}

proof fn lemma_nib_bound(b: u64, i: u64)
    by (bit_vector)
    ensures
        (b >> ((4 * i) as u64)) & 0xF < 16,
{
}

proof fn lemma_nib_zero(i: u64)
    by (bit_vector)
    ensures
        (0u64 >> ((4 * i) as u64)) & 0xF == 0,
{
}

/// The tile value a stored exponent stands for.
pub open spec fn tile_of(e: u64) -> u32 {
    if e == 0 {
        0u32
    } else {
        (1u32 << (e as u32))
    }
}

/// The non-zero exponents of a line, in order.
pub open spec fn exp_nonzeros(s: Seq<u8>) -> Seq<u8>
    decreases s.len(),
{
    if s.len() == 0 {
        Seq::empty()
    } else if s[0] == 0 {
        exp_nonzeros(s.skip(1))
    } else {
        seq![s[0]] + exp_nonzeros(s.skip(1))
    }
}

/// Merge a compacted line of exponents: adjacent equal pairs merge once,
/// each merge raising the exponent by one.
pub open spec fn exp_merge(s: Seq<u8>) -> Seq<u8>
    decreases s.len(),
{
    if s.len() == 0 {
        Seq::empty()
    } else if s.len() >= 2 && s[1] == s[0] {
        seq![(s[0] + 1) as u8] + exp_merge(s.skip(2))
    } else {
        seq![s[0]] + exp_merge(s.skip(1))
    }
}

pub open spec fn zero_exps(n: int) -> Seq<u8> {
    Seq::new(n as nat, |i: int| 0u8)
}

/// One merged line of exponents, padded back to four cells: compact,
/// merge adjacent equal pairs once, pad.
pub open spec fn merge_exps(s: Seq<u8>) -> Seq<u8> {
    let m = exp_merge(exp_nonzeros(s));
    m + zero_exps(4 - m.len())
}

proof fn lemma_exp_nonzeros_props(s: Seq<u8>, cap: u8)
    requires
        forall|k: int| 0 <= k < s.len() ==> s[k] <= cap,
    ensures
        exp_nonzeros(s).len() <= s.len(),
        forall|k: int|
            0 <= k < exp_nonzeros(s).len() ==> #[trigger] exp_nonzeros(s)[k] <= cap,
    decreases s.len(),
{
    if s.len() > 0 {
        assert(forall|k: int| 0 <= k < s.skip(1).len() ==> s.skip(1)[k] == s[k + 1]);
        lemma_exp_nonzeros_props(s.skip(1), cap);
    }
}

proof fn lemma_exp_merge_props(s: Seq<u8>, cap: u8)
    requires
        cap < 255,
        forall|k: int| 0 <= k < s.len() ==> s[k] <= cap,
    ensures
        exp_merge(s).len() <= s.len(),
        forall|k: int|
            0 <= k < exp_merge(s).len() ==> #[trigger] exp_merge(s)[k] <= cap + 1,
    decreases s.len(),
{
    if s.len() == 0 {
    } else if s.len() >= 2 && s[1] == s[0] {
        assert(forall|k: int| 0 <= k < s.skip(2).len() ==> s.skip(2)[k] == s[k + 2]);
        lemma_exp_merge_props(s.skip(2), cap);
    } else {
        assert(forall|k: int| 0 <= k < s.skip(1).len() ==> s.skip(1)[k] == s[k + 1]);
        lemma_exp_merge_props(s.skip(1), cap);
    }
}

/// A merged line keeps four cells, all within one step of the input cap.
pub proof fn lemma_merge_exps_props(s: Seq<u8>, cap: u8)
    requires
        s.len() == 4,
        cap < 255,
        forall|k: int| 0 <= k < 4 ==> s[k] <= cap,
    ensures
        merge_exps(s).len() == 4,
        forall|k: int| 0 <= k < 4 ==> #[trigger] merge_exps(s)[k] <= cap + 1,
{
    lemma_exp_nonzeros_props(s, cap);
    lemma_exp_merge_props(exp_nonzeros(s), cap);
    let m = exp_merge(exp_nonzeros(s));
    assert(forall|k: int|
        0 <= k < 4 ==> merge_exps(s)[k] == if k < m.len() {
            m[k]
        } else {
            0u8
        });
}

/// A board packed four bits per cell.
#[derive(Debug, Clone, Copy, PartialEq, Eq, Hash, Structural)]
pub struct BitBoard(pub u64);

impl BitBoard {
    /// The empty board.
    pub fn new() -> (r: BitBoard)
        ensures
            r.0 == 0,
    {
        BitBoard(0)
    }

    /// Read one cell as an exponent.
    fn read_nib(b: u64, idx: usize) -> (r: u8)
        requires
            idx < 16,
        ensures
            r as u64 == nib(b, idx as u64),
            r < 16,
    {
        proof {
            lemma_nib_bound(b, idx as u64);
        }
        let shift = 4 * idx;
        ((b >> (shift as u64)) & 0xF) as u8
    }

    /// Write one cell's exponent, leaving the others alone.
    fn with_nib(b: u64, idx: usize, e: u8) -> (r: u64)
        requires
            idx < 16,
            e < 16,
        ensures
            forall|j: u64|
                j < 16 ==> #[trigger] nib(r, j) == if j == idx as u64 {
                    e as u64
                } else {
                    nib(b, j)
                },
    {
        let shift = 4 * idx;
        let r = (b & !(0xFu64 << (shift as u64))) | ((e as u64) << (shift as u64));
        proof {
            assert forall|j: u64| j < 16 implies #[trigger] nib(r, j) == (if j == idx as u64 {
                e as u64
            } else {
                nib(b, j)
            }) by {
                lemma_set_nib(b, idx as u64, e as u64, j);
            }
        }
        r
    }

    /// The tile value at `(row, col)`: zero when empty, else two to the
    /// stored exponent.
    pub fn get_tile(&self, row: usize, col: usize) -> (r: u32)
        requires
            row < 4,
            col < 4,
        ensures
            r == tile_of(nib(self.0, (4 * row + col) as u64)),
    {
        let e = Self::read_nib(self.0, 4 * row + col);
        if e == 0 {
            0
        } else {
            1u32 << (e as u32)
        }
    }

    /// Store a tile at `(row, col)`: the cell is cleared for zero, else
    /// it records the position of the value's lowest set bit, which for
    /// a power of two is its logarithm.
    pub fn set_tile(&mut self, row: usize, col: usize, value: u32)
        requires
            row < 4,
            col < 4,
            value == 0 || vstd::std_specs::bits::u32_trailing_zeros(value) < 16,
        ensures
            nib(final(self).0, (4 * row + col) as u64) == if value == 0 {
                0
            } else {
                vstd::std_specs::bits::u32_trailing_zeros(value) as u64
            },
            forall|j: u64|
                j < 16 && j != (4 * row + col) as u64 ==> #[trigger] nib(final(self).0, j) == nib(
                    old(self).0,
                    j,
                ),
    {
        let e: u8 = if value == 0 {
            0
        } else {
            value.trailing_zeros() as u8
        };
        self.0 = Self::with_nib(self.0, 4 * row + col, e);
    }

    /// Whether the cell at `(row, col)` is empty.
    pub fn is_empty(&self, row: usize, col: usize) -> (r: bool)
        requires
            row < 4,
            col < 4,
        ensures
            r == (nib(self.0, (4 * row + col) as u64) == 0),
    {
        Self::read_nib(self.0, 4 * row + col) == 0
    }

    /// How many of the sixteen cells are empty.
    pub fn count_empty(&self) -> (r: u32)
        ensures
            r == empty_nib_rec(self.0, 16),
            r <= 16,
    {
        let mut count: u32 = 0;
        let mut i: usize = 0;
        while i < 16
            invariant
                i <= 16,
                count <= i,
                count == empty_nib_rec(self.0, i as int),
            decreases 16 - i,
        {
            if Self::read_nib(self.0, i) == 0 {
                count += 1;
            }
            i += 1;
        }
        count
    }

    /// The largest tile on the board.
    pub fn get_max_tile(&self) -> (r: u32)
        ensures
            r == tile_of(max_nib_rec(self.0, 16)),
    {
        let mut max_log: u8 = 0;
        let mut i: usize = 0;
        while i < 16
            invariant
                i <= 16,
                max_log < 16,
                max_log as u64 == max_nib_rec(self.0, i as int),
            decreases 16 - i,
        {
            let e = Self::read_nib(self.0, i);
            if e > max_log {
                max_log = e;
            }
            i += 1;
        }
        if max_log == 0 {
            0
        } else {
            1u32 << (max_log as u32)
        }
    }

    /// Merge one line of four exponents towards its front: compact the
    /// non-zero cells, then merge each adjacent equal pair once, raising
    /// the exponent.  Returns the merged line and whether it changed.
    pub fn merge_row_bits(row: &Vec<u8>) -> (r: (Vec<u8>, bool))
        requires
            row@.len() == 4,
            forall|k: int| 0 <= k < 4 ==> row@[k] <= 14,
        ensures
            r.0@ == merge_exps(row@),
            r.0@.len() == 4,
            forall|k: int| 0 <= k < 4 ==> #[trigger] r.0@[k] <= 15,
            r.1 == (r.0@ != row@),
    {
        let mut compact: Vec<u8> = Vec::new();
        let mut i: usize = 0;
        proof {
            assert(row@.skip(0) =~= row@);
            assert(Seq::<u8>::empty() + exp_nonzeros(row@) =~= exp_nonzeros(row@));
        }
        while i < 4
            invariant
                row@.len() == 4,
                i <= 4,
                compact@.len() <= i,
                exp_nonzeros(row@) == compact@ + exp_nonzeros(row@.skip(i as int)),
                forall|k: int| 0 <= k < compact@.len() ==> #[trigger] compact@[k] <= 14,
                forall|k: int| 0 <= k < 4 ==> row@[k] <= 14,
            decreases 4 - i,
        {
            let ghost rest = row@.skip(i as int);
            proof {
                assert(rest[0] == row@[i as int]);
                assert(rest.skip(1) =~= row@.skip(i as int + 1));
                if row@[i as int] != 0 {
                    assert(exp_nonzeros(rest) == seq![rest[0]] + exp_nonzeros(rest.skip(1)));
                    assert(compact@ + exp_nonzeros(rest) =~= compact@.push(rest[0])
                        + exp_nonzeros(rest.skip(1)));
                }
            }
            if row[i] != 0 {
                compact.push(row[i]);
            }
            i += 1;
        }
        proof {
            assert(row@.skip(4) =~= Seq::<u8>::empty());
            assert(compact@ == exp_nonzeros(row@));
        }
        let ghost cseq = compact@;
        let mut out: Vec<u8> = Vec::new();
        let mut j: usize = 0;
        proof {
            assert(cseq.skip(0) =~= cseq);
            assert(Seq::<u8>::empty() + exp_merge(cseq) =~= exp_merge(cseq));
        }
        while j < compact.len()
            invariant
                compact@ == cseq,
                cseq.len() <= 4,
                j <= cseq.len(),
                out@.len() <= j,
                exp_merge(cseq) == out@ + exp_merge(cseq.skip(j as int)),
                forall|k: int| 0 <= k < cseq.len() ==> #[trigger] cseq[k] <= 14,
                forall|k: int| 0 <= k < out@.len() ==> #[trigger] out@[k] <= 15,
            decreases cseq.len() - j,
        {
            let ghost rest = cseq.skip(j as int);
            proof {
                assert(rest[0] == cseq[j as int]);
                assert(rest.skip(1) =~= cseq.skip(j as int + 1));
                if rest.len() >= 2 {
                    assert(rest[1] == cseq[j as int + 1]);
                    assert(rest.skip(2) =~= cseq.skip(j as int + 2));
                }
            }
            if j + 1 < compact.len() && compact[j] == compact[j + 1] {
                proof {
                    assert(exp_merge(rest) == seq![(rest[0] + 1) as u8] + exp_merge(rest.skip(2)));
                    assert(out@ + exp_merge(rest) =~= out@.push((rest[0] + 1) as u8) + exp_merge(
                        rest.skip(2),
                    ));
                }
                let v = compact[j] + 1;
                out.push(v);
                j += 2;
            } else {
                proof {
                    assert(exp_merge(rest) == seq![rest[0]] + exp_merge(rest.skip(1)));
                    assert(out@ + exp_merge(rest) =~= out@.push(rest[0]) + exp_merge(
                        rest.skip(1),
                    ));
                }
                let v = compact[j];
                out.push(v);
                j += 1;
            }
        }
        proof {
            assert(cseq.skip(cseq.len() as int) =~= Seq::<u8>::empty());
            assert(out@ == exp_merge(cseq));
            lemma_exp_nonzeros_props(row@, 14);
            lemma_exp_merge_props(cseq, 14);
        }
        while out.len() < 4
            invariant
                exp_merge(cseq).len() <= out@.len() <= 4,
                out@ =~= exp_merge(cseq) + zero_exps(out@.len() - exp_merge(cseq).len()),
                forall|k: int| 0 <= k < out@.len() ==> #[trigger] out@[k] <= 15,
            decreases 4 - out@.len(),
        {
            out.push(0);
            proof {
                assert(out@ =~= exp_merge(cseq) + zero_exps(
                    out@.len() - exp_merge(cseq).len(),
                ));
            }
        }
        proof {
            assert(out@ =~= merge_exps(row@));
        }
        let mut moved = false;
        let mut k: usize = 0;
        while k < 4
            invariant
                out@.len() == 4,
                row@.len() == 4,
                k <= 4,
                moved == exists|x: int| 0 <= x < k && out@[x] != row@[x],
            decreases 4 - k,
        {
            if out[k] != row[k] {
                moved = true;
            }
            k += 1;
        }
        proof {
            if moved {
                assert(out@ != row@);
            } else {
                assert(out@ =~= row@);
            }
        }
        (out, moved)
    }

    /// The four exponents of line `l`, read in the scan order `d` needs:
    /// rows for horizontal moves, columns for vertical ones, reversed
    /// when merging towards the far edge.
    fn extract_line(&self, l: usize, horizontal: bool, reversed: bool) -> (r: Vec<u8>)
        requires
            l < 4,
        ensures
            r@.len() == 4,
            forall|c: int|
                0 <= c < 4 ==> (#[trigger] r@[c]) as u64 == nib(self.0, line_idx(
                    l as int,
                    if reversed {
                        3 - c
                    } else {
                        c
                    },
                    horizontal,
                ) as u64),
            forall|c: int| 0 <= c < 4 ==> (#[trigger] r@[c]) < 16,
    {
        let mut r: Vec<u8> = Vec::new();
        let i0: usize = if horizontal {
            4 * l
        } else {
            l
        };
        let step: usize = if horizontal {
            1
        } else {
            4
        };
        if reversed {
            r.push(Self::read_nib(self.0, i0 + 3 * step));
            r.push(Self::read_nib(self.0, i0 + 2 * step));
            r.push(Self::read_nib(self.0, i0 + step));
            r.push(Self::read_nib(self.0, i0));
        } else {
            r.push(Self::read_nib(self.0, i0));
            r.push(Self::read_nib(self.0, i0 + step));
            r.push(Self::read_nib(self.0, i0 + 2 * step));
            r.push(Self::read_nib(self.0, i0 + 3 * step));
        }
        r
    }

    /// One directional move over all four lines; shared by the four
    /// public move operations.
    fn move_lines(&self, horizontal: bool, reversed: bool) -> (r: (BitBoard, bool))
        requires
            all_nibs_small(self.0),
        ensures
            r.1 == (r.0.0 != self.0),
            forall|l: int, c: int|
                0 <= l < 4 && 0 <= c < 4 ==> #[trigger] cell_done(
                    r.0.0,
                    self.0,
                    l,
                    horizontal,
                    reversed,
                    c,
                ),
    {
        let mut result: u64 = 0;
        proof {
            assert forall|a: int, cc: int| 0 <= a < 4 && 0 <= cc < 4 implies #[trigger] cell_zero(
                0u64,
                a,
                horizontal,
                reversed,
                cc,
            ) by {
                let p = if reversed {
                    3 - cc
                } else {
                    cc
                };
                lemma_nib_zero(line_idx(a, p, horizontal) as u64);
            }
        }
        let mut l: usize = 0;
        while l < 4
            invariant
                all_nibs_small(self.0),
                l <= 4,
                forall|a: int, cc: int|
                    0 <= a < l && 0 <= cc < 4 ==> #[trigger] cell_done(
                        result,
                        self.0,
                        a,
                        horizontal,
                        reversed,
                        cc,
                    ),
                forall|a: int, cc: int|
                    l <= a < 4 && 0 <= cc < 4 ==> #[trigger] cell_zero(
                        result,
                        a,
                        horizontal,
                        reversed,
                        cc,
                    ),
            decreases 4 - l,
        {
            let line = self.extract_line(l, horizontal, reversed);
            proof {
                assert(line@ =~= line_exps(self.0, l as int, horizontal, reversed));
                lemma_merge_exps_props(line@, 14);
            }
            let merged = Self::merge_row_bits(&line);
            let m = merged.0;
            let mut c: usize = 0;
            while c < 4
                invariant
                    l < 4,
                    m@.len() == 4,
                    forall|k: int| 0 <= k < 4 ==> #[trigger] m@[k] <= 15,
                    m@ == merge_exps(line_exps(self.0, l as int, horizontal, reversed)),
                    c <= 4,
                    forall|a: int, cc: int|
                        0 <= a < l && 0 <= cc < 4 ==> #[trigger] cell_done(
                            result,
                            self.0,
                            a,
                            horizontal,
                            reversed,
                            cc,
                        ),
                    forall|cc: int|
                        0 <= cc < c ==> #[trigger] cell_done(
                            result,
                            self.0,
                            l as int,
                            horizontal,
                            reversed,
                            cc,
                        ),
                    forall|cc: int|
                        c <= cc < 4 ==> #[trigger] cell_zero(
                            result,
                            l as int,
                            horizontal,
                            reversed,
                            cc,
                        ),
                    forall|a: int, cc: int|
                        l < a < 4 && 0 <= cc < 4 ==> #[trigger] cell_zero(
                            result,
                            a,
                            horizontal,
                            reversed,
                            cc,
                        ),
                decreases 4 - c,
            {
                let target: usize = if reversed {
                    3 - c
                } else {
                    c
                };
                let idx: usize = if horizontal {
                    4 * l + target
                } else {
                    4 * target + l
                };
                let ghost before = result;
                let e = m[c];
                if e > 0 {
                    result = Self::with_nib(result, idx, e);
                }
                proof {
                    assert(idx as int == line_idx(l as int, target as int, horizontal));
                    if e == 0 {
                        assert(cell_zero(before, l as int, horizontal, reversed, c as int));
                    }
                    assert(nib(result, idx as u64) == (m@[c as int]) as u64);
                    assert forall|a: int, cc: int|
                        0 <= a < l && 0 <= cc < 4 implies #[trigger] cell_done(
                        result,
                        self.0,
                        a,
                        horizontal,
                        reversed,
                        cc,
                    ) by {
                        assert(cell_done(before, self.0, a, horizontal, reversed, cc));
                        assert(line_idx(
                            a,
                            if reversed {
                                3 - cc
                            } else {
                                cc
                            },
                            horizontal,
                        ) != idx as int);
                    }
                    assert forall|cc: int| 0 <= cc < c + 1 implies #[trigger] cell_done(
                        result,
                        self.0,
                        l as int,
                        horizontal,
                        reversed,
                        cc,
                    ) by {
                        if cc < c {
                            assert(cell_done(before, self.0, l as int, horizontal, reversed, cc));
                            assert(line_idx(
                                l as int,
                                if reversed {
                                    3 - cc
                                } else {
                                    cc
                                },
                                horizontal,
                            ) != idx as int);
                        }
                    }
                    assert forall|cc: int| c + 1 <= cc < 4 implies #[trigger] cell_zero(
                        result,
                        l as int,
                        horizontal,
                        reversed,
                        cc,
                    ) by {
                        assert(cell_zero(before, l as int, horizontal, reversed, cc));
                        assert(line_idx(
                            l as int,
                            if reversed {
                                3 - cc
                            } else {
                                cc
                            },
                            horizontal,
                        ) != idx as int);
                    }
                    assert forall|a: int, cc: int|
                        l < a < 4 && 0 <= cc < 4 implies #[trigger] cell_zero(
                        result,
                        a,
                        horizontal,
                        reversed,
                        cc,
                    ) by {
                        assert(cell_zero(before, a, horizontal, reversed, cc));
                        assert(line_idx(
                            a,
                            if reversed {
                                3 - cc
                            } else {
                                cc
                            },
                            horizontal,
                        ) != idx as int);
                    }
                }
                c += 1;
            }
            l += 1;
        }
        let rb = BitBoard(result);
        let moved = result != self.0;
        (rb, moved)
    }

    /// Push every row towards the left edge.
    pub fn move_left(&self) -> (r: (BitBoard, bool))
        requires
            all_nibs_small(self.0),
        ensures
            r.1 == (r.0.0 != self.0),
            forall|l: int, c: int|
                0 <= l < 4 && 0 <= c < 4 ==> #[trigger] cell_done(
                    r.0.0,
                    self.0,
                    l,
                    true,
                    false,
                    c,
                ),
    {
        self.move_lines(true, false)
    }

    /// Push every row towards the right edge.
    pub fn move_right(&self) -> (r: (BitBoard, bool))
        requires
            all_nibs_small(self.0),
        ensures
            r.1 == (r.0.0 != self.0),
            forall|l: int, c: int|
                0 <= l < 4 && 0 <= c < 4 ==> #[trigger] cell_done(
                    r.0.0,
                    self.0,
                    l,
                    true,
                    true,
                    c,
                ),
    {
        self.move_lines(true, true)
    }

    /// Push every column towards the top edge.
    pub fn move_up(&self) -> (r: (BitBoard, bool))
        requires
            all_nibs_small(self.0),
        ensures
            r.1 == (r.0.0 != self.0),
            forall|l: int, c: int|
                0 <= l < 4 && 0 <= c < 4 ==> #[trigger] cell_done(
                    r.0.0,
                    self.0,
                    l,
                    false,
                    false,
                    c,
                ),
    {
        self.move_lines(false, false)
    }

    /// Push every column towards the bottom edge.
    pub fn move_down(&self) -> (r: (BitBoard, bool))
        requires
            all_nibs_small(self.0),
        ensures
            r.1 == (r.0.0 != self.0),
            forall|l: int, c: int|
                0 <= l < 4 && 0 <= c < 4 ==> #[trigger] cell_done(
                    r.0.0,
                    self.0,
                    l,
                    false,
                    true,
                    c,
                ),
    {
        self.move_lines(false, true)
    }

    /// Spawn an exponent-1 tile (nine times in ten) or an exponent-2
    /// tile on a uniformly chosen empty cell; a full board is unchanged.
    pub fn add_random_tile(&mut self)
        ensures
            empty_nib_rec(old(self).0, 16) == 0 ==> final(self).0 == old(self).0,
            empty_nib_rec(old(self).0, 16) > 0 ==> exists|i: u64|
                i < 16 && nib(old(self).0, i) == 0 && (nib(final(self).0, i) == 1 || nib(
                    final(self).0,
                    i,
                ) == 2) && (forall|j: u64|
                    j < 16 && j != i ==> #[trigger] nib(final(self).0, j) == nib(old(self).0, j)),
    {
        let mut empties: Vec<usize> = Vec::new();
        let mut i: usize = 0;
        while i < 16
            invariant
                i <= 16,
                empties@.len() <= i,
                empties@.len() == empty_nib_rec(self.0, i as int),
                forall|k: int|
                    0 <= k < empties@.len() ==> (#[trigger] empties@[k]) < 16 && nib(
                        self.0,
                        empties@[k] as u64,
                    ) == 0,
            decreases 16 - i,
        {
            if Self::read_nib(self.0, i) == 0 {
                empties.push(i);
            }
            i += 1;
        }
        if empties.len() > 0 {
            let k = random_below(empties.len() as u32);
            let pos = empties[k as usize];
            let e: u8 = if random_below(10) < 9 {
                1
            } else {
                2
            };
            self.0 = Self::with_nib(self.0, pos, e);
        }
    }

    /// The whole board as tile values, row-major.
    pub fn to_array(&self) -> (r: Vec<u32>)
        ensures
            r@.len() == 16,
            forall|i: int| 0 <= i < 16 ==> #[trigger] r@[i] == tile_of(nib(self.0, i as u64)),
    {
        let mut r: Vec<u32> = Vec::new();
        let mut i: usize = 0;
        while i < 16
            invariant
                i <= 16,
                r@.len() == i,
                forall|k: int| 0 <= k < i ==> #[trigger] r@[k] == tile_of(nib(self.0, k as u64)),
            decreases 16 - i,
        {
            let row = i / 4;
            let col = i % 4;
            r.push(self.get_tile(row, col));
            i += 1;
        }
        r
    }
}

/// Empty cells among the first `i`.
pub open spec fn empty_nib_rec(b: u64, i: int) -> int
    decreases i,
{
    if i <= 0 {
        0
    } else {
        empty_nib_rec(b, i - 1) + (if nib(b, (i - 1) as u64) == 0 {
            1int
        } else {
            0int
        })
    }
}

/// The largest exponent among the first `i` cells.
pub open spec fn max_nib_rec(b: u64, i: int) -> u64
    decreases i,
{
    if i <= 0 {
        0
    } else {
        let m = max_nib_rec(b, i - 1);
        if nib(b, (i - 1) as u64) > m {
            nib(b, (i - 1) as u64)
        } else {
            m
        }
    }
}

/// Flat cell index of position `p` of line `l`: rows for horizontal
/// moves, columns for vertical ones.
pub open spec fn line_idx(l: int, p: int, horizontal: bool) -> int {
    if horizontal {
        4 * l + p
    } else {
        4 * p + l
    }
}

/// The exponents of line `l` in the scan order a move needs.
pub open spec fn line_exps(b: u64, l: int, horizontal: bool, reversed: bool) -> Seq<u8> {
    Seq::new(
        4,
        |c: int|
            (nib(
                b,
                line_idx(
                    l,
                    if reversed {
                        3 - c
                    } else {
                        c
                    },
                    horizontal,
                ) as u64,
            )) as u8,
    )
}

/// Cell `c` of line `l` in `result` holds what the merged line says.
pub open spec fn cell_done(
    result: u64,
    b: u64,
    l: int,
    horizontal: bool,
    reversed: bool,
    c: int,
) -> bool {
    nib(
        result,
        line_idx(
            l,
            if reversed {
                3 - c
            } else {
                c
            },
            horizontal,
        ) as u64,
    ) == (merge_exps(line_exps(b, l, horizontal, reversed))[c]) as u64
}

/// Cell `c` of line `l` in `result` is still unwritten.
pub open spec fn cell_zero(result: u64, l: int, horizontal: bool, reversed: bool, c: int) -> bool {
    nib(
        result,
        line_idx(
            l,
            if reversed {
                3 - c
            } else {
                c
            },
            horizontal,
        ) as u64,
    ) == 0
}

/// Every cell's exponent leaves room for one merge: at most 14.
pub open spec fn all_nibs_small(b: u64) -> bool {
    forall|i: u64| i < 16 ==> #[trigger] nib(b, i) <= 14
}

} // verus!
