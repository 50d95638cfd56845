//! Position hashing.
//!
//! Two hashes live here.  `board_hash` is a cheap rotate-and-xor fold over
//! the occupied cells, usable on any grid.  The table-driven hash keys a
//! 64-bit constant for every `(cell, value class)` pair, the value class
//! being 0 for an empty cell and the base-2 logarithm of the tile
//! otherwise; the table is derived from a fixed seed by a verified
//! splitmix step, so the same grid hashes identically in every process.

use vstd::prelude::*;
use crate::board::GameBoard;

verus! {

/// Seed from which the whole key table is derived.
pub const ZOBRIST_SEED: u64 = 0x2048_2048;

/// The odd increment of the splitmix state walk.
pub const SPLITMIX_GAMMA: u64 = 0x9E3779B97F4A7C15;

/// Rotate a 64-bit value left by seven bits.
pub open spec fn rotl7(h: u64) -> u64 {
    (h << 7) | (h >> 57)
}

/// Fold one cell into the running rotate-and-xor hash; empty cells are
/// skipped.
pub open spec fn mix_cell(h: u64, i: int, v: u32) -> u64 {
    if v == 0 {
        h
    } else {
        rotl7(h ^ ((((vstd::std_specs::bits::u32_trailing_zeros(v)) as u64) << 4) | (i as u64)))
    }
}

/// The rotate-and-xor hash of the first `i` cells.
pub open spec fn fold_hash(g: Seq<u32>, i: int) -> u64
    decreases i,
{
    if i <= 0 {
        0
    } else {
        mix_cell(fold_hash(g, i - 1), i - 1, g[i - 1])
    }
}

/// The rotate-and-xor hash of a whole grid.
pub open spec fn board_hash_spec(g: Seq<u32>) -> u64 {
    fold_hash(g, 16)
}

/// Cheap 64-bit hash of a grid: xor the value class and position of each
/// occupied cell into an accumulator rotated between cells.
pub fn board_hash(grid: &Vec<u32>) -> (h: u64)
    requires
        grid@.len() == 16,
    ensures
        h == board_hash_spec(grid@),
{
    let mut h: u64 = 0;
    let mut i: usize = 0;
    while i < 16
        invariant
            grid@.len() == 16,
            i <= 16,
            h == fold_hash(grid@, i as int),
        decreases 16 - i,
    {
        let v = grid[i];
        if v != 0 {
            let log_value = v.trailing_zeros() as u64;
            let position = i as u64;
            h = h ^ ((log_value << 4) | position);
            h = (h << 7) | (h >> 57);
        }
        i += 1;
    }
    h
}

/// One splitmix output scramble.
pub open spec fn splitmix_mix(z: u64) -> u64 {
    let a = vstd::wrapping::u64_specs::wrapping_mul(z ^ (z >> 30), 0xBF58476D1CE4E5B9);
    let b = vstd::wrapping::u64_specs::wrapping_mul(a ^ (a >> 27), 0x94D049BB133111EB);
    b ^ (b >> 31)
}

/// The splitmix state after `n` increments from `seed`.
pub open spec fn splitmix_state(seed: u64, n: int) -> u64
    decreases n,
{
    if n <= 0 {
        seed
    } else {
        vstd::wrapping::u64_specs::wrapping_add(splitmix_state(seed, n - 1), SPLITMIX_GAMMA)
    }
}

/// The `i`-th key of the fixed table.
pub open spec fn zobrist_key(i: int) -> u64 {
    splitmix_mix(splitmix_state(ZOBRIST_SEED, i + 1))
}

fn splitmix_mix_exec(z: u64) -> (r: u64)
    ensures
        r == splitmix_mix(z),
{
    let a = (z ^ (z >> 30)).wrapping_mul(0xBF58476D1CE4E5B9);
    let b = (a ^ (a >> 27)).wrapping_mul(0x94D049BB133111EB);
    b ^ (b >> 31)
}

/// The fixed table of hashing constants: 16 cells times 32 value classes,
/// always derived from the one seed.
pub struct ZobristTable {
    pub keys: Vec<u64>,
}

impl ZobristTable {
    pub open spec fn wf(self) -> bool {
        &&& self.keys@.len() == 512
        &&& forall|i: int| 0 <= i < 512 ==> self.keys@[i] == zobrist_key(i)
    }

    /// Generate the table from the fixed seed.
    pub fn new() -> (r: ZobristTable)
        ensures
            r.wf(),
    {
        let mut keys: Vec<u64> = Vec::new();
        let mut state: u64 = ZOBRIST_SEED;
        let mut i: usize = 0;
        while i < 512
            invariant
                i <= 512,
                keys@.len() == i,
                state == splitmix_state(ZOBRIST_SEED, i as int),
                forall|j: int| 0 <= j < i ==> keys@[j] == zobrist_key(j),
            decreases 512 - i,
        {
            state = state.wrapping_add(SPLITMIX_GAMMA);
            let k = splitmix_mix_exec(state);
            keys.push(k);
            i += 1;
        }
        ZobristTable { keys }
    }
}

/// The class a cell is keyed under: 0 when empty, else the position of
/// its lowest set bit, which for a power-of-two tile is its logarithm.
pub open spec fn value_class(v: u32) -> int {
    if v == 0 {
        0
    } else {
        vstd::std_specs::bits::u32_trailing_zeros(v) as int
    }
}

/// The table-driven hash of the first `i` cells.
pub open spec fn zfold(g: Seq<u32>, keys: Seq<u64>, i: int) -> u64
    decreases i,
{
    if i <= 0 {
        0
    } else {
        zfold(g, keys, i - 1) ^ keys[32 * (i - 1) + value_class(g[i - 1])]
    }
}

/// The table-driven position hash of a whole grid.
pub open spec fn zobrist_hash_spec(g: Seq<u32>, keys: Seq<u64>) -> u64 {
    zfold(g, keys, 16)
}

impl GameBoard {
    /// The position hash the transposition cache is keyed by.
    pub fn board_hash(&self, table: &ZobristTable) -> (h: u64)
        requires
            self.grid@.len() == 16,
            table.wf(),
        ensures
            h == zobrist_hash_spec(self.grid@, table.keys@),
    {
        let mut h: u64 = 0;
        let mut i: usize = 0;
        while i < 16
            invariant
                self.grid@.len() == 16,
                table.wf(),
                i <= 16,
                h == zfold(self.grid@, table.keys@, i as int),
            decreases 16 - i,
        {
            let v = self.grid[i];
            let class: usize = if v == 0 {
                0
            } else {
                proof {
                    vstd::std_specs::bits::axiom_u32_trailing_zeros(v);
                }
                v.trailing_zeros() as usize
            };
            proof {
                vstd::std_specs::bits::axiom_u32_trailing_zeros(v);
                assert(class < 32);
            }
            h = h ^ table.keys[32 * i + class];
            i += 1;
        }
        h
    }
}

/// Hashing is a pure function of the grid: two boards whose grids are
/// equal hash identically, whichever well-formed tables are consulted.
pub proof fn lemma_hash_pure(g1: Seq<u32>, g2: Seq<u32>, t1: ZobristTable, t2: ZobristTable)
    requires
        g1 == g2,
        t1.wf(),
        t2.wf(),
    ensures
        zobrist_hash_spec(g1, t1.keys@) == zobrist_hash_spec(g2, t2.keys@),
        board_hash_spec(g1) == board_hash_spec(g2),
{
    assert forall|i: int| 0 <= i < 512 implies t1.keys@[i] == t2.keys@[i] by {
        assert(t1.keys@[i] == zobrist_key(i));
        assert(t2.keys@[i] == zobrist_key(i));
    }
    assert(t1.keys@ =~= t2.keys@);
}

} // verus!
