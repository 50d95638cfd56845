//! The transposition cache: a bounded map from position hash to the best
//! search result known for that position, with hit/miss/collision counts.
//!
//! An entry stores the score, the depth it was searched to, the node
//! classification and the best move.  A lookup is usable only when the
//! stored depth reaches the requested depth and the classification fits
//! the current alpha-beta window; a store never lets a shallower result
//! evict a deeper one at the same key.

use std::collections::HashMap;
use vstd::prelude::*;
use crate::moves::Direction;

verus! {

/// Entry ceiling: one past it the table is cleared wholesale.
pub const CACHE_CAPACITY: usize = 2_000_000;

/// How a cached score relates to the true value of the position: exact,
/// or only a bound produced by an alpha-beta cutoff.
#[derive(Debug, Clone, Copy, PartialEq, Eq, Structural)]
pub enum NodeType {
    Exact,
    LowerBound,
    UpperBound,
}

/// One cached search result.
#[derive(Debug, Clone, Copy)]
pub struct TranspositionEntry {
    pub score: i64,
    pub depth: u32,
    pub best_move: Option<Direction>,
    pub node_type: NodeType,
}

/// How a freshly computed score is classified against the window it was
/// searched in.
pub open spec fn classify(score: i64, alpha: i64, beta: i64) -> NodeType {
    if score <= alpha {
        NodeType::UpperBound
    } else if score >= beta {
        NodeType::LowerBound
    } else {
        NodeType::Exact
    }
}

/// When a stored entry answers a query at `depth` under the window
/// `(alpha, beta)`.
pub open spec fn usable(e: TranspositionEntry, depth: u32, alpha: i64, beta: i64) -> bool {
    e.depth >= depth && (e.node_type == NodeType::Exact || (e.node_type == NodeType::LowerBound
        && e.score >= beta) || (e.node_type == NodeType::UpperBound && e.score <= alpha))
}

/// What a lookup returns, as a function of the stored map.
pub open spec fn lookup_spec(
    m: Map<u64, TranspositionEntry>,
    hash: u64,
    depth: u32,
    alpha: i64,
    beta: i64,
) -> Option<i64> {
    if m.contains_key(hash) && usable(m[hash], depth, alpha, beta) {
        Some(m[hash].score)
    } else {
        None
    }
}

/// The map after a store: unchanged when a deeper entry already sits at
/// the key, else the entry is written, and the whole table is dropped
/// once it outgrows the capacity.
pub open spec fn store_spec(
    m: Map<u64, TranspositionEntry>,
    hash: u64,
    score: i64,
    depth: u32,
    alpha: i64,
    beta: i64,
    best_move: Option<Direction>,
) -> Map<u64, TranspositionEntry> {
    let e = TranspositionEntry {
        score,
        depth,
        best_move,
        node_type: classify(score, alpha, beta),
    };
    if m.contains_key(hash) && m[hash].depth > depth {
        m
    } else {
        let m2 = m.insert(hash, e);
        if m2.len() > CACHE_CAPACITY {
            Map::empty()
        } else {
            m2
        }
    }
}

/// A counter step that sticks at its ceiling instead of overflowing.
pub open spec fn sat_inc(n: u64) -> u64 {
    if n < u64::MAX {
        (n + 1) as u64
    } else {
        n
    }
}

/// Relies on `std::collections::HashMap::retain`: it keeps exactly the
/// pairs on which the predicate holds, here the entries searched at least
/// `min_depth` deep, and leaves their values unchanged.
#[verifier::external_body]
fn retain_at_least(m: &mut HashMap<u64, TranspositionEntry>, min_depth: u32)
    ensures
        forall|k: u64|
            #[trigger] final(m)@.contains_key(k) <==> (old(m)@.contains_key(k) && old(m)@[k].depth
                >= min_depth),
        forall|k: u64| #[trigger] final(m)@.contains_key(k) ==> final(m)@[k] == old(m)@[k],
{
    m.retain(|_, e| entry_deep_enough(e, min_depth))
}

/// Whether an entry was searched at least `min_depth` deep.
pub(crate) fn entry_deep_enough(e: &TranspositionEntry, min_depth: u32) -> (r: bool)
    ensures
        r == (e.depth >= min_depth),
{
    e.depth >= min_depth
}

/// The shared memoization table of the search, with its counters.
pub struct EnhancedTranspositionTable {
    table: HashMap<u64, TranspositionEntry>,
    hits: u64,
    misses: u64,
    collisions: u64,
}

impl EnhancedTranspositionTable {
    /// The stored entries, keyed by position hash.
    pub closed spec fn entries(self) -> Map<u64, TranspositionEntry> {
        self.table@
    }

    pub closed spec fn spec_hits(self) -> u64 {
        self.hits
    }

    pub closed spec fn spec_misses(self) -> u64 {
        self.misses
    }

    pub closed spec fn spec_collisions(self) -> u64 {
        self.collisions
    }

    /// An empty cache.
    pub fn new() -> (r: EnhancedTranspositionTable)
        ensures
            r.entries() == Map::<u64, TranspositionEntry>::empty(),
            r.spec_hits() == 0,
            r.spec_misses() == 0,
            r.spec_collisions() == 0,
    {
        EnhancedTranspositionTable { table: HashMap::new(), hits: 0, misses: 0, collisions: 0 }
    }

    /// Return the stored score exactly when an entry of sufficient depth
    /// sits at `hash` and its classification fits the window; count a hit
    /// whenever any entry sits there, else a miss.
    pub fn lookup(&mut self, hash: u64, depth: u32, alpha: i64, beta: i64) -> (r: Option<i64>)
        ensures
            r == lookup_spec(old(self).entries(), hash, depth, alpha, beta),
            final(self).entries() == old(self).entries(),
            final(self).spec_collisions() == old(self).spec_collisions(),
            old(self).entries().contains_key(hash) ==> final(self).spec_hits() == sat_inc(
                old(self).spec_hits(),
            ) && final(self).spec_misses() == old(self).spec_misses(),
            !old(self).entries().contains_key(hash) ==> final(self).spec_misses() == sat_inc(
                old(self).spec_misses(),
            ) && final(self).spec_hits() == old(self).spec_hits(),
    {
        let found = self.table.get(&hash);
        match found {
            Some(entry) => {
                let e = *entry;
                if self.hits < u64::MAX {
                    self.hits = self.hits + 1;
                }
                if e.depth >= depth {
                    if e.node_type == NodeType::Exact {
                        return Some(e.score);
                    }
                    if e.node_type == NodeType::LowerBound && e.score >= beta {
                        return Some(e.score);
                    }
                    if e.node_type == NodeType::UpperBound && e.score <= alpha {
                        return Some(e.score);
                    }
                }
                None
            },
            None => {
                if self.misses < u64::MAX {
                    self.misses = self.misses + 1;
                }
                None
            },
        }
    }

    /// Write a fresh result, classified against the window it was
    /// searched in; a deeper entry already at the key only counts a
    /// collision, and outgrowing the capacity clears the cache.
    pub fn store(
        &mut self,
        hash: u64,
        score: i64,
        depth: u32,
        alpha: i64,
        beta: i64,
        best_move: Option<Direction>,
    )
        ensures
            final(self).entries() == store_spec(
                old(self).entries(),
                hash,
                score,
                depth,
                alpha,
                beta,
                best_move,
            ),
            final(self).spec_hits() == old(self).spec_hits() || (final(self).spec_hits() == 0
                && final(self).entries() == Map::<u64, TranspositionEntry>::empty()),
            final(self).spec_misses() == old(self).spec_misses() || (final(self).spec_misses() == 0
                && final(self).entries() == Map::<u64, TranspositionEntry>::empty()),
            old(self).entries().contains_key(hash) && old(self).entries()[hash].depth > depth
                ==> final(self).spec_collisions() == sat_inc(old(self).spec_collisions()),
            !(old(self).entries().contains_key(hash) && old(self).entries()[hash].depth > depth)
                ==> final(self).spec_collisions() <= old(self).spec_collisions(),
    {
        let node_type = if score <= alpha {
            NodeType::UpperBound
        } else if score >= beta {
            NodeType::LowerBound
        } else {
            NodeType::Exact
        };
        let entry = TranspositionEntry { score, depth, best_move, node_type };
        let existing = self.table.get(&hash);
        match existing {
            Some(e) => {
                if e.depth > depth {
                    if self.collisions < u64::MAX {
                        self.collisions = self.collisions + 1;
                    }
                    return ;
                }
            },
            None => {},
        }
        self.table.insert(hash, entry);
        if self.table.len() > CACHE_CAPACITY {
            self.clear_cache();
        }
    }

    /// The best move stored for a position, if any entry carries one.
    pub fn get_best_move(&self, hash: u64) -> (r: Option<Direction>)
        ensures
            r == if self.entries().contains_key(hash) {
                self.entries()[hash].best_move
            } else {
                None::<Direction>
            },
    {
        match self.table.get(&hash) {
            Some(entry) => entry.best_move,
            None => None,
        }
    }

    /// Drop every entry and reset all counters.
    pub fn clear_cache(&mut self)
        ensures
            final(self).entries() == Map::<u64, TranspositionEntry>::empty(),
            final(self).spec_hits() == 0,
            final(self).spec_misses() == 0,
            final(self).spec_collisions() == 0,
    {
        self.table.clear();
        self.hits = 0;
        self.misses = 0;
        self.collisions = 0;
    }

    /// `(hits, misses, collisions, size)`.
    pub fn get_cache_stats(&self) -> (r: (u64, u64, u64, usize))
        ensures
            r.0 == self.spec_hits(),
            r.1 == self.spec_misses(),
            r.2 == self.spec_collisions(),
            r.3 == self.entries().len(),
    {
        (self.hits, self.misses, self.collisions, self.table.len())
    }

    /// Drop exactly the entries searched shallower than `min_depth`.
    pub fn selective_clear(&mut self, min_depth: u32)
        ensures
            forall|k: u64|
                #[trigger] final(self).entries().contains_key(k) <==> (old(
                    self,
                ).entries().contains_key(k) && old(self).entries()[k].depth >= min_depth),
            forall|k: u64|
                #[trigger] final(self).entries().contains_key(k) ==> final(self).entries()[k]
                    == old(self).entries()[k],
            final(self).spec_hits() == old(self).spec_hits(),
            final(self).spec_misses() == old(self).spec_misses(),
            final(self).spec_collisions() == old(self).spec_collisions(),
    {
        retain_at_least(&mut self.table, min_depth);
    }
}

/// `(hits, misses, size)` of the shared cache.
pub fn get_cache_stats(cache: &EnhancedTranspositionTable) -> (r: (u64, u64, usize))
    ensures
        r.0 == cache.spec_hits(),
        r.1 == cache.spec_misses(),
        r.2 == cache.entries().len(),
{
    let s = cache.get_cache_stats();
    (s.0, s.1, s.3)
}

/// Empty the shared cache and reset its counters.
pub fn clear_cache(cache: &mut EnhancedTranspositionTable)
    ensures
        final(cache).entries() == Map::<u64, TranspositionEntry>::empty(),
        final(cache).spec_hits() == 0,
        final(cache).spec_misses() == 0,
        final(cache).spec_collisions() == 0,
{
    cache.clear_cache();
}

/// Storing a score strictly inside its window and looking it up at the
/// same depth and window returns exactly that score, as long as the cache
/// has room left.
pub proof fn lemma_cache_round_trip(
    m: Map<u64, TranspositionEntry>,
    hash: u64,
    score: i64,
    depth: u32,
    alpha: i64,
    beta: i64,
    best_move: Option<Direction>,
)
    requires
        alpha < score < beta,
        !(m.contains_key(hash) && m[hash].depth > depth),
        m.dom().finite(),
        m.len() < CACHE_CAPACITY,
    ensures
        lookup_spec(
            store_spec(m, hash, score, depth, alpha, beta, best_move),
            hash,
            depth,
            alpha,
            beta,
        ) == Some(score),
{
    let m2 = m.insert(hash, TranspositionEntry {
        score,
        depth,
        best_move,
        node_type: classify(score, alpha, beta),
    });
    vstd::set_lib::lemma_len_union::<u64>(m.dom(), set![hash]);
    assert(m2.dom() =~= m.dom() + set![hash]);
    assert(m2.len() <= m.len() + 1);
}

/// A store at a key that already holds a deeper result leaves the cache
/// unchanged: deeper results are never evicted by shallower ones.
pub proof fn lemma_store_keeps_deeper(
    m: Map<u64, TranspositionEntry>,
    hash: u64,
    score: i64,
    depth: u32,
    alpha: i64,
    beta: i64,
    best_move: Option<Direction>,
)
    requires
        m.contains_key(hash),
        m[hash].depth > depth,
    ensures
        store_spec(m, hash, score, depth, alpha, beta, best_move) == m,
{
}

} // verus!
