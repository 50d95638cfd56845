//! The four directions a move can take.

use vstd::prelude::*;

verus! {

/// A direction in which the tiles can be pushed.
#[derive(Debug, Clone, Copy, PartialEq, Eq, Hash, Structural)]
pub enum Direction {
    Up,
    Down,
    Left,
    Right,
}

impl Direction {
    /// The four directions, in the fixed iteration order used everywhere.
    pub fn all() -> (r: Vec<Direction>)
        ensures
            r@ == all_directions(),
    {
        let mut v: Vec<Direction> = Vec::new();
        v.push(Direction::Up);
        v.push(Direction::Down);
        v.push(Direction::Left);
        v.push(Direction::Right);
        proof {
            assert(v@ =~= all_directions());
        }
        v
    }
}

/// The fixed enumeration order of the four directions.
pub open spec fn all_directions() -> Seq<Direction> {
    seq![Direction::Up, Direction::Down, Direction::Left, Direction::Right]
}

/// The fixed enumeration names each direction once.
pub proof fn lemma_all_directions_distinct()
    ensures
        forall|a: int, b: int|
            0 <= a < b < 4 ==> #[trigger] all_directions()[a] != #[trigger] all_directions()[b],
{
    assert forall|a: int, b: int|
        0 <= a < b < 4 implies #[trigger] all_directions()[a] != #[trigger] all_directions()[b] by {
        assert(all_directions()[0] == Direction::Up);
        assert(all_directions()[1] == Direction::Down);
        assert(all_directions()[2] == Direction::Left);
        assert(all_directions()[3] == Direction::Right);
    }
}

/// Every direction occurs in the fixed enumeration.
pub proof fn lemma_all_directions_complete(d: Direction)
    ensures
        all_directions().contains(d),
{
    match d {
        Direction::Up => assert(all_directions()[0] == d),
        Direction::Down => assert(all_directions()[1] == d),
        Direction::Left => assert(all_directions()[2] == d),
        Direction::Right => assert(all_directions()[3] == d),
    }
}

} // verus!
