//! The plain values the request boundary exchanges with the engine: a
//! four-field snapshot of a game, and the shape of a move request.  The
//! boundary itself — transport, serialization, name validation — lives
//! outside the library and hands plain values in and out.

use vstd::prelude::*;
use crate::board::grid_sum;
use crate::board::max_cell;
use crate::board::terminal_spec;
use crate::board::GameBoard;

verus! {

/// What a caller is shown after starting a game or applying a move.
#[derive(Debug, Clone)]
pub struct GameState {
    pub board: Vec<u32>,
    pub score: u32,
    pub max_tile: u32,
    pub game_over: bool,
}

/// A requested move, by direction name; the boundary maps recognized
/// names one-to-one onto directions and rejects the rest.
#[derive(Debug, Clone)]
pub struct MoveRequest {
    pub direction: String,
}

impl GameState {
    /// The four-field snapshot of a board.
    pub fn from_board(b: &GameBoard) -> (r: GameState)
        requires
            b.wf(),
            grid_sum(b.grid@) <= u32::MAX,
        ensures
            r.board@ == b.grid@,
            r.score == grid_sum(b.grid@),
            r.max_tile == max_cell(b.grid@),
            r.game_over == terminal_spec(b.grid@),
    {
        GameState {
            board: b.get_board(),
            score: b.get_score(),
            max_tile: b.get_max_tile(),
            game_over: b.is_game_over(),
        }
    }
}

} // verus!
