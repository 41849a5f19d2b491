//! A two-player tic-tac-toe match with escrowed stakes: the board evaluator, the match
//! state machine and the settlement of the vault, each with its contract.

use vstd::prelude::*;

pub mod board;
pub mod game;
pub mod state;

pub use board::{check_winner, is_legal_move, EMPTY, MARK_ONE, MARK_TWO};
pub use game::{
    accept_game, create_game, play_game, settle_game, Game, Payout, PlayerKey, STAKE_AMOUNT,
};
pub use state::{GameError, GameState};

verus! {

/// Seconds without a move after which a match may be settled by timeout.
pub const DAY_IN_SECONDS: i64 = 86400;

} // verus!
