use vstd::prelude::*;

verus! {

/// Where a match stands. Exactly one value holds at a time, and it alone decides which
/// actions are legal.
#[derive(Clone, Copy, Debug, PartialEq, Eq, Structural)]
pub enum GameState {
    Pending,
    PlayerOneTurn,
    PlayerTwoTurn,
    PlayerOneWon,
    PlayerTwoWon,
    Draw,
    PlayerOneClaimed,
    PlayerTwoClaimed,
    DrawClaimed,
}

/// Why an action was rejected. A rejected action changes nothing.
#[derive(Clone, Copy, Debug, PartialEq, Eq, Structural)]
pub enum GameError {
    AlreadyStarted,
    CannotPlayAgainstYourself,
    IllegalMove,
    GameNotPlayable,
    NotYourTurn,
    Timeout,
    GameNotResolvable,
    NotYourSettlment,
    TimeNotPassed,
}

/// The message that goes with each error.
pub open spec fn error_message(e: GameError) -> &'static str {
    match e {
        GameError::AlreadyStarted => "The game has already started",
        GameError::CannotPlayAgainstYourself => "You cannot play against yourself",
        GameError::IllegalMove => "This move is Illegal",
        GameError::GameNotPlayable => "Game has already finished or not started yet",
        GameError::NotYourTurn => "It's not your turn",
        GameError::Timeout => "Timeout",
        GameError::GameNotResolvable => "Game is not resolvable yet",
        GameError::NotYourSettlment => "It's not your settlement",
        GameError::TimeNotPassed => "Time has not passed yet",
    }
}

impl GameError {
    /// The message that goes with the error.
    pub fn message(&self) -> (r: &'static str)
        ensures
            r == error_message(*self),
    {
        match self {
            GameError::AlreadyStarted => "The game has already started",
            GameError::CannotPlayAgainstYourself => "You cannot play against yourself",
            GameError::IllegalMove => "This move is Illegal",
            GameError::GameNotPlayable => "Game has already finished or not started yet",
            GameError::NotYourTurn => "It's not your turn",
            GameError::Timeout => "Timeout",
            GameError::GameNotResolvable => "Game is not resolvable yet",
            GameError::NotYourSettlment => "It's not your settlement",
            GameError::TimeNotPassed => "Time has not passed yet",
        }
    }
}

} // verus!
