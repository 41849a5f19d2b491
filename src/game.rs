use vstd::prelude::*;
use crate::board::{
    check_winner, count, is_legal_move, legal_move, lemma_count_absent, lemma_count_update,
    lemma_no_line_from, outcome, EMPTY, MARK_ONE, MARK_TWO,
};
use crate::state::{GameError, GameState};
use crate::DAY_IN_SECONDS;

verus! {

/// Stake that each player puts into the vault: one unit of the native currency.
pub const STAKE_AMOUNT: u64 = 1000000000;

/// Authenticated public identity of a participant.
#[derive(Clone, Copy, Debug)]
pub struct PlayerKey {
    pub bytes: [u8; 32],
}

impl PlayerKey {
    pub fn new(bytes: [u8; 32]) -> (r: PlayerKey)
        ensures
            r.bytes == bytes,
    {
        PlayerKey { bytes }
    }

    /// Tells whether two identities are the same.
    pub fn same(&self, other: &PlayerKey) -> (r: bool)
        ensures
            r == (*self == *other),
    {
        let mut i: usize = 0;
        while i < 32
            invariant
                i <= 32,
                forall|j: int| 0 <= j < i ==> self.bytes[j] == other.bytes[j],
            decreases 32 - i,
        {
            if self.bytes[i] != other.bytes[i] {
                return false;
            }
            i += 1;
        }
        assert(self.bytes =~= other.bytes);
        true
    }
}

/// A match: its state, its board and its two players.
#[derive(Clone, Copy, Debug)]
pub struct Game {
    pub state: GameState,
    pub board: [u8; 9],
    pub player_one: PlayerKey,
    pub player_two: Option<PlayerKey>,
    pub last_update: i64,
    pub bump: u8,
    pub vault_bump: u8,
}

/// A transfer out of the match's vault, and whether the match record is then closed.
#[derive(Clone, Copy, Debug)]
pub struct Payout {
    pub recipient: PlayerKey,
    pub amount: u64,
    pub close: bool,
}

/// The state is one in which a player is to move.
pub open spec fn is_turn(s: GameState) -> bool {
    s is PlayerOneTurn || s is PlayerTwoTurn
}

/// The mark of the player whose turn it is.
pub open spec fn mark_of(s: GameState) -> u8 {
    if s is PlayerOneTurn {
        MARK_ONE
    } else {
        MARK_TWO
    }
}

/// The state after a move on a board with no result yet: the other player's turn.
pub open spec fn other_turn(s: GameState) -> GameState {
    if s is PlayerOneTurn {
        GameState::PlayerTwoTurn
    } else {
        GameState::PlayerOneTurn
    }
}

/// `k` is the joined player.
pub open spec fn is_player_two(g: Game, k: PlayerKey) -> bool {
    g.player_two == Some(k)
}

/// `k` is one of the two players.
pub open spec fn is_player(g: Game, k: PlayerKey) -> bool {
    k == g.player_one || is_player_two(g, k)
}

/// A full day has passed since the last update, so no move is taken any more.
pub open spec fn move_expired(last_update: i64, now: i64) -> bool {
    now >= last_update + DAY_IN_SECONDS
}

/// More than a full day has passed since the last update, so the silent player forfeits.
pub open spec fn settle_deadline_passed(last_update: i64, now: i64) -> bool {
    now > last_update + DAY_IN_SECONDS
}

impl Game {
    /// The invariant of every match that the operations reach.
    pub open spec fn wf(self) -> bool {
        let b = self.board@;
        &&& (self.state is Pending) == (self.player_two is None)
        &&& self.player_two != Some(self.player_one)
        &&& forall|i: int| 0 <= i < 9 ==> self.board[i] <= MARK_TWO
        &&& count(b, MARK_ONE) <= count(b, MARK_TWO) <= count(b, MARK_ONE) + 1
        &&& self.state is Pending ==> forall|i: int| 0 <= i < 9 ==> self.board[i] == EMPTY
        &&& self.state is PlayerOneTurn ==> count(b, MARK_TWO) == count(b, MARK_ONE) + 1
            && outcome(b) is None
        &&& self.state is PlayerTwoTurn ==> count(b, MARK_ONE) == count(b, MARK_TWO) && outcome(
            b,
        ) is None
    }
}

/// The caller is the player whose turn it is.
pub open spec fn is_mover(g: Game, caller: PlayerKey) -> bool {
    if g.state is PlayerOneTurn {
        caller == g.player_one
    } else if g.state is PlayerTwoTurn {
        is_player_two(g, caller)
    } else {
        false
    }
}

/// The verdict on a request to join a match with a first move.
pub open spec fn accept_verdict(g: Game, caller: PlayerKey, board: Seq<u8>) -> Result<
    (),
    GameError,
> {
    if !(g.state is Pending) {
        Err(GameError::AlreadyStarted)
    } else if caller == g.player_one {
        Err(GameError::CannotPlayAgainstYourself)
    } else if !legal_move(g.board@, board, MARK_TWO) {
        Err(GameError::IllegalMove)
    } else {
        Ok(())
    }
}

/// The verdict on a request to move.
pub open spec fn play_verdict(g: Game, caller: PlayerKey, board: Seq<u8>, now: i64) -> Result<
    (),
    GameError,
> {
    if !is_turn(g.state) {
        Err(GameError::GameNotPlayable)
    } else if move_expired(g.last_update, now) {
        Err(GameError::Timeout)
    } else if !is_mover(g, caller) {
        Err(GameError::NotYourTurn)
    } else if !legal_move(g.board@, board, mark_of(g.state)) {
        Err(GameError::IllegalMove)
    } else {
        Ok(())
    }
}

/// The state after an accepted move to `board`.
pub open spec fn state_after_move(s: GameState, board: Seq<u8>) -> GameState {
    match outcome(board) {
        Some(r) => r,
        None => other_turn(s),
    }
}

/// The verdict on a request to settle.
pub open spec fn settle_verdict(g: Game, caller: PlayerKey, now: i64) -> Result<(), GameError> {
    match g.state {
        GameState::Pending => if caller == g.player_one {
            Ok(())
        } else {
            Err(GameError::NotYourSettlment)
        },
        GameState::PlayerOneTurn => if !settle_deadline_passed(g.last_update, now) {
            Err(GameError::TimeNotPassed)
        } else if !is_player_two(g, caller) {
            Err(GameError::NotYourSettlment)
        } else {
            Ok(())
        },
        GameState::PlayerTwoTurn => if !settle_deadline_passed(g.last_update, now) {
            Err(GameError::TimeNotPassed)
        } else if caller != g.player_one {
            Err(GameError::NotYourSettlment)
        } else {
            Ok(())
        },
        GameState::Draw => if is_player(g, caller) {
            Ok(())
        } else {
            Err(GameError::NotYourSettlment)
        },
        GameState::PlayerOneClaimed => if is_player_two(g, caller) {
            Ok(())
        } else {
            Err(GameError::NotYourSettlment)
        },
        GameState::PlayerTwoClaimed => if caller == g.player_one {
            Ok(())
        } else {
            Err(GameError::NotYourSettlment)
        },
        _ => Err(GameError::GameNotResolvable),
    }
}

/// The state after an accepted settlement by `caller`.
pub open spec fn state_after_settle(g: Game, caller: PlayerKey) -> GameState {
    match g.state {
        GameState::Draw => if caller == g.player_one {
            GameState::PlayerOneClaimed
        } else {
            GameState::PlayerTwoClaimed
        },
        GameState::PlayerOneClaimed | GameState::PlayerTwoClaimed => GameState::DrawClaimed,
        s => s,
    }
}

/// What an accepted settlement pays out of a vault holding `vault`: half of it, rounded
/// down, for the first claim on a draw; all of it otherwise.
pub open spec fn settle_amount(s: GameState, vault: u64) -> u64 {
    if s is Draw {
        (vault / 2) as u64
    } else {
        vault
    }
}

/// Opens a match for `player`, who stakes `STAKE_AMOUNT` into the vault.
pub fn create_game(player: PlayerKey, now: i64, bump: u8, vault_bump: u8) -> (g: Game)
    ensures
        g.state == GameState::Pending,
        forall|i: int| 0 <= i < 9 ==> g.board[i] == EMPTY,
        g.player_one == player,
        g.player_two is None,
        g.last_update == now,
        g.bump == bump,
        g.vault_bump == vault_bump,
        g.wf(),
{
    let g = Game {
        state: GameState::Pending,
        board: [EMPTY; 9],
        player_one: player,
        player_two: None,
        last_update: now,
        bump,
        vault_bump,
    };
    proof {
        lemma_count_absent(g.board@, MARK_ONE);
        lemma_count_absent(g.board@, MARK_TWO);
    }
    g
}

/// The match after `caller` joined it with the first move `board`.
pub open spec fn accepted(g: Game, caller: PlayerKey, board: [u8; 9], now: i64) -> Game {
    Game {
        state: GameState::PlayerOneTurn,
        board,
        player_one: g.player_one,
        player_two: Some(caller),
        last_update: now,
        bump: g.bump,
        vault_bump: g.vault_bump,
    }
}

/// The match after an accepted move to `board`.
pub open spec fn moved(g: Game, board: [u8; 9], now: i64) -> Game {
    Game {
        state: state_after_move(g.state, board@),
        board,
        player_one: g.player_one,
        player_two: g.player_two,
        last_update: now,
        bump: g.bump,
        vault_bump: g.vault_bump,
    }
}

/// What an accepted move pays: on a decisive win the whole vault goes to the mover and
/// the match closes; otherwise nothing moves.
pub open spec fn move_payout(g: Game, caller: PlayerKey, board: Seq<u8>, vault: u64) -> Option<
    Payout,
> {
    match outcome(board) {
        Some(GameState::PlayerOneWon) | Some(GameState::PlayerTwoWon) => Some(
            Payout { recipient: caller, amount: vault, close: true },
        ),
        _ => None,
    }
}

/// The match after an accepted settlement by `caller`.
pub open spec fn settled(g: Game, caller: PlayerKey) -> Game {
    Game { state: state_after_settle(g, caller), ..g }
}

/// What an accepted settlement by `caller` pays out of a vault holding `vault`.
pub open spec fn settle_payout(g: Game, caller: PlayerKey, vault: u64) -> Payout {
    Payout { recipient: caller, amount: settle_amount(g.state, vault), close: !(g.state is Draw) }
}

/// The caller is the joined player.
fn is_second(g: &Game, caller: &PlayerKey) -> (r: bool)
    ensures
        r == is_player_two(*g, *caller),
{
    match &g.player_two {
        Some(p) => caller.same(p),
        None => false,
    }
}

/// A board that is empty but for cell `c` has no complete line and is not full: it is
/// still in play.
proof fn lemma_single_mark_in_play(b: Seq<u8>, c: int)
    requires
        b.len() == 9,
        0 <= c < 9,
        forall|i: int| 0 <= i < 9 && i != c ==> b[i] == EMPTY,
    ensures
        outcome(b) is None,
{
    assert(!crate::board::line_complete(b, 0));
    assert(!crate::board::line_complete(b, 1));
    assert(!crate::board::line_complete(b, 2));
    assert(!crate::board::line_complete(b, 3));
    assert(!crate::board::line_complete(b, 4));
    assert(!crate::board::line_complete(b, 5));
    assert(!crate::board::line_complete(b, 6));
    assert(!crate::board::line_complete(b, 7));
    lemma_no_line_from(b, 0);
    if c == 0 {
        assert(b[1] == EMPTY);
    } else {
        assert(b[0] == EMPTY);
    }
}

/// Joins a pending match as its second player, with the match's first move. The joiner
/// stakes `STAKE_AMOUNT` into the vault when this succeeds; player one moves next.
pub fn accept_game(game: &mut Game, caller: PlayerKey, board: [u8; 9], now: i64) -> (r: Result<
    (),
    GameError,
>)
    ensures
        r == accept_verdict(*old(game), caller, board@),
        r is Ok ==> *final(game) == accepted(*old(game), caller, board, now),
        r is Err ==> *final(game) == *old(game),
        old(game).wf() ==> final(game).wf(),
{
    match game.state {
        GameState::Pending => {},
        _ => return Err(GameError::AlreadyStarted),
    }
    if caller.same(&game.player_one) {
        return Err(GameError::CannotPlayAgainstYourself);
    }
    if !is_legal_move(&game.board, &board, MARK_TWO) {
        return Err(GameError::IllegalMove);
    }
    proof {
        if old(game).wf() {
            let b0 = old(game).board@;
            let c = choose|c: int| 0 <= c < 9 && b0[c] == EMPTY && board@ == b0.update(c, MARK_TWO);
            lemma_count_absent(b0, MARK_ONE);
            lemma_count_absent(b0, MARK_TWO);
            lemma_count_update(b0, c, MARK_TWO, MARK_ONE);
            lemma_count_update(b0, c, MARK_TWO, MARK_TWO);
            lemma_single_mark_in_play(board@, c);
        }
    }
    game.state = GameState::PlayerOneTurn;
    game.board = board;
    game.player_two = Some(caller);
    game.last_update = now;
    Ok(())
}

/// Makes the move `board` for `caller` on a match in play. When the move completes a line
/// the whole vault, which holds `vault`, is paid to the mover and the match closes; when
/// it fills the board the match becomes a draw and waits for both claims.
pub fn play_game(game: &mut Game, caller: PlayerKey, board: [u8; 9], now: i64, vault: u64) -> (r:
    Result<Option<Payout>, GameError>)
    ensures
        r matches Err(e) ==> play_verdict(*old(game), caller, board@, now) == Err::<(), GameError>(
            e,
        ) && *final(game) == *old(game),
        r matches Ok(p) ==> play_verdict(*old(game), caller, board@, now) is Ok && p
            == move_payout(*old(game), caller, board@, vault) && *final(game) == moved(
            *old(game),
            board,
            now,
        ),
        play_verdict(*old(game), caller, board@, now) is Ok ==> r is Ok,
        r is Ok ==> legal_move(old(game).board@, final(game).board@, mark_of(old(game).state)),
        old(game).wf() ==> final(game).wf(),
{
    match game.state {
        GameState::PlayerOneTurn | GameState::PlayerTwoTurn => {},
        _ => return Err(GameError::GameNotPlayable),
    }
    if now as i128 >= game.last_update as i128 + DAY_IN_SECONDS as i128 {
        return Err(GameError::Timeout);
    }
    let mark: u8;
    match game.state {
        GameState::PlayerOneTurn => {
            if !caller.same(&game.player_one) {
                return Err(GameError::NotYourTurn);
            }
            mark = MARK_ONE;
        },
        _ => {
            if !is_second(game, &caller) {
                return Err(GameError::NotYourTurn);
            }
            mark = MARK_TWO;
        },
    }
    if !is_legal_move(&game.board, &board, mark) {
        return Err(GameError::IllegalMove);
    }
    let result = check_winner(&board);
    let next = match result {
        Some(s) => s,
        None => if mark == MARK_ONE {
            GameState::PlayerTwoTurn
        } else {
            GameState::PlayerOneTurn
        },
    };
    let payout = match result {
        Some(GameState::PlayerOneWon) | Some(GameState::PlayerTwoWon) => Some(
            Payout { recipient: caller, amount: vault, close: true },
        ),
        _ => None,
    };
    proof {
        if old(game).wf() {
            crate::board::lemma_move_appends(old(game).board@, board@, mark);
        }
    }
    game.state = next;
    game.board = board;
    game.last_update = now;
    Ok(payout)
}

/// Settles a match for `caller`, out of a vault that holds `vault`: the refund of an
/// unjoined match, the forfeit of a player who let a day pass without moving, or one half
/// of a draw.
pub fn settle_game(game: &mut Game, caller: PlayerKey, now: i64, vault: u64) -> (r: Result<
    Payout,
    GameError,
>)
    ensures
        r matches Err(e) ==> settle_verdict(*old(game), caller, now) == Err::<(), GameError>(e)
            && *final(game) == *old(game),
        r matches Ok(p) ==> settle_verdict(*old(game), caller, now) is Ok && p == settle_payout(
            *old(game),
            caller,
            vault,
        ) && *final(game) == settled(*old(game), caller),
        settle_verdict(*old(game), caller, now) is Ok ==> r is Ok,
        old(game).wf() ==> final(game).wf(),
{
    let state = game.state;
    let mut amount = vault;
    let deadline_passed = now as i128 > game.last_update as i128 + DAY_IN_SECONDS as i128;
    match state {
        GameState::Pending => {
            if !caller.same(&game.player_one) {
                return Err(GameError::NotYourSettlment);
            }
        },
        GameState::PlayerOneTurn => {
            if !deadline_passed {
                return Err(GameError::TimeNotPassed);
            }
            if !is_second(game, &caller) {
                return Err(GameError::NotYourSettlment);
            }
        },
        GameState::PlayerTwoTurn => {
            if !deadline_passed {
                return Err(GameError::TimeNotPassed);
            }
            if !caller.same(&game.player_one) {
                return Err(GameError::NotYourSettlment);
            }
        },
        GameState::Draw => {
            let first = caller.same(&game.player_one);
            if !first && !is_second(game, &caller) {
                return Err(GameError::NotYourSettlment);
            }
            amount = vault / 2;
            game.state = if first {
                GameState::PlayerOneClaimed
            } else {
                GameState::PlayerTwoClaimed
            };
        },
        GameState::PlayerOneClaimed => {
            if !is_second(game, &caller) {
                return Err(GameError::NotYourSettlment);
            }
            game.state = GameState::DrawClaimed;
        },
        GameState::PlayerTwoClaimed => {
            if !caller.same(&game.player_one) {
                return Err(GameError::NotYourSettlment);
            }
            game.state = GameState::DrawClaimed;
        },
        _ => return Err(GameError::GameNotResolvable),
    }
    let close = match state {
        GameState::Draw => false,
        _ => true,
    };
    Ok(Payout { recipient: caller, amount, close })
}

/// On a draw the two claims together pay out exactly what the vault held: whoever settles
/// first receives half of it rounded down and moves the match to their claimed state, the
/// other player then receives the remainder and the match is fully claimed, after which no
/// settlement is accepted.
pub proof fn lemma_draw_split(
    g: Game,
    first: PlayerKey,
    second: PlayerKey,
    now: i64,
    later: i64,
    vault: u64,
)
    requires
        g.wf(),
        g.state is Draw,
        is_player(g, first),
        is_player(g, second),
        first != second,
    ensures
        settle_verdict(g, first, now) is Ok,
        settle_payout(g, first, vault).amount == vault / 2,
        settled(g, first).state == (if first == g.player_one {
            GameState::PlayerOneClaimed
        } else {
            GameState::PlayerTwoClaimed
        }),
        ({
            let g1 = settled(g, first);
            let rest = (vault - settle_payout(g, first, vault).amount) as u64;
            &&& settle_verdict(g1, second, later) is Ok
            &&& settle_payout(g1, second, rest).amount == vault - vault / 2
            &&& settle_payout(g, first, vault).amount + settle_payout(g1, second, rest).amount
                == vault
            &&& settled(g1, second).state is DrawClaimed
            &&& settle_verdict(settled(g1, second), first, later) == Err::<(), GameError>(
                GameError::GameNotResolvable,
            )
            &&& settle_verdict(settled(g1, second), second, later) == Err::<(), GameError>(
                GameError::GameNotResolvable,
            )
        }),
{
}

/// A well-formed match never has its second player set while it is pending.
pub proof fn lemma_pending_has_no_second_player(g: Game)
    requires
        g.wf(),
    ensures
        g.state is Pending ==> g.player_two is None,
        g.player_two is Some ==> !(g.state is Pending),
{
}

/// An accepted move adds exactly one mark, the mover's, and changes no mark already
/// placed.
pub proof fn lemma_play_appends(g: Game, caller: PlayerKey, board: [u8; 9], now: i64)
    requires
        play_verdict(g, caller, board@, now) is Ok,
    ensures
        count(moved(g, board, now).board@, EMPTY) + 1 == count(g.board@, EMPTY),
        count(moved(g, board, now).board@, mark_of(g.state)) == count(g.board@, mark_of(g.state))
            + 1,
        forall|j: int|
            0 <= j < 9 && g.board[j] != EMPTY ==> moved(g, board, now).board[j] == g.board[j],
{
    crate::board::lemma_move_appends(g.board@, board@, mark_of(g.state));
}

} // verus!
