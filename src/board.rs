use vstd::prelude::*;
use crate::state::GameState;

verus! {

/// Value of an empty cell.
pub const EMPTY: u8 = 0;

/// Mark of the player who created the match.
pub const MARK_ONE: u8 = 1;

/// Mark of the player who joined the match.
pub const MARK_TWO: u8 = 2;

/// The cells of line `k`: rows first, then columns, then the two diagonals.
pub open spec fn line(k: int) -> (int, int, int) {
    if k == 0 {
        (0, 1, 2)
    } else if k == 1 {
        (3, 4, 5)
    } else if k == 2 {
        (6, 7, 8)
    } else if k == 3 {
        (0, 3, 6)
    } else if k == 4 {
        (1, 4, 7)
    } else if k == 5 {
        (2, 5, 8)
    } else if k == 6 {
        (0, 4, 8)
    } else {
        (2, 4, 6)
    }
}

/// Line `k` holds three identical non-empty marks.
pub open spec fn line_complete(b: Seq<u8>, k: int) -> bool {
    let (x, y, z) = line(k);
    b[x] != EMPTY && b[x] == b[y] && b[x] == b[z]
}

/// The first complete line among lines `k` to 7, if any.
pub open spec fn first_complete_from(b: Seq<u8>, k: int) -> Option<int>
    decreases 8 - k,
{
    if k >= 8 {
        None
    } else if line_complete(b, k) {
        Some(k)
    } else {
        first_complete_from(b, k + 1)
    }
}

/// Every cell holds a mark.
pub open spec fn all_occupied(b: Seq<u8>) -> bool {
    forall|i: int| 0 <= i < 9 ==> b[i] != EMPTY
}

/// What a board says about the match: the owner of the first complete line wins,
/// a full board with no complete line is a draw, anything else is still in play.
pub open spec fn outcome(b: Seq<u8>) -> Option<GameState> {
    match first_complete_from(b, 0) {
        Some(k) => Some(
            if b[line(k).0] == MARK_ONE {
                GameState::PlayerOneWon
            } else {
                GameState::PlayerTwoWon
            },
        ),
        None => if all_occupied(b) {
            Some(GameState::Draw)
        } else {
            None
        },
    }
}

/// Number of cells of `b` that hold `m`.
pub open spec fn count(b: Seq<u8>, m: u8) -> nat
    decreases b.len(),
{
    if b.len() == 0 {
        0
    } else {
        count(b.drop_last(), m) + if b.last() == m {
            1nat
        } else {
            0nat
        }
    }
}

/// `new` is `old` with one empty cell filled with `m`, and nothing else changed.
pub open spec fn legal_move(old: Seq<u8>, new: Seq<u8>, m: u8) -> bool {
    exists|i: int| 0 <= i < 9 && old[i] == EMPTY && new == old.update(i, m)
}

/// The cells of line `k`.
fn line_at(k: usize) -> (r: (usize, usize, usize))
    requires
        k < 8,
    ensures
        (r.0 as int, r.1 as int, r.2 as int) == line(k as int),
        r.0 < 9 && r.1 < 9 && r.2 < 9,
{
    if k == 0 {
        (0, 1, 2)
    } else if k == 1 {
        (3, 4, 5)
    } else if k == 2 {
        (6, 7, 8)
    } else if k == 3 {
        (0, 3, 6)
    } else if k == 4 {
        (1, 4, 7)
    } else if k == 5 {
        (2, 5, 8)
    } else if k == 6 {
        (0, 4, 8)
    } else {
        (2, 4, 6)
    }
}

/// Evaluates a board: the winner of the first complete line (rows, then columns, then
/// diagonals), else `Draw` when all cells are taken, else `None`.
pub fn check_winner(board: &[u8; 9]) -> (r: Option<GameState>)
    ensures
        r == outcome(board@),
{
    let mut k: usize = 0;
    while k < 8
        invariant
            k <= 8,
            first_complete_from(board@, 0) == first_complete_from(board@, k as int),
        decreases 8 - k,
    {
        let (x, y, z) = line_at(k);
        if board[x] != EMPTY && board[x] == board[y] && board[x] == board[z] {
            return Some(
                if board[x] == MARK_ONE {
                    GameState::PlayerOneWon
                } else {
                    GameState::PlayerTwoWon
                },
            );
        }
        k += 1;
    }
    let mut i: usize = 0;
    while i < 9
        invariant
            i <= 9,
            first_complete_from(board@, 0) is None,
            forall|j: int| 0 <= j < i ==> board@[j] != EMPTY,
        decreases 9 - i,
    {
        if board[i] == EMPTY {
            return None;
        }
        i += 1;
    }
    Some(GameState::Draw)
}

/// Tells whether `new` is `old` with exactly one empty cell filled with `m`.
pub fn is_legal_move(old: &[u8; 9], new: &[u8; 9], m: u8) -> (r: bool)
    requires
        m != EMPTY,
    ensures
        r == legal_move(old@, new@, m),
{
    let mut found: Option<usize> = None;
    let mut i: usize = 0;
    while i < 9
        invariant
            i <= 9,
            m != EMPTY,
            match found {
                None => forall|j: int| 0 <= j < i ==> old@[j] == new@[j],
                Some(f) => f < i && old@[f as int] == EMPTY && new@[f as int] == m && forall|j: int|
                    0 <= j < i && j != f ==> old@[j] == new@[j],
            },
        decreases 9 - i,
    {
        if old[i] != new[i] {
            if old[i] != EMPTY || new[i] != m || found.is_some() {
                proof {
                    if legal_move(old@, new@, m) {
                        let c = choose|c: int|
                            0 <= c < 9 && old@[c] == EMPTY && new@ == old@.update(c, m);
                        assert(new@[i as int] == old@.update(c, m)[i as int]);
                        if let Some(f) = found {
                            assert(new@[f as int] == old@.update(c, m)[f as int]);
                        }
                    }
                }
                return false;
            }
            found = Some(i);
        }
        i += 1;
    }
    match found {
        None => {
            proof {
                if legal_move(old@, new@, m) {
                    let c = choose|c: int|
                        0 <= c < 9 && old@[c] == EMPTY && new@ == old@.update(c, m);
                    assert(new@[c] == old@.update(c, m)[c]);
                }
            }
            false
        },
        Some(f) => {
            assert(new@ =~= old@.update(f as int, m));
            true
        },
    }
}

/// Changing cell `i` to `v` moves one cell out of the count of the old value and into
/// the count of the new one.
pub proof fn lemma_count_update(b: Seq<u8>, i: int, v: u8, m: u8)
    requires
        0 <= i < b.len(),
    ensures
        count(b.update(i, v), m) as int == count(b, m) as int - (if b[i] == m {
            1int
        } else {
            0int
        }) + (if v == m {
            1int
        } else {
            0int
        }),
    decreases b.len(),
{
    let u = b.update(i, v);
    if i == b.len() - 1 {
        assert(u.drop_last() =~= b.drop_last());
    } else {
        lemma_count_update(b.drop_last(), i, v, m);
        assert(u.drop_last() =~= b.drop_last().update(i, v));
    }
}

/// A value that no cell holds is counted zero times.
pub proof fn lemma_count_absent(b: Seq<u8>, m: u8)
    requires
        forall|i: int| 0 <= i < b.len() ==> b[i] != m,
    ensures
        count(b, m) == 0,
    decreases b.len(),
{
    if b.len() > 0 {
        lemma_count_absent(b.drop_last(), m);
    }
}

/// With no complete line from `k` on, there is no first one.
pub proof fn lemma_no_line_from(b: Seq<u8>, k: int)
    requires
        0 <= k <= 8,
        forall|j: int| k <= j < 8 ==> !line_complete(b, j),
    ensures
        first_complete_from(b, k) is None,
    decreases 8 - k,
{
    if k < 8 {
        lemma_no_line_from(b, k + 1);
    }
}

/// The first complete line from `k` on is complete, and none before it from `k` is.
pub proof fn lemma_first_line_from(b: Seq<u8>, k: int)
    requires
        0 <= k <= 8,
    ensures
        first_complete_from(b, k) matches Some(j) ==> k <= j < 8 && line_complete(b, j) && forall|
            l: int,
        | k <= l < j ==> !line_complete(b, l),
        first_complete_from(b, k) is None ==> forall|l: int| k <= l < 8 ==> !line_complete(b, l),
    decreases 8 - k,
{
    if k < 8 {
        lemma_first_line_from(b, k + 1);
    }
}

/// The board evaluator names a winner exactly when some line holds three identical
/// non-empty marks, and calls a draw exactly when every cell is taken and no line is
/// complete. The winner is the owner of the first complete line.
pub proof fn lemma_outcome_laws(b: Seq<u8>)
    requires
        b.len() == 9,
    ensures
        (outcome(b) is Some && outcome(b) != Some(GameState::Draw)) <==> exists|k: int|
            0 <= k < 8 && line_complete(b, k),
        outcome(b) == Some(GameState::Draw) <==> (all_occupied(b) && forall|k: int|
            0 <= k < 8 ==> !line_complete(b, k)),
        outcome(b) == Some(GameState::PlayerOneWon) <==> exists|k: int|
            0 <= k < 8 && line_complete(b, k) && b[line(k).0] == MARK_ONE && forall|l: int|
                0 <= l < k ==> !line_complete(b, l),
{
    lemma_first_line_from(b, 0);
    if let Some(j) = first_complete_from(b, 0) {
        assert(line_complete(b, j));
    } else {
        if exists|k: int| 0 <= k < 8 && line_complete(b, k) {
            let k = choose|k: int| 0 <= k < 8 && line_complete(b, k);
            assert(!line_complete(b, k));
        }
    }
    if outcome(b) == Some(GameState::PlayerOneWon) {
        let j = first_complete_from(b, 0)->Some_0;
        assert(line_complete(b, j) && b[line(j).0] == MARK_ONE);
    }
    if exists|k: int|
        0 <= k < 8 && line_complete(b, k) && b[line(k).0] == MARK_ONE && forall|l: int|
            0 <= l < k ==> !line_complete(b, l) {
        let k = choose|k: int|
            0 <= k < 8 && line_complete(b, k) && b[line(k).0] == MARK_ONE && forall|l: int|
                0 <= l < k ==> !line_complete(b, l);
        let j = first_complete_from(b, 0)->Some_0;
        assert(j == k);
    }
}

/// A legal move fills one empty cell with the mover's mark and leaves every other cell
/// as it was: the number of marks grows by exactly one, the mover's own count by one,
/// and no mark already placed changes.
pub proof fn lemma_move_appends(old: Seq<u8>, new: Seq<u8>, m: u8)
    requires
        old.len() == 9,
        m != EMPTY,
        legal_move(old, new, m),
    ensures
        count(new, EMPTY) + 1 == count(old, EMPTY),
        count(new, m) == count(old, m) + 1,
        forall|x: u8| x != EMPTY && x != m ==> count(new, x) == count(old, x),
        forall|j: int| 0 <= j < 9 && old[j] != EMPTY ==> new[j] == old[j],
{
    let c = choose|c: int| 0 <= c < 9 && old[c] == EMPTY && new == old.update(c, m);
    lemma_count_update(old, c, m, EMPTY);
    lemma_count_update(old, c, m, m);
    assert forall|x: u8| x != EMPTY && x != m implies count(new, x) == count(old, x) by {
        lemma_count_update(old, c, m, x);
    }
}

} // verus!
