use durable_nonce_game::{check_winner, is_legal_move, GameState};

#[test]
fn winner_on_top_row() {
    assert_eq!(check_winner(&[1, 1, 1, 2, 2, 0, 0, 0, 0]), Some(GameState::PlayerOneWon));
}

#[test]
fn winner_on_column() {
    assert_eq!(check_winner(&[2, 1, 0, 2, 1, 0, 2, 0, 0]), Some(GameState::PlayerTwoWon));
}

#[test]
fn winner_on_anti_diagonal() {
    assert_eq!(check_winner(&[2, 2, 1, 0, 1, 0, 1, 2, 0]), Some(GameState::PlayerOneWon));
}

#[test]
fn winner_on_main_diagonal() {
    assert_eq!(check_winner(&[2, 1, 1, 0, 2, 1, 0, 0, 2]), Some(GameState::PlayerTwoWon));
}

#[test]
fn first_complete_line_decides() {
    // two complete lines of different marks on a malformed board: the earlier line wins
    assert_eq!(check_winner(&[2, 2, 2, 0, 0, 0, 1, 1, 1]), Some(GameState::PlayerTwoWon));
    assert_eq!(check_winner(&[1, 1, 1, 0, 0, 0, 2, 2, 2]), Some(GameState::PlayerOneWon));
    assert_eq!(check_winner(&[1, 0, 2, 1, 0, 2, 1, 0, 2]), Some(GameState::PlayerOneWon));
}

#[test]
fn full_board_without_line_is_draw() {
    assert_eq!(check_winner(&[2, 1, 2, 2, 1, 1, 1, 2, 2]), Some(GameState::Draw));
}

#[test]
fn open_board_has_no_result() {
    assert_eq!(check_winner(&[0; 9]), None);
    assert_eq!(check_winner(&[2, 1, 2, 2, 1, 1, 1, 2, 0]), None);
}

#[test]
fn full_board_with_line_is_a_win_not_a_draw() {
    assert_eq!(check_winner(&[1, 1, 1, 2, 2, 1, 2, 1, 2]), Some(GameState::PlayerOneWon));
}

#[test]
fn legal_move_fills_one_empty_cell() {
    let old = [0, 0, 0, 0, 2, 0, 0, 0, 0];
    assert!(is_legal_move(&old, &[1, 0, 0, 0, 2, 0, 0, 0, 0], 1));
    assert!(!is_legal_move(&old, &[2, 0, 0, 0, 2, 0, 0, 0, 0], 1));
    assert!(!is_legal_move(&old, &old, 1));
    assert!(!is_legal_move(&old, &[1, 1, 0, 0, 2, 0, 0, 0, 0], 1));
    assert!(!is_legal_move(&old, &[0, 0, 0, 0, 1, 0, 0, 0, 0], 1));
    assert!(!is_legal_move(&old, &[1, 0, 0, 0, 0, 0, 0, 0, 0], 1));
}
