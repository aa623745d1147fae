use tictactoe::{Cell, GameError, Match, PublicKey, BOARD_SIZE};

fn key(byte: u8) -> PublicKey {
    PublicKey([byte; 32])
}

fn fresh() -> Match {
    Match::new("match-1".to_string(), key(1), key(2))
}

/// Plays the moves in turn, first participant first, and expects each to be
/// accepted.
fn play(game: &mut Match, moves: &[(u8, u8)]) {
    for (i, (x, y)) in moves.iter().enumerate() {
        let mover = if i % 2 == 0 { key(1) } else { key(2) };
        assert!(game.make_move(mover, *x, *y).is_ok(), "move {} refused", i);
    }
}

#[test]
fn new_match_starts_empty_with_the_first_participant_to_move() {
    let game = fresh();
    assert_eq!(game.id, "match-1");
    assert_eq!(game.player1, key(1));
    assert_eq!(game.player2, key(2));
    assert_eq!(game.turn, key(1));
    assert_eq!(game.board.0, vec![0; 9]);
    assert!(game.winner.is_none());
    assert!(!game.is_finished());
    assert_eq!(game.get_current_player_symbol(), Cell::X);
}

#[test]
fn participants_are_recognised() {
    let game = fresh();
    assert!(game.is_player(&key(1)));
    assert!(game.is_player(&key(2)));
    assert!(!game.is_player(&key(3)));
}

#[test]
fn identities_compare_by_their_bytes() {
    let mut bytes = [9u8; 32];
    assert_eq!(PublicKey(bytes), key(9));
    bytes[31] = 8;
    assert_ne!(PublicKey(bytes), key(9));
    bytes[31] = 9;
    bytes[0] = 8;
    assert_ne!(PublicKey(bytes), key(9));
    assert_eq!(key(9).clone(), key(9));
}

#[test]
fn an_accepted_move_marks_the_board_and_passes_the_turn() {
    let mut game = fresh();
    assert!(game.make_move(key(1), 1, 1).is_ok());
    assert_eq!(game.board.get(BOARD_SIZE, 1, 1), Cell::X);
    assert_eq!(game.board.0, vec![0, 0, 0, 0, 1, 0, 0, 0, 0]);
    assert_eq!(game.turn, key(2));
    assert_eq!(game.get_current_player_symbol(), Cell::O);
    assert!(game.winner.is_none());

    assert!(game.make_move(key(2), 2, 0).is_ok());
    assert_eq!(game.board.0, vec![0, 0, 2, 0, 1, 0, 0, 0, 0]);
    assert_eq!(game.turn, key(1));
    assert_eq!(game.get_current_player_symbol(), Cell::X);
}

#[test]
fn turn_alternates_strictly_until_the_match_ends() {
    let mut game = fresh();
    let moves = [(0, 0), (1, 0), (2, 0), (1, 1), (0, 1), (2, 1), (1, 2), (0, 2)];
    for (i, (x, y)) in moves.iter().enumerate() {
        let (mover, other) = if i % 2 == 0 { (key(1), key(2)) } else { (key(2), key(1)) };
        assert_eq!(game.turn, mover);
        assert!(game.make_move(mover, *x, *y).is_ok());
        assert!(!game.is_finished());
        assert_eq!(game.turn, other);
    }
}

#[test]
fn a_stranger_is_forbidden() {
    let mut game = fresh();
    let r = game.make_move(key(3), 0, 0);
    assert!(matches!(r, Err(GameError::Forbidden("not a player"))));
}

#[test]
fn moving_out_of_turn_is_forbidden() {
    let mut game = fresh();
    let r = game.make_move(key(2), 0, 0);
    assert!(matches!(r, Err(GameError::Forbidden("not your turn"))));
    play(&mut game, &[(0, 0)]);
    let r = game.make_move(key(1), 1, 1);
    assert!(matches!(r, Err(GameError::Forbidden("not your turn"))));
}

#[test]
fn a_move_off_the_board_is_invalid() {
    let mut game = fresh();
    assert!(matches!(
        game.make_move(key(1), 3, 0),
        Err(GameError::Invalid("coordinates out of bounds"))
    ));
    assert!(matches!(
        game.make_move(key(1), 0, 3),
        Err(GameError::Invalid("coordinates out of bounds"))
    ));
    assert!(matches!(
        game.make_move(key(1), 255, 255),
        Err(GameError::Invalid("coordinates out of bounds"))
    ));
}

#[test]
fn a_move_onto_a_mark_is_invalid() {
    let mut game = fresh();
    play(&mut game, &[(1, 1)]);
    assert!(matches!(
        game.make_move(key(2), 1, 1),
        Err(GameError::Invalid("cell already occupied"))
    ));
}

#[test]
fn the_checks_are_made_in_order() {
    // A stranger, off the board: the stranger is named first.
    let mut game = fresh();
    assert!(matches!(game.make_move(key(3), 9, 9), Err(GameError::Forbidden("not a player"))));
    // Out of turn, off the board: the turn is named first.
    assert!(matches!(game.make_move(key(2), 9, 9), Err(GameError::Forbidden("not your turn"))));
    // A finished match refuses everyone as finished.
    play(&mut game, &[(0, 0), (1, 0), (0, 1), (1, 1), (0, 2)]);
    assert!(matches!(game.make_move(key(3), 9, 9), Err(GameError::Finished)));
    assert!(matches!(game.make_move(key(2), 2, 2), Err(GameError::Finished)));
    assert!(matches!(game.make_move(key(1), 2, 2), Err(GameError::Finished)));
}

#[test]
fn a_rejected_move_leaves_the_match_unchanged() {
    let mut game = fresh();
    play(&mut game, &[(1, 1), (0, 0)]);
    let board = game.board.0.clone();
    let attempts: [(PublicKey, u8, u8); 5] =
        [(key(3), 2, 2), (key(2), 2, 2), (key(1), 3, 3), (key(1), 1, 1), (key(1), 0, 0)];
    for (who, x, y) in attempts {
        assert!(game.make_move(who, x, y).is_err());
        assert_eq!(game.board.0, board);
        assert_eq!(game.turn, key(1));
        assert!(game.winner.is_none());
        assert_eq!(game.id, "match-1");
        assert_eq!(game.player1, key(1));
        assert_eq!(game.player2, key(2));
    }
}

#[test]
fn three_in_a_column_win_on_the_third_placement_and_not_before() {
    let mut game = fresh();
    assert!(game.make_move(key(1), 0, 0).is_ok());
    assert_eq!(game.board.check_winner(BOARD_SIZE), None);
    assert!(game.make_move(key(2), 1, 0).is_ok());
    assert_eq!(game.board.check_winner(BOARD_SIZE), None);
    assert!(game.make_move(key(1), 0, 1).is_ok());
    assert_eq!(game.board.check_winner(BOARD_SIZE), None);
    assert!(game.make_move(key(2), 1, 1).is_ok());
    assert_eq!(game.board.check_winner(BOARD_SIZE), None);
    assert!(!game.is_finished());
    assert!(game.winner.is_none());

    assert!(game.make_move(key(1), 0, 2).is_ok());
    assert_eq!(game.board.check_winner(BOARD_SIZE), Some(Cell::X));
    assert_eq!(game.winner, Some(key(1)));
    assert!(game.is_finished());
    // The turn does not pass on a win.
    assert_eq!(game.turn, key(1));
}

#[test]
fn the_second_participant_can_win() {
    let mut game = fresh();
    play(&mut game, &[(0, 0), (2, 0), (0, 1), (1, 1), (2, 2), (0, 2)]);
    assert_eq!(game.board.check_winner(BOARD_SIZE), Some(Cell::O));
    assert_eq!(game.winner, Some(key(2)));
    assert_eq!(game.turn, key(2));
    assert!(game.is_finished());
}

#[test]
fn a_full_board_without_a_line_is_a_tie() {
    let mut game = fresh();
    // X O X
    // X O O
    // O X X
    play(
        &mut game,
        &[(0, 0), (1, 0), (2, 0), (1, 1), (0, 1), (2, 1), (1, 2), (0, 2), (2, 2)],
    );
    assert_eq!(game.board.0, vec![1, 2, 1, 1, 2, 2, 2, 1, 1]);
    assert!(game.board.is_full(BOARD_SIZE));
    assert_eq!(game.board.check_winner(BOARD_SIZE), None);
    assert!(game.winner.is_none());
    assert!(game.is_finished());
    // The turn does not pass on a tie.
    assert_eq!(game.turn, key(1));
    assert!(matches!(game.make_move(key(2), 0, 0), Err(GameError::Finished)));
    assert!(matches!(game.make_move(key(1), 0, 0), Err(GameError::Finished)));
}

#[test]
fn the_last_cell_can_win() {
    let mut game = fresh();
    // X O X
    // O X O
    // O X X   the ninth mark, X at (2, 2), completes the main diagonal.
    play(
        &mut game,
        &[(0, 0), (1, 0), (2, 0), (0, 1), (1, 1), (2, 1), (1, 2), (0, 2), (2, 2)],
    );
    assert_eq!(game.board.0, vec![1, 2, 1, 2, 1, 2, 2, 1, 1]);
    assert!(game.board.is_full(BOARD_SIZE));
    assert_eq!(game.board.check_winner(BOARD_SIZE), Some(Cell::X));
    assert_eq!(game.winner, Some(key(1)));
    assert!(game.is_finished());
}

#[test]
fn a_match_of_one_participant_against_themselves_always_plays_the_first_mark() {
    let mut game = Match::new("solo".to_string(), key(7), key(7));
    assert!(game.make_move(key(7), 0, 0).is_ok());
    assert_eq!(game.turn, key(7));
    assert!(game.make_move(key(7), 1, 0).is_ok());
    assert_eq!(game.board.0, vec![1, 1, 0, 0, 0, 0, 0, 0, 0]);
}
