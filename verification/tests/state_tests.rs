use tictactoe::{Event, GameError, PublicKey, TicTacToeState, BOARD_SIZE};

const ALICE: [u8; 32] = [1; 32];
const BOB: [u8; 32] = [2; 32];
const CAROL: [u8; 32] = [3; 32];

fn text_of(bytes: [u8; 32]) -> String {
    PublicKey(bytes).to_base58()
}

/// A state with a match between Alice and Bob, and the match's identifier.
fn started() -> (TicTacToeState, String) {
    let mut state = TicTacToeState::init(1_000);
    let id = state.create_match(&ALICE, &text_of(BOB), 2_000).unwrap();
    (state, id)
}

/// Plays the moves in turn, Alice first, and returns the last outcome.
fn play(state: &mut TicTacToeState, id: &str, moves: &[(u8, u8)]) -> String {
    let mut last = String::new();
    for (i, (x, y)) in moves.iter().enumerate() {
        let mover = if i % 2 == 0 { &ALICE } else { &BOB };
        last = state.make_move(mover, id, *x, *y).unwrap().outcome;
    }
    last
}

#[test]
fn a_new_state_has_no_match() {
    let state = TicTacToeState::init(5);
    assert!(state.get_matches().unwrap().is_empty());
    assert_eq!(state.get_active_match_id().unwrap(), None);
    assert_eq!(state.get_current_turn().unwrap(), None);
    assert!(matches!(state.get_board("match-5-1"), Err(GameError::Invalid("no active match"))));
}

#[test]
fn match_identifiers_hold_the_time_and_a_counter() {
    let mut state = TicTacToeState::init(0);
    let id = state.create_match(&ALICE, &text_of(BOB), 1_700_000_000_123).unwrap();
    assert_eq!(id, "match-1700000000123-1");
    assert_eq!(state.get_active_match_id().unwrap(), Some(id.clone()));
    assert_eq!(state.get_matches().unwrap(), vec![id]);
}

#[test]
fn match_identifiers_write_numbers_in_decimal() {
    for (now, expected) in [
        (0u64, "match-0-1"),
        (7, "match-7-1"),
        (10, "match-10-1"),
        (909, "match-909-1"),
        (1_000_000, "match-1000000-1"),
        (u64::MAX, "match-18446744073709551615-1"),
    ] {
        let mut state = TicTacToeState::init(0);
        assert_eq!(state.create_match(&ALICE, &text_of(BOB), now).unwrap(), expected);
    }
}

#[test]
fn the_counter_grows_with_every_match_created() {
    let mut state = TicTacToeState::init(0);
    for n in 1..=12u64 {
        let id = state.create_match(&ALICE, &text_of(BOB), 40).unwrap();
        assert_eq!(id, format!("match-40-{}", n));
        // Finish the match so that the next one can be created.
        assert_eq!(play(&mut state, &id, &[(0, 0), (1, 0), (0, 1), (1, 1), (0, 2)]), "win");
    }
}

#[test]
fn a_new_match_is_empty_and_the_creator_moves_first() {
    let (state, id) = started();
    let view = state.get_board(&id).unwrap();
    assert_eq!(view.size, BOARD_SIZE);
    assert_eq!(view.board, vec![0; 9]);
    assert_eq!(state.get_current_turn().unwrap(), Some(text_of(ALICE)));
}

#[test]
fn a_second_match_waits_for_the_first_to_finish() {
    let (mut state, id) = started();
    let r = state.create_match(&ALICE, &text_of(BOB), 3_000);
    assert!(matches!(r, Err(GameError::Invalid("another match is active"))));
    let r = state.create_match(&CAROL, &text_of(BOB), 3_000);
    assert!(matches!(r, Err(GameError::Invalid("another match is active"))));
    assert_eq!(state.get_active_match_id().unwrap(), Some(id.clone()));

    play(&mut state, &id, &[(0, 0), (1, 0), (0, 1), (1, 1), (0, 2)]);
    let next = state.create_match(&CAROL, &text_of(ALICE), 3_000).unwrap();
    assert_eq!(next, "match-3000-2");
    assert_eq!(state.get_board(&next).unwrap().board, vec![0; 9]);
    assert_eq!(state.get_current_turn().unwrap(), Some(text_of(CAROL)));
    assert!(matches!(state.get_board(&id), Err(GameError::NotFound(_))));
}

#[test]
fn creation_is_refused_for_bad_identities() {
    let mut state = TicTacToeState::init(0);
    let r = state.create_match(&ALICE[..31], &text_of(BOB), 1);
    assert!(matches!(r, Err(GameError::Invalid("executor id length"))));
    let r = state.create_match(&ALICE, "not base58!", 1);
    assert!(matches!(r, Err(GameError::Invalid("bad base58 key"))));
    let r = state.create_match(&ALICE, "he11owor1d", 1);
    assert!(matches!(r, Err(GameError::Invalid("key length"))));
    let r = state.create_match(&ALICE, &text_of(ALICE), 1);
    assert!(matches!(r, Err(GameError::Invalid("players must differ"))));
    // The caller's identity is checked before the opponent's.
    let r = state.create_match(&[], "not base58!", 1);
    assert!(matches!(r, Err(GameError::Invalid("executor id length"))));
    // Nothing was created, and no identifier was used up.
    assert_eq!(state.get_active_match_id().unwrap(), None);
    assert_eq!(state.create_match(&ALICE, &text_of(BOB), 1).unwrap(), "match-1-1");
}

#[test]
fn a_match_is_created_with_a_parsed_opponent() {
    let mut state = TicTacToeState::init(0);
    let id = state.create_match_with(&ALICE, Ok(PublicKey(BOB)), 77).unwrap();
    assert_eq!(id, "match-77-1");
    assert_eq!(state.get_current_turn().unwrap(), Some(text_of(ALICE)));
    assert_eq!(state.get_board(&id).unwrap().board, vec![0; 9]);
    // Bob is the second participant: he may move after Alice.
    assert_eq!(play(&mut state, &id, &[(0, 0), (1, 1)]), "continue");
}

#[test]
fn creation_with_a_parsed_opponent_is_refused_in_order() {
    let mut state = TicTacToeState::init(0);
    let r = state.create_match_with(&ALICE, Err(GameError::Invalid("key length")), 1);
    assert!(matches!(r, Err(GameError::Invalid("key length"))));
    let r = state.create_match_with(&ALICE, Err(GameError::Invalid("bad base58 key")), 1);
    assert!(matches!(r, Err(GameError::Invalid("bad base58 key"))));
    let r = state.create_match_with(&[1, 2, 3], Err(GameError::Invalid("key length")), 1);
    assert!(matches!(r, Err(GameError::Invalid("executor id length"))));
    let r = state.create_match_with(&ALICE, Ok(PublicKey(ALICE)), 1);
    assert!(matches!(r, Err(GameError::Invalid("players must differ"))));
    assert_eq!(state.get_active_match_id().unwrap(), None);

    let id = state.create_match_with(&ALICE, Ok(PublicKey(BOB)), 1).unwrap();
    assert_eq!(id, "match-1-1");
    // While the match runs, every creation is refused as busy, whatever else is wrong.
    let r = state.create_match_with(&[], Err(GameError::Invalid("key length")), 2);
    assert!(matches!(r, Err(GameError::Invalid("another match is active"))));
    assert_eq!(state.get_active_match_id().unwrap(), Some(id));
}

#[test]
fn a_stored_state_comes_back_as_it_was() {
    let (mut state, id) = started();
    play(&mut state, &id, &[(2, 2)]);
    let (nonce, created, active) = state.into_parts();
    assert_eq!((nonce, created), (1, 1_000));
    let game = active.unwrap();
    assert_eq!(game.id, id);
    assert_eq!(game.board.0, vec![0, 0, 0, 0, 0, 0, 0, 0, 1]);
    let mut state = TicTacToeState::from_parts(nonce, created, Some(game));
    assert_eq!(state.get_current_turn().unwrap(), Some(text_of(BOB)));
    assert_eq!(play_bob(&mut state, &id, 0, 0), "continue");
}

/// One move of Bob's.
fn play_bob(state: &mut TicTacToeState, id: &str, x: u8, y: u8) -> String {
    state.make_move(&BOB, id, x, y).unwrap().outcome
}

#[test]
fn a_move_is_looked_up_by_the_match_identifier() {
    let mut state = TicTacToeState::init(0);
    let r = state.make_move(&ALICE, "match-0-1", 0, 0);
    assert!(matches!(r, Err(GameError::Invalid("no active match"))));

    let (mut state, id) = started();
    match state.make_move(&ALICE, "match-0-0", 0, 0) {
        Err(GameError::NotFound(what)) => assert_eq!(what, "match-0-0"),
        other => panic!("expected NotFound, got {:?}", other),
    }
    match state.get_board("elsewhere") {
        Err(GameError::NotFound(what)) => assert_eq!(what, "elsewhere"),
        other => panic!("expected NotFound, got {:?}", other),
    }
    // The identifier is checked before the caller.
    match state.make_move(&[], "match-0-0", 0, 0) {
        Err(GameError::NotFound(what)) => assert_eq!(what, "match-0-0"),
        other => panic!("expected NotFound, got {:?}", other),
    }
    let r = state.make_move(&[], &id, 0, 0);
    assert!(matches!(r, Err(GameError::Invalid("executor id length"))));
    assert_eq!(state.get_board(&id).unwrap().board, vec![0; 9]);
}

#[test]
fn a_move_that_the_match_refuses_changes_nothing() {
    let (mut state, id) = started();
    play(&mut state, &id, &[(1, 1)]);
    let r = state.make_move(&CAROL, &id, 0, 0);
    assert!(matches!(r, Err(GameError::Forbidden("not a player"))));
    let r = state.make_move(&ALICE, &id, 0, 0);
    assert!(matches!(r, Err(GameError::Forbidden("not your turn"))));
    let r = state.make_move(&BOB, &id, 3, 0);
    assert!(matches!(r, Err(GameError::Invalid("coordinates out of bounds"))));
    let r = state.make_move(&BOB, &id, 1, 1);
    assert!(matches!(r, Err(GameError::Invalid("cell already occupied"))));
    assert_eq!(state.get_board(&id).unwrap().board, vec![0, 0, 0, 0, 1, 0, 0, 0, 0]);
    assert_eq!(state.get_current_turn().unwrap(), Some(text_of(BOB)));
    assert_eq!(state.get_active_match_id().unwrap(), Some(id));
}

#[test]
fn a_move_that_continues_reports_one_event() {
    let (mut state, id) = started();
    let report = state.make_move(&ALICE, &id, 2, 1).unwrap();
    assert_eq!(report.outcome, "continue");
    assert_eq!(report.events.len(), 1);
    assert!(matches!(
        report.events[0],
        Event::MoveMade { id: move_id, x: 2, y: 1, player: "X" } if move_id == id
    ));
    assert_eq!(state.get_current_turn().unwrap(), Some(text_of(BOB)));

    let report = state.make_move(&BOB, &id, 0, 0).unwrap();
    assert_eq!(report.outcome, "continue");
    assert_eq!(report.events.len(), 1);
    assert!(matches!(
        report.events[0],
        Event::MoveMade { id: move_id, x: 0, y: 0, player: "O" } if move_id == id
    ));
    assert_eq!(state.get_board(&id).unwrap().board, vec![2, 0, 0, 0, 0, 1, 0, 0, 0]);
}

#[test]
fn a_winning_move_reports_the_win_and_the_end() {
    let (mut state, id) = started();
    play(&mut state, &id, &[(0, 0), (1, 0), (0, 1), (1, 1)]);
    let report = state.make_move(&ALICE, &id, 0, 2).unwrap();
    assert_eq!(report.outcome, "win");
    assert_eq!(report.events.len(), 3);
    assert!(matches!(
        report.events[0],
        Event::MoveMade { id: move_id, x: 0, y: 2, player: "X" } if move_id == id
    ));
    assert!(matches!(report.events[1], Event::GameWon { id: won, winner: "X" } if won == id));
    assert!(matches!(report.events[2], Event::MatchEnded { id: ended } if ended == id));
    assert!(matches!(state.make_move(&BOB, &id, 2, 2), Err(GameError::Finished)));
}

#[test]
fn the_second_participant_wins_as_o() {
    let (mut state, id) = started();
    play(&mut state, &id, &[(0, 0), (2, 0), (0, 1), (1, 1), (2, 2)]);
    let report = state.make_move(&BOB, &id, 0, 2).unwrap();
    assert_eq!(report.outcome, "win");
    assert!(matches!(report.events[0], Event::MoveMade { x: 0, y: 2, player: "O", .. }));
    assert!(matches!(report.events[1], Event::GameWon { winner: "O", .. }));
    assert!(matches!(report.events[2], Event::MatchEnded { .. }));
    assert_eq!(report.events.len(), 3);
}

#[test]
fn a_tying_move_reports_the_tie_and_the_end() {
    let (mut state, id) = started();
    let moves = [(0, 0), (1, 0), (2, 0), (1, 1), (0, 1), (2, 1), (1, 2), (0, 2)];
    assert_eq!(play(&mut state, &id, &moves), "continue");
    let report = state.make_move(&ALICE, &id, 2, 2).unwrap();
    assert_eq!(report.outcome, "tie");
    assert_eq!(report.events.len(), 3);
    assert!(matches!(report.events[0], Event::MoveMade { x: 2, y: 2, player: "X", .. }));
    assert!(matches!(report.events[1], Event::GameTied { id: tied } if tied == id));
    assert!(matches!(report.events[2], Event::MatchEnded { id: ended } if ended == id));
    assert_eq!(state.get_board(&id).unwrap().board, vec![1, 2, 1, 1, 2, 2, 2, 1, 1]);
    assert!(matches!(state.make_move(&BOB, &id, 0, 0), Err(GameError::Finished)));
}

#[test]
fn the_current_user_is_the_caller_in_base58() {
    let state = TicTacToeState::init(0);
    assert_eq!(state.get_current_user(&[0; 32]).unwrap(), "11111111111111111111111111111111");
    assert_eq!(state.get_current_user(&ALICE).unwrap(), text_of(ALICE));
    assert!(matches!(
        state.get_current_user(&ALICE[..5]),
        Err(GameError::Invalid("executor id length"))
    ));
}
