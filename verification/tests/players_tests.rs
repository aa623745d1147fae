use tictactoe::{Board, Cell, GameError, PlayerBoard, PublicKey, BOARD_SIZE};

const ZERO_KEY_TEXT: &str = "11111111111111111111111111111111";

#[test]
fn thirty_two_zero_bytes_are_thirty_two_ones_in_base58() {
    assert_eq!(PublicKey([0; 32]).to_base58(), ZERO_KEY_TEXT);
    let key = PublicKey::from_base58(ZERO_KEY_TEXT).unwrap();
    assert_eq!(key, PublicKey([0; 32]));
}

#[test]
fn base58_text_agrees_with_the_codec() {
    let mut bytes = [0u8; 32];
    for (i, b) in bytes.iter_mut().enumerate() {
        *b = (i as u8).wrapping_mul(37).wrapping_add(11);
    }
    let text = PublicKey(bytes).to_base58();
    assert_eq!(text, bs58::encode(bytes).into_string());
    assert_ne!(text.as_bytes(), &bytes[..]);
    assert_eq!(PublicKey::from_base58(&text).unwrap(), PublicKey(bytes));
}

#[test]
fn base58_round_trips() {
    for seed in 0..50u8 {
        let mut bytes = [0u8; 32];
        for (i, b) in bytes.iter_mut().enumerate() {
            *b = seed.wrapping_mul(i as u8 + 1).wrapping_add(seed);
        }
        let key = PublicKey(bytes);
        assert_eq!(PublicKey::from_base58(&key.to_base58()).unwrap(), key);
    }
}

#[test]
fn a_known_base58_text_parses_to_its_bytes() {
    // 31 zero bytes and a final 1: thirty-one ones and the digit for one.
    let mut bytes = [0u8; 32];
    bytes[31] = 1;
    let text = "11111111111111111111111111111112";
    assert_eq!(PublicKey(bytes).to_base58(), text);
    assert_eq!(PublicKey::from_base58(text).unwrap(), PublicKey(bytes));
}

#[test]
fn text_that_is_not_base58_is_rejected() {
    for text in ["0", "O", "I", "l", "not base58!", "é", "1111+"] {
        assert!(matches!(
            PublicKey::from_base58(text),
            Err(GameError::Invalid("bad base58 key"))
        ));
    }
}

#[test]
fn base58_of_another_length_is_rejected() {
    // Valid Base58 that decodes to 8 bytes.
    assert_eq!(bs58::decode("he11owor1d").into_vec().unwrap().len(), 8);
    assert!(matches!(PublicKey::from_base58("he11owor1d"), Err(GameError::Invalid("key length"))));
    assert!(matches!(PublicKey::from_base58(""), Err(GameError::Invalid("key length"))));
    // 31 and 33 zero bytes.
    assert!(matches!(
        PublicKey::from_base58(&ZERO_KEY_TEXT[1..]),
        Err(GameError::Invalid("key length"))
    ));
    let longer = format!("{}1", ZERO_KEY_TEXT);
    assert!(matches!(PublicKey::from_base58(&longer), Err(GameError::Invalid("key length"))));
}

#[test]
fn a_decoded_text_becomes_an_identity() {
    let ok = PublicKey::from_decoded(Ok(vec![5u8; 32]));
    assert_eq!(ok.unwrap(), PublicKey([5; 32]));
    let short = PublicKey::from_decoded(Ok(vec![5u8; 31]));
    assert!(matches!(short, Err(GameError::Invalid("key length"))));
    let long = PublicKey::from_decoded(Ok(vec![5u8; 33]));
    assert!(matches!(long, Err(GameError::Invalid("key length"))));
    let empty = PublicKey::from_decoded(Ok(Vec::new()));
    assert!(matches!(empty, Err(GameError::Invalid("key length"))));
    let failed = PublicKey::from_decoded(bs58::decode("0").into_vec());
    assert!(matches!(failed, Err(GameError::Invalid("bad base58 key"))));
}

#[test]
fn an_executor_id_of_thirty_two_bytes_is_an_identity() {
    let mut id = [0u8; 32];
    for (i, b) in id.iter_mut().enumerate() {
        *b = i as u8;
    }
    assert_eq!(PublicKey::from_executor_id(&id).unwrap(), PublicKey(id));
    assert!(matches!(
        PublicKey::from_executor_id(&id[..31]),
        Err(GameError::Invalid("executor id length"))
    ));
    assert!(matches!(
        PublicKey::from_executor_id(&[0u8; 33]),
        Err(GameError::Invalid("executor id length"))
    ));
    assert!(matches!(
        PublicKey::from_executor_id(&[]),
        Err(GameError::Invalid("executor id length"))
    ));
}

#[test]
fn a_new_player_board_is_empty_and_unfinished() {
    let board = PlayerBoard::new();
    assert_eq!(board.get_board().0, vec![0; 9]);
    assert!(!board.is_placed());
}

#[test]
fn a_player_board_takes_marks_on_empty_cells() {
    let mut board = PlayerBoard::new();
    assert!(board.make_move(0, 0, Cell::X).is_ok());
    assert!(board.make_move(2, 1, Cell::O).is_ok());
    assert_eq!(board.get_board().0, vec![1, 0, 0, 0, 0, 2, 0, 0, 0]);
    assert_eq!(board.get_board().get(BOARD_SIZE, 2, 1), Cell::O);
}

#[test]
fn a_player_board_refuses_what_breaks_a_rule() {
    let mut board = PlayerBoard::new();
    assert!(board.make_move(1, 1, Cell::X).is_ok());
    assert!(matches!(
        board.make_move(3, 0, Cell::X),
        Err(GameError::Invalid("coordinate out of bounds"))
    ));
    assert!(matches!(
        board.make_move(0, 3, Cell::X),
        Err(GameError::Invalid("coordinate out of bounds"))
    ));
    assert!(matches!(
        board.make_move(1, 1, Cell::O),
        Err(GameError::Invalid("cell already occupied"))
    ));
    assert_eq!(board.get_board().0, vec![0, 0, 0, 0, 1, 0, 0, 0, 0]);
}

#[test]
fn a_finished_player_board_takes_no_mark() {
    let mut board = PlayerBoard::new();
    board.set_finished();
    assert!(board.is_placed());
    assert!(matches!(
        board.make_move(0, 0, Cell::X),
        Err(GameError::Invalid("game already finished"))
    ));
    // Finished is named before anything else.
    assert!(matches!(
        board.make_move(9, 9, Cell::X),
        Err(GameError::Invalid("game already finished"))
    ));
    assert_eq!(board.get_board().0, vec![0; 9]);
}

#[test]
fn a_player_board_can_be_changed_through_its_board() {
    let mut board = PlayerBoard::new();
    board.get_board_mut().set(BOARD_SIZE, 2, 2, Cell::O);
    assert_eq!(board.get_board().get(BOARD_SIZE, 2, 2), Cell::O);
    assert!(matches!(
        board.make_move(2, 2, Cell::X),
        Err(GameError::Invalid("cell already occupied"))
    ));
    *board.get_board_mut() = Board::new_zeroed(BOARD_SIZE);
    assert!(board.make_move(2, 2, Cell::X).is_ok());
}

#[test]
fn a_stored_player_board_comes_back_as_it_was() {
    let mut board = PlayerBoard::new();
    assert!(board.make_move(1, 0, Cell::O).is_ok());
    board.set_finished();
    let (own, ships, placed) = board.into_parts();
    assert_eq!(own.0, vec![0, 2, 0, 0, 0, 0, 0, 0, 0]);
    assert_eq!(ships, 0);
    assert!(placed);
    let board = PlayerBoard::from_parts(Board(vec![1; 9]), 4, false);
    assert_eq!(board.get_board().0, vec![1; 9]);
    assert!(!board.is_placed());
    let (_, ships, _) = board.into_parts();
    assert_eq!(ships, 4);
}

#[test]
fn error_messages_read_as_they_are_shown() {
    assert_eq!(GameError::NotFound("match-7".to_string()).message(), "not found: match-7");
    assert_eq!(GameError::Invalid("duplicate coordinate").message(), "invalid input: duplicate coordinate");
    assert_eq!(GameError::Forbidden("not your turn").message(), "forbidden: not your turn");
    assert_eq!(GameError::Finished.message(), "already finished");
}
