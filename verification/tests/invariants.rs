use chess3d::game::{FenError, GameState};
use chess3d::mv::{Move, MoveError};
use chess3d::pieces::Side;
use chess3d::square::Square;

fn square(name: &str) -> Square {
    Square::from_algebraic(name).expect("fixture square should parse")
}

fn play(game: &GameState, from: &str, to: &str) -> GameState {
    game.apply_move(Move::new(square(from), square(to)))
        .expect("fixture move should be legal")
}

#[test]
fn a_move_into_check_is_refused_and_the_mover_is_never_left_in_check() {
    let game = GameState::from_fen("4k3/8/8/8/8/8/4r3/4K3 w - - 0 1").unwrap();
    assert_eq!(
        game.apply_move(Move::new(square("e1"), square("f2"))),
        Err(MoveError::IllegalMove)
    );
    for candidate in game.legal_moves() {
        let next = game.apply_move(candidate).unwrap();
        assert!(!next.is_in_check(Side::White));
        assert_eq!(next.side_to_move(), Side::Black);
    }
}

#[test]
fn castling_rights_only_shrink() {
    let game = GameState::from_fen("r3k2r/8/8/8/8/8/8/R3K2R w KQkq - 0 1").unwrap();
    let after_rook = play(&game, "h1", "h2");
    assert!(!after_rook.castling_rights().kingside(Side::White));
    assert!(after_rook.castling_rights().queenside(Side::White));
    let after_king = play(&after_rook, "e8", "d8");
    assert!(!after_king.castling_rights().kingside(Side::Black));
    assert!(!after_king.castling_rights().queenside(Side::Black));
    assert!(after_king.castling_rights().queenside(Side::White));
}

#[test]
fn clocks_count_as_the_rules_say() {
    let start = GameState::starting_position();
    let knight = play(&start, "g1", "f3");
    assert_eq!(knight.halfmove_clock(), 1);
    assert_eq!(knight.fullmove_number(), 1);
    let reply = play(&knight, "g8", "f6");
    assert_eq!(reply.halfmove_clock(), 2);
    assert_eq!(reply.fullmove_number(), 2);
    let pawn = play(&reply, "e2", "e4");
    assert_eq!(pawn.halfmove_clock(), 0);
    assert_eq!(pawn.fullmove_number(), 2);
}

#[test]
fn history_grows_by_the_new_position_key() {
    let start = GameState::starting_position();
    assert_eq!(start.position_history().len(), 1);
    let next = play(&start, "e2", "e4");
    assert_eq!(next.position_history().len(), 2);
    assert_eq!(next.position_history()[0], start.position_history()[0]);
    assert_eq!(
        next.position_history()[1],
        "rnbqkbnr/pppppppp/8/8/4P3/8/PPPP1PPP/RNBQKBNR b KQkq -"
    );
}

#[test]
fn en_passant_targets_lie_on_the_third_or_sixth_rank() {
    let start = GameState::starting_position();
    let white = play(&start, "d2", "d4");
    assert_eq!(white.en_passant_target(), Some(square("d3")));
    let black = play(&white, "c7", "c5");
    assert_eq!(black.en_passant_target(), Some(square("c6")));
    let quiet = play(&black, "g1", "f3");
    assert_eq!(quiet.en_passant_target(), None);
}

#[test]
fn captures_remove_exactly_one_piece() {
    let game = GameState::from_fen("4k3/8/8/3pP3/8/8/8/4K3 w - d6 0 1").unwrap();
    assert_eq!(game.board().piece_count(), 4);
    let captured = play(&game, "e5", "d6");
    assert_eq!(captured.board().piece_count(), 3);
    let quiet = play(&game, "e1", "e2");
    assert_eq!(quiet.board().piece_count(), 4);
}

#[test]
fn writing_then_reading_fen_gives_the_position_back() {
    let start = GameState::starting_position();
    let game = play(&play(&start, "e2", "e4"), "c7", "c5");
    let read = GameState::from_fen(&game.to_fen()).unwrap();
    assert_eq!(read.to_fen(), game.to_fen());
    assert_eq!(read.board(), game.board());
    assert_eq!(read.position_history().len(), 1);
    assert_eq!(read.legal_moves(), game.legal_moves());
}

#[test]
fn fen_errors_name_the_first_fault() {
    assert_eq!(
        GameState::from_fen("8/8 w - - 0").err(),
        Some(FenError::InvalidFieldCount)
    );
    assert_eq!(
        GameState::from_fen("8/8 w - - 0 1 x").err(),
        Some(FenError::InvalidFieldCount)
    );
    assert_eq!(
        GameState::from_fen("8/8/8/8 w - - 0 1").err().unwrap().to_string(),
        "invalid board field: expected 8 ranks"
    );
    assert_eq!(
        GameState::from_fen("4k3/8/8/8/8/8/8/4K2X w - - 0 1").err().unwrap().to_string(),
        "invalid board field: invalid piece token 'X'"
    );
    assert_eq!(
        GameState::from_fen("4k3/8/8/8/8/8/8/4K3X w - - 0 1").err().unwrap().to_string(),
        "invalid board field: invalid piece token 'X'"
    );
    assert_eq!(
        GameState::from_fen("4k3/8/8/8/8/8/8/4K3p w - - 0 1").err().unwrap().to_string(),
        "invalid board field: too many files in rank"
    );
    assert_eq!(
        GameState::from_fen("4k3/8/8/8/8/8/8/4K9 w - - 0 1").err().unwrap().to_string(),
        "invalid board field: empty-square digit must be between 1 and 8"
    );
    assert_eq!(
        GameState::from_fen("4k3/8/8/8/8/8/8/4K2 w - - 0 1").err().unwrap().to_string(),
        "invalid board field: rank does not sum to 8 files"
    );
    assert_eq!(
        GameState::from_fen("4k3/8/8/8/8/8/8/8 w - - 0 1").err().unwrap().to_string(),
        "missing White king"
    );
    assert_eq!(
        GameState::from_fen("4k2k/8/8/8/8/8/8/4K3 w - - 0 1").err().unwrap().to_string(),
        "multiple Black kings"
    );
    assert_eq!(
        GameState::from_fen("4k3/8/8/8/8/8/8/4K3 x - - 0 1").err(),
        Some(FenError::InvalidSideToMove)
    );
    assert_eq!(
        GameState::from_fen("4k3/8/8/8/8/8/8/4K3 w KX - 0 1").err(),
        Some(FenError::InvalidCastlingRights)
    );
    assert_eq!(
        GameState::from_fen("4k3/8/8/8/8/8/8/4K3 w - e4 0 1").err(),
        Some(FenError::InvalidEnPassantTarget)
    );
    assert_eq!(
        GameState::from_fen("4k3/8/8/8/8/8/8/4K3 w - - 70000 1").err(),
        Some(FenError::InvalidHalfmoveClock)
    );
    assert_eq!(
        GameState::from_fen("4k3/8/8/8/8/8/8/4K3 w - - 0 0").err(),
        Some(FenError::InvalidFullmoveNumber)
    );
    assert_eq!(
        GameState::from_fen("4k3/8/8/8/8/8/8/4K3 w - - 0 -1").err(),
        Some(FenError::InvalidFullmoveNumber)
    );
    let plus = GameState::from_fen("4k3/8/8/8/8/8/8/4K3 w KQkq e3 +7 65535").unwrap();
    assert_eq!(plus.halfmove_clock(), 7);
    assert_eq!(plus.fullmove_number(), 65535);
    assert_eq!(plus.to_fen(), "4k3/8/8/8/8/8/8/4K3 w KQkq e3 7 65535");
}

#[test]
fn a_finished_game_refuses_moves() {
    let mate = GameState::from_fen("7k/6Q1/6K1/8/8/8/8/8 b - - 0 1").unwrap();
    assert_eq!(
        mate.apply_move(Move::new(square("h8"), square("g8"))),
        Err(MoveError::GameAlreadyFinished)
    );
    let start = GameState::starting_position();
    assert_eq!(
        start.apply_move(Move::new(square("e7"), square("e5"))),
        Err(MoveError::WrongSideToMove)
    );
}

#[test]
fn legal_moves_are_listed_square_by_square_in_board_order() {
    let names: Vec<String> = GameState::starting_position()
        .legal_moves()
        .into_iter()
        .map(|m| m.to_string())
        .collect();
    assert_eq!(
        names,
        vec![
            "a2a3", "a2a4", "b1a3", "b1c3", "b2b3", "b2b4", "c2c3", "c2c4", "d2d3", "d2d4", "e2e3",
            "e2e4", "f2f3", "f2f4", "g1f3", "g1h3", "g2g3", "g2g4", "h2h3", "h2h4",
        ]
    );
}

#[test]
fn promotion_targets_repeat_once_per_piece() {
    let mut session = chess3d::shell::match_state::MatchSession::start_local_match();
    session.replace_game_state(GameState::from_fen("7k/4P3/8/8/8/8/8/4K3 w - - 0 1").unwrap());
    session.selected_square = chess3d::square::Square::from_algebraic("e7");
    let targets: Vec<String> = session.legal_targets_for_selected().into_iter().map(|s| s.to_string()).collect();
    assert_eq!(targets, vec!["e8", "e8", "e8", "e8"]);
}

#[test]
fn legal_moves_are_listed_once_each_when_kings_castle_from_home() {
    for fen in [
        "rnbqkbnr/pppppppp/8/8/8/8/PPPPPPPP/RNBQKBNR w KQkq - 0 1",
        "r3k2r/8/8/8/8/8/8/R3K2R w KQkq - 0 1",
        "r3k2r/8/8/8/8/8/8/R3K2R b KQkq - 0 1",
        "4k3/1P6/8/2pP4/8/8/8/4K3 w - c6 0 1",
    ] {
        let moves = GameState::from_fen(fen).unwrap().legal_moves();
        for (i, a) in moves.iter().enumerate() {
            for b in &moves[i + 1..] {
                assert_ne!(a, b, "{fen}");
            }
        }
    }
}

#[test]
fn a_castling_right_held_away_from_home_lists_a_king_step_twice() {
    let game = GameState::from_fen("4k3/8/8/8/8/8/6K1/7R w K - 0 1").unwrap();
    let step = Move::new(square("g2"), square("g1"));
    let moves = game.legal_moves();
    assert_eq!(moves.iter().filter(|m| **m == step).count(), 2);
}

#[test]
fn legal_moves_name_a_promotion_exactly_when_a_pawn_reaches_the_last_rank() {
    let game = GameState::from_fen("3rk3/4P3/8/8/8/8/8/4K3 w - - 0 1").unwrap();
    for m in game.legal_moves() {
        let mover = game.piece_at(m.from()).unwrap();
        assert_eq!(mover.side, Side::White);
        let reaches_last_rank = mover.kind == chess3d::pieces::PieceKind::Pawn && m.to().rank() == 7;
        assert_eq!(m.promotion().is_some(), reaches_last_rank);
        assert!(game.apply_move(m).is_ok());
    }
}

#[test]
fn a_game_played_from_fen_reads_back_from_its_own_fen() {
    let start = GameState::from_fen("r3k2r/pppp1ppp/8/8/4p3/8/PPPPPPPP/R3K2R w KQkq - 7 12").unwrap();
    let game = play(&play(&play(&start, "d2", "d4"), "e4", "d3"), "c2", "d3");
    let read = GameState::from_fen(&game.to_fen()).unwrap();
    assert_eq!(read.board(), game.board());
    assert_eq!(read.side_to_move(), game.side_to_move());
    assert_eq!(read.castling_rights(), game.castling_rights());
    assert_eq!(read.en_passant_target(), game.en_passant_target());
    assert_eq!(read.halfmove_clock(), game.halfmove_clock());
    assert_eq!(read.fullmove_number(), game.fullmove_number());
    assert_eq!(read.position_history().len(), 1);
}

#[test]
fn a_king_away_from_the_castling_squares_lists_no_move_twice() {
    let game = GameState::from_fen("4k3/8/8/8/8/K7/8/7R w K - 0 1").unwrap();
    let moves = game.legal_moves();
    for (i, a) in moves.iter().enumerate() {
        for b in &moves[i + 1..] {
            assert_ne!(a, b);
        }
    }
    assert!(moves.contains(&Move::new(square("a3"), square("g1"))));
}

#[test]
fn a_king_next_to_its_castling_square_lists_that_step_twice() {
    let game = GameState::from_fen("4k3/8/8/8/8/8/5K2/7R w K - 0 1").unwrap();
    let step = Move::new(square("f2"), square("g1"));
    assert_eq!(game.legal_moves().iter().filter(|m| **m == step).count(), 2);
}

#[test]
fn iter_side_lists_each_piece_of_the_side_once_in_square_order() {
    let game = GameState::starting_position();
    let black = game.board().iter_side(Side::Black);
    assert_eq!(black.len(), 16);
    for window in black.windows(2) {
        let (a, b) = (window[0].0, window[1].0);
        assert!(a.file() < b.file() || (a.file() == b.file() && a.rank() < b.rank()));
    }
    for (s, p) in &black {
        assert_eq!(game.piece_at(*s), Some(*p));
        assert_eq!(p.side, Side::Black);
    }
    assert_eq!(black[0].0, square("a7"));
    assert_eq!(black[1].0, square("a8"));
}

#[test]
fn king_square_is_the_first_king_or_none() {
    let game = GameState::starting_position();
    assert_eq!(game.board().king_square(Side::White), Some(square("e1")));
    assert_eq!(game.board().king_square(Side::Black), Some(square("e8")));
    let empty = chess3d::board::BoardState::empty();
    assert_eq!(empty.king_square(Side::White), None);
}
