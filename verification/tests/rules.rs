use chess3d::game::GameState;
use chess3d::mv::{Move, MoveError};
use chess3d::pieces::{Piece, PieceKind, Side};
use chess3d::square::Square;
use chess3d::status::{AutomaticDrawReason, DrawReason, GameOutcome, GameStatus, WinReason};

fn square(name: &str) -> Square {
    Square::from_algebraic(name).expect("test square must be valid")
}

fn apply_moves(game: &GameState, moves: &[(&str, &str)]) -> GameState {
    let mut state = game.copy();

    for &(from, to) in moves {
        state = state
            .apply_move(Move::new(square(from), square(to)))
            .expect("test move should be legal");
    }

    state
}

#[test]
fn starting_position_has_exact_fen_and_20_legal_moves() {
    let game = GameState::starting_position();

    assert_eq!(
        game.to_fen(),
        "rnbqkbnr/pppppppp/8/8/8/8/PPPPPPPP/RNBQKBNR w KQkq - 0 1"
    );
    assert_eq!(game.legal_moves().len(), 20);
}

#[test]
fn fen_roundtrip_preserves_complex_position() {
    let fen = "r3k2r/ppp2ppp/2n5/3pp3/3PP3/2N5/PPP2PPP/R3K2R w KQkq d6 7 12";
    let game = GameState::from_fen(fen).expect("complex FEN should parse");

    assert_eq!(game.to_fen(), fen);
}

#[test]
fn pinned_piece_cannot_move_off_the_file() {
    let game = GameState::from_fen("4r1k1/8/8/8/8/8/4R3/4K3 w - - 0 1").expect("FEN should parse");

    assert!(!game.is_legal_move(Move::new(square("e2"), square("d2"))));
    assert!(game.is_legal_move(Move::new(square("e2"), square("e8"))));
}

#[test]
fn double_check_allows_only_king_moves() {
    let game = GameState::from_fen("4k3/8/8/1B6/8/8/8/4R1K1 b - - 0 1").expect("FEN should parse");

    let legal_moves = game.legal_moves();

    assert!(!legal_moves.is_empty());
    assert!(
        legal_moves
            .iter()
            .all(|candidate| candidate.from() == square("e8"))
    );
}

#[test]
fn kingside_castle_is_generated_and_updates_state() {
    let game = GameState::from_fen("4k2r/8/8/8/8/8/8/4K2R w Kk - 0 1").expect("FEN should parse");

    let castle = Move::new(square("e1"), square("g1"));
    assert!(game.is_legal_move(castle));

    let next = game.apply_move(castle).expect("castling should be legal");

    assert_eq!(
        next.piece_at(square("g1")),
        Some(Piece::new(Side::White, PieceKind::King))
    );
    assert_eq!(
        next.piece_at(square("f1")),
        Some(Piece::new(Side::White, PieceKind::Rook))
    );
    assert_eq!(next.to_fen(), "4k2r/8/8/8/8/8/8/5RK1 b k - 1 1");
}

#[test]
fn castling_through_check_is_not_legal() {
    let game = GameState::from_fen("4k2r/8/8/8/8/5r2/8/4K2R w Kk - 0 1").expect("FEN should parse");

    assert!(!game.is_legal_move(Move::new(square("e1"), square("g1"))));
}

#[test]
fn en_passant_capture_is_generated_and_applied() {
    let game = GameState::from_fen("4k3/8/8/3pP3/8/8/8/4K3 w - d6 0 1").expect("FEN should parse");
    let en_passant = Move::new(square("e5"), square("d6"));

    assert!(game.is_legal_move(en_passant));

    let next = game
        .apply_move(en_passant)
        .expect("en passant should be legal");

    assert_eq!(
        next.piece_at(square("d6")),
        Some(Piece::new(Side::White, PieceKind::Pawn))
    );
    assert_eq!(next.piece_at(square("d5")), None);
    assert_eq!(next.to_fen(), "4k3/8/3P4/8/8/8/8/4K3 b - - 0 1");
}

#[test]
fn en_passant_that_exposes_the_king_is_illegal() {
    let game =
        GameState::from_fen("4r1k1/8/8/3pP3/8/8/8/4K3 w - d6 0 1").expect("FEN should parse");

    assert!(!game.is_legal_move(Move::new(square("e5"), square("d6"))));
}

#[test]
fn promotion_requires_choice_and_applies_selected_piece() {
    let game = GameState::from_fen("4k3/P7/8/8/8/8/8/4K3 w - - 0 1").expect("FEN should parse");
    let plain = Move::new(square("a7"), square("a8"));
    let promote = Move::with_promotion(square("a7"), square("a8"), PieceKind::Queen);

    assert!(!game.is_legal_move(plain));
    assert!(game.is_legal_move(promote));

    let next = game.apply_move(promote).expect("promotion should be legal");

    assert_eq!(
        next.piece_at(square("a8")),
        Some(Piece::new(Side::White, PieceKind::Queen))
    );
    assert_eq!(next.to_fen(), "Q3k3/8/8/8/8/8/8/4K3 b - - 0 1");
}

#[test]
fn checkmate_is_reported_as_a_terminal_win() {
    let game = GameState::from_fen("7k/6Q1/6K1/8/8/8/8/8 b - - 0 1").expect("FEN should parse");

    assert_eq!(
        game.status(),
        GameStatus::Finished(GameOutcome::Win {
            winner: Side::White,
            reason: WinReason::Checkmate,
        })
    );
}

#[test]
fn stalemate_is_reported_as_a_terminal_draw() {
    let game = GameState::from_fen("7k/5Q2/6K1/8/8/8/8/8 b - - 0 1").expect("FEN should parse");

    assert_eq!(
        game.status(),
        GameStatus::Finished(GameOutcome::Draw(DrawReason::Stalemate))
    );
}

#[test]
fn repetition_progresses_from_claimable_to_automatic() {
    let start = GameState::from_fen("4k3/8/8/8/8/8/N7/4K3 w - - 0 1").expect("FEN should parse");
    let cycle = [("a2", "b4"), ("e8", "d8"), ("b4", "a2"), ("d8", "e8")];

    let threefold = apply_moves(&apply_moves(&start, &cycle), &cycle);
    match threefold.status() {
        GameStatus::Ongoing { draw_available, .. } => {
            assert!(draw_available.threefold_repetition);
            assert!(!draw_available.fifty_move_rule);
        }
        other => panic!("expected ongoing game with claimable draw, got {other:?}"),
    }

    let fivefold = apply_moves(&apply_moves(&threefold, &cycle), &cycle);
    assert_eq!(
        fivefold.status(),
        GameStatus::Finished(GameOutcome::Draw(DrawReason::Automatic(
            AutomaticDrawReason::FivefoldRepetition,
        )))
    );
}

#[test]
fn fifty_and_seventy_five_move_rules_are_distinct() {
    let claimable =
        GameState::from_fen("4k3/8/8/8/8/8/8/4K3 w - - 100 1").expect("FEN should parse");
    let automatic =
        GameState::from_fen("4k3/8/8/8/8/8/8/4K3 w - - 150 1").expect("FEN should parse");

    match claimable.status() {
        GameStatus::Ongoing { draw_available, .. } => {
            assert!(draw_available.fifty_move_rule);
            assert!(!draw_available.threefold_repetition);
        }
        other => panic!("expected ongoing claimable-draw state, got {other:?}"),
    }

    assert_eq!(
        automatic.status(),
        GameStatus::Finished(GameOutcome::Draw(DrawReason::Automatic(
            AutomaticDrawReason::SeventyFiveMoveRule,
        )))
    );
}

#[test]
fn no_piece_at_source_reports_a_distinct_error() {
    let start = GameState::starting_position();

    assert_eq!(
        start.apply_move(Move::new(square("e3"), square("e4"))),
        Err(MoveError::NoPieceAtSource)
    );
}

#[test]
fn plain_promotion_move_is_rejected_by_public_move_application() {
    let game = GameState::from_fen("4k3/P7/8/8/8/8/8/4K3 w - - 0 1").expect("FEN should parse");

    assert_eq!(
        game.apply_move(Move::new(square("a7"), square("a8"))),
        Err(MoveError::IllegalMove)
    );
}

#[test]
fn invalid_promotion_piece_is_rejected_by_public_move_application() {
    let game = GameState::from_fen("4k3/P7/8/8/8/8/8/4K3 w - - 0 1").expect("FEN should parse");

    assert_eq!(
        game.apply_move(Move::with_promotion(
            square("a7"),
            square("a8"),
            PieceKind::King,
        )),
        Err(MoveError::IllegalMove)
    );
    assert_eq!(
        game.apply_move(Move::with_promotion(
            square("a7"),
            square("a8"),
            PieceKind::Pawn,
        )),
        Err(MoveError::IllegalMove)
    );
}

#[test]
fn queenside_castle_is_generated_and_updates_state() {
    let game = GameState::from_fen("r3k3/8/8/8/8/8/8/R3K3 w Qq - 0 1").expect("FEN should parse");

    let castle = Move::new(square("e1"), square("c1"));
    assert!(game.is_legal_move(castle));

    let next = game
        .apply_move(castle)
        .expect("queenside castling should be legal");

    assert_eq!(
        next.piece_at(square("c1")),
        Some(Piece::new(Side::White, PieceKind::King))
    );
    assert_eq!(
        next.piece_at(square("d1")),
        Some(Piece::new(Side::White, PieceKind::Rook))
    );
    assert_eq!(next.to_fen(), "r3k3/8/8/8/8/8/8/2KR4 b q - 1 1");
}

#[test]
fn move_display_formats_basic_and_promotion_uci() {
    let e2 = Square::from_algebraic("e2").expect("valid square");
    let e4 = Square::from_algebraic("e4").expect("valid square");
    let a7 = Square::from_algebraic("a7").expect("valid square");
    let a8 = Square::from_algebraic("a8").expect("valid square");

    let basic = Move::new(e2, e4);
    assert_eq!(basic.from(), e2);
    assert_eq!(basic.to(), e4);
    assert_eq!(basic.promotion(), None);
    assert_eq!(basic.to_string(), "e2e4");

    let promotion = Move::with_promotion(a7, a8, PieceKind::Queen);
    assert_eq!(promotion.promotion(), Some(PieceKind::Queen));
    assert_eq!(promotion.to_string(), "a7a8q");
    assert_eq!(
        Move::with_promotion(a7, a8, PieceKind::Knight).to_string(),
        "a7a8n"
    );
}

#[test]
fn move_error_messages_stay_stable() {
    assert_eq!(
        MoveError::GameAlreadyFinished.to_string(),
        "game is already finished"
    );
    assert_eq!(
        MoveError::NoPieceAtSource.to_string(),
        "no piece at source square"
    );
    assert_eq!(
        MoveError::WrongSideToMove.to_string(),
        "piece does not match side to move"
    );
    assert_eq!(
        MoveError::MissingPromotionChoice.to_string(),
        "promotion move requires a promotion piece"
    );
    assert_eq!(
        MoveError::InvalidPromotionChoice.to_string(),
        "promotion piece must be queen, rook, bishop, or knight"
    );
}

#[test]
fn square_construction_offset_and_iteration_cover_edges() {
    assert_eq!(Square::new(7, 7), Some(Square::from_coords_unchecked(7, 7)));
    assert_eq!(Square::new(8, 0), None);

    let e4 = Square::from_algebraic("e4").expect("valid square");
    assert_eq!(e4.file(), 4);
    assert_eq!(e4.rank(), 3);
    assert_eq!(e4.offset(1, 1), Square::from_algebraic("f5"));
    assert_eq!(e4.offset(-5, 0), None);

    let all = Square::all();
    assert_eq!(all.len(), 64);
    assert_eq!(all.first().copied(), Square::from_algebraic("a1"));
    assert_eq!(all.last().copied(), Square::from_algebraic("h8"));
    assert_eq!(e4.to_algebraic(), "e4");
    assert_eq!(e4.to_string(), "e4");
}
