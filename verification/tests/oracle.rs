use chess3d::game::GameState;
use chess3d::mv::Move;
use chess3d::pieces::{PieceKind, Side};
use chess3d::square::Square;
use chess3d::status::{DrawReason, GameOutcome, GameStatus, WinReason};
use chess3d::testing::checker::{InvariantChecker, ViolationKind};
use chess3d::testing::oracle::{status_debug, GameOracle, GameRecord, GameReport, GameTermination};
use chess3d::testing::strategy::{
    pick_weighted, MoveStrategy, RandomStrategy, ScriptedStrategy, WeightedStrategy,
};

fn square(name: &str) -> Square {
    Square::from_algebraic(name).expect("test square must be valid")
}

fn assert_checkmate(record: &GameRecord, winner: Side) {
    assert!(
        record.violations.is_empty(),
        "violations: {:?}",
        record.violations
    );
    match &record.termination {
        GameTermination::Completed(GameStatus::Finished(GameOutcome::Win {
            winner: w,
            reason: WinReason::Checkmate,
        })) if *w == winner => {}
        other => panic!("expected {winner:?} checkmate, got {other:?}"),
    }
}

fn assert_draw(record: &GameRecord, expected_reason: DrawReason) {
    assert!(
        record.violations.is_empty(),
        "violations: {:?}",
        record.violations
    );
    match &record.termination {
        GameTermination::Completed(GameStatus::Finished(GameOutcome::Draw(reason)))
            if *reason == expected_reason => {}
        other => panic!("expected draw {expected_reason:?}, got {other:?}"),
    }
}

fn assert_no_violations(record: &GameRecord) {
    assert!(
        record.violations.is_empty(),
        "violations: {:?}",
        record.violations
    );
}

#[test]
fn scholars_mate_reaches_checkmate_in_7_ply() {
    let mut oracle = GameOracle::new(
        Box::new(ScriptedStrategy::new(
            vec![
                Move::new(square("e2"), square("e4")),
                Move::new(square("d1"), square("h5")),
                Move::new(square("f1"), square("c4")),
                Move::new(square("h5"), square("f7")),
            ],
            0,
        )),
        Box::new(ScriptedStrategy::new(
            vec![
                Move::new(square("e7"), square("e5")),
                Move::new(square("b8"), square("c6")),
                Move::new(square("g8"), square("f6")),
            ],
            0,
        )),
    );
    let record = oracle.play_game(GameState::starting_position());
    assert_checkmate(&record, Side::White);
    assert_eq!(record.move_count, 7);
}

#[test]
fn fools_mate_reaches_checkmate_in_4_ply() {
    let mut oracle = GameOracle::new(
        Box::new(ScriptedStrategy::new(
            vec![
                Move::new(square("f2"), square("f3")),
                Move::new(square("g2"), square("g4")),
            ],
            0,
        )),
        Box::new(ScriptedStrategy::new(
            vec![
                Move::new(square("e7"), square("e5")),
                Move::new(square("d8"), square("h4")),
            ],
            0,
        )),
    );
    let record = oracle.play_game(GameState::starting_position());
    assert_checkmate(&record, Side::Black);
    assert_eq!(record.move_count, 4);
}

#[test]
fn en_passant_capture_completes_without_violations() {
    let mut oracle = GameOracle::new(
        Box::new(ScriptedStrategy::new(
            vec![
                Move::new(square("e2"), square("e4")),
                Move::new(square("e4"), square("e5")),
                Move::new(square("e5"), square("f6")),
            ],
            0,
        )),
        Box::new(ScriptedStrategy::new(
            vec![
                Move::new(square("d7"), square("d5")),
                Move::new(square("f7"), square("f5")),
            ],
            0,
        )),
    )
    .with_max_moves(6);
    let record = oracle.play_game(GameState::starting_position());
    assert_no_violations(&record);
    assert!(
        record.move_count >= 5,
        "should play at least the scripted moves"
    );
}

#[test]
fn castling_both_sides_completes_without_violations() {
    let fen = "r3k2r/pppppppp/8/8/8/8/PPPPPPPP/R3K2R w KQkq - 0 1";
    let game = GameState::from_fen(fen).expect("test FEN should parse");
    let mut oracle = GameOracle::new(
        Box::new(ScriptedStrategy::new(
            vec![Move::new(square("e1"), square("g1"))],
            0,
        )),
        Box::new(ScriptedStrategy::new(
            vec![Move::new(square("e8"), square("c8"))],
            0,
        )),
    )
    .with_max_moves(4);
    let record = oracle.play_game(game);
    assert_no_violations(&record);
    assert!(record.move_count >= 2);
}

#[test]
fn promotion_to_all_four_piece_types_without_violations() {
    for piece in [
        PieceKind::Queen,
        PieceKind::Rook,
        PieceKind::Bishop,
        PieceKind::Knight,
    ] {
        let game =
            GameState::from_fen("4k3/P7/8/8/8/8/8/4K3 w - - 0 1").expect("test FEN should parse");
        let mut oracle = GameOracle::new(
            Box::new(ScriptedStrategy::new(
                vec![Move::with_promotion(square("a7"), square("a8"), piece)],
                0,
            )),
            Box::new(RandomStrategy::new(42)),
        )
        .with_max_moves(2);
        let record = oracle.play_game(game);
        assert_no_violations(&record);
    }
}

#[test]
fn promotion_with_capture_completes_without_violations() {
    let game =
        GameState::from_fen("1r2k3/P7/8/8/8/8/8/4K3 w - - 0 1").expect("test FEN should parse");
    let mut oracle = GameOracle::new(
        Box::new(ScriptedStrategy::new(
            vec![Move::with_promotion(
                square("a7"),
                square("b8"),
                PieceKind::Queen,
            )],
            0,
        )),
        Box::new(RandomStrategy::new(42)),
    )
    .with_max_moves(2);
    let record = oracle.play_game(game);
    assert_no_violations(&record);
}

#[test]
fn stalemate_position_detects_draw() {
    let game =
        GameState::from_fen("7k/5Q2/6K1/8/8/8/8/8 b - - 0 1").expect("test FEN should parse");
    let mut oracle = GameOracle::new(
        Box::new(RandomStrategy::new(0)),
        Box::new(RandomStrategy::new(0)),
    );
    let record = oracle.play_game(game);
    assert_draw(&record, DrawReason::Stalemate);
    assert_eq!(record.move_count, 0);
}

#[test]
fn threefold_repetition_detected_via_knight_shuttle() {
    let start =
        GameState::from_fen("4k3/8/8/8/8/8/N7/4K3 w - - 0 1").expect("test FEN should parse");
    let cycle_white = [
        Move::new(square("a2"), square("b4")),
        Move::new(square("b4"), square("a2")),
    ];
    let cycle_black = [
        Move::new(square("e8"), square("d8")),
        Move::new(square("d8"), square("e8")),
    ];
    let mut script_w = Vec::new();
    let mut script_b = Vec::new();
    for _ in 0..5 {
        script_w.extend_from_slice(&cycle_white);
        script_b.extend_from_slice(&cycle_black);
    }

    let mut oracle = GameOracle::new(
        Box::new(ScriptedStrategy::new(script_w, 0)),
        Box::new(ScriptedStrategy::new(script_b, 0)),
    );
    let record = oracle.play_game(start);
    assert_no_violations(&record);
    match &record.termination {
        GameTermination::Completed(GameStatus::Finished(GameOutcome::Draw(_))) => {}
        other => panic!("expected draw termination, got {other:?}"),
    }
}

#[test]
fn fifty_move_rule_position_detects_draw_availability() {
    let game =
        GameState::from_fen("4k3/8/8/8/8/8/8/4K3 w - - 150 1").expect("test FEN should parse");
    let mut oracle = GameOracle::new(
        Box::new(RandomStrategy::new(0)),
        Box::new(RandomStrategy::new(0)),
    );
    let record = oracle.play_game(game);
    assert_no_violations(&record);
    assert_eq!(record.move_count, 0);
    match &record.termination {
        GameTermination::Completed(GameStatus::Finished(GameOutcome::Draw(_))) => {}
        other => panic!("expected automatic draw, got {other:?}"),
    }
}

#[test]
fn en_passant_exposing_king_is_not_played() {
    let game =
        GameState::from_fen("4r1k1/8/8/3pP3/8/8/8/4K3 w - d6 0 1").expect("test FEN should parse");
    let en_passant = Move::new(square("e5"), square("d6"));
    assert!(
        !game.is_legal_move(en_passant),
        "en passant exposing king should be illegal"
    );
    let mut oracle = GameOracle::new(
        Box::new(RandomStrategy::new(42)),
        Box::new(RandomStrategy::new(99)),
    )
    .with_max_moves(20);
    let record = oracle.play_game(game);
    assert_no_violations(&record);
}

#[test]
fn double_check_position_plays_without_violations() {
    let game =
        GameState::from_fen("4k3/8/8/1B6/8/8/8/4R1K1 b - - 0 1").expect("test FEN should parse");
    let mut oracle = GameOracle::new(
        Box::new(RandomStrategy::new(42)),
        Box::new(RandomStrategy::new(99)),
    )
    .with_max_moves(20);
    let record = oracle.play_game(game);
    assert_no_violations(&record);
}

#[test]
fn random_strategy_selects_from_legal_moves() {
    let game = GameState::starting_position();
    let legal_moves = game.legal_moves();
    let mut strategy = RandomStrategy::new(42);
    let selected = strategy.select_move(&game, &legal_moves);
    assert!(
        legal_moves.contains(&selected),
        "random strategy must return a move from the legal moves list"
    );
}

#[test]
fn weighted_strategy_selects_from_legal_moves() {
    let game = GameState::starting_position();
    let legal_moves = game.legal_moves();
    let mut strategy = WeightedStrategy::new(42);
    let selected = strategy.select_move(&game, &legal_moves);
    assert!(
        legal_moves.contains(&selected),
        "weighted strategy must return a move from the legal moves list"
    );
}

#[test]
fn weighted_strategy_biases_toward_captures() {
    let game = GameState::from_fen("4k3/3p4/8/8/3Q4/8/8/4K3 w - - 0 1")
        .expect("test FEN should parse");
    let legal_moves = game.legal_moves();
    let capture = Move::new(
        Square::from_algebraic("d4").expect("valid"),
        Square::from_algebraic("d7").expect("valid"),
    );
    assert!(
        legal_moves.contains(&capture),
        "capture must be in legal moves"
    );

    let mut capture_count = 0;
    for seed in 0..100 {
        let mut strategy = WeightedStrategy::new(seed);
        if strategy.select_move(&game, &legal_moves) == capture {
            capture_count += 1;
        }
    }
    assert!(
        capture_count > 5,
        "weighted strategy should select captures more often than uniform, got {capture_count}/100"
    );
}

#[test]
fn scripted_strategy_plays_script_then_falls_back_to_random() {
    let game = GameState::starting_position();
    let legal_moves = game.legal_moves();

    let e2e4 = Move::new(
        Square::from_algebraic("e2").expect("valid"),
        Square::from_algebraic("e4").expect("valid"),
    );
    let mut strategy = ScriptedStrategy::new(vec![e2e4], 99);

    let first = strategy.select_move(&game, &legal_moves);
    assert_eq!(first, e2e4, "first move should be the scripted one");

    let second = strategy.select_move(&game, &legal_moves);
    assert!(
        legal_moves.contains(&second),
        "fallback move must be from legal moves"
    );
}

#[test]
fn invariant_checker_passes_for_a_legal_opening_move() {
    let before = GameState::starting_position();
    let mv = Move::new(
        Square::from_algebraic("e2").expect("valid"),
        Square::from_algebraic("e4").expect("valid"),
    );
    let after = before.apply_move(mv).expect("legal move");
    let violations = InvariantChecker::check(&before, &mv, &after);
    assert!(
        violations.is_empty(),
        "no violations expected for legal e2e4, got: {violations:?}"
    );
}

#[test]
fn invariant_checker_detects_fullmove_number_increment_after_black() {
    let after_e4 = GameState::starting_position()
        .apply_move(Move::new(
            Square::from_algebraic("e2").expect("valid"),
            Square::from_algebraic("e4").expect("valid"),
        ))
        .expect("legal");
    assert_eq!(
        after_e4.fullmove_number(),
        1,
        "fullmove stays 1 after white moves"
    );

    let mv = Move::new(
        Square::from_algebraic("e7").expect("valid"),
        Square::from_algebraic("e5").expect("valid"),
    );
    let after_e5 = after_e4.apply_move(mv).expect("legal");
    assert_eq!(
        after_e5.fullmove_number(),
        2,
        "fullmove becomes 2 after black moves"
    );

    let violations = InvariantChecker::check(&after_e4, &mv, &after_e5);
    assert!(
        violations.is_empty(),
        "no violations for legal e7e5, got: {violations:?}"
    );
}

#[test]
fn invariant_checker_validates_capture_piece_count() {
    let game = GameState::from_fen("4k3/3p4/8/8/3Q4/8/8/4K3 w - - 0 1")
        .expect("test FEN should parse");
    let capture = Move::new(
        Square::from_algebraic("d4").expect("valid"),
        Square::from_algebraic("d7").expect("valid"),
    );
    let after = game.apply_move(capture).expect("legal capture");
    let violations = InvariantChecker::check(&game, &capture, &after);
    assert!(
        violations.is_empty(),
        "no violations for legal capture, got: {violations:?}"
    );
}

#[test]
fn game_oracle_respects_move_limit() {
    let mut oracle = GameOracle::new(
        Box::new(RandomStrategy::new(42)),
        Box::new(RandomStrategy::new(99)),
    )
    .with_max_moves(10);

    let record = oracle.play_game(GameState::starting_position());
    match record.termination {
        GameTermination::MoveLimitReached(10) => {}
        GameTermination::Completed(_) => {}
        other => panic!("unexpected termination: {other:?}"),
    }
    assert!(record.move_count <= 10);
}

#[test]
fn checker_reports_a_wrong_successor() {
    let before = GameState::starting_position();
    let mv = Move::new(square("e2"), square("e4"));
    let unrelated = GameState::from_fen("4k3/8/8/8/8/8/8/4K3 w KQkq e6 3 9").unwrap();
    let violations = InvariantChecker::check(&before, &mv, &unrelated);
    let kinds: Vec<ViolationKind> = violations.iter().map(|v| v.kind).collect();
    assert_eq!(
        kinds,
        vec![
            ViolationKind::PieceCountInconsistent,
            ViolationKind::HalfmoveClockWrong,
            ViolationKind::FullmoveNumberWrong,
            ViolationKind::PositionHistoryInconsistent,
        ]
    );
    assert_eq!(
        violations[0].description,
        "quiet move should keep total pieces: before=32, after=2"
    );
    assert_eq!(violations[1].description, "halfmove clock: expected 0, got 3");
    assert_eq!(
        violations[2].description,
        "fullmove number: expected 1, got 9 (moved side: White)"
    );
    assert_eq!(violations[3].description, "position history length: expected 2, got 1");
}

#[test]
fn reports_summarise_games() {
    let record = GameRecord {
        initial_fen: String::from("startpos"),
        moves: vec![
            Move::new(square("e2"), square("e4")),
            Move::with_promotion(square("a7"), square("a8"), PieceKind::Queen),
        ],
        final_fen: String::from("after"),
        termination: GameTermination::MoveLimitReached(1),
        violations: vec![],
        move_count: 1,
    };
    let report = GameReport::from_record(&record, 42, "random");
    assert_eq!(report.seed, 42);
    assert_eq!(report.strategy, "random");
    assert_eq!(report.total_moves, 1);
    assert_eq!(report.outcome, "MoveLimitReached(1)");
    assert_eq!(report.moves[0].from, "e2");
    assert_eq!(report.moves[1].promotion.as_deref(), Some("q"));
    assert_eq!(report.timestamp_utc, "test");
    assert_eq!(
        status_debug(GameStatus::Finished(GameOutcome::Win {
            winner: Side::Black,
            reason: WinReason::Checkmate,
        })),
        format!(
            "{:?}",
            GameStatus::Finished(GameOutcome::Win {
                winner: Side::Black,
                reason: WinReason::Checkmate,
            })
        )
    );
    assert_eq!(
        status_debug(GameStatus::Ongoing {
            in_check: true,
            draw_available: Default::default(),
        }),
        format!(
            "{:?}",
            GameStatus::Ongoing {
                in_check: true,
                draw_available: Default::default(),
            }
        )
    );
    let moves = [Move::new(square("a2"), square("a3")), Move::new(square("b2"), square("b3"))];
    assert_eq!(pick_weighted(&moves, &vec![3, 1], 2), moves[0]);
    assert_eq!(pick_weighted(&moves, &vec![3, 1], 3), moves[1]);
}

#[test]
fn game_oracle_plays_scholars_mate_to_checkmate() {
    let script_white = vec![
        Move::new(square("e2"), square("e4")),
        Move::new(square("d1"), square("h5")),
        Move::new(square("f1"), square("c4")),
        Move::new(square("h5"), square("f7")),
    ];
    let script_black = vec![
        Move::new(square("e7"), square("e5")),
        Move::new(square("b8"), square("c6")),
        Move::new(square("g8"), square("f6")),
    ];

    let mut oracle = GameOracle::new(
        Box::new(ScriptedStrategy::new(script_white, 0)),
        Box::new(ScriptedStrategy::new(script_black, 0)),
    );
    let record = oracle.play_game(GameState::starting_position());

    assert!(record.violations.is_empty(), "no violations: {:?}", record.violations);
    assert_eq!(record.move_count, 7);
    match record.termination {
        GameTermination::Completed(GameStatus::Finished(GameOutcome::Win {
            winner: Side::White,
            reason: WinReason::Checkmate,
        })) => {}
        other => panic!("expected White checkmate, got {other:?}"),
    }
}

#[test]
fn report_files_are_numbered_with_four_digits() {
    assert_eq!(chess3d::testing::oracle::report_file_name(7), "game_0007.json");
    assert_eq!(chess3d::testing::oracle::report_file_name(1234), "game_1234.json");
    assert_eq!(chess3d::testing::oracle::report_file_name(98765), "game_98765.json");
}

#[test]
fn random_games_from_the_start_record_no_violations() {
    for seed in 1..4u64 {
        let mut oracle = GameOracle::new(
            Box::new(RandomStrategy::new(seed)),
            Box::new(WeightedStrategy::new(seed + 100)),
        )
        .with_max_moves(120);
        let record = oracle.play_game(GameState::starting_position());
        assert!(record.violations.is_empty(), "seed {seed}: {:?}", record.violations);
        assert!(record.move_count <= 120);
        assert_eq!(record.moves.len(), record.move_count as usize);
    }
}

#[test]
fn a_straight_step_onto_the_en_passant_target_removes_nothing() {
    let game = GameState::from_fen("4k3/8/8/4P3/8/8/8/4K3 w - e6 0 1").expect("test FEN should parse");
    let step = Move::new(square("e5"), square("e6"));
    let after = game.apply_move(step).expect("the step is legal");
    assert_eq!(game.board().piece_count(), 3);
    assert_eq!(after.board().piece_count(), 3);
    let violations = InvariantChecker::check(&game, &step, &after);
    assert!(violations
        .iter()
        .any(|v| v.kind == ViolationKind::PieceCountInconsistent));
}

#[test]
fn play_game_takes_the_largest_move_limit() {
    let mut oracle = GameOracle::new(Box::new(RandomStrategy::new(5)), Box::new(RandomStrategy::new(6)))
        .with_max_moves(u16::MAX);
    let record = oracle.play_game(GameState::starting_position());
    assert!(matches!(record.termination, GameTermination::Completed(_)));
    assert!(record.violations.is_empty());
    assert_eq!(record.moves.len(), record.move_count as usize);
}

#[test]
fn play_game_from_a_late_fullmove_number_fills_it_exactly() {
    let start = GameState::from_fen("r3k2r/pppppppp/8/8/8/8/PPPPPPPP/R3K2R b KQkq - 0 65533")
        .expect("test FEN should parse");
    let mut oracle = GameOracle::new(Box::new(RandomStrategy::new(7)), Box::new(RandomStrategy::new(8)))
        .with_max_moves(4);
    let record = oracle.play_game(start);
    assert_eq!(record.move_count, 4);
    assert!(record.final_fen.ends_with(" 65535"));
    assert!(record.violations.is_empty());
}

#[test]
fn play_game_from_a_finished_position_needs_no_room_on_the_clock() {
    let start = GameState::from_fen("rnb1kbnr/pppp1ppp/8/4p3/6Pq/5P2/PPPPP2P/RNBQKBNR w KQkq - 1 65535")
        .expect("test FEN should parse");
    assert!(start.status().is_finished());
    let mut oracle = GameOracle::new(Box::new(RandomStrategy::new(1)), Box::new(RandomStrategy::new(2)));
    let record = oracle.play_game(start);
    assert_eq!(record.move_count, 0);
    assert!(matches!(record.termination, GameTermination::Completed(_)));
    assert!(record.violations.is_empty());
}

#[test]
fn a_black_move_at_the_largest_fullmove_number_is_reported_not_overflowed() {
    let start = GameState::from_fen("r3k2r/pppppppp/8/8/8/8/PPPPPPPP/R3K2R b KQkq - 0 65535")
        .expect("test FEN should parse");
    let mut oracle = GameOracle::new(Box::new(RandomStrategy::new(3)), Box::new(RandomStrategy::new(4)))
        .with_max_moves(1);
    let record = oracle.play_game(start);
    assert_eq!(record.move_count, 1);
    assert!(record.final_fen.ends_with(" 65535"));
    assert!(record
        .violations
        .iter()
        .any(|v| v.kind == ViolationKind::FullmoveNumberWrong && v.description.contains("expected 65536")));
}
