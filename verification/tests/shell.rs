use chess3d::game::GameState;
use chess3d::mv::Move;
use chess3d::persistence::snapshot::SaveKind;
use chess3d::persistence::store::{
    ConfirmActionSettings, DisplayMode, RecoveryStartupPolicy, SavedSessionSummary, ShellSettings,
};
use chess3d::pieces::{PieceKind, Side};
use chess3d::shell::app_shell_logic;
use chess3d::shell::automation::{
    capture_snapshot, AutomationError, AutomationMatchAction, AutomationResponse, AutomationScreen,
    AutomationSnapshot, AutomationTransportErrorCode,
};
use chess3d::shell::interaction::{apply_match_action, apply_square_interaction};
use chess3d::shell::match_state::{ClaimedDrawReason, MatchSession};
use chess3d::shell::menu::{
    AppScreenState, ConfirmationKind, MenuContext, RecoveryBannerState, SaveLoadState,
    ShellMenuState,
};
use chess3d::shell::save_load_logic;
use chess3d::square::Square;
use chess3d::status::{AutomaticDrawReason, DrawReason, GameOutcome, GameStatus, WinReason};

fn square(name: &str) -> Square {
    Square::from_algebraic(name).expect("fixture square should parse")
}

#[test]
fn combine_persistence_errors_joins_visible_failures_only() {
    let combined = save_load_logic::combine_persistence_errors(vec![
        Some(String::from("save index failed")),
        None,
        Some(String::from("settings failed")),
    ]);
    assert_eq!(
        combined.as_deref(),
        Some("save index failed settings failed")
    );
}

#[test]
fn recovery_visibility_respects_ignore_policy_and_uses_cached_label() {
    let summary = SavedSessionSummary {
        slot_id: String::from("recovery"),
        label: String::from("Interrupted Session"),
        created_at_utc: None,
        save_kind: SaveKind::Recovery,
    };
    let mut save_state = SaveLoadState {
        recovery: Some(summary.clone()),
        settings: ShellSettings {
            recovery_policy: RecoveryStartupPolicy::Ignore,
            confirm_actions: ConfirmActionSettings::default(),
            display_mode: DisplayMode::Windowed,
        },
        ..Default::default()
    };
    let mut banner = RecoveryBannerState::default();

    save_load_logic::sync_cached_recovery_visibility(&save_state, &mut banner);
    assert!(!banner.available);
    assert_eq!(banner.label, None);

    save_state.settings.recovery_policy = RecoveryStartupPolicy::Ask;
    save_load_logic::sync_cached_recovery_visibility(&save_state, &mut banner);
    assert!(banner.available);
    assert_eq!(banner.label.as_deref(), Some("Interrupted Session"));
    assert_eq!(
        save_load_logic::recovery_banner_label(Some(&summary)).as_deref(),
        Some("Interrupted Session")
    );
}

#[test]
fn save_feedback_messages_and_policy_copy_stay_deterministic() {
    let summary = SavedSessionSummary {
        slot_id: String::from("slot-a"),
        label: String::from("Slot A"),
        created_at_utc: None,
        save_kind: SaveKind::Manual,
    };
    assert_eq!(
        save_load_logic::manual_save_message(&summary),
        "Saved match as Slot A."
    );
    assert_eq!(
        save_load_logic::deleted_save_message("slot-a"),
        "Deleted save slot-a."
    );
    assert!(
        save_load_logic::recovery_policy_status_copy(RecoveryStartupPolicy::Resume)
            .contains("MatchLoading")
    );
}

#[test]
fn status_priority_prefers_errors_messages_then_recovery_copy() {
    let menu_state = ShellMenuState {
        status_line: Some(String::from("menu status")),
        ..Default::default()
    };
    let save_state = SaveLoadState {
        last_error: Some(String::from("save error")),
        last_message: Some(String::from("save message")),
        ..Default::default()
    };
    let recovery = RecoveryBannerState {
        available: true,
        dirty: false,
        label: Some(String::from("Interrupted Session")),
    };

    assert_eq!(
        app_shell_logic::effective_shell_status(&menu_state, &save_state, &recovery).as_deref(),
        Some("save error")
    );

    let save_state = SaveLoadState {
        last_message: Some(String::from("save message")),
        ..Default::default()
    };
    assert_eq!(
        app_shell_logic::effective_shell_status(&menu_state, &save_state, &recovery).as_deref(),
        Some("save message")
    );

    let save_state = SaveLoadState::default();
    assert_eq!(
        app_shell_logic::effective_shell_status(&menu_state, &save_state, &recovery).as_deref(),
        Some("menu status")
    );

    let menu_state = ShellMenuState::default();
    assert_eq!(
        app_shell_logic::effective_shell_status(&menu_state, &save_state, &recovery).as_deref(),
        Some("Interrupted-session recovery is available as Interrupted Session.")
    );
}

#[test]
fn labels_and_policy_cycles_cover_setup_copy_branches() {
    assert_eq!(
        app_shell_logic::next_recovery_policy(RecoveryStartupPolicy::Resume),
        RecoveryStartupPolicy::Ask
    );
    assert_eq!(
        app_shell_logic::next_recovery_policy(RecoveryStartupPolicy::Ask),
        RecoveryStartupPolicy::Ignore
    );
    assert_eq!(
        app_shell_logic::next_recovery_policy(RecoveryStartupPolicy::Ignore),
        RecoveryStartupPolicy::Resume
    );
    assert_eq!(
        app_shell_logic::recovery_policy_label(RecoveryStartupPolicy::Resume),
        "Resume automatically"
    );
    assert_eq!(
        app_shell_logic::display_mode_label(DisplayMode::Fullscreen),
        "Fullscreen"
    );
    assert_eq!(
        app_shell_logic::toggle_label("Overwrite Save", true),
        "Overwrite Save: on"
    );
    assert_eq!(
        app_shell_logic::confirmation_copy(ConfirmationKind::DeleteSave).0,
        "Delete the selected save?"
    );
}

#[test]
fn result_copy_covers_checkmate_claimed_draw_and_selected_save_lookup() {
    let white_checkmate = GameStatus::Finished(GameOutcome::Win {
        winner: Side::White,
        reason: WinReason::Checkmate,
    });
    assert_eq!(
        app_shell_logic::match_session_result_title(white_checkmate, None),
        "White Wins"
    );
    assert_eq!(
        app_shell_logic::match_session_result_detail(white_checkmate, None),
        "Checkmate detected by chess_core."
    );

    let last_move = Some(Move::new(square("e2"), square("e4")));
    assert_eq!(
        app_shell_logic::derive_save_label(last_move),
        "Local Match after e2e4"
    );
    assert_eq!(app_shell_logic::derive_save_label(None), "Local Match Save");

    let fivefold = GameStatus::Finished(GameOutcome::Draw(DrawReason::Automatic(
        AutomaticDrawReason::FivefoldRepetition,
    )));
    assert_eq!(
        app_shell_logic::match_session_result_title(
            fivefold,
            Some(ClaimedDrawReason::ThreefoldRepetition),
        ),
        "Draw Claimed by Repetition"
    );
    assert_eq!(
        app_shell_logic::match_session_result_detail(fivefold, None),
        "Fivefold repetition detected by chess_core."
    );

    let save_state = SaveLoadState {
        manual_saves: vec![SavedSessionSummary {
            slot_id: String::from("slot-a"),
            label: String::from("Slot A"),
            created_at_utc: None,
            save_kind: SaveKind::Manual,
        }],
        settings: ShellSettings {
            recovery_policy: RecoveryStartupPolicy::Ask,
            confirm_actions: ConfirmActionSettings::default(),
            display_mode: DisplayMode::Windowed,
        },
        ..Default::default()
    };
    let menu_state = ShellMenuState {
        context: MenuContext::InMatchOverlay,
        selected_save: Some(String::from("slot-a")),
        ..Default::default()
    };
    assert!(app_shell_logic::return_to_menu_abandons_active_match(
        AppScreenState::InMatch,
        &menu_state,
    ));
    assert_eq!(
        app_shell_logic::selected_save_summary(&menu_state, &save_state)
            .map(|summary| summary.label.as_str()),
        Some("Slot A")
    );
}

#[test]
fn clicks_select_move_and_deselect() {
    let mut session = MatchSession::start_local_match();
    session.mark_recovery_persisted();
    apply_square_interaction(&mut session, Some(square("e7")));
    assert_eq!(session.selected_square, None);
    assert!(!session.is_recovery_dirty());

    apply_square_interaction(&mut session, Some(square("e2")));
    assert_eq!(session.selected_square, Some(square("e2")));
    assert!(session.is_recovery_dirty());
    let mut targets = session.legal_targets_for_selected();
    targets.sort();
    assert_eq!(targets, vec![square("e3"), square("e4")]);

    apply_square_interaction(&mut session, Some(square("e4")));
    assert_eq!(session.last_move, Some(Move::new(square("e2"), square("e4"))));
    assert_eq!(session.selected_square, None);
    assert_eq!(session.game_state().side_to_move(), Side::Black);

    apply_square_interaction(&mut session, Some(square("e7")));
    apply_square_interaction(&mut session, Some(square("e7")));
    assert_eq!(session.selected_square, None);

    apply_square_interaction(&mut session, Some(square("d7")));
    apply_square_interaction(&mut session, Some(square("d3")));
    assert_eq!(session.selected_square, None);
    assert_eq!(session.game_state().side_to_move(), Side::Black);

    apply_square_interaction(&mut session, Some(square("d7")));
    apply_square_interaction(&mut session, None);
    assert_eq!(session.selected_square, None);
}

#[test]
fn promotion_is_staged_then_completed() {
    let game = GameState::from_fen("4k3/P7/8/8/8/8/8/4K3 w - - 0 1").unwrap();
    let mut session = MatchSession::start_local_match();
    session.replace_game_state(game);
    assert_eq!(
        apply_match_action(&mut session, &AutomationMatchAction::ChoosePromotion { piece: PieceKind::Queen }),
        Err(AutomationError::PromotionUnavailable)
    );
    apply_match_action(
        &mut session,
        &AutomationMatchAction::SubmitMove { from: square("a7"), to: square("a8"), promotion: None },
    )
    .unwrap();
    assert_eq!(session.pending_promotion_move, Some(Move::new(square("a7"), square("a8"))));
    apply_match_action(&mut session, &AutomationMatchAction::ChoosePromotion { piece: PieceKind::Knight })
        .unwrap();
    assert_eq!(session.game_state().to_fen(), "N3k3/8/8/8/8/8/8/4K3 b - - 0 1");
    assert_eq!(session.pending_promotion_move, None);
}

#[test]
fn claiming_a_draw_finishes_the_session() {
    let game = GameState::from_fen("4k3/8/8/8/8/8/8/4K3 w - - 100 1").unwrap();
    let mut session = MatchSession::start_local_match();
    assert!(!session.claim_draw());
    session.replace_game_state(game);
    assert!(!session.is_finished());
    assert!(session.claim_draw());
    assert_eq!(session.claimed_draw_reason(), Some(ClaimedDrawReason::FiftyMoveRule));
    assert!(session.is_finished());
}

#[test]
fn snapshots_show_what_the_player_sees() {
    let mut session = MatchSession::start_local_match();
    apply_square_interaction(&mut session, Some(square("g1")));
    let menu_state = ShellMenuState::default();
    let save_state = SaveLoadState::default();
    let recovery = RecoveryBannerState::default();
    let snapshot = capture_snapshot(AppScreenState::InMatch, &menu_state, &save_state, &recovery, &session);
    assert_eq!(snapshot.screen, AutomationScreen::InMatch);
    assert_eq!(snapshot.match_state.fen, AutomationSnapshot::default().match_state.fen);
    assert_eq!(snapshot.match_state.selected_square, Some(square("g1")));
    assert_eq!(snapshot.match_state.legal_targets.len(), 2);
    assert_eq!(snapshot.menu.shell_status, None);

    let response = AutomationResponse::from_outcome(Err(AutomationError::InvalidStepCount(0)));
    let error = response.error.unwrap();
    assert_eq!(error.code, AutomationTransportErrorCode::CommandRejected);
    assert_eq!(error.message, "automation step count must be at least one frame, got 0");
    assert_eq!(
        AutomationError::CommandIgnored(String::from("no save")).to_string(),
        "automation command had no effect: no save"
    );
}
