use chess3d::game::GameState;
use chess3d::mv::Move;
use chess3d::persistence::snapshot::{
    GameSnapshot, PendingPromotionSnapshot, SaveKind, SnapshotMetadata, SnapshotShellState,
};
use chess3d::persistence::store::{
    prepare_manual_save, validate_slot_id, RecoveryStartupPolicy, SavedSessionSummary, ShellSettings,
    StoreError,
};
use chess3d::pieces::Side;
use chess3d::pieces::PieceKind;
use chess3d::shell::app_shell::{apply_shell_action, ShellAction};
use chess3d::shell::board_view::{checked_king_square, is_light_square, square_highlight, SquareHighlight};
use chess3d::shell::feedback::{
    claim_draw_banner_label, claim_draw_banner_visible, match_status_label, persistence_label,
    promotion_hint_label, side_label, turn_label,
};
use chess3d::shell::interaction::{
    handle_keyboard_match_actions, handle_square_click, overlay_captures_match_input, MatchKeys,
};
use chess3d::shell::match_state::MatchSession;
use chess3d::shell::menu::{
    apply_menu_action, sync_menu_panel_from_screen, AppScreenState, ConfirmationKind,
    MatchLaunchIntent, MenuAction, MenuContext, MenuPanel, RecoveryBannerState, SaveLoadState,
    ShellMenuState,
};
use chess3d::shell::save_load::{
    apply_index_refresh, autosave_due, begin_startup_recovery, clear_result_recovery_cache,
    finish_abandon_match, finish_autosave, finish_delete_manual, finish_load_manual,
    finish_manual_save, finish_persist_settings, launch_match, finish_resume_recovery, finish_startup_recovery,
    manual_save_snapshot, recovery_snapshot, record_index_refresh, resolve_session_store,
    SaveLoadRequest,
};
use chess3d::shell::save_load_logic;
use chess3d::square::Square;

fn square(name: &str) -> Square {
    Square::from_algebraic(name).expect("valid square")
}

fn summary(slot_id: &str, label: &str, kind: SaveKind) -> SavedSessionSummary {
    SavedSessionSummary {
        slot_id: String::from(slot_id),
        label: String::from(label),
        created_at_utc: None,
        save_kind: kind,
    }
}

fn recovery_fixture(label: &str) -> GameSnapshot {
    GameSnapshot::new(
        GameState::starting_position(),
        SnapshotMetadata {
            label: String::from(label),
            created_at_utc: None,
            updated_at_utc: None,
            notes: None,
            save_kind: SaveKind::Recovery,
            session_id: String::from("recovery"),
            recovery_key: Some(String::from("autosave")),
        },
    )
}

/// Applies a menu action the way the shell does: the action, then the screen it asks for.
fn act(action: MenuAction, screen: &mut AppScreenState, menu: &mut ShellMenuState, intent: &mut MatchLaunchIntent) {
    let (next_intent, next_screen) = apply_menu_action(&action, *screen, menu);
    if let Some(i) = next_intent {
        *intent = i;
    }
    if let Some(s) = next_screen {
        *screen = s;
        sync_menu_panel_from_screen(s, menu);
    }
}

#[test]
fn screen_sync_resets_menu_when_entering_main_menu() {
    let mut menu = ShellMenuState::default();
    sync_menu_panel_from_screen(AppScreenState::MainMenu, &mut menu);
    assert_eq!(menu, ShellMenuState::default());
}

#[test]
fn actions_cover_panel_navigation_selection_and_confirmations() {
    let mut screen = AppScreenState::MainMenu;
    let mut menu = ShellMenuState::default();
    let mut intent = MatchLaunchIntent::default();

    act(MenuAction::OpenSetup, &mut screen, &mut menu, &mut intent);
    assert_eq!(menu.panel, MenuPanel::Setup);
    act(MenuAction::OpenLoadList, &mut screen, &mut menu, &mut intent);
    assert_eq!(menu.panel, MenuPanel::LoadList);
    act(MenuAction::OpenSettings, &mut screen, &mut menu, &mut intent);
    assert_eq!(menu.panel, MenuPanel::Settings);
    act(MenuAction::BackToSetup, &mut screen, &mut menu, &mut intent);
    assert_eq!(menu.panel, MenuPanel::Setup);

    act(MenuAction::SelectSave(String::from("slot-a")), &mut screen, &mut menu, &mut intent);
    assert_eq!(menu.selected_save.as_deref(), Some("slot-a"));
    assert_eq!(menu.status_line.as_deref(), Some("Selected save slot-a."));

    act(
        MenuAction::RequestConfirmation(ConfirmationKind::DeleteSave),
        &mut screen,
        &mut menu,
        &mut intent,
    );
    assert_eq!(menu.confirmation, Some(ConfirmationKind::DeleteSave));
    act(MenuAction::CancelModal, &mut screen, &mut menu, &mut intent);
    assert_eq!(menu.confirmation, None);
}

#[test]
fn actions_cover_match_loading_pause_resume_and_return() {
    let mut screen = AppScreenState::MainMenu;
    let mut menu = ShellMenuState::default();
    let mut intent = MatchLaunchIntent::default();

    act(MenuAction::StartNewMatch, &mut screen, &mut menu, &mut intent);
    assert_eq!(intent, MatchLaunchIntent::NewLocalMatch);
    assert_eq!(screen, AppScreenState::MatchLoading);

    screen = AppScreenState::InMatch;
    sync_menu_panel_from_screen(screen, &mut menu);

    act(MenuAction::PauseMatch, &mut screen, &mut menu, &mut intent);
    assert_eq!(menu.context, MenuContext::InMatchOverlay);
    act(MenuAction::ResumeMatch, &mut screen, &mut menu, &mut intent);
    assert_eq!(menu.context, MenuContext::MainMenu);
    act(MenuAction::Rematch, &mut screen, &mut menu, &mut intent);
    assert_eq!(intent, MatchLaunchIntent::Rematch);
    act(MenuAction::ReturnToMenu, &mut screen, &mut menu, &mut intent);
    assert_eq!(screen, AppScreenState::MainMenu);
}

#[test]
fn side_and_status_labels_cover_result_and_claim_paths() {
    assert_eq!(side_label(Side::White), "White");
    assert_eq!(side_label(Side::Black), "Black");

    let mut match_session = MatchSession::start_local_match();
    assert_eq!(match_status_label(&match_session), "Select a piece to move.");

    match_session.selected_square = Some(square("e2"));
    assert_eq!(match_status_label(&match_session), "Selected e2.");

    match_session.replace_game_state(
        GameState::from_fen("7k/6Q1/6K1/8/8/8/8/8 b - - 0 1").expect("fixture FEN should parse"),
    );
    assert_eq!(match_status_label(&match_session), "Checkmate. White wins.");

    match_session.replace_game_state(
        GameState::from_fen("4k3/8/8/8/8/8/8/4K3 w - - 100 1").expect("fixture FEN should parse"),
    );
    assert!(match_session.claim_draw());
    assert_eq!(match_status_label(&match_session), "Draw claimed by the fifty-move rule.");
}

#[test]
fn draw_banner_visibility_and_copy_follow_claimable_state() {
    let mut match_session = MatchSession::start_local_match();
    assert!(!claim_draw_banner_visible(&match_session));

    match_session.replace_game_state(
        GameState::from_fen("4k3/8/8/8/8/8/8/4K3 w - - 100 1").expect("fixture FEN should parse"),
    );
    assert!(claim_draw_banner_visible(&match_session));
    assert_eq!(claim_draw_banner_label(&match_session), "Claim Draw by Fifty-Move Rule");
}

#[test]
fn in_match_overlay_blocks_board_clicks() {
    let menu = ShellMenuState { context: MenuContext::InMatchOverlay, ..Default::default() };
    let mut match_session = MatchSession::start_local_match();
    match_session.selected_square = Some(square("e2"));

    handle_square_click(&menu, true, None, &mut match_session);

    assert_eq!(match_session.selected_square, Some(square("e2")));
}

#[test]
fn overlay_helper_tracks_pause_context() {
    assert!(overlay_captures_match_input(&ShellMenuState {
        context: MenuContext::InMatchOverlay,
        ..Default::default()
    }));
    assert!(!overlay_captures_match_input(&ShellMenuState::default()));
}

#[test]
fn clicking_without_hover_clears_selection_and_marks_recovery_dirty() {
    let menu = ShellMenuState::default();
    let mut match_session = MatchSession::start_local_match();
    match_session.selected_square = Some(square("e2"));
    match_session.mark_recovery_persisted();

    handle_square_click(&menu, true, None, &mut match_session);

    assert_eq!(match_session.selected_square, None);
    assert!(match_session.is_recovery_dirty());
}

#[test]
fn clicking_selected_square_deselects_and_marks_recovery_dirty() {
    let menu = ShellMenuState::default();
    let mut match_session = MatchSession::start_local_match();
    match_session.selected_square = Some(square("e2"));
    match_session.mark_recovery_persisted();

    handle_square_click(&menu, true, Some(square("e2")), &mut match_session);

    assert_eq!(match_session.selected_square, None);
    assert!(match_session.is_recovery_dirty());
}

#[test]
fn clicking_friendly_piece_selects_and_reselects_current_side_piece() {
    let menu = ShellMenuState::default();
    let mut match_session = MatchSession::start_local_match();

    handle_square_click(&menu, true, Some(square("e2")), &mut match_session);
    assert_eq!(match_session.selected_square, Some(square("e2")));

    handle_square_click(&menu, true, Some(square("d2")), &mut match_session);
    assert_eq!(match_session.selected_square, Some(square("d2")));
}

#[test]
fn clicking_illegal_target_clears_selection() {
    let menu = ShellMenuState::default();
    let mut match_session = MatchSession::start_local_match();
    match_session.selected_square = Some(square("e2"));

    handle_square_click(&menu, true, Some(square("e5")), &mut match_session);

    assert_eq!(match_session.selected_square, None);
}

#[test]
fn promotion_target_stages_pending_promotion_move() {
    let menu = ShellMenuState::default();
    let mut match_session = MatchSession::start_local_match();
    match_session.replace_game_state(
        GameState::from_fen("7k/4P3/8/8/8/8/8/4K3 w - - 0 1").expect("fixture FEN should parse"),
    );
    match_session.selected_square = Some(square("e7"));

    handle_square_click(&menu, true, Some(square("e8")), &mut match_session);

    assert_eq!(match_session.pending_promotion_move, Some(Move::new(square("e7"), square("e8"))));
}

#[test]
fn escape_clears_pending_promotion_before_pause_overlay() {
    let menu = ShellMenuState::default();
    let mut match_session = MatchSession::start_local_match();
    match_session.pending_promotion_move = Some(Move::new(square("e7"), square("e8")));
    let keys = MatchKeys { escape: true, ..Default::default() };

    let (action, request) = handle_keyboard_match_actions(keys, &menu, &mut match_session);

    assert_eq!(action, None);
    assert_eq!(request, None);
    assert_eq!(match_session.pending_promotion_move, None);
    assert!(match_session.is_recovery_dirty());
}

#[test]
fn escape_pauses_an_idle_match_and_quick_save_asks_for_a_save() {
    let mut menu = ShellMenuState::default();
    let mut match_session = MatchSession::start_local_match();
    let escape = MatchKeys { escape: true, ..Default::default() };
    assert_eq!(
        handle_keyboard_match_actions(escape, &menu, &mut match_session),
        (Some(MenuAction::PauseMatch), None)
    );

    let quick_save = MatchKeys { quick_save: true, ..Default::default() };
    assert_eq!(
        handle_keyboard_match_actions(quick_save, &menu, &mut match_session),
        (None, Some(SaveLoadRequest::SaveManual { label: String::from("Quick Save"), slot_id: None }))
    );

    menu.context = MenuContext::InMatchOverlay;
    assert_eq!(handle_keyboard_match_actions(quick_save, &menu, &mut match_session), (None, None));
    assert_eq!(
        handle_keyboard_match_actions(escape, &menu, &mut match_session),
        (Some(MenuAction::ResumeMatch), None)
    );
    menu.confirmation = Some(ConfirmationKind::AbandonMatch);
    assert_eq!(
        handle_keyboard_match_actions(escape, &menu, &mut match_session),
        (Some(MenuAction::CancelModal), None)
    );
}

#[test]
fn piece_key_completes_a_waiting_promotion() {
    let menu = ShellMenuState::default();
    let mut match_session = MatchSession::start_local_match();
    match_session.replace_game_state(
        GameState::from_fen("7k/4P3/8/8/8/8/8/4K3 w - - 0 1").expect("fixture FEN should parse"),
    );
    match_session.pending_promotion_move = Some(Move::new(square("e7"), square("e8")));
    let keys = MatchKeys { rook: true, quick_save: true, ..Default::default() };

    let (action, request) = handle_keyboard_match_actions(keys, &menu, &mut match_session);

    assert_eq!(action, None);
    assert_eq!(request, None);
    assert_eq!(match_session.pending_promotion_move, None);
    assert_eq!(match_session.game_state().to_fen(), "4R2k/8/8/8/8/8/8/4K3 b - - 0 1");
}

#[test]
fn cached_recovery_visibility_reappears_when_ignore_is_disabled() {
    let mut save_state = SaveLoadState {
        recovery: Some(summary("recovery", "Recovery Fixture", SaveKind::Recovery)),
        settings: ShellSettings { recovery_policy: RecoveryStartupPolicy::Ignore, ..ShellSettings::default() },
        ..Default::default()
    };
    let mut recovery_banner = RecoveryBannerState::default();

    save_load_logic::sync_cached_recovery_visibility(&save_state, &mut recovery_banner);
    assert!(!recovery_banner.available);

    save_state.settings.recovery_policy = RecoveryStartupPolicy::Ask;
    save_load_logic::sync_cached_recovery_visibility(&save_state, &mut recovery_banner);

    assert!(recovery_banner.available);
    assert_eq!(recovery_banner.label.as_deref(), Some("Recovery Fixture"));
}

#[test]
fn refresh_store_index_keeps_ignored_recovery_hidden() {
    let mut save_state = SaveLoadState::default();
    let mut recovery_banner = RecoveryBannerState {
        available: true,
        dirty: false,
        label: Some(String::from("stale")),
    };
    let settings = ShellSettings { recovery_policy: RecoveryStartupPolicy::Ignore, ..ShellSettings::default() };

    let error = apply_index_refresh(
        Ok(Vec::new()),
        Ok(settings),
        Ok(Some(recovery_fixture("Ignored Recovery"))),
        &mut save_state,
        &mut recovery_banner,
    );

    assert_eq!(error, None);
    assert_eq!(
        save_state.recovery.as_ref().map(|summary| summary.label.as_str()),
        Some("Ignored Recovery")
    );
    assert!(!recovery_banner.available);
    assert_eq!(recovery_banner.label, None);
}

#[test]
fn refresh_store_index_reports_corrupt_save_data_without_resetting_existing_index() {
    let mut save_state = SaveLoadState {
        manual_saves: vec![summary("existing", "Existing", SaveKind::Manual)],
        ..Default::default()
    };
    let mut recovery_banner = RecoveryBannerState::default();

    let error = apply_index_refresh(
        Err(StoreError::Serialization(String::from("key must be a string at line 1 column 2"))),
        Ok(ShellSettings::default()),
        Ok(None),
        &mut save_state,
        &mut recovery_banner,
    )
    .expect("corrupt index should surface an error");

    assert!(error.contains("Unable to refresh save index"));
    assert_eq!(save_state.manual_saves.len(), 1);
    assert_eq!(save_state.manual_saves[0].slot_id, "existing");
}

#[test]
fn refresh_reports_every_failure_in_order() {
    let mut save_state = SaveLoadState::default();
    let mut recovery_banner = RecoveryBannerState::default();
    record_index_refresh(
        Err(StoreError::Io(String::from("denied"))),
        Err(StoreError::Serialization(String::from("bad settings"))),
        Err(StoreError::Io(String::from("gone"))),
        &mut save_state,
        &mut recovery_banner,
    );
    assert_eq!(
        save_state.last_error.as_deref(),
        Some(
            "Unable to refresh save index: I/O error: denied. \
             Unable to load shell settings: serialization error: bad settings. \
             Unable to inspect interrupted-session recovery: I/O error: gone."
        )
    );
    assert_eq!(save_state.settings, ShellSettings::default());
}

#[test]
fn clear_result_recovery_keeps_cached_recovery_when_store_clear_fails() {
    let mut save_state = SaveLoadState {
        recovery: Some(summary("recovery", "Interrupted Session", SaveKind::Recovery)),
        settings: ShellSettings::default(),
        ..Default::default()
    };
    let mut recovery_banner = RecoveryBannerState::default();

    save_load_logic::sync_cached_recovery_visibility(&save_state, &mut recovery_banner);
    clear_result_recovery_cache(
        Err(StoreError::Io(String::from("Is a directory (os error 21)"))),
        &mut save_state,
        &mut recovery_banner,
    );

    assert_eq!(save_state.last_error.as_deref(), Some("Unable to clear interrupted-session recovery."));
    assert_eq!(save_state.recovery.as_ref().map(|s| s.slot_id.as_str()), Some("recovery"));
    assert!(recovery_banner.available);
    assert_eq!(recovery_banner.label.as_deref(), Some("Interrupted Session"));

    clear_result_recovery_cache(Ok(()), &mut save_state, &mut recovery_banner);
    assert_eq!(save_state.recovery, None);
    assert!(!recovery_banner.available);
}

#[test]
fn resolve_session_store_surfaces_runtime_fallback_errors() {
    let fallback_root = "/tmp/3d-chess";
    let (store, error) = resolve_session_store(None, Err(StoreError::MissingPlatformDir), fallback_root);

    assert_eq!(store.root(), fallback_root);
    assert!(error.expect("runtime fallback should surface an error").contains("fallback root"));

    let (store, error) = resolve_session_store(Some(String::from("/saves")), Ok(String::from("/data")), fallback_root);
    assert_eq!(store.root(), "/saves");
    assert_eq!(error, None);
}

#[test]
fn abandon_request_keeps_live_match_when_recovery_clear_fails() {
    let mut save_state = SaveLoadState::default();
    let mut recovery_banner = RecoveryBannerState::default();
    let mut menu = ShellMenuState { context: MenuContext::InMatchOverlay, ..Default::default() };

    let next = finish_abandon_match(
        Err(StoreError::Io(String::from("Is a directory (os error 21)"))),
        &mut save_state,
        &mut recovery_banner,
        &mut menu,
    );

    assert_eq!(next, None);
    assert_eq!(save_state.last_error.as_deref(), Some("Unable to clear interrupted-session recovery."));

    let next = finish_abandon_match(Ok(()), &mut save_state, &mut recovery_banner, &mut menu);
    assert_eq!(next, Some(AppScreenState::MainMenu));
    assert_eq!(save_state.last_message.as_deref(), Some("Returned to the main menu."));
    assert_eq!(menu.context, MenuContext::MainMenu);
}

#[test]
fn manual_save_flow_selects_and_announces_the_save() {
    let mut match_session = MatchSession::start_local_match();
    match_session.selected_square = Some(square("e2"));
    let snapshot = manual_save_snapshot(&match_session, "Slot A", &None);
    assert_eq!(snapshot.metadata.label, "Slot A");
    assert_eq!(snapshot.metadata.notes.as_deref(), Some("Manual save"));
    assert_eq!(snapshot.metadata.session_id, "");
    assert_eq!(snapshot.shell_state.selected_square, Some(square("e2")));

    let mut save_state = SaveLoadState::default();
    let mut menu = ShellMenuState::default();
    assert!(finish_manual_save(Ok(summary("slot-a", "Slot A", SaveKind::Manual)), &mut save_state, &mut menu));
    assert_eq!(save_state.last_message.as_deref(), Some("Saved match as Slot A."));
    assert_eq!(menu.selected_save.as_deref(), Some("slot-a"));

    assert!(!finish_manual_save(Err(StoreError::Io(String::from("full"))), &mut save_state, &mut menu));
    assert_eq!(save_state.last_error.as_deref(), Some("Unable to write the selected save slot."));

    assert!(finish_delete_manual("slot-a", Ok(()), &mut save_state, &mut menu));
    assert_eq!(save_state.last_message.as_deref(), Some("Deleted save slot-a."));
    assert_eq!(menu.selected_save, None);
}

#[test]
fn loading_and_resuming_route_through_match_loading() {
    let mut pending = None;
    let mut intent = MatchLaunchIntent::default();
    let mut save_state = SaveLoadState::default();

    let next = finish_load_manual("slot-a", Ok(recovery_fixture("Slot A")), &mut pending, &mut intent, &mut save_state);
    assert_eq!(next, Some(AppScreenState::MatchLoading));
    assert_eq!(intent, MatchLaunchIntent::LoadManual);
    assert_eq!(save_state.last_message.as_deref(), Some("Loading save slot-a."));
    assert!(pending.is_some());

    let next = finish_resume_recovery(Ok(None), &mut pending, &mut intent, &mut save_state);
    assert_eq!(next, None);
    assert_eq!(save_state.last_error.as_deref(), Some("No interrupted session is available."));

    let next = finish_resume_recovery(Ok(Some(recovery_fixture("Interrupted Session"))), &mut pending, &mut intent, &mut save_state);
    assert_eq!(next, Some(AppScreenState::MatchLoading));
    assert_eq!(intent, MatchLaunchIntent::ResumeRecovery);
    assert_eq!(save_state.last_message.as_deref(), Some("Resuming interrupted session."));
}

#[test]
fn startup_recovery_runs_once_and_follows_the_policy() {
    let mut handled = false;
    let save_state = SaveLoadState {
        settings: ShellSettings { recovery_policy: RecoveryStartupPolicy::Resume, ..ShellSettings::default() },
        ..Default::default()
    };
    let mut banner = RecoveryBannerState::default();
    assert!(!begin_startup_recovery(&mut handled, AppScreenState::Boot, &save_state, &mut banner));
    assert!(!handled);
    assert!(begin_startup_recovery(&mut handled, AppScreenState::MainMenu, &save_state, &mut banner));
    assert!(handled);
    assert!(!begin_startup_recovery(&mut handled, AppScreenState::MainMenu, &save_state, &mut banner));

    let mut pending = None;
    let mut intent = MatchLaunchIntent::default();
    assert_eq!(finish_startup_recovery(Ok(None), &mut pending, &mut intent), None);
    assert_eq!(
        finish_startup_recovery(Ok(Some(recovery_fixture("Interrupted Session"))), &mut pending, &mut intent),
        Some(AppScreenState::MatchLoading)
    );
    assert_eq!(intent, MatchLaunchIntent::ResumeRecovery);
}

#[test]
fn autosave_writes_a_persisted_recovery_record() {
    assert!(autosave_due(AppScreenState::InMatch, true));
    assert!(!autosave_due(AppScreenState::MainMenu, true));
    assert!(!autosave_due(AppScreenState::InMatch, false));

    let mut match_session = MatchSession::start_local_match();
    match_session.mark_recovery_dirty();
    let snapshot = recovery_snapshot(&match_session);
    assert!(!snapshot.shell_state.dirty_recovery);
    assert_eq!(snapshot.metadata.label, "Interrupted Session");
    assert_eq!(snapshot.metadata.recovery_key.as_deref(), Some("autosave"));
    assert_eq!(snapshot.metadata.save_kind, SaveKind::Recovery);

    let mut save_state = SaveLoadState::default();
    let mut banner = RecoveryBannerState::default();
    finish_autosave(
        Ok(summary("recovery", "Interrupted Session", SaveKind::Recovery)),
        &mut match_session,
        &mut save_state,
        &mut banner,
    );
    assert!(!match_session.is_recovery_dirty());
    assert!(banner.available);

    finish_persist_settings(Err(StoreError::Io(String::from("denied"))), &mut save_state, &mut banner);
    assert_eq!(save_state.last_error.as_deref(), Some("Unable to save shell settings."));
}

#[test]
fn explicit_slot_ids_must_be_safe_path_segments() {
    let mut snapshot = GameSnapshot::new(
        GameState::starting_position(),
        SnapshotMetadata { label: String::from("Unsafe Slot"), ..Default::default() },
    );
    snapshot.metadata.session_id = String::from("../escape");

    let error = prepare_manual_save(snapshot, "2026-03-15T00:00:00Z", &Vec::new())
        .expect_err("path traversal slot ids should be rejected");
    assert!(matches!(error, StoreError::InvalidSlotId(_)));

    let error = validate_slot_id("../escape").expect_err("path traversal loads should be rejected");
    assert!(matches!(error, StoreError::InvalidSlotId(_)));
}

fn sample_snapshot(label: &str) -> GameSnapshot {
    let game_state = GameState::from_fen("4k3/4P3/8/8/8/8/8/4K3 w - - 0 1").expect("fixture FEN should parse");
    let from = square("e7");
    let to = square("e8");
    GameSnapshot::from_parts(
        game_state,
        SnapshotMetadata {
            label: label.to_string(),
            created_at_utc: Some(String::from("2026-03-15T00:00:00Z")),
            updated_at_utc: None,
            notes: None,
            save_kind: SaveKind::Manual,
            session_id: label.to_ascii_lowercase().replace(' ', "-"),
            recovery_key: None,
        },
        SnapshotShellState {
            selected_square: Some(from),
            pending_promotion: Some(PendingPromotionSnapshot { from, to }),
            last_move: Some(Move::new(from, to)),
            claimed_draw: None,
            dirty_recovery: true,
        },
    )
}

#[test]
fn manual_load_intent_restores_snapshot_and_enters_in_match() {
    let mut pending = Some(sample_snapshot("Manual Fixture"));
    let mut match_session = MatchSession::start_local_match();

    let screen = launch_match(MatchLaunchIntent::LoadManual, &mut pending, &mut match_session);

    assert_eq!(screen, AppScreenState::InMatch);
    assert_eq!(match_session.pending_promotion_move, Some(Move::new(square("e7"), square("e8"))));
    assert!(pending.is_none());
}

#[test]
fn startup_resume_policy_hydrates_recovery_snapshot_through_match_loading() {
    let save_state = SaveLoadState {
        settings: ShellSettings { recovery_policy: RecoveryStartupPolicy::Resume, ..ShellSettings::default() },
        ..Default::default()
    };
    let mut banner = RecoveryBannerState::default();
    let mut handled = false;
    let mut pending = None;
    let mut intent = MatchLaunchIntent::default();
    let mut match_session = MatchSession::start_local_match();

    assert!(begin_startup_recovery(&mut handled, AppScreenState::MainMenu, &save_state, &mut banner));
    let next = finish_startup_recovery(Ok(Some(sample_snapshot("Recovery Fixture"))), &mut pending, &mut intent);
    assert_eq!(next, Some(AppScreenState::MatchLoading));
    let screen = launch_match(intent, &mut pending, &mut match_session);

    assert_eq!(screen, AppScreenState::InMatch);
    assert_eq!(match_session.selected_square, Some(square("e7")));
}

#[test]
fn new_match_intent_starts_fresh_and_drops_a_waiting_snapshot() {
    let mut pending = Some(sample_snapshot("Manual Fixture"));
    let mut match_session = MatchSession::start_local_match();
    match_session.selected_square = Some(square("e2"));

    launch_match(MatchLaunchIntent::NewLocalMatch, &mut pending, &mut match_session);

    assert!(pending.is_none());
    assert_eq!(match_session.selected_square, None);
    assert_eq!(match_session.game_state().to_fen(), GameState::starting_position().to_fen());
}

#[test]
fn hud_lines_follow_the_session_and_the_store() {
    let mut match_session = MatchSession::start_local_match();
    let mut save_state = SaveLoadState::default();
    assert_eq!(turn_label(&match_session), "White to move");
    assert_eq!(promotion_hint_label(&match_session), "Promotion uses Q / R / B / N.");
    assert_eq!(
        persistence_label(&match_session, &save_state),
        "Interrupted-session recovery is waiting for the next autosave."
    );
    match_session.mark_recovery_persisted();
    assert_eq!(persistence_label(&match_session, &save_state), "Interrupted-session recovery is current.");
    save_state.last_message = Some(String::from("Saved shell settings."));
    assert_eq!(persistence_label(&match_session, &save_state), "Saved shell settings.");
    save_state.last_error = Some(String::from("Unable to save shell settings."));
    assert_eq!(persistence_label(&match_session, &save_state), "Unable to save shell settings.");

    let menu = ShellMenuState::default();
    handle_square_click(&menu, true, Some(square("e2")), &mut match_session);
    handle_square_click(&menu, true, Some(square("e4")), &mut match_session);
    assert_eq!(turn_label(&match_session), "Black to move");
    assert_eq!(promotion_hint_label(&match_session), "Last move: e2e4");

    match_session.pending_promotion_move = Some(Move::new(square("e7"), square("e8")));
    assert_eq!(
        promotion_hint_label(&match_session),
        "Promotion pending for e7 -> e8. Choose Q / R / B / N or use the overlay."
    );
}

#[test]
fn shell_buttons_route_and_promote() {
    let mut match_session = MatchSession::start_local_match();
    assert_eq!(apply_shell_action(ShellAction::StartLocalMatch, &mut match_session), Some(AppScreenState::MatchLoading));
    assert_eq!(apply_shell_action(ShellAction::Rematch, &mut match_session), Some(AppScreenState::MatchLoading));
    assert_eq!(apply_shell_action(ShellAction::ReturnToMenu, &mut match_session), Some(AppScreenState::MainMenu));
    assert_eq!(apply_shell_action(ShellAction::Promote(PieceKind::Queen), &mut match_session), None);
    assert_eq!(match_session.game_state().to_fen(), GameState::starting_position().to_fen());

    match_session.replace_game_state(
        GameState::from_fen("7k/4P3/8/8/8/8/8/4K3 w - - 0 1").expect("fixture FEN should parse"),
    );
    match_session.pending_promotion_move = Some(Move::new(square("e7"), square("e8")));
    assert_eq!(apply_shell_action(ShellAction::Promote(PieceKind::Knight), &mut match_session), None);
    assert_eq!(match_session.game_state().to_fen(), "4N2k/8/8/8/8/8/8/4K3 b - - 0 1");
    assert_eq!(match_session.pending_promotion_move, None);
}

#[test]
fn a_snapshot_restores_the_session_it_was_taken_from() {
    let menu = ShellMenuState::default();
    let mut match_session = MatchSession::start_local_match();
    match_session.replace_game_state(
        GameState::from_fen("7k/4P3/8/8/8/8/8/4K3 w - - 0 1").expect("fixture FEN should parse"),
    );
    handle_square_click(&menu, true, Some(square("e7")), &mut match_session);
    handle_square_click(&menu, true, Some(square("e8")), &mut match_session);
    assert!(match_session.pending_promotion_move.is_some());

    let snapshot = manual_save_snapshot(&match_session, "Promotion", &None);
    let restored = MatchSession::from_snapshot(&snapshot);
    assert_eq!(restored, match_session);
}

#[test]
fn board_squares_shade_check_targets_and_selection() {
    let mut match_session = MatchSession::start_local_match();
    assert_eq!(checked_king_square(&match_session), None);
    match_session.selected_square = Some(square("e2"));
    let targets = match_session.legal_targets_for_selected();
    let shade = |name: &str| {
        let s = square(name);
        square_highlight(s, is_light_square(s), None, &targets, match_session.selected_square)
    };
    assert_eq!(shade("e3"), SquareHighlight::LegalTarget);
    assert_eq!(shade("e4"), SquareHighlight::LegalTarget);
    assert_eq!(shade("e2"), SquareHighlight::Selected);
    assert_eq!(shade("a1"), SquareHighlight::Light);
    assert_eq!(shade("b1"), SquareHighlight::Dark);

    match_session.replace_game_state(
        GameState::from_fen("4k3/8/8/8/8/8/4q3/4K3 w - - 0 1").expect("fixture FEN should parse"),
    );
    let checked = checked_king_square(&match_session);
    assert_eq!(checked, Some(square("e1")));
    assert_eq!(
        square_highlight(square("e1"), false, checked, &Vec::new(), None),
        SquareHighlight::CheckedKing
    );
}
