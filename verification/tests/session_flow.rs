use chess3d::game::GameState;
use chess3d::mv::Move;
use chess3d::persistence::snapshot::{GameSnapshot, SaveKind, SnapshotMetadata, SnapshotShellState};
use chess3d::persistence::store::{
    mark_loaded_manual, mark_loaded_recovery, prepare_manual_save, prepare_recovery,
    DisplayMode, RecoveryStartupPolicy, SavedSessionSummary, ShellSettings, StoreError,
};
use chess3d::pieces::{Piece, PieceKind, Side};
use chess3d::shell::interaction::{handle_keyboard_match_actions, MatchKeys};
use chess3d::shell::match_state::MatchSession;
use chess3d::shell::menu::{
    apply_menu_action, sync_menu_panel_from_screen, AppScreenState, MatchLaunchIntent, MenuAction,
    MenuContext, MenuPanel, RecoveryBannerState, SaveLoadState, ShellMenuState,
};
use chess3d::shell::save_load::{
    apply_index_refresh, autosave_due, clear_result_recovery_cache, finish_autosave,
    finish_load_manual, finish_manual_save, finish_persist_settings, finish_resume_recovery,
    launch_match, manual_save_snapshot, recovery_snapshot, SaveLoadRequest,
};
use chess3d::square::Square;

const NOW: &str = "2026-03-15T00:00:00Z";

fn square(name: &str) -> Square {
    Square::from_algebraic(name).expect("valid square")
}

/// The store's contents, kept in memory: what the file store holds on disk.
#[derive(Default)]
struct MemoryStore {
    saves: Vec<GameSnapshot>,
    recovery: Option<GameSnapshot>,
    settings: Option<ShellSettings>,
}

impl MemoryStore {
    fn save_manual(&mut self, snapshot: GameSnapshot) -> Result<SavedSessionSummary, StoreError> {
        let taken: Vec<String> = self.saves.iter().map(|s| s.metadata.session_id.clone()).collect();
        let saved = prepare_manual_save(snapshot, NOW, &taken)?;
        let summary = SavedSessionSummary::from_snapshot(&saved);
        self.saves.retain(|s| s.metadata.session_id != saved.metadata.session_id);
        self.saves.push(saved);
        Ok(summary)
    }

    fn load_manual(&self, slot_id: &str) -> Result<GameSnapshot, StoreError> {
        let found = self.saves.iter().find(|s| s.metadata.session_id == slot_id);
        match found {
            Some(s) => Ok(mark_loaded_manual(copy_snapshot(s), String::from(slot_id))),
            None => Err(StoreError::Io(String::from("No such file or directory (os error 2)"))),
        }
    }

    fn store_recovery(&mut self, snapshot: GameSnapshot) -> Result<SavedSessionSummary, StoreError> {
        let stored = prepare_recovery(snapshot, NOW);
        let summary = SavedSessionSummary::from_snapshot(&stored);
        self.recovery = Some(stored);
        Ok(summary)
    }

    fn load_recovery(&self) -> Result<Option<GameSnapshot>, StoreError> {
        Ok(self.recovery.as_ref().map(|s| mark_loaded_recovery(copy_snapshot(s))))
    }

    fn clear_recovery(&mut self) -> Result<(), StoreError> {
        self.recovery = None;
        Ok(())
    }

    fn listing(&self) -> Result<Vec<SavedSessionSummary>, StoreError> {
        Ok(self
            .saves
            .iter()
            .map(|s| SavedSessionSummary::for_manual_slot(s.metadata.session_id.clone(), s))
            .collect())
    }

    fn load_settings(&self) -> Result<ShellSettings, StoreError> {
        Ok(self.settings.unwrap_or_default())
    }
}

fn copy_snapshot(s: &GameSnapshot) -> GameSnapshot {
    GameSnapshot::from_parts(s.restore_game_state(), s.metadata.clone(), s.shell_state)
}

/// The shell around a match, driven the way the front end drives it.
struct Shell {
    store: MemoryStore,
    screen: AppScreenState,
    menu: ShellMenuState,
    save_state: SaveLoadState,
    banner: RecoveryBannerState,
    session: MatchSession,
    pending: Option<GameSnapshot>,
    intent: MatchLaunchIntent,
}

impl Shell {
    fn boot(store: MemoryStore) -> Shell {
        let mut shell = Shell {
            store,
            screen: AppScreenState::Boot,
            menu: ShellMenuState::default(),
            save_state: SaveLoadState::default(),
            banner: RecoveryBannerState::default(),
            session: MatchSession::start_local_match(),
            pending: None,
            intent: MatchLaunchIntent::default(),
        };
        shell.refresh();
        shell.enter(AppScreenState::MainMenu);
        shell
    }

    fn refresh(&mut self) {
        let error = apply_index_refresh(
            self.store.listing(),
            self.store.load_settings(),
            self.store.load_recovery(),
            &mut self.save_state,
            &mut self.banner,
        );
        self.save_state.last_error = error;
    }

    fn enter(&mut self, screen: AppScreenState) {
        self.screen = screen;
        sync_menu_panel_from_screen(screen, &mut self.menu);
        match screen {
            AppScreenState::MatchLoading => {
                let next = launch_match(self.intent, &mut self.pending, &mut self.session);
                self.enter(next);
            }
            AppScreenState::MatchResult => {
                let outcome = self.store.clear_recovery();
                clear_result_recovery_cache(outcome, &mut self.save_state, &mut self.banner);
            }
            _ => {}
        }
    }

    fn menu_action(&mut self, action: MenuAction) {
        let (intent, next) = apply_menu_action(&action, self.screen, &mut self.menu);
        if let Some(intent) = intent {
            self.intent = intent;
        }
        if let Some(next) = next {
            self.enter(next);
        }
    }

    fn request(&mut self, request: SaveLoadRequest) {
        match request {
            SaveLoadRequest::SaveManual { label, slot_id } => {
                let snapshot = manual_save_snapshot(&self.session, &label, &slot_id);
                let outcome = self.store.save_manual(snapshot);
                if finish_manual_save(outcome, &mut self.save_state, &mut self.menu) {
                    self.refresh();
                }
            }
            SaveLoadRequest::LoadManual { slot_id } => {
                let outcome = self.store.load_manual(&slot_id);
                if let Some(next) =
                    finish_load_manual(&slot_id, outcome, &mut self.pending, &mut self.intent, &mut self.save_state)
                {
                    self.enter(next);
                }
            }
            SaveLoadRequest::ResumeRecovery => {
                let outcome = self.store.load_recovery();
                if let Some(next) =
                    finish_resume_recovery(outcome, &mut self.pending, &mut self.intent, &mut self.save_state)
                {
                    self.enter(next);
                }
            }
            SaveLoadRequest::RefreshIndex => self.refresh(),
            SaveLoadRequest::PersistSettings => {
                self.store.settings = Some(self.save_state.settings);
                finish_persist_settings(Ok(()), &mut self.save_state, &mut self.banner);
            }
            other => panic!("request not used in these flows: {other:?}"),
        }
    }

    fn keys(&mut self, keys: MatchKeys) {
        let (action, request) = handle_keyboard_match_actions(keys, &self.menu, &mut self.session);
        if let Some(action) = action {
            self.menu_action(action);
        }
        if let Some(request) = request {
            self.request(request);
        }
    }

    /// The end of a frame: the result screen once the match is over, else the autosave.
    fn settle(&mut self, session_changed: bool) {
        if self.screen == AppScreenState::InMatch && self.session.is_finished() {
            self.enter(AppScreenState::MatchResult);
        } else if autosave_due(self.screen, session_changed) {
            let outcome = self.store.store_recovery(recovery_snapshot(&self.session));
            finish_autosave(outcome, &mut self.session, &mut self.save_state, &mut self.banner);
        }
    }

    fn enter_local_match(&mut self) {
        self.menu_action(MenuAction::OpenSetup);
        self.menu_action(MenuAction::StartNewMatch);
        self.settle(true);
    }
}

fn recovery_fixture(label: &str) -> GameSnapshot {
    GameSnapshot::from_parts(
        GameState::from_fen("4k3/8/8/8/8/8/4P3/4K3 w - - 0 1").expect("fixture FEN should parse"),
        SnapshotMetadata {
            label: String::from(label),
            created_at_utc: Some(String::from("2026-03-15T00:00:00Z")),
            updated_at_utc: None,
            notes: Some(String::from("Recovery fixture")),
            save_kind: SaveKind::Recovery,
            session_id: String::from("recovery"),
            recovery_key: Some(String::from("autosave")),
        },
        SnapshotShellState::default(),
    )
}

#[test]
fn local_match_flow_covers_start_move_claim_draw_and_result_transition() {
    let mut shell = Shell::boot(MemoryStore::default());
    shell.enter_local_match();
    assert_eq!(shell.screen, AppScreenState::InMatch);
    assert_eq!(shell.session.game_state().board().piece_count(), 32);

    shell.session.selected_square = Some(square("e2"));
    shell
        .session
        .apply_move(Move::new(square("e2"), square("e4")))
        .expect("e2e4 should be legal from the starting position");
    shell.settle(true);

    let board = shell.session.game_state().board();
    assert_eq!(board.piece_count(), 32);
    assert_eq!(board.piece_at(square("e4")), Some(Piece::new(Side::White, PieceKind::Pawn)));
    assert_eq!(board.piece_at(square("e2")), None);

    shell
        .session
        .replace_game_state(GameState::from_fen("4k3/8/8/8/8/8/8/4K3 w - - 100 1").expect("valid FEN"));
    assert!(shell.session.claim_draw());
    shell.settle(true);

    assert_eq!(shell.screen, AppScreenState::MatchResult);
}

#[test]
fn escape_opens_setup_overlay_without_leaving_in_match_state() {
    let mut shell = Shell::boot(MemoryStore::default());
    shell.enter_local_match();

    shell.keys(MatchKeys { escape: true, ..Default::default() });

    assert_eq!(shell.screen, AppScreenState::InMatch);
    assert_eq!(shell.menu.panel, MenuPanel::Setup);
    assert_eq!(shell.menu.context, MenuContext::InMatchOverlay);

    shell.menu_action(MenuAction::ReturnToMenu);
    assert_eq!(shell.screen, AppScreenState::MainMenu);
}

#[test]
fn promotion_flow_resolves_pending_promotion_with_keyboard_choice() {
    let mut shell = Shell::boot(MemoryStore::default());
    shell.enter_local_match();
    let from = square("a7");
    let to = square("a8");
    shell
        .session
        .replace_game_state(GameState::from_fen("4k3/P7/8/8/8/8/8/4K3 w - - 0 1").expect("valid FEN"));
    shell.session.selected_square = Some(from);
    shell.session.pending_promotion_move = Some(Move::new(from, to));

    shell.keys(MatchKeys { queen: true, ..Default::default() });

    assert_eq!(shell.session.pending_promotion_move, None);
    assert_eq!(shell.session.game_state().piece_at(to), Some(Piece::new(Side::White, PieceKind::Queen)));
}

#[test]
fn manual_save_and_load_roundtrip_restores_pending_promotion() {
    let mut shell = Shell::boot(MemoryStore::default());
    shell.enter_local_match();
    let promotion_from = square("e7");
    let promotion_to = square("e8");
    let fen = "4k3/4P3/8/8/8/8/8/4K3 w - - 0 1";
    shell.session.replace_game_state(GameState::from_fen(fen).expect("fixture FEN should parse"));
    shell.session.selected_square = Some(promotion_from);
    shell.session.pending_promotion_move = Some(Move::new(promotion_from, promotion_to));
    shell.session.mark_recovery_dirty();
    shell.settle(true);

    shell.request(SaveLoadRequest::SaveManual { label: String::from("Promotion Save"), slot_id: None });
    assert_eq!(shell.save_state.manual_saves.len(), 1);
    let slot_id = shell.save_state.manual_saves[0].slot_id.clone();
    assert_eq!(slot_id, "promotion-save");

    shell.session.reset_for_local_match();
    shell.request(SaveLoadRequest::LoadManual { slot_id });

    assert_eq!(shell.screen, AppScreenState::InMatch);
    assert_eq!(shell.session.pending_promotion_move, Some(Move::new(promotion_from, promotion_to)));
    assert_eq!(shell.session.game_state().to_fen(), fen);
}

#[test]
fn quick_save_stays_available_in_match_but_not_through_pause_overlay() {
    let fen = "4k3/8/8/8/8/8/4P3/4K3 w - - 0 1";
    let store = {
        let mut shell = Shell::boot(MemoryStore::default());
        shell.enter_local_match();
        shell.session.replace_game_state(GameState::from_fen(fen).expect("fixture FEN should parse"));
        shell.session.mark_recovery_dirty();
        shell.settle(true);

        shell.keys(MatchKeys { quick_save: true, ..Default::default() });
        assert_eq!(shell.save_state.manual_saves.len(), 1);

        shell.keys(MatchKeys { escape: true, ..Default::default() });
        assert_eq!(shell.screen, AppScreenState::InMatch);
        assert_eq!(shell.menu.panel, MenuPanel::Setup);

        shell.keys(MatchKeys { quick_save: true, ..Default::default() });
        assert_eq!(shell.save_state.manual_saves.len(), 1);

        shell.save_state.settings.display_mode = DisplayMode::Fullscreen;
        shell.save_state.settings.recovery_policy = RecoveryStartupPolicy::Ask;
        shell.request(SaveLoadRequest::PersistSettings);
        shell.store
    };

    let mut restarted = Shell::boot(store);
    assert_eq!(restarted.save_state.settings.display_mode, DisplayMode::Fullscreen);
    assert_eq!(restarted.save_state.settings.recovery_policy, RecoveryStartupPolicy::Ask);
    assert!(restarted.banner.available);
    assert_eq!(restarted.save_state.manual_saves.len(), 1);

    restarted.request(SaveLoadRequest::ResumeRecovery);
    assert_eq!(restarted.screen, AppScreenState::InMatch);
    assert_eq!(restarted.session.game_state().to_fen(), fen);
}

#[test]
fn ignore_policy_hides_recovery_banner_across_refreshes() {
    let mut store = MemoryStore::default();
    store.store_recovery(recovery_fixture("Recovery Fixture")).expect("recovery fixture should be written");
    store.settings = Some(ShellSettings { recovery_policy: RecoveryStartupPolicy::Ignore, ..ShellSettings::default() });

    let mut shell = Shell::boot(store);
    assert!(!shell.banner.available);
    assert_eq!(shell.banner.label, None);

    shell.request(SaveLoadRequest::RefreshIndex);
    assert!(!shell.banner.available);
    assert_eq!(shell.banner.label, None);
}

#[test]
fn entering_match_result_clears_recovery_label_cache() {
    let mut store = MemoryStore::default();
    store.store_recovery(recovery_fixture("Recovery Fixture")).expect("recovery fixture should be written");

    let mut shell = Shell::boot(store);
    assert_eq!(shell.banner.label.as_deref(), Some("Recovery Fixture"));

    shell.enter(AppScreenState::MatchResult);

    assert!(!shell.banner.available);
    assert_eq!(shell.banner.label, None);
    assert!(shell.store.load_recovery().expect("recovery load should succeed").is_none());
}
