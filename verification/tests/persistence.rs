use chess3d::game::GameState;
use chess3d::mv::Move;
use chess3d::persistence::snapshot::{
    ClaimedDrawSnapshot, GameSnapshot, PendingPromotionSnapshot, SaveFormatVersion, SaveKind,
    SnapshotMetadata, SnapshotShellState,
};
use chess3d::persistence::store::{
    manual_slot_id_from_file_name, mark_loaded_manual, mark_loaded_recovery, next_manual_slot_id,
    prepare_manual_save, prepare_manual_save_now, prepare_recovery, slugify_label, sort_newest_first,
    trim_text, validate_slot_id, ConfirmActionSettings, DisplayMode, RecoveryStartupPolicy,
    SavedSessionSummary, SessionStore, ShellSettings, StoreError,
};
use chess3d::square::Square;

#[test]
fn recovery_snapshot_roundtrip_keeps_resume_metadata_and_shell_flags() {
    let game_state = GameState::from_fen("4k3/8/8/8/8/8/4P3/4K3 w - - 0 1")
        .expect("fixture FEN should parse");
    let snapshot = GameSnapshot::from_parts(
        game_state.copy(),
        SnapshotMetadata {
            label: String::from("recovery"),
            created_at_utc: Some(String::from("2026-03-15T00:00:00Z")),
            updated_at_utc: Some(String::from("2026-03-15T00:01:00Z")),
            notes: Some(String::from("Interrupted session")),
            save_kind: SaveKind::Recovery,
            session_id: String::from("recovery"),
            recovery_key: Some(String::from("autosave")),
        },
        SnapshotShellState {
            dirty_recovery: true,
            ..SnapshotShellState::default()
        },
    );

    let restored = snapshot.restore_game_state();
    assert_eq!(snapshot.metadata().save_kind, SaveKind::Recovery);
    assert_eq!(
        snapshot.metadata().recovery_key.as_deref(),
        Some("autosave")
    );
    assert!(snapshot.shell_state().dirty_recovery);
    assert_eq!(restored.to_fen(), game_state.to_fen());
    assert_eq!(restored.legal_moves(), game_state.legal_moves());
}

fn metadata(label: &str, session_id: &str) -> SnapshotMetadata {
    SnapshotMetadata {
        label: String::from(label),
        session_id: String::from(session_id),
        ..SnapshotMetadata::default()
    }
}

#[test]
fn snapshot_parts_are_kept_and_restored() {
    let start = GameState::starting_position();
    let e2 = Square::from_algebraic("e2").unwrap();
    let e4 = Square::from_algebraic("e4").unwrap();
    let after = start.apply_move(Move::new(e2, e4)).unwrap();
    let shell = SnapshotShellState {
        selected_square: Some(e4),
        pending_promotion: Some(PendingPromotionSnapshot { from: e2, to: e4 }),
        last_move: Some(Move::new(e2, e4)),
        claimed_draw: Some(ClaimedDrawSnapshot::FiftyMoveRule),
        dirty_recovery: false,
    };
    let snapshot = GameSnapshot::from_parts(after.copy(), metadata("opening", "opening"), shell);
    assert_eq!(snapshot.version, SaveFormatVersion::V2);
    assert_eq!(snapshot.shell_state(), &shell);
    assert_eq!(snapshot.metadata().label, "opening");
    assert_eq!(snapshot.restore_game_state(), after);

    let plain = GameSnapshot::new(after.copy(), metadata("x", ""));
    assert_eq!(plain.shell_state(), &SnapshotShellState::default());
    assert_eq!(SaveFormatVersion::default(), SaveFormatVersion::V2);
    assert_eq!(SaveKind::default(), SaveKind::Manual);
}

#[test]
fn settings_defaults_ask_confirm_and_window() {
    let settings = ShellSettings::default();
    assert_eq!(settings.recovery_policy, RecoveryStartupPolicy::Ask);
    assert_eq!(settings.display_mode, DisplayMode::Windowed);
    assert_eq!(
        settings.confirm_actions,
        ConfirmActionSettings {
            overwrite_save: true,
            delete_save: true,
            abandon_match: true,
        }
    );
}

#[test]
fn store_keeps_its_root_and_reports_errors() {
    let store = SessionStore::new("/tmp/saves-root");
    assert_eq!(store.root(), "/tmp/saves-root");
    assert_eq!(
        StoreError::InvalidSlotId(String::from("../x")).to_string(),
        "invalid slot id: ../x"
    );
    assert_eq!(
        StoreError::Io(String::from("denied")).to_string(),
        "I/O error: denied"
    );
    assert_eq!(
        StoreError::Serialization(String::from("eof")).to_string(),
        "serialization error: eof"
    );
    assert_eq!(
        StoreError::MissingPlatformDir.to_string(),
        "missing platform data directory"
    );
}

#[test]
fn slugs_and_slot_ids_follow_the_safe_alphabet() {
    assert_eq!(slugify_label("  Local Match after e2e4!  "), "local-match-after-e2e4");
    assert_eq!(slugify_label("***"), "");
    assert_eq!(trim_text("  a b \t", false), "a b");
    assert_eq!(trim_text("--a-b--", true), "a-b");
    assert_eq!(validate_slot_id("  opening-1 ").unwrap(), "opening-1");
    assert_eq!(
        validate_slot_id("../escape"),
        Err(StoreError::InvalidSlotId(String::from("../escape")))
    );
    assert_eq!(
        validate_slot_id("   "),
        Err(StoreError::InvalidSlotId(String::from("   ")))
    );
    assert_eq!(
        validate_slot_id("Upper"),
        Err(StoreError::InvalidSlotId(String::from("Upper")))
    );
}

#[test]
fn manual_save_file_names_give_slot_ids() {
    assert_eq!(
        manual_slot_id_from_file_name("opening.json").unwrap(),
        Some(String::from("opening"))
    );
    assert_eq!(manual_slot_id_from_file_name("notes.txt").unwrap(), None);
    assert_eq!(manual_slot_id_from_file_name(".json").unwrap(), None);
    assert_eq!(manual_slot_id_from_file_name("plain").unwrap(), None);
    assert!(manual_slot_id_from_file_name("Bad Name.json").is_err());
}

#[test]
fn new_slot_ids_skip_taken_ones() {
    let taken = vec![
        String::from("quick-save"),
        String::from("quick-save-2"),
        String::from("other"),
    ];
    assert_eq!(next_manual_slot_id("Quick Save", &taken), "quick-save-3");
    assert_eq!(next_manual_slot_id("Fresh", &taken), "fresh");
    assert_eq!(next_manual_slot_id("!!!", &Vec::new()), "manual-save");
}

#[test]
fn manual_saves_get_label_slot_kind_and_times() {
    let game = GameState::starting_position();
    let taken = vec![String::from("manual-save-2026")];
    let saved = prepare_manual_save(
        GameSnapshot::new(game.copy(), metadata("   ", "")),
        "2026",
        &taken,
    )
    .unwrap();
    assert_eq!(saved.metadata.label, "Manual Save 2026");
    assert_eq!(saved.metadata.session_id, "manual-save-2026-2");
    assert_eq!(saved.metadata.save_kind, SaveKind::Manual);
    assert_eq!(saved.metadata.created_at_utc.as_deref(), Some("2026"));
    assert_eq!(saved.metadata.updated_at_utc.as_deref(), Some("2026"));

    let mut kept = metadata("Mine", " slot-1 ");
    kept.created_at_utc = Some(String::from("earlier"));
    kept.save_kind = SaveKind::Recovery;
    let saved = prepare_manual_save(GameSnapshot::new(game.copy(), kept), "now", &taken).unwrap();
    assert_eq!(saved.metadata.session_id, "slot-1");
    assert_eq!(saved.metadata.save_kind, SaveKind::Manual);
    assert_eq!(saved.metadata.created_at_utc.as_deref(), Some("earlier"));
    assert_eq!(saved.metadata.updated_at_utc.as_deref(), Some("now"));

    let refused = prepare_manual_save(
        GameSnapshot::new(game.copy(), metadata("Mine", "bad id")),
        "now",
        &taken,
    );
    assert_eq!(
        refused.err(),
        Some(StoreError::InvalidSlotId(String::from("bad id")))
    );

    let stamped = prepare_manual_save_now(GameSnapshot::new(game.copy(), metadata("Mine", "")), &taken)
        .unwrap();
    assert_eq!(stamped.metadata.session_id, "mine");
    assert!(stamped.metadata.created_at_utc.is_some());
}

#[test]
fn recovery_records_and_loads_are_normalised() {
    let game = GameState::starting_position();
    let recovered = prepare_recovery(GameSnapshot::new(game.copy(), metadata("Interrupted", "x")), "t1");
    assert_eq!(recovered.metadata.session_id, "recovery");
    assert_eq!(recovered.metadata.save_kind, SaveKind::Recovery);
    assert_eq!(recovered.metadata.recovery_key.as_deref(), Some("autosave"));
    assert_eq!(recovered.metadata.created_at_utc.as_deref(), Some("t1"));

    let loaded = mark_loaded_manual(recovered, String::from("slot-9"));
    assert_eq!(loaded.metadata.session_id, "slot-9");
    assert_eq!(loaded.metadata.save_kind, SaveKind::Manual);
    assert_eq!(loaded.metadata.recovery_key.as_deref(), Some("autosave"));

    let back = mark_loaded_recovery(loaded);
    assert_eq!(back.metadata.session_id, "recovery");
    assert_eq!(back.metadata.save_kind, SaveKind::Recovery);

    let summary = SavedSessionSummary::from_snapshot(&back);
    assert_eq!(summary.slot_id, "recovery");
    assert_eq!(summary.label, "Interrupted");
    assert_eq!(summary.save_kind, SaveKind::Recovery);
}

fn summary(slot: &str, created: Option<&str>) -> SavedSessionSummary {
    SavedSessionSummary {
        slot_id: String::from(slot),
        label: String::from(slot),
        created_at_utc: created.map(String::from),
        save_kind: SaveKind::Manual,
    }
}

#[test]
fn save_list_is_newest_first_and_stable() {
    let sorted = sort_newest_first(vec![
        summary("a", Some("2026-01-01")),
        summary("b", None),
        summary("c", Some("2026-03-01")),
        summary("d", Some("2026-01-01")),
        summary("e", None),
    ]);
    let order: Vec<&str> = sorted.iter().map(|s| s.slot_id.as_str()).collect();
    assert_eq!(order, vec!["c", "a", "d", "b", "e"]);
}
