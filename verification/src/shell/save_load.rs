//! What the shell decides around the store: which snapshot a save writes, and what each answer
//! of the store does to the save list, the recovery banner, the menus and the next screen. The
//! store itself is driven from outside; each function here takes what it answered.
use vstd::prelude::*;

use super::match_state::{spec_restored_session, spec_snapshot_shell, MatchSession, SessionModel};
use super::menu::{AppScreenState, MatchLaunchIntent, MenuContext, MenuPanel, RecoveryBannerState, SaveLoadState, ShellMenuState};
use super::save_load_logic::{
    combine_persistence_errors, deleted_save_message, hide_recovery_banner, manual_save_message,
    spec_banner_hidden, spec_banner_shows, spec_join_spaced, spec_present_messages, sync_cached_recovery_visibility,
};
use crate::persistence::snapshot::{
    GameSnapshot, SaveFormatVersion, SaveKind, SnapshotMetadata, SnapshotShellState,
};
use crate::persistence::store::{
    RecoveryStartupPolicy, SavedSessionSummary, SessionStore, ShellSettings, StoreError, spec_text_of,
};
use crate::game::spec_starting_position;
use crate::text::push_text;

verus! {

/// A request to the store from the menus or the match.
#[derive(Debug, Clone, PartialEq, Eq)]
pub enum SaveLoadRequest {
    RefreshIndex,
    SaveManual { label: String, slot_id: Option<String> },
    LoadManual { slot_id: String },
    DeleteManual { slot_id: String },
    ResumeRecovery,
    ClearRecovery,
    AbandonMatchAndReturnToMenu,
    PersistSettings,
}

/// The error of a store answer, if it failed.
pub open spec fn spec_failure_of<T>(r: Result<T, StoreError>) -> Option<StoreError> {
    match r {
        Ok(_) => None,
        Err(e) => Some(e),
    }
}

/// The line reporting a failure, as a one-element list; empty when there was none.
pub open spec fn spec_failure_line(prefix: Seq<char>, e: Option<StoreError>) -> Seq<Seq<char>> {
    match e {
        Some(e) => seq![prefix + e.spec_message() + "."@],
        None => Seq::empty(),
    }
}

/// The failures of an index refresh, in the order the store is asked.
pub open spec fn spec_refresh_failures(
    listing: Option<StoreError>,
    settings: Option<StoreError>,
    recovery: Option<StoreError>,
) -> Seq<Seq<char>> {
    spec_failure_line("Unable to refresh save index: "@, listing) + spec_failure_line(
        "Unable to load shell settings: "@,
        settings,
    ) + spec_failure_line("Unable to inspect interrupted-session recovery: "@, recovery)
}

/// The report of a list of failures: none when empty, else the lines joined with spaces.
pub open spec fn spec_report(lines: Seq<Seq<char>>) -> Option<Seq<char>> {
    if lines.len() == 0 {
        None
    } else {
        Some(spec_join_spaced(lines))
    }
}

/// Whether `after` differs from `before` in its last error at most.
pub open spec fn spec_only_error_changed(before: SaveLoadState, after: SaveLoadState) -> bool {
    after == (SaveLoadState { last_error: after.last_error, ..before })
}

/// The summary of a recovery snapshot, if one was stored.
pub open spec fn spec_recovery_summary(
    recovery: Option<GameSnapshot>,
    summary: Option<SavedSessionSummary>,
) -> bool {
    match recovery {
        None => summary is None,
        Some(snapshot) => summary matches Some(s) && s.slot_id@ == snapshot.metadata.session_id@ && s.label@
            == snapshot.metadata.label@ && spec_text_of(s.created_at_utc) == spec_text_of(
            snapshot.metadata.created_at_utc,
        ) && s.save_kind == snapshot.metadata.save_kind,
    }
}

fn failure_text(prefix: &str, e: &StoreError) -> (r: String)
    ensures
        r@ == prefix@ + e.spec_message() + "."@,
{
    let mut text = prefix.to_owned();
    let detail = e.to_string();
    push_text(&mut text, detail.as_str());
    push_text(&mut text, ".");
    text
}

fn note_failure(errors: &mut Vec<Option<String>>, prefix: &str, e: &StoreError)
    ensures
        final(errors)@ == old(errors)@.push(final(errors)@.last()),
        final(errors)@.last() matches Some(t) && t@ == prefix@ + e.spec_message() + "."@,
{
    errors.push(Some(failure_text(prefix, e)));
}

/// Replaces the cached recovery record and shows or hides the banner for it.
pub fn set_cached_recovery(
    recovery: Option<SavedSessionSummary>,
    save_state: &mut SaveLoadState,
    recovery_banner: &mut RecoveryBannerState,
)
    ensures
        *final(save_state) == (SaveLoadState { recovery, ..*old(save_state) }),
        spec_banner_shows(*final(save_state), *final(recovery_banner)),
{
    save_state.recovery = recovery;
    sync_cached_recovery_visibility(save_state, recovery_banner);
}

/// Drops the cached recovery record and hides the banner.
pub fn clear_cached_recovery(save_state: &mut SaveLoadState, recovery_banner: &mut RecoveryBannerState)
    ensures
        *final(save_state) == (SaveLoadState { recovery: None, ..*old(save_state) }),
        spec_banner_hidden(*final(recovery_banner)),
{
    save_state.recovery = None;
    hide_recovery_banner(recovery_banner);
}

/// Takes in what the store answered to a refresh of the index: the manual saves, the settings
/// and the recovery record. What was read replaces the cached copy; what failed leaves it as it
/// was and is reported. Returns the report, none when everything was read.
pub fn apply_index_refresh(
    listing: Result<Vec<SavedSessionSummary>, StoreError>,
    settings: Result<ShellSettings, StoreError>,
    recovery: Result<Option<GameSnapshot>, StoreError>,
    save_state: &mut SaveLoadState,
    recovery_banner: &mut RecoveryBannerState,
) -> (r: Option<String>)
    ensures
        final(save_state).manual_saves@ == match listing {
            Ok(saves) => saves@,
            Err(_) => old(save_state).manual_saves@,
        },
        final(save_state).settings == match settings {
            Ok(s) => s,
            Err(_) => old(save_state).settings,
        },
        match recovery {
            Ok(snapshot) => spec_recovery_summary(snapshot, final(save_state).recovery) && spec_banner_shows(
                *final(save_state),
                *final(recovery_banner),
            ),
            Err(_) => final(save_state).recovery == old(save_state).recovery && *final(recovery_banner)
                == *old(recovery_banner),
        },
        final(save_state).last_message == old(save_state).last_message,
        final(save_state).last_error == old(save_state).last_error,
        spec_text_of(r) == spec_report(
            spec_refresh_failures(spec_failure_of(listing), spec_failure_of(settings), spec_failure_of(recovery)),
        ),
{
    let ghost listing_failure = spec_failure_of(listing);
    let ghost settings_failure = spec_failure_of(settings);
    let ghost recovery_failure = spec_failure_of(recovery);
    let mut errors: Vec<Option<String>> = Vec::new();
    let ghost mut lines: Seq<Seq<char>> = Seq::empty();
    proof {
        assert(spec_present_messages(errors@) =~= lines);
    }
    match listing {
        Ok(saves) => {
            save_state.manual_saves = saves;
        },
        Err(e) => {
            let ghost before = errors@;
            note_failure(&mut errors, "Unable to refresh save index: ", &e);
            proof {
                assert(errors@.drop_last() =~= before);
                lines = lines.push(errors@.last()->0@);
            }
        },
    }
    assert(lines =~= spec_failure_line("Unable to refresh save index: "@, listing_failure));
    assert(spec_present_messages(errors@) =~= lines);
    match settings {
        Ok(s) => {
            save_state.settings = s;
        },
        Err(e) => {
            let ghost before = errors@;
            note_failure(&mut errors, "Unable to load shell settings: ", &e);
            proof {
                assert(errors@.drop_last() =~= before);
                lines = lines.push(errors@.last()->0@);
            }
        },
    }
    assert(lines =~= spec_failure_line("Unable to refresh save index: "@, listing_failure) + spec_failure_line(
        "Unable to load shell settings: "@,
        settings_failure,
    ));
    assert(spec_present_messages(errors@) =~= lines);
    match recovery {
        Ok(snapshot) => {
            let summary = match &snapshot {
                Some(s) => Some(SavedSessionSummary::from_snapshot(s)),
                None => None,
            };
            set_cached_recovery(summary, save_state, recovery_banner);
        },
        Err(e) => {
            let ghost before = errors@;
            note_failure(&mut errors, "Unable to inspect interrupted-session recovery: ", &e);
            proof {
                assert(errors@.drop_last() =~= before);
                lines = lines.push(errors@.last()->0@);
            }
        },
    }
    assert(lines =~= spec_refresh_failures(listing_failure, settings_failure, recovery_failure));
    assert(spec_present_messages(errors@) =~= lines);
    combine_persistence_errors(errors)
}

/// Takes in a refresh of the index and records its report as the last error.
pub fn record_index_refresh(
    listing: Result<Vec<SavedSessionSummary>, StoreError>,
    settings: Result<ShellSettings, StoreError>,
    recovery: Result<Option<GameSnapshot>, StoreError>,
    save_state: &mut SaveLoadState,
    recovery_banner: &mut RecoveryBannerState,
)
    ensures
        final(save_state).manual_saves@ == match listing {
            Ok(saves) => saves@,
            Err(_) => old(save_state).manual_saves@,
        },
        final(save_state).settings == match settings {
            Ok(s) => s,
            Err(_) => old(save_state).settings,
        },
        match recovery {
            Ok(snapshot) => spec_recovery_summary(snapshot, final(save_state).recovery) && spec_banner_shows(
                *final(save_state),
                *final(recovery_banner),
            ),
            Err(_) => final(save_state).recovery == old(save_state).recovery && *final(recovery_banner)
                == *old(recovery_banner),
        },
        final(save_state).last_message == old(save_state).last_message,
        spec_text_of(final(save_state).last_error) == spec_report(
            spec_refresh_failures(spec_failure_of(listing), spec_failure_of(settings), spec_failure_of(recovery)),
        ),
{
    let report = apply_index_refresh(listing, settings, recovery, save_state, recovery_banner);
    save_state.last_error = report;
}

/// The metadata of a manual save asked for under `label`, in slot `slot_id` if one was named.
pub open spec fn spec_manual_metadata(label: Seq<char>, slot_id: Option<Seq<char>>, m: SnapshotMetadata) -> bool {
    &&& m.label@ == label
    &&& m.created_at_utc is None
    &&& m.updated_at_utc is None
    &&& spec_text_of(m.notes) == Some("Manual save"@)
    &&& m.save_kind == SaveKind::Manual
    &&& m.session_id@ == match slot_id {
        Some(s) => s,
        None => Seq::<char>::empty(),
    }
    &&& m.recovery_key is None
}

/// The snapshot that a manual save of the session writes.
pub fn manual_save_snapshot(match_session: &MatchSession, label: &str, slot_id: &Option<String>) -> (r: GameSnapshot)
    ensures
        r.version == SaveFormatVersion::V2,
        r.game_state@ == match_session.game_state@,
        r.shell_state == spec_snapshot_shell(match_session@),
        spec_manual_metadata(label@, spec_text_of(*slot_id), r.metadata),
{
    let session_id = match slot_id {
        Some(s) => s.clone(),
        None => String::new(),
    };
    match_session.to_snapshot(
        SnapshotMetadata {
            label: label.to_owned(),
            created_at_utc: None,
            updated_at_utc: None,
            notes: Some(String::from_str("Manual save")),
            save_kind: SaveKind::Manual,
            session_id,
            recovery_key: None,
        },
    )
}

/// Takes in the store's answer to a manual save. On success the save is announced and
/// selected, and the index must be refreshed (the result says so); on failure the error is
/// reported.
pub fn finish_manual_save(
    outcome: Result<SavedSessionSummary, StoreError>,
    save_state: &mut SaveLoadState,
    menu_state: &mut ShellMenuState,
) -> (refresh: bool)
    ensures
        refresh == outcome is Ok,
        final(save_state).manual_saves == old(save_state).manual_saves,
        final(save_state).recovery == old(save_state).recovery,
        final(save_state).settings == old(save_state).settings,
        match outcome {
            Ok(summary) => {
                &&& final(save_state).last_error is None
                &&& spec_text_of(final(save_state).last_message) == Some("Saved match as "@ + summary.label@ + "."@)
                &&& final(menu_state)@ == (super::menu::MenuModel { selected_save: Some(summary.slot_id@), ..old(menu_state)@ })
            },
            Err(_) => {
                &&& spec_text_of(final(save_state).last_error) == Some("Unable to write the selected save slot."@)
                &&& final(save_state).last_message == old(save_state).last_message
                &&& final(menu_state)@ == old(menu_state)@
            },
        },
{
    match outcome {
        Ok(summary) => {
            save_state.last_error = None;
            save_state.last_message = Some(manual_save_message(&summary));
            menu_state.selected_save = Some(summary.slot_id);
            true
        },
        Err(_) => {
            save_state.last_error = Some(String::from_str("Unable to write the selected save slot."));
            false
        },
    }
}

/// Takes in the store's answer to loading the manual save in `slot_id`. On success the snapshot
/// waits to be loaded and the shell goes to match loading (the screen it returns); on failure
/// the error is reported and the screen stays.
pub fn finish_load_manual(
    slot_id: &str,
    outcome: Result<GameSnapshot, StoreError>,
    pending_snapshot: &mut Option<GameSnapshot>,
    launch_intent: &mut MatchLaunchIntent,
    save_state: &mut SaveLoadState,
) -> (next: Option<AppScreenState>)
    ensures
        final(save_state).manual_saves == old(save_state).manual_saves,
        final(save_state).recovery == old(save_state).recovery,
        final(save_state).settings == old(save_state).settings,
        match outcome {
            Ok(snapshot) => {
                &&& *final(pending_snapshot) == Some(snapshot)
                &&& *final(launch_intent) == MatchLaunchIntent::LoadManual
                &&& final(save_state).last_error is None
                &&& spec_text_of(final(save_state).last_message) == Some("Loading save "@ + slot_id@ + "."@)
                &&& next == Some(AppScreenState::MatchLoading)
            },
            Err(_) => {
                &&& *final(pending_snapshot) == *old(pending_snapshot)
                &&& *final(launch_intent) == *old(launch_intent)
                &&& spec_text_of(final(save_state).last_error) == Some("Unable to load the selected save."@)
                &&& final(save_state).last_message == old(save_state).last_message
                &&& next is None
            },
        },
{
    match outcome {
        Ok(snapshot) => {
            *pending_snapshot = Some(snapshot);
            *launch_intent = MatchLaunchIntent::LoadManual;
            save_state.last_error = None;
            let mut message = String::from_str("Loading save ");
            push_text(&mut message, slot_id);
            push_text(&mut message, ".");
            save_state.last_message = Some(message);
            Some(AppScreenState::MatchLoading)
        },
        Err(_) => {
            save_state.last_error = Some(String::from_str("Unable to load the selected save."));
            None
        },
    }
}

/// Takes in the store's answer to deleting the manual save in `slot_id`. On success the
/// deletion is announced, the save is no longer selected, and the index must be refreshed (the
/// result says so); on failure the error is reported.
pub fn finish_delete_manual(
    slot_id: &str,
    outcome: Result<(), StoreError>,
    save_state: &mut SaveLoadState,
    menu_state: &mut ShellMenuState,
) -> (refresh: bool)
    ensures
        refresh == outcome is Ok,
        final(save_state).manual_saves == old(save_state).manual_saves,
        final(save_state).recovery == old(save_state).recovery,
        final(save_state).settings == old(save_state).settings,
        outcome is Ok ==> {
            &&& final(save_state).last_error is None
            &&& spec_text_of(final(save_state).last_message) == Some("Deleted save "@ + slot_id@ + "."@)
            &&& final(menu_state)@ == (super::menu::MenuModel {
                selected_save: if old(menu_state)@.selected_save == Some(slot_id@) {
                    None
                } else {
                    old(menu_state)@.selected_save
                },
                ..old(menu_state)@
            })
        },
        outcome is Err ==> {
            &&& spec_text_of(final(save_state).last_error) == Some("Unable to delete the selected save."@)
            &&& final(save_state).last_message == old(save_state).last_message
            &&& final(menu_state)@ == old(menu_state)@
        },
{
    match outcome {
        Ok(()) => {
            save_state.last_error = None;
            save_state.last_message = Some(deleted_save_message(slot_id));
            let selected = match &menu_state.selected_save {
                Some(s) => crate::persistence::store::text_eq(s.as_str(), slot_id),
                None => false,
            };
            if selected {
                menu_state.selected_save = None;
            }
            true
        },
        Err(_) => {
            save_state.last_error = Some(String::from_str("Unable to delete the selected save."));
            false
        },
    }
}

/// Takes in the store's answer to reading the recovery record when the player asked to resume
/// it. A record waits to be loaded and the shell goes to match loading (the screen it
/// returns); no record, or a failure, is reported.
pub fn finish_resume_recovery(
    outcome: Result<Option<GameSnapshot>, StoreError>,
    pending_snapshot: &mut Option<GameSnapshot>,
    launch_intent: &mut MatchLaunchIntent,
    save_state: &mut SaveLoadState,
) -> (next: Option<AppScreenState>)
    ensures
        final(save_state).manual_saves == old(save_state).manual_saves,
        final(save_state).recovery == old(save_state).recovery,
        final(save_state).settings == old(save_state).settings,
        match outcome {
            Ok(Some(snapshot)) => {
                &&& *final(pending_snapshot) == Some(snapshot)
                &&& *final(launch_intent) == MatchLaunchIntent::ResumeRecovery
                &&& final(save_state).last_error is None
                &&& spec_text_of(final(save_state).last_message) == Some("Resuming interrupted session."@)
                &&& next == Some(AppScreenState::MatchLoading)
            },
            Ok(None) => {
                &&& *final(pending_snapshot) == *old(pending_snapshot)
                &&& *final(launch_intent) == *old(launch_intent)
                &&& spec_text_of(final(save_state).last_error) == Some("No interrupted session is available."@)
                &&& final(save_state).last_message == old(save_state).last_message
                &&& next is None
            },
            Err(_) => {
                &&& *final(pending_snapshot) == *old(pending_snapshot)
                &&& *final(launch_intent) == *old(launch_intent)
                &&& spec_text_of(final(save_state).last_error) == Some(
                    "Unable to resume the interrupted session."@,
                )
                &&& final(save_state).last_message == old(save_state).last_message
                &&& next is None
            },
        },
{
    match outcome {
        Ok(Some(snapshot)) => {
            *pending_snapshot = Some(snapshot);
            *launch_intent = MatchLaunchIntent::ResumeRecovery;
            save_state.last_error = None;
            save_state.last_message = Some(String::from_str("Resuming interrupted session."));
            Some(AppScreenState::MatchLoading)
        },
        Ok(None) => {
            save_state.last_error = Some(String::from_str("No interrupted session is available."));
            None
        },
        Err(_) => {
            save_state.last_error = Some(String::from_str("Unable to resume the interrupted session."));
            None
        },
    }
}

/// Takes in the store's answer to clearing the recovery record: on success the cached record
/// goes and the banner hides; on failure the error is reported.
pub fn finish_clear_recovery(
    outcome: Result<(), StoreError>,
    save_state: &mut SaveLoadState,
    recovery_banner: &mut RecoveryBannerState,
)
    ensures
        outcome is Ok ==> *final(save_state) == (SaveLoadState { recovery: None, ..*old(save_state) })
            && spec_banner_hidden(*final(recovery_banner)),
        outcome is Err ==> spec_only_error_changed(*old(save_state), *final(save_state)) && spec_text_of(
            final(save_state).last_error,
        ) == Some("Unable to clear interrupted-session recovery."@) && *final(recovery_banner) == *old(
            recovery_banner,
        ),
{
    match outcome {
        Ok(()) => {
            clear_cached_recovery(save_state, recovery_banner);
        },
        Err(_) => {
            save_state.last_error = Some(String::from_str("Unable to clear interrupted-session recovery."));
        },
    }
}

/// Takes in the store's answer to clearing the recovery record when the player abandons the
/// match. On success the record goes, the menu returns home and the shell goes to the main
/// menu (the screen it returns); on failure the error is reported and the match stays.
pub fn finish_abandon_match(
    outcome: Result<(), StoreError>,
    save_state: &mut SaveLoadState,
    recovery_banner: &mut RecoveryBannerState,
    menu_state: &mut ShellMenuState,
) -> (next: Option<AppScreenState>)
    ensures
        final(save_state).manual_saves == old(save_state).manual_saves,
        final(save_state).settings == old(save_state).settings,
        outcome is Ok ==> {
            &&& final(save_state).recovery is None
            &&& spec_banner_hidden(*final(recovery_banner))
            &&& final(save_state).last_error is None
            &&& spec_text_of(final(save_state).last_message) == Some("Returned to the main menu."@)
            &&& final(menu_state)@ == (super::menu::MenuModel {
                panel: MenuPanel::Home,
                context: MenuContext::MainMenu,
                confirmation: None,
                ..old(menu_state)@
            })
            &&& next == Some(AppScreenState::MainMenu)
        },
        outcome is Err ==> {
            &&& final(save_state).recovery == old(save_state).recovery
            &&& *final(recovery_banner) == *old(recovery_banner)
            &&& spec_text_of(final(save_state).last_error) == Some("Unable to clear interrupted-session recovery."@)
            &&& final(save_state).last_message == old(save_state).last_message
            &&& final(menu_state)@ == old(menu_state)@
            &&& next is None
        },
{
    match outcome {
        Ok(()) => {
            clear_cached_recovery(save_state, recovery_banner);
            save_state.last_error = None;
            save_state.last_message = Some(String::from_str("Returned to the main menu."));
            menu_state.panel = MenuPanel::Home;
            menu_state.context = MenuContext::MainMenu;
            menu_state.confirmation = None;
            Some(AppScreenState::MainMenu)
        },
        Err(_) => {
            save_state.last_error = Some(String::from_str("Unable to clear interrupted-session recovery."));
            None
        },
    }
}

/// Takes in the store's answer to writing the settings: success is announced, failure
/// reported; either way the banner follows the settings.
pub fn finish_persist_settings(
    outcome: Result<(), StoreError>,
    save_state: &mut SaveLoadState,
    recovery_banner: &mut RecoveryBannerState,
)
    ensures
        final(save_state).manual_saves == old(save_state).manual_saves,
        final(save_state).recovery == old(save_state).recovery,
        final(save_state).settings == old(save_state).settings,
        outcome is Ok ==> final(save_state).last_error is None && spec_text_of(final(save_state).last_message)
            == Some("Saved shell settings."@),
        outcome is Err ==> spec_text_of(final(save_state).last_error) == Some("Unable to save shell settings."@)
            && final(save_state).last_message == old(save_state).last_message,
        spec_banner_shows(*final(save_state), *final(recovery_banner)),
{
    match outcome {
        Ok(()) => {
            save_state.last_error = None;
            save_state.last_message = Some(String::from_str("Saved shell settings."));
        },
        Err(_) => {
            save_state.last_error = Some(String::from_str("Unable to save shell settings."));
        },
    }
    sync_cached_recovery_visibility(save_state, recovery_banner);
}

/// The snapshot that the autosave writes for the session: an interrupted-session record that
/// counts as persisted.
pub fn recovery_snapshot(match_session: &MatchSession) -> (r: GameSnapshot)
    ensures
        r.version == SaveFormatVersion::V2,
        r.game_state@ == match_session.game_state@,
        r.shell_state == (SnapshotShellState { dirty_recovery: false, ..spec_snapshot_shell(match_session@) }),
        r.metadata.label@ == "Interrupted Session"@,
        r.metadata.created_at_utc is None,
        r.metadata.updated_at_utc is None,
        spec_text_of(r.metadata.notes) == Some("Automatic recovery snapshot"@),
        r.metadata.save_kind == SaveKind::Recovery,
        r.metadata.session_id@ == Seq::<char>::empty(),
        spec_text_of(r.metadata.recovery_key) == Some("autosave"@),
{
    let mut snapshot = match_session.to_snapshot(
        SnapshotMetadata {
            label: String::from_str("Interrupted Session"),
            created_at_utc: None,
            updated_at_utc: None,
            notes: Some(String::from_str("Automatic recovery snapshot")),
            save_kind: SaveKind::Recovery,
            session_id: String::new(),
            recovery_key: Some(String::from_str("autosave")),
        },
    );
    snapshot.shell_state.dirty_recovery = false;
    snapshot
}

/// Whether the autosave writes now: in a match whose session changed.
pub fn autosave_due(screen: AppScreenState, session_changed: bool) -> (r: bool)
    ensures
        r == (screen == AppScreenState::InMatch && session_changed),
{
    screen == AppScreenState::InMatch && session_changed
}

/// Takes in the store's answer to the autosave: on success the session counts as persisted and
/// the new record is cached; on failure the error is reported.
pub fn finish_autosave(
    outcome: Result<SavedSessionSummary, StoreError>,
    match_session: &mut MatchSession,
    save_state: &mut SaveLoadState,
    recovery_banner: &mut RecoveryBannerState,
)
    ensures
        match outcome {
            Ok(summary) => {
                &&& final(match_session)@ == super::match_state::SessionModel { dirty_recovery: false, ..old(match_session)@ }
                &&& *final(save_state) == (SaveLoadState { recovery: Some(summary), ..*old(save_state) })
                &&& spec_banner_shows(*final(save_state), *final(recovery_banner))
            },
            Err(_) => {
                &&& final(match_session)@ == old(match_session)@
                &&& spec_only_error_changed(*old(save_state), *final(save_state))
                &&& spec_text_of(final(save_state).last_error) == Some(
                    "Unable to refresh interrupted-session recovery."@,
                )
                &&& *final(recovery_banner) == *old(recovery_banner)
            },
        },
{
    match outcome {
        Ok(summary) => {
            match_session.mark_recovery_persisted();
            set_cached_recovery(Some(summary), save_state, recovery_banner);
        },
        Err(_) => {
            save_state.last_error = Some(String::from_str("Unable to refresh interrupted-session recovery."));
        },
    }
}

/// Takes in the store's answer to clearing the recovery record when a match ends: on success
/// the cached record goes and the banner hides; on failure the error is reported and the banner
/// keeps showing the cached record.
pub fn clear_result_recovery_cache(
    outcome: Result<(), StoreError>,
    save_state: &mut SaveLoadState,
    recovery_banner: &mut RecoveryBannerState,
)
    ensures
        outcome is Ok ==> *final(save_state) == (SaveLoadState { recovery: None, ..*old(save_state) })
            && spec_banner_hidden(*final(recovery_banner)),
        outcome is Err ==> spec_only_error_changed(*old(save_state), *final(save_state)) && spec_text_of(
            final(save_state).last_error,
        ) == Some("Unable to clear interrupted-session recovery."@) && spec_banner_shows(
            *final(save_state),
            *final(recovery_banner),
        ),
{
    match outcome {
        Ok(()) => {
            clear_cached_recovery(save_state, recovery_banner);
        },
        Err(_) => {
            save_state.last_error = Some(String::from_str("Unable to clear interrupted-session recovery."));
            sync_cached_recovery_visibility(save_state, recovery_banner);
        },
    }
}

/// The first step of startup recovery, taken once on the main menu: it marks the step as
/// handled and returns whether the recovery record must be read to resume it (the policy
/// resumes); under the ignore policy it hides the banner for the cached record.
pub fn begin_startup_recovery(
    handled: &mut bool,
    screen: AppScreenState,
    save_state: &SaveLoadState,
    recovery_banner: &mut RecoveryBannerState,
) -> (load: bool)
    ensures
        (*old(handled) || screen != AppScreenState::MainMenu) ==> !load && *final(handled) == *old(handled)
            && *final(recovery_banner) == *old(recovery_banner),
        !(*old(handled) || screen != AppScreenState::MainMenu) ==> {
            &&& *final(handled)
            &&& load == (save_state.settings.recovery_policy == RecoveryStartupPolicy::Resume)
            &&& save_state.settings.recovery_policy == RecoveryStartupPolicy::Ignore ==> spec_banner_shows(
                *save_state,
                *final(recovery_banner),
            )
            &&& save_state.settings.recovery_policy != RecoveryStartupPolicy::Ignore ==> *final(recovery_banner)
                == *old(recovery_banner)
        },
{
    if *handled || screen != AppScreenState::MainMenu {
        return false;
    }
    *handled = true;
    match save_state.settings.recovery_policy {
        RecoveryStartupPolicy::Resume => true,
        RecoveryStartupPolicy::Ignore => {
            sync_cached_recovery_visibility(save_state, recovery_banner);
            false
        },
        RecoveryStartupPolicy::Ask => false,
    }
}

/// The second step of startup recovery, with what the store answered: a stored record waits
/// to be loaded and the shell goes to match loading (the screen it returns); anything else
/// changes nothing.
pub fn finish_startup_recovery(
    outcome: Result<Option<GameSnapshot>, StoreError>,
    pending_snapshot: &mut Option<GameSnapshot>,
    launch_intent: &mut MatchLaunchIntent,
) -> (next: Option<AppScreenState>)
    ensures
        match outcome {
            Ok(Some(snapshot)) => *final(pending_snapshot) == Some(snapshot) && *final(launch_intent)
                == MatchLaunchIntent::ResumeRecovery && next == Some(AppScreenState::MatchLoading),
            _ => *final(pending_snapshot) == *old(pending_snapshot) && *final(launch_intent) == *old(launch_intent)
                && next is None,
        },
{
    match outcome {
        Ok(Some(snapshot)) => {
            *pending_snapshot = Some(snapshot);
            *launch_intent = MatchLaunchIntent::ResumeRecovery;
            Some(AppScreenState::MatchLoading)
        },
        _ => None,
    }
}

/// The store the shell uses: the one under an explicit root if given, else the platform's,
/// else the one under `fallback_root`, with a message saying why.
pub fn resolve_session_store(
    root_override: Option<String>,
    runtime_root: Result<String, StoreError>,
    fallback_root: &str,
) -> (r: (SessionStore, Option<String>))
    ensures
        match root_override {
            Some(root) => r.0@ == root@ && r.1 is None,
            None => match runtime_root {
                Ok(root) => r.0@ == root@ && r.1 is None,
                Err(e) => r.0@ == fallback_root@ && spec_text_of(r.1) == Some(
                    "Save storage is using fallback root "@ + fallback_root@
                        + " because the default app-data directory is unavailable: "@ + e.spec_message() + "."@,
                ),
            },
        },
{
    match root_override {
        Some(root) => (SessionStore::new(root.as_str()), None),
        None => match runtime_root {
            Ok(root) => (SessionStore::new(root.as_str()), None),
            Err(e) => {
                let mut message = String::from_str("Save storage is using fallback root ");
                push_text(&mut message, fallback_root);
                push_text(&mut message, " because the default app-data directory is unavailable: ");
                let detail = e.to_string();
                push_text(&mut message, detail.as_str());
                push_text(&mut message, ".");
                (SessionStore::new(fallback_root), Some(message))
            },
        },
    }
}

/// A fresh local match, as the session model sees it.
pub open spec fn spec_fresh_session() -> SessionModel {
    SessionModel {
        game: spec_starting_position(),
        selected_square: None,
        pending_promotion_move: None,
        last_move: None,
        claimed_draw: None,
        dirty_recovery: true,
    }
}

/// Loads the match that the launch intent names, on entering match loading: a load or a
/// resume restores the snapshot waiting to be loaded, anything else (or a load with no
/// snapshot waiting) starts a fresh local match. The waiting snapshot is used up, and the
/// shell goes on to the match (the screen it returns).
pub fn launch_match(
    intent: MatchLaunchIntent,
    pending_snapshot: &mut Option<GameSnapshot>,
    match_session: &mut MatchSession,
) -> (next: AppScreenState)
    ensures
        next == AppScreenState::InMatch,
        *final(pending_snapshot) is None,
        match (intent, *old(pending_snapshot)) {
            (MatchLaunchIntent::LoadManual, Some(snapshot)) | (MatchLaunchIntent::ResumeRecovery, Some(snapshot)) =>
                final(match_session)@ == spec_restored_session(snapshot.game_state@, snapshot.shell_state),
            _ => final(match_session)@ == spec_fresh_session(),
        },
{
    let waiting = pending_snapshot.take();
    let restore = intent == MatchLaunchIntent::LoadManual || intent == MatchLaunchIntent::ResumeRecovery;
    match waiting {
        Some(snapshot) => {
            if restore {
                *match_session = MatchSession::from_snapshot(&snapshot);
            } else {
                match_session.reset_for_local_match();
            }
        },
        None => {
            match_session.reset_for_local_match();
        },
    }
    AppScreenState::InMatch
}

} // verus!
