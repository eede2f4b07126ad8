//! The shell's wording and small decisions: which status line shows, labels of settings,
//! confirmation texts and the result screen's title and detail.
use vstd::prelude::*;

use super::match_state::ClaimedDrawReason;
use super::menu::{AppScreenState, ConfirmationKind, MenuContext, RecoveryBannerState, SaveLoadState, ShellMenuState};
use crate::mv::Move;
use crate::persistence::store::{text_eq, DisplayMode, RecoveryStartupPolicy, SavedSessionSummary};
use crate::pieces::Side;
use crate::status::{AutomaticDrawReason, DrawReason, GameOutcome, GameStatus, WinReason};
use crate::text::push_text;

verus! {

/// Leaving to the menu from the in-match overlay abandons the match.
pub fn return_to_menu_abandons_active_match(state: AppScreenState, menu_state: &ShellMenuState) -> (r: bool)
    ensures
        r == (state == AppScreenState::InMatch && menu_state.context == MenuContext::InMatchOverlay),
{
    state == AppScreenState::InMatch && menu_state.context == MenuContext::InMatchOverlay
}

pub open spec fn spec_option_text(t: Option<String>) -> Option<Seq<char>> {
    match t {
        Some(s) => Some(s@),
        None => None,
    }
}

/// The status line the shell shows: the last store error, else the last store message, else
/// the menu's own line, else a note on an available recovery record.
pub open spec fn spec_effective_shell_status(
    menu_state: ShellMenuState,
    save_state: SaveLoadState,
    recovery: RecoveryBannerState,
) -> Option<Seq<char>> {
    if save_state.last_error is Some {
        spec_option_text(save_state.last_error)
    } else if save_state.last_message is Some {
        spec_option_text(save_state.last_message)
    } else if menu_state.status_line is Some {
        spec_option_text(menu_state.status_line)
    } else if recovery.available && recovery.label is Some {
        Some("Interrupted-session recovery is available as "@ + recovery.label.unwrap()@ + "."@)
    } else {
        None
    }
}

fn copy_line(t: &Option<String>) -> (r: Option<String>)
    ensures
        spec_option_text(r) == spec_option_text(*t),
{
    match t {
        Some(s) => Some(s.clone()),
        None => None,
    }
}

/// The status line the shell shows.
pub fn effective_shell_status(
    menu_state: &ShellMenuState,
    save_state: &SaveLoadState,
    recovery: &RecoveryBannerState,
) -> (r: Option<String>)
    ensures
        spec_option_text(r) == spec_effective_shell_status(*menu_state, *save_state, *recovery),
{
    if save_state.last_error.is_some() {
        copy_line(&save_state.last_error)
    } else if save_state.last_message.is_some() {
        copy_line(&save_state.last_message)
    } else if menu_state.status_line.is_some() {
        copy_line(&menu_state.status_line)
    } else if recovery.available {
        match &recovery.label {
            Some(label) => {
                let mut line = String::from_str("Interrupted-session recovery is available as ");
                push_text(&mut line, label.as_str());
                push_text(&mut line, ".");
                Some(line)
            },
            None => None,
        }
    } else {
        None
    }
}

pub open spec fn spec_save_label(last_move: Option<Move>) -> Seq<char> {
    match last_move {
        Some(m) => "Local Match after "@ + m.spec_uci(),
        None => "Local Match Save"@,
    }
}

/// The label of a quick save: named after the last move when there is one.
pub fn derive_save_label(last_move: Option<Move>) -> (r: String)
    requires
        last_move matches Some(m) ==> m.from.spec_nameable() && m.to.spec_nameable(),
    ensures
        r@ == spec_save_label(last_move),
{
    match last_move {
        Some(m) => {
            let mut label = String::from_str("Local Match after ");
            let text = m.to_string();
            push_text(&mut label, text.as_str());
            label
        },
        None => String::from_str("Local Match Save"),
    }
}

/// The manual save selected in the menu, if it is in the save list (the first with its id).
pub fn selected_save_summary<'a>(menu_state: &ShellMenuState, save_state: &'a SaveLoadState) -> (r: Option<
    &'a SavedSessionSummary,
>)
    ensures
        match menu_state.selected_save {
            None => r is None,
            Some(id) => match r {
                Some(summary) => exists|i: int|
                    0 <= i < save_state.manual_saves@.len() && *summary == save_state.manual_saves@[i]
                        && summary.slot_id@ == id@ && forall|j: int|
                        0 <= j < i ==> (#[trigger] save_state.manual_saves@[j]).slot_id@ != id@,
                None => forall|j: int|
                    0 <= j < save_state.manual_saves@.len() ==> (#[trigger] save_state.manual_saves@[j]).slot_id@
                        != id@,
            },
        },
{
    let slot_id = match &menu_state.selected_save {
        Some(id) => id,
        None => {
            return None;
        },
    };
    let mut i: usize = 0;
    while i < save_state.manual_saves.len()
        invariant
            i <= save_state.manual_saves@.len(),
            menu_state.selected_save == Some(*slot_id),
            forall|j: int| 0 <= j < i ==> (#[trigger] save_state.manual_saves@[j]).slot_id@ != slot_id@,
        decreases save_state.manual_saves@.len() - i,
    {
        if text_eq(save_state.manual_saves[i].slot_id.as_str(), slot_id.as_str()) {
            return Some(&save_state.manual_saves[i]);
        }
        i = i + 1;
    }
    None
}

/// The recovery policy that follows in the settings cycle Resume, Ask, Ignore.
pub fn next_recovery_policy(current: RecoveryStartupPolicy) -> (r: RecoveryStartupPolicy)
    ensures
        r == match current {
            RecoveryStartupPolicy::Resume => RecoveryStartupPolicy::Ask,
            RecoveryStartupPolicy::Ask => RecoveryStartupPolicy::Ignore,
            RecoveryStartupPolicy::Ignore => RecoveryStartupPolicy::Resume,
        },
{
    match current {
        RecoveryStartupPolicy::Resume => RecoveryStartupPolicy::Ask,
        RecoveryStartupPolicy::Ask => RecoveryStartupPolicy::Ignore,
        RecoveryStartupPolicy::Ignore => RecoveryStartupPolicy::Resume,
    }
}

pub open spec fn spec_recovery_policy_label(policy: RecoveryStartupPolicy) -> Seq<char> {
    match policy {
        RecoveryStartupPolicy::Resume => "Resume automatically"@,
        RecoveryStartupPolicy::Ask => "Ask on startup"@,
        RecoveryStartupPolicy::Ignore => "Ignore recovery on startup"@,
    }
}

pub fn recovery_policy_label(policy: RecoveryStartupPolicy) -> (r: &'static str)
    ensures
        r@ == spec_recovery_policy_label(policy),
{
    match policy {
        RecoveryStartupPolicy::Resume => "Resume automatically",
        RecoveryStartupPolicy::Ask => "Ask on startup",
        RecoveryStartupPolicy::Ignore => "Ignore recovery on startup",
    }
}

pub fn display_mode_label(mode: DisplayMode) -> (r: &'static str)
    ensures
        r@ == match mode {
            DisplayMode::Windowed => "Windowed"@,
            DisplayMode::Fullscreen => "Fullscreen"@,
        },
{
    match mode {
        DisplayMode::Windowed => "Windowed",
        DisplayMode::Fullscreen => "Fullscreen",
    }
}

/// A settings toggle's text: the label, then `: on` or `: off`.
pub fn toggle_label(label: &str, enabled: bool) -> (r: String)
    ensures
        r@ == label@ + if enabled {
            ": on"@
        } else {
            ": off"@
        },
{
    let mut text = label.to_owned();
    if enabled {
        push_text(&mut text, ": on");
    } else {
        push_text(&mut text, ": off");
    }
    text
}

pub open spec fn spec_confirmation_copy(kind: ConfirmationKind) -> (Seq<char>, Seq<char>) {
    match kind {
        ConfirmationKind::AbandonMatch => (
            "Leave the current match?"@,
            "Clearing the recovery slot prevents startup resume from restoring this position."@,
        ),
        ConfirmationKind::DeleteSave => (
            "Delete the selected save?"@,
            "Manual save history is user-controlled so deletes stay explicit."@,
        ),
        ConfirmationKind::OverwriteSave => (
            "Overwrite the selected save?"@,
            "Manual saves stay distinct from recovery, so overwrites should always be deliberate."@,
        ),
    }
}

/// The question and explanation of a confirmation dialog.
pub fn confirmation_copy(kind: ConfirmationKind) -> (r: (&'static str, &'static str))
    ensures
        (r.0@, r.1@) == spec_confirmation_copy(kind),
{
    match kind {
        ConfirmationKind::AbandonMatch => (
            "Leave the current match?",
            "Clearing the recovery slot prevents startup resume from restoring this position.",
        ),
        ConfirmationKind::DeleteSave => (
            "Delete the selected save?",
            "Manual save history is user-controlled so deletes stay explicit.",
        ),
        ConfirmationKind::OverwriteSave => (
            "Overwrite the selected save?",
            "Manual saves stay distinct from recovery, so overwrites should always be deliberate.",
        ),
    }
}

pub open spec fn spec_result_title(status: GameStatus, claimed_draw: Option<ClaimedDrawReason>) -> Seq<char> {
    match claimed_draw {
        Some(ClaimedDrawReason::ThreefoldRepetition) => "Draw Claimed by Repetition"@,
        Some(ClaimedDrawReason::FiftyMoveRule) => "Draw Claimed by Fifty-Move Rule"@,
        None => match status {
            GameStatus::Ongoing { .. } => "Match Complete"@,
            GameStatus::Finished(GameOutcome::Win { winner: Side::White, .. }) => "White Wins"@,
            GameStatus::Finished(GameOutcome::Win { winner: Side::Black, .. }) => "Black Wins"@,
            GameStatus::Finished(GameOutcome::Draw(_)) => "Draw"@,
        },
    }
}

/// The title of the result screen: a claimed draw first, else the game's outcome.
pub fn match_session_result_title(status: GameStatus, claimed_draw: Option<ClaimedDrawReason>) -> (r: String)
    ensures
        r@ == spec_result_title(status, claimed_draw),
{
    match claimed_draw {
        Some(ClaimedDrawReason::ThreefoldRepetition) => {
            return String::from_str("Draw Claimed by Repetition");
        },
        Some(ClaimedDrawReason::FiftyMoveRule) => {
            return String::from_str("Draw Claimed by Fifty-Move Rule");
        },
        None => {},
    }
    match status {
        GameStatus::Ongoing { .. } => String::from_str("Match Complete"),
        GameStatus::Finished(GameOutcome::Win { winner: Side::White, reason: WinReason::Checkmate }) => String::from_str(
            "White Wins",
        ),
        GameStatus::Finished(GameOutcome::Win { winner: Side::Black, reason: WinReason::Checkmate }) => String::from_str(
            "Black Wins",
        ),
        GameStatus::Finished(GameOutcome::Draw(_)) => String::from_str("Draw"),
    }
}

pub open spec fn spec_result_detail(status: GameStatus, claimed_draw: Option<ClaimedDrawReason>) -> Seq<char> {
    match claimed_draw {
        Some(ClaimedDrawReason::ThreefoldRepetition) => "Threefold repetition was claimed from the in-match HUD."@,
        Some(ClaimedDrawReason::FiftyMoveRule) => "The fifty-move rule was claimed from the in-match HUD."@,
        None => match status {
            GameStatus::Ongoing { .. } => "The shell routes to results only after chess_core resolves the outcome."@,
            GameStatus::Finished(GameOutcome::Win { .. }) => "Checkmate detected by chess_core."@,
            GameStatus::Finished(GameOutcome::Draw(DrawReason::Stalemate)) => "Stalemate detected by chess_core."@,
            GameStatus::Finished(GameOutcome::Draw(DrawReason::Automatic(AutomaticDrawReason::FivefoldRepetition))) => 
                "Fivefold repetition detected by chess_core."@,
            GameStatus::Finished(GameOutcome::Draw(DrawReason::Automatic(AutomaticDrawReason::SeventyFiveMoveRule))) => 
                "Seventy-five move rule detected by chess_core."@,
        },
    }
}

/// The explanation on the result screen.
pub fn match_session_result_detail(status: GameStatus, claimed_draw: Option<ClaimedDrawReason>) -> (r: String)
    ensures
        r@ == spec_result_detail(status, claimed_draw),
{
    match claimed_draw {
        Some(ClaimedDrawReason::ThreefoldRepetition) => {
            return String::from_str("Threefold repetition was claimed from the in-match HUD.");
        },
        Some(ClaimedDrawReason::FiftyMoveRule) => {
            return String::from_str("The fifty-move rule was claimed from the in-match HUD.");
        },
        None => {},
    }
    match status {
        GameStatus::Ongoing { .. } => String::from_str(
            "The shell routes to results only after chess_core resolves the outcome.",
        ),
        GameStatus::Finished(GameOutcome::Win { reason: WinReason::Checkmate, .. }) => String::from_str(
            "Checkmate detected by chess_core.",
        ),
        GameStatus::Finished(GameOutcome::Draw(DrawReason::Stalemate)) => String::from_str(
            "Stalemate detected by chess_core.",
        ),
        GameStatus::Finished(GameOutcome::Draw(DrawReason::Automatic(AutomaticDrawReason::FivefoldRepetition))) => 
            String::from_str("Fivefold repetition detected by chess_core."),
        GameStatus::Finished(GameOutcome::Draw(DrawReason::Automatic(AutomaticDrawReason::SeventyFiveMoveRule))) => 
            String::from_str("Seventy-five move rule detected by chess_core."),
    }
}

/// With no claimed draw, the result title of a won game names the winner, and a drawn game's
/// title is "Draw"; a claimed draw names the rule claimed, whatever the status.
pub proof fn law_result_title_names_outcome(status: GameStatus)
    ensures
        spec_result_title(
            GameStatus::Finished(GameOutcome::Win { winner: Side::White, reason: WinReason::Checkmate }),
            None,
        ) == "White Wins"@,
        spec_result_title(
            GameStatus::Finished(GameOutcome::Win { winner: Side::Black, reason: WinReason::Checkmate }),
            None,
        ) == "Black Wins"@,
        status matches GameStatus::Finished(GameOutcome::Draw(_)) ==> spec_result_title(status, None) == "Draw"@,
        spec_result_title(status, Some(ClaimedDrawReason::ThreefoldRepetition)) == "Draw Claimed by Repetition"@,
        spec_result_title(status, Some(ClaimedDrawReason::FiftyMoveRule)) == "Draw Claimed by Fifty-Move Rule"@,
{
}

/// With no claimed draw, games with different winners, or a won and a drawn game, get
/// different result titles.
pub proof fn law_result_title_tells_winners_apart(a: GameOutcome, b: GameOutcome)
    requires
        spec_result_title(GameStatus::Finished(a), None) == spec_result_title(GameStatus::Finished(b), None),
    ensures
        a matches GameOutcome::Win { winner, .. } ==> (b matches GameOutcome::Win { winner: w, .. } && w == winner),
{
    reveal_strlit("White Wins");
    reveal_strlit("Black Wins");
    reveal_strlit("Draw");
    let ta = spec_result_title(GameStatus::Finished(a), None);
    let tb = spec_result_title(GameStatus::Finished(b), None);
    assert(ta.len() == tb.len());
    assert(ta[0] == tb[0]);
}

/// With no claimed draw, the result detail tells how the game ended: checkmate, stalemate, or
/// the automatic draw's rule; distinct kinds of ending get distinct details.
pub proof fn law_result_detail_names_outcome(a: GameOutcome, b: GameOutcome)
    ensures
        a is Win ==> spec_result_detail(GameStatus::Finished(a), None) == "Checkmate detected by chess_core."@,
        spec_result_detail(GameStatus::Finished(GameOutcome::Draw(DrawReason::Stalemate)), None)
            == "Stalemate detected by chess_core."@,
        spec_result_detail(
            GameStatus::Finished(GameOutcome::Draw(DrawReason::Automatic(AutomaticDrawReason::FivefoldRepetition))),
            None,
        ) == "Fivefold repetition detected by chess_core."@,
        spec_result_detail(
            GameStatus::Finished(GameOutcome::Draw(DrawReason::Automatic(AutomaticDrawReason::SeventyFiveMoveRule))),
            None,
        ) == "Seventy-five move rule detected by chess_core."@,
        spec_result_detail(GameStatus::Finished(a), None) == spec_result_detail(GameStatus::Finished(b), None) ==> (
        a is Win <==> b is Win) && (a matches GameOutcome::Draw(r) ==> b == GameOutcome::Draw(r)),
{
    reveal_strlit("Checkmate detected by chess_core.");
    reveal_strlit("Stalemate detected by chess_core.");
    reveal_strlit("Fivefold repetition detected by chess_core.");
    reveal_strlit("Seventy-five move rule detected by chess_core.");
    let da = spec_result_detail(GameStatus::Finished(a), None);
    let db = spec_result_detail(GameStatus::Finished(b), None);
    if da == db {
        assert(da.len() == db.len());
        assert(da[0] == db[0]);
    }
}

/// Each recovery policy has its own label: resuming automatically, asking on startup, or
/// ignoring recovery.
pub proof fn law_recovery_policy_labels(a: RecoveryStartupPolicy, b: RecoveryStartupPolicy)
    ensures
        spec_recovery_policy_label(RecoveryStartupPolicy::Resume) == "Resume automatically"@,
        spec_recovery_policy_label(RecoveryStartupPolicy::Ask) == "Ask on startup"@,
        spec_recovery_policy_label(RecoveryStartupPolicy::Ignore) == "Ignore recovery on startup"@,
        spec_recovery_policy_label(a) == spec_recovery_policy_label(b) ==> a == b,
{
    reveal_strlit("Resume automatically");
    reveal_strlit("Ask on startup");
    reveal_strlit("Ignore recovery on startup");
    if spec_recovery_policy_label(a) == spec_recovery_policy_label(b) {
        assert(spec_recovery_policy_label(a).len() == spec_recovery_policy_label(b).len());
    }
}

/// Each confirmation dialog asks its own question: leaving the match, deleting a save, or
/// overwriting one.
pub proof fn law_confirmation_questions(a: ConfirmationKind, b: ConfirmationKind)
    ensures
        spec_confirmation_copy(ConfirmationKind::AbandonMatch).0 == "Leave the current match?"@,
        spec_confirmation_copy(ConfirmationKind::DeleteSave).0 == "Delete the selected save?"@,
        spec_confirmation_copy(ConfirmationKind::OverwriteSave).0 == "Overwrite the selected save?"@,
        spec_confirmation_copy(a).0 == spec_confirmation_copy(b).0 ==> a == b,
{
    reveal_strlit("Leave the current match?");
    reveal_strlit("Delete the selected save?");
    reveal_strlit("Overwrite the selected save?");
    if spec_confirmation_copy(a).0 == spec_confirmation_copy(b).0 {
        assert(spec_confirmation_copy(a).0.len() == spec_confirmation_copy(b).0.len());
    }
}

/// A claimed draw's result detail names the rule claimed, whatever the status.
pub proof fn law_result_detail_of_claim(status: GameStatus)
    ensures
        spec_result_detail(status, Some(ClaimedDrawReason::ThreefoldRepetition))
            == "Threefold repetition was claimed from the in-match HUD."@,
        spec_result_detail(status, Some(ClaimedDrawReason::FiftyMoveRule))
            == "The fifty-move rule was claimed from the in-match HUD."@,
{
}

} // verus!
