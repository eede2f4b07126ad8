//! The automation contract: the commands an agent may send, the snapshot of what a player
//! would see, and the frames of the line-based transport.
use vstd::prelude::*;

use super::app_shell_logic::{effective_shell_status, spec_effective_shell_status, spec_option_text};
use super::match_state::{spec_targets_from, ClaimedDrawReason, MatchSession};
use crate::game::play::spec_legal_list;
use super::menu::{AppScreenState, ConfirmationKind, MenuContext, MenuPanel, RecoveryBannerState, SaveLoadState, ShellMenuState};
use crate::mv::Move;
use crate::persistence::store::{copy_summary, copy_text, spec_text_of, SavedSessionSummary, ShellSettings};
use crate::pieces::PieceKind;
use crate::rules::{spec_draw_availability, spec_fen, spec_status};
use crate::square::Square;
use crate::status::{DrawAvailability, GameStatus};
use crate::text::{push_decimal, push_text, spec_decimal};

verus! {

#[derive(Debug, Clone, Copy, PartialEq, Eq, Structural)]
pub enum AutomationScreen {
    Boot,
    MainMenu,
    MatchLoading,
    InMatch,
    MatchResult,
}

impl Default for AutomationScreen {
    fn default() -> (r: AutomationScreen)
        ensures
            r == AutomationScreen::Boot,
    {
        AutomationScreen::Boot
    }
}

#[derive(Debug, Clone, Copy, PartialEq, Eq, Structural)]
pub enum AutomationMenuPanel {
    Home,
    Setup,
    LoadList,
    Settings,
}

impl Default for AutomationMenuPanel {
    fn default() -> (r: AutomationMenuPanel)
        ensures
            r == AutomationMenuPanel::Home,
    {
        AutomationMenuPanel::Home
    }
}

#[derive(Debug, Clone, Copy, PartialEq, Eq, Structural)]
pub enum AutomationMenuContext {
    MainMenu,
    InMatchOverlay,
}

impl Default for AutomationMenuContext {
    fn default() -> (r: AutomationMenuContext)
        ensures
            r == AutomationMenuContext::MainMenu,
    {
        AutomationMenuContext::MainMenu
    }
}

#[derive(Debug, Clone, Copy, PartialEq, Eq, Structural)]
pub enum AutomationConfirmationKind {
    AbandonMatch,
    DeleteSave,
    OverwriteSave,
}

#[derive(Debug, Clone, Copy, PartialEq, Eq, Structural)]
pub enum AutomationClaimedDrawReason {
    ThreefoldRepetition,
    FiftyMoveRule,
}

/// A command of the automation contract.
#[derive(Debug, Clone, PartialEq, Eq)]
pub enum AutomationCommand {
    Snapshot,
    Step { frames: u32 },
    Navigation(AutomationNavigationAction),
    Save(AutomationSaveAction),
    Settings(AutomationSettingsAction),
    Match(AutomationMatchAction),
    Confirm(AutomationConfirmationKind),
}

#[derive(Debug, Clone, Copy, PartialEq, Eq, Structural)]
pub enum AutomationNavigationAction {
    OpenSetup,
    BackToSetup,
    OpenLoadList,
    OpenSettings,
    StartNewMatch,
    ResumeRecovery,
    PauseMatch,
    ResumeMatch,
    ReturnToMenu,
    Rematch,
    CancelModal,
}

#[derive(Debug, Clone, PartialEq, Eq)]
pub enum AutomationSaveAction {
    RefreshIndex,
    SaveManual { label: Option<String> },
    SelectSlot { slot_id: String },
    LoadSelected,
    DeleteSelected,
    OverwriteSelected,
}

#[derive(Debug, Clone, Copy, PartialEq, Eq, Structural)]
pub enum AutomationSettingsAction {
    CycleRecoveryPolicy,
    ToggleDisplayMode,
    ToggleConfirmation { kind: AutomationConfirmationKind },
}

#[derive(Debug, Clone, Copy, PartialEq, Eq, Structural)]
pub enum AutomationMatchAction {
    SelectSquare { square: Square },
    SubmitMove { from: Square, to: Square, promotion: Option<PieceKind> },
    ChoosePromotion { piece: PieceKind },
    ClearInteraction,
}

/// Why an automation command was refused.
#[derive(Debug, Clone, PartialEq, Eq)]
pub enum AutomationError {
    InvalidStepCount(u32),
    SaveSelectionRequired,
    PromotionUnavailable,
    CommandIgnored(String),
}

impl AutomationError {
    pub open spec fn spec_message(&self) -> Seq<char> {
        match self {
            AutomationError::InvalidStepCount(frames) => "automation step count must be at least one frame, got "@
                + spec_decimal(*frames as nat),
            AutomationError::SaveSelectionRequired => "automation command requires a selected save slot"@,
            AutomationError::PromotionUnavailable => "automation command requires a pending promotion move"@,
            AutomationError::CommandIgnored(reason) => "automation command had no effect: "@ + reason@,
        }
    }

    /// The message shown for the error.
    pub fn to_string(&self) -> (r: String)
        ensures
            r@ == self.spec_message(),
    {
        match self {
            AutomationError::InvalidStepCount(frames) => {
                let mut out = String::from_str("automation step count must be at least one frame, got ");
                push_decimal(&mut out, *frames as u64);
                out
            },
            AutomationError::SaveSelectionRequired => String::from_str(
                "automation command requires a selected save slot",
            ),
            AutomationError::PromotionUnavailable => String::from_str(
                "automation command requires a pending promotion move",
            ),
            AutomationError::CommandIgnored(reason) => {
                let mut out = String::from_str("automation command had no effect: ");
                push_text(&mut out, reason.as_str());
                out
            },
        }
    }
}

/// The menu as a player sees it.
#[derive(Debug, Clone, PartialEq, Eq)]
pub struct AutomationMenuSnapshot {
    pub panel: AutomationMenuPanel,
    pub context: AutomationMenuContext,
    pub confirmation: Option<AutomationConfirmationKind>,
    pub selected_save: Option<String>,
    pub status_line: Option<String>,
    pub shell_status: Option<String>,
    pub recovery_available: bool,
    pub recovery_label: Option<String>,
}

impl Default for AutomationMenuSnapshot {
    fn default() -> (r: AutomationMenuSnapshot)
        ensures
            r.panel == AutomationMenuPanel::Home,
            r.context == AutomationMenuContext::MainMenu,
            r.confirmation is None,
            r.selected_save is None,
            r.status_line is None,
            r.shell_status is None,
            !r.recovery_available,
            r.recovery_label is None,
    {
        AutomationMenuSnapshot {
            panel: AutomationMenuPanel::Home,
            context: AutomationMenuContext::MainMenu,
            confirmation: None,
            selected_save: None,
            status_line: None,
            shell_status: None,
            recovery_available: false,
            recovery_label: None,
        }
    }
}

/// The match as a player sees it.
#[derive(Debug, Clone, PartialEq, Eq)]
pub struct AutomationMatchSnapshot {
    pub fen: String,
    pub status: GameStatus,
    pub selected_square: Option<Square>,
    pub legal_targets: Vec<Square>,
    pub pending_promotion: Option<Move>,
    pub last_move: Option<Move>,
    pub claimable_draw: DrawAvailability,
    pub claimed_draw: Option<AutomationClaimedDrawReason>,
    pub dirty_recovery: bool,
}

impl Default for AutomationMatchSnapshot {
    /// The snapshot of a match that has not started: the starting position.
    fn default() -> (r: AutomationMatchSnapshot)
        ensures
            r.fen@ == "rnbqkbnr/pppppppp/8/8/8/8/PPPPPPPP/RNBQKBNR w KQkq - 0 1"@,
            r.status == (GameStatus::Ongoing {
                in_check: false,
                draw_available: DrawAvailability { threefold_repetition: false, fifty_move_rule: false },
            }),
            r.selected_square is None,
            r.legal_targets@.len() == 0,
            r.pending_promotion is None,
            r.last_move is None,
            r.claimable_draw == (DrawAvailability { threefold_repetition: false, fifty_move_rule: false }),
            r.claimed_draw is None,
            !r.dirty_recovery,
    {
        AutomationMatchSnapshot {
            fen: String::from_str("rnbqkbnr/pppppppp/8/8/8/8/PPPPPPPP/RNBQKBNR w KQkq - 0 1"),
            status: GameStatus::Ongoing { in_check: false, draw_available: DrawAvailability::default() },
            selected_square: None,
            legal_targets: Vec::new(),
            pending_promotion: None,
            last_move: None,
            claimable_draw: DrawAvailability::default(),
            claimed_draw: None,
            dirty_recovery: false,
        }
    }
}

/// The store as a player sees it.
#[derive(Debug, Clone, PartialEq, Eq)]
pub struct AutomationSaveSnapshot {
    pub manual_saves: Vec<SavedSessionSummary>,
    pub recovery: Option<SavedSessionSummary>,
    pub settings: ShellSettings,
    pub last_message: Option<String>,
    pub last_error: Option<String>,
}

impl Default for AutomationSaveSnapshot {
    fn default() -> (r: AutomationSaveSnapshot)
        ensures
            r.manual_saves@.len() == 0,
            r.recovery is None,
            r.settings == ShellSettings::spec_default(),
            r.last_message is None,
            r.last_error is None,
    {
        AutomationSaveSnapshot {
            manual_saves: Vec::new(),
            recovery: None,
            settings: ShellSettings::default(),
            last_message: None,
            last_error: None,
        }
    }
}

/// Everything a player sees.
#[derive(Debug, Clone, PartialEq, Eq)]
pub struct AutomationSnapshot {
    pub screen: AutomationScreen,
    pub menu: AutomationMenuSnapshot,
    pub match_state: AutomationMatchSnapshot,
    pub saves: AutomationSaveSnapshot,
}

impl Default for AutomationSnapshot {
    fn default() -> (r: AutomationSnapshot)
        ensures
            r.screen == AutomationScreen::Boot,
            r.menu.panel == AutomationMenuPanel::Home,
            r.match_state.fen@ == "rnbqkbnr/pppppppp/8/8/8/8/PPPPPPPP/RNBQKBNR w KQkq - 0 1"@,
            r.saves.manual_saves@.len() == 0,
    {
        AutomationSnapshot {
            screen: AutomationScreen::Boot,
            menu: AutomationMenuSnapshot::default(),
            match_state: AutomationMatchSnapshot::default(),
            saves: AutomationSaveSnapshot::default(),
        }
    }
}

pub open spec fn spec_screen(state: AppScreenState) -> AutomationScreen {
    match state {
        AppScreenState::Boot => AutomationScreen::Boot,
        AppScreenState::MainMenu => AutomationScreen::MainMenu,
        AppScreenState::MatchLoading => AutomationScreen::MatchLoading,
        AppScreenState::InMatch => AutomationScreen::InMatch,
        AppScreenState::MatchResult => AutomationScreen::MatchResult,
    }
}

pub fn screen_from_state(state: AppScreenState) -> (r: AutomationScreen)
    ensures
        r == spec_screen(state),
{
    match state {
        AppScreenState::Boot => AutomationScreen::Boot,
        AppScreenState::MainMenu => AutomationScreen::MainMenu,
        AppScreenState::MatchLoading => AutomationScreen::MatchLoading,
        AppScreenState::InMatch => AutomationScreen::InMatch,
        AppScreenState::MatchResult => AutomationScreen::MatchResult,
    }
}

pub open spec fn spec_panel(panel: MenuPanel) -> AutomationMenuPanel {
    match panel {
        MenuPanel::Home => AutomationMenuPanel::Home,
        MenuPanel::Setup => AutomationMenuPanel::Setup,
        MenuPanel::LoadList => AutomationMenuPanel::LoadList,
        MenuPanel::Settings => AutomationMenuPanel::Settings,
    }
}

pub fn panel_from_state(panel: MenuPanel) -> (r: AutomationMenuPanel)
    ensures
        r == spec_panel(panel),
{
    match panel {
        MenuPanel::Home => AutomationMenuPanel::Home,
        MenuPanel::Setup => AutomationMenuPanel::Setup,
        MenuPanel::LoadList => AutomationMenuPanel::LoadList,
        MenuPanel::Settings => AutomationMenuPanel::Settings,
    }
}

pub open spec fn spec_context(context: MenuContext) -> AutomationMenuContext {
    match context {
        MenuContext::MainMenu => AutomationMenuContext::MainMenu,
        MenuContext::InMatchOverlay => AutomationMenuContext::InMatchOverlay,
    }
}

pub fn context_from_state(context: MenuContext) -> (r: AutomationMenuContext)
    ensures
        r == spec_context(context),
{
    match context {
        MenuContext::MainMenu => AutomationMenuContext::MainMenu,
        MenuContext::InMatchOverlay => AutomationMenuContext::InMatchOverlay,
    }
}

pub open spec fn spec_confirmation(kind: ConfirmationKind) -> AutomationConfirmationKind {
    match kind {
        ConfirmationKind::AbandonMatch => AutomationConfirmationKind::AbandonMatch,
        ConfirmationKind::DeleteSave => AutomationConfirmationKind::DeleteSave,
        ConfirmationKind::OverwriteSave => AutomationConfirmationKind::OverwriteSave,
    }
}

pub fn confirmation_from_state(kind: ConfirmationKind) -> (r: AutomationConfirmationKind)
    ensures
        r == spec_confirmation(kind),
{
    match kind {
        ConfirmationKind::AbandonMatch => AutomationConfirmationKind::AbandonMatch,
        ConfirmationKind::DeleteSave => AutomationConfirmationKind::DeleteSave,
        ConfirmationKind::OverwriteSave => AutomationConfirmationKind::OverwriteSave,
    }
}

pub open spec fn spec_claimed_draw(kind: ClaimedDrawReason) -> AutomationClaimedDrawReason {
    match kind {
        ClaimedDrawReason::ThreefoldRepetition => AutomationClaimedDrawReason::ThreefoldRepetition,
        ClaimedDrawReason::FiftyMoveRule => AutomationClaimedDrawReason::FiftyMoveRule,
    }
}

pub fn claimed_draw_from_state(kind: ClaimedDrawReason) -> (r: AutomationClaimedDrawReason)
    ensures
        r == spec_claimed_draw(kind),
{
    match kind {
        ClaimedDrawReason::ThreefoldRepetition => AutomationClaimedDrawReason::ThreefoldRepetition,
        ClaimedDrawReason::FiftyMoveRule => AutomationClaimedDrawReason::FiftyMoveRule,
    }
}

fn copy_summaries(v: &Vec<SavedSessionSummary>) -> (r: Vec<SavedSessionSummary>)
    ensures
        r@ == v@,
{
    let mut out: Vec<SavedSessionSummary> = Vec::new();
    let mut i: usize = 0;
    while i < v.len()
        invariant
            i <= v@.len(),
            out@ == v@.take(i as int),
        decreases v@.len() - i,
    {
        out.push(copy_summary(&v[i]));
        proof {
            assert(v@.take(i + 1) == v@.take(i as int).push(v@[i as int]));
        }
        i = i + 1;
    }
    proof {
        assert(v@.take(i as int) == v@);
    }
    out
}

/// What a player sees, read off the shell's state.
pub fn capture_snapshot(
    state: AppScreenState,
    menu_state: &ShellMenuState,
    save_state: &SaveLoadState,
    recovery: &RecoveryBannerState,
    match_session: &MatchSession,
) -> (r: AutomationSnapshot)
    ensures
        r.screen == spec_screen(state),
        r.menu.panel == spec_panel(menu_state.panel),
        r.menu.context == spec_context(menu_state.context),
        r.menu.confirmation == match menu_state.confirmation {
            Some(kind) => Some(spec_confirmation(kind)),
            None => None,
        },
        spec_option_text(r.menu.selected_save) == spec_option_text(menu_state.selected_save),
        spec_option_text(r.menu.status_line) == spec_option_text(menu_state.status_line),
        spec_option_text(r.menu.shell_status) == spec_effective_shell_status(*menu_state, *save_state, *recovery),
        r.menu.recovery_available == recovery.available,
        spec_option_text(r.menu.recovery_label) == spec_option_text(recovery.label),
        r.match_state.fen@ == spec_fen(match_session.game_state@),
        r.match_state.status == spec_status(match_session.game_state@),
        r.match_state.selected_square == match_session.selected_square,
        match match_session.selected_square {
            None => r.match_state.legal_targets@.len() == 0,
            Some(from) => r.match_state.legal_targets@ == spec_targets_from(
                spec_legal_list(match_session.game_state@),
                from,
            ),
        },
        r.match_state.pending_promotion == match_session.pending_promotion_move,
        r.match_state.last_move == match_session.last_move,
        r.match_state.claimable_draw == spec_draw_availability(match_session.game_state@),
        r.match_state.claimed_draw == match match_session.claimed_draw {
            Some(kind) => Some(spec_claimed_draw(kind)),
            None => None,
        },
        r.match_state.dirty_recovery == match_session.dirty_recovery,
        r.saves.manual_saves@ == save_state.manual_saves@,
        r.saves.recovery == save_state.recovery,
        r.saves.settings == save_state.settings,
        spec_option_text(r.saves.last_message) == spec_option_text(save_state.last_message),
        spec_option_text(r.saves.last_error) == spec_option_text(save_state.last_error),
{
    AutomationSnapshot {
        screen: screen_from_state(state),
        menu: AutomationMenuSnapshot {
            panel: panel_from_state(menu_state.panel),
            context: context_from_state(menu_state.context),
            confirmation: match menu_state.confirmation {
                Some(kind) => Some(confirmation_from_state(kind)),
                None => None,
            },
            selected_save: copy_text(&menu_state.selected_save),
            status_line: copy_text(&menu_state.status_line),
            shell_status: effective_shell_status(menu_state, save_state, recovery),
            recovery_available: recovery.available,
            recovery_label: copy_text(&recovery.label),
        },
        match_state: AutomationMatchSnapshot {
            fen: match_session.game_state().to_fen(),
            status: match_session.status(),
            selected_square: match_session.selected_square,
            legal_targets: match_session.legal_targets_for_selected(),
            pending_promotion: match_session.pending_promotion_move,
            last_move: match_session.last_move,
            claimable_draw: match_session.claimable_draw(),
            claimed_draw: match match_session.claimed_draw_reason() {
                Some(kind) => Some(claimed_draw_from_state(kind)),
                None => None,
            },
            dirty_recovery: match_session.is_recovery_dirty(),
        },
        saves: AutomationSaveSnapshot {
            manual_saves: copy_summaries(&save_state.manual_saves),
            recovery: match &save_state.recovery {
                Some(summary) => Some(copy_summary(summary)),
                None => None,
            },
            settings: save_state.settings,
            last_message: copy_text(&save_state.last_message),
            last_error: copy_text(&save_state.last_error),
        },
    }
}

// ---------------------------------------------------------------- the line transport

/// A request frame: one command.
#[derive(Debug, Clone, PartialEq, Eq)]
pub struct AutomationRequest {
    pub command: AutomationCommand,
}

/// The kind of a refused request.
#[derive(Debug, Clone, Copy, PartialEq, Eq, Structural)]
pub enum AutomationTransportErrorCode {
    InvalidRequest,
    CommandRejected,
}

#[derive(Debug, Clone, PartialEq, Eq)]
pub struct AutomationTransportError {
    pub code: AutomationTransportErrorCode,
    pub message: String,
}

/// A response frame: the snapshot after the command, or why the request was refused.
#[derive(Debug, Clone, PartialEq, Eq)]
pub struct AutomationResponse {
    pub snapshot: Option<AutomationSnapshot>,
    pub error: Option<AutomationTransportError>,
}

impl AutomationResponse {
    pub fn success(snapshot: AutomationSnapshot) -> (r: AutomationResponse)
        ensures
            r.snapshot == Some(snapshot),
            r.error is None,
    {
        AutomationResponse { snapshot: Some(snapshot), error: None }
    }

    /// The answer to a line that is not a request.
    pub fn invalid_request(message: String) -> (r: AutomationResponse)
        ensures
            r.snapshot is None,
            r.error matches Some(e) && e.code == AutomationTransportErrorCode::InvalidRequest && e.message == message,
    {
        AutomationResponse {
            snapshot: None,
            error: Some(AutomationTransportError { code: AutomationTransportErrorCode::InvalidRequest, message }),
        }
    }

    /// The answer to a request whose command was refused.
    pub fn command_rejected(message: String) -> (r: AutomationResponse)
        ensures
            r.snapshot is None,
            r.error matches Some(e) && e.code == AutomationTransportErrorCode::CommandRejected && e.message == message,
    {
        AutomationResponse {
            snapshot: None,
            error: Some(AutomationTransportError { code: AutomationTransportErrorCode::CommandRejected, message }),
        }
    }

    /// The answer to a command's outcome.
    pub fn from_outcome(outcome: Result<AutomationSnapshot, AutomationError>) -> (r: AutomationResponse)
        ensures
            match outcome {
                Ok(snapshot) => r.snapshot == Some(snapshot) && r.error is None,
                Err(e) => r.snapshot is None && (r.error matches Some(te) && te.code
                    == AutomationTransportErrorCode::CommandRejected && te.message@ == e.spec_message()),
            },
    {
        match outcome {
            Ok(snapshot) => AutomationResponse::success(snapshot),
            Err(e) => AutomationResponse::command_rejected(e.to_string()),
        }
    }
}

/// The automation snapshot reports each app screen as the screen of the same name, so
/// distinct screens are reported apart.
pub proof fn law_screen_names_state(a: AppScreenState, b: AppScreenState)
    ensures
        spec_screen(AppScreenState::Boot) == AutomationScreen::Boot,
        spec_screen(AppScreenState::MainMenu) == AutomationScreen::MainMenu,
        spec_screen(AppScreenState::MatchLoading) == AutomationScreen::MatchLoading,
        spec_screen(AppScreenState::InMatch) == AutomationScreen::InMatch,
        spec_screen(AppScreenState::MatchResult) == AutomationScreen::MatchResult,
        spec_screen(a) == spec_screen(b) ==> a == b,
{
}

/// The snapshot reports each menu panel, menu context, confirmation and claimed draw as the
/// one of the same name, so distinct ones are reported apart.
pub proof fn law_menu_parts_named(
    p: MenuPanel,
    q: MenuPanel,
    c: MenuContext,
    d: MenuContext,
    k: ConfirmationKind,
    l: ConfirmationKind,
    x: ClaimedDrawReason,
    y: ClaimedDrawReason,
)
    ensures
        spec_panel(MenuPanel::Home) == AutomationMenuPanel::Home,
        spec_panel(MenuPanel::Setup) == AutomationMenuPanel::Setup,
        spec_panel(MenuPanel::LoadList) == AutomationMenuPanel::LoadList,
        spec_panel(MenuPanel::Settings) == AutomationMenuPanel::Settings,
        spec_panel(p) == spec_panel(q) ==> p == q,
        spec_context(MenuContext::MainMenu) == AutomationMenuContext::MainMenu,
        spec_context(MenuContext::InMatchOverlay) == AutomationMenuContext::InMatchOverlay,
        spec_context(c) == spec_context(d) ==> c == d,
        spec_confirmation(ConfirmationKind::AbandonMatch) == AutomationConfirmationKind::AbandonMatch,
        spec_confirmation(ConfirmationKind::DeleteSave) == AutomationConfirmationKind::DeleteSave,
        spec_confirmation(ConfirmationKind::OverwriteSave) == AutomationConfirmationKind::OverwriteSave,
        spec_confirmation(k) == spec_confirmation(l) ==> k == l,
        spec_claimed_draw(ClaimedDrawReason::ThreefoldRepetition) == AutomationClaimedDrawReason::ThreefoldRepetition,
        spec_claimed_draw(ClaimedDrawReason::FiftyMoveRule) == AutomationClaimedDrawReason::FiftyMoveRule,
        spec_claimed_draw(x) == spec_claimed_draw(y) ==> x == y,
{
}

} // verus!
