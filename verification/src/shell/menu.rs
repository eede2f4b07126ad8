//! Screens, menu panels and the shell resources that the menus show.
use vstd::prelude::*;

use crate::persistence::store::{SavedSessionSummary, ShellSettings};
use crate::text::push_text;

verus! {

/// The top-level screen of the application.
#[derive(Debug, Clone, Copy, PartialEq, Eq, Hash, Structural)]
pub enum AppScreenState {
    Boot,
    MainMenu,
    MatchLoading,
    InMatch,
    MatchResult,
}

impl Default for AppScreenState {
    fn default() -> (r: AppScreenState)
        ensures
            r == AppScreenState::Boot,
    {
        AppScreenState::Boot
    }
}

#[derive(Debug, Clone, Copy, PartialEq, Eq, Structural)]
pub enum MenuPanel {
    Home,
    Setup,
    LoadList,
    Settings,
}

impl Default for MenuPanel {
    fn default() -> (r: MenuPanel)
        ensures
            r == MenuPanel::Home,
    {
        MenuPanel::Home
    }
}

/// Whether the menu shows as the main menu or as an overlay over a match.
#[derive(Debug, Clone, Copy, PartialEq, Eq, Structural)]
pub enum MenuContext {
    MainMenu,
    InMatchOverlay,
}

impl Default for MenuContext {
    fn default() -> (r: MenuContext)
        ensures
            r == MenuContext::MainMenu,
    {
        MenuContext::MainMenu
    }
}

/// The actions that ask before they act.
#[derive(Debug, Clone, Copy, PartialEq, Eq, Structural)]
pub enum ConfirmationKind {
    AbandonMatch,
    DeleteSave,
    OverwriteSave,
}

/// The interrupted-session banner.
#[derive(Debug, Clone, PartialEq, Eq)]
pub struct RecoveryBannerState {
    pub available: bool,
    pub dirty: bool,
    pub label: Option<String>,
}

impl Default for RecoveryBannerState {
    fn default() -> (r: RecoveryBannerState)
        ensures
            !r.available,
            !r.dirty,
            r.label is None,
    {
        RecoveryBannerState { available: false, dirty: false, label: None }
    }
}

/// The state of the menus.
#[derive(Debug, Clone, PartialEq, Eq)]
pub struct ShellMenuState {
    pub panel: MenuPanel,
    pub context: MenuContext,
    pub confirmation: Option<ConfirmationKind>,
    pub selected_save: Option<String>,
    pub status_line: Option<String>,
}

impl Default for ShellMenuState {
    fn default() -> (r: ShellMenuState)
        ensures
            r.panel == MenuPanel::Home,
            r.context == MenuContext::MainMenu,
            r.confirmation is None,
            r.selected_save is None,
            r.status_line is None,
    {
        ShellMenuState {
            panel: MenuPanel::Home,
            context: MenuContext::MainMenu,
            confirmation: None,
            selected_save: None,
            status_line: None,
        }
    }
}

/// What the shell knows of the store: the save list, the recovery record, the settings and
/// the last outcome to report.
#[derive(Debug, Clone, PartialEq, Eq)]
pub struct SaveLoadState {
    pub manual_saves: Vec<SavedSessionSummary>,
    pub recovery: Option<SavedSessionSummary>,
    pub settings: ShellSettings,
    pub last_message: Option<String>,
    pub last_error: Option<String>,
}

impl Default for SaveLoadState {
    fn default() -> (r: SaveLoadState)
        ensures
            r.manual_saves@.len() == 0,
            r.recovery is None,
            r.settings == ShellSettings::spec_default(),
            r.last_message is None,
            r.last_error is None,
    {
        SaveLoadState {
            manual_saves: Vec::new(),
            recovery: None,
            settings: ShellSettings::default(),
            last_message: None,
            last_error: None,
        }
    }
}

/// What the next match loading starts from.
#[derive(Debug, Clone, Copy, PartialEq, Eq, Structural)]
pub enum MatchLaunchIntent {
    NewLocalMatch,
    Rematch,
    LoadManual,
    ResumeRecovery,
}

impl Default for MatchLaunchIntent {
    fn default() -> (r: MatchLaunchIntent)
        ensures
            r == MatchLaunchIntent::NewLocalMatch,
    {
        MatchLaunchIntent::NewLocalMatch
    }
}

/// A request from the menus.
#[derive(Debug, Clone, PartialEq, Eq)]
pub enum MenuAction {
    OpenSetup,
    OpenLoadList,
    OpenSettings,
    BackToSetup,
    StartNewMatch,
    Rematch,
    PauseMatch,
    ResumeMatch,
    ReturnToMenu,
    SelectSave(String),
    RequestConfirmation(ConfirmationKind),
    CancelModal,
}

/// The menu state as its spec functions see it, with the texts as character sequences.
pub struct MenuModel {
    pub panel: MenuPanel,
    pub context: MenuContext,
    pub confirmation: Option<ConfirmationKind>,
    pub selected_save: Option<Seq<char>>,
    pub status_line: Option<Seq<char>>,
}

impl View for ShellMenuState {
    type V = MenuModel;

    open spec fn view(&self) -> MenuModel {
        MenuModel {
            panel: self.panel,
            context: self.context,
            confirmation: self.confirmation,
            selected_save: match self.selected_save {
                Some(s) => Some(s@),
                None => None,
            },
            status_line: match self.status_line {
                Some(s) => Some(s@),
                None => None,
            },
        }
    }
}

/// The menu after the screen changed to `screen`: entering the main menu resets it to its home
/// panel, entering match loading closes any dialog.
pub open spec fn spec_menu_on_screen(m: MenuModel, screen: AppScreenState) -> MenuModel {
    match screen {
        AppScreenState::MainMenu => MenuModel {
            context: MenuContext::MainMenu,
            panel: MenuPanel::Home,
            confirmation: None,
            ..m
        },
        AppScreenState::MatchLoading => MenuModel { confirmation: None, ..m },
        _ => m,
    }
}

/// Brings the menu in line with a screen that was just entered.
pub fn sync_menu_panel_from_screen(screen: AppScreenState, menu_state: &mut ShellMenuState)
    ensures
        final(menu_state)@ == spec_menu_on_screen(old(menu_state)@, screen),
{
    match screen {
        AppScreenState::MainMenu => {
            menu_state.context = MenuContext::MainMenu;
            menu_state.panel = MenuPanel::Home;
            menu_state.confirmation = None;
        },
        AppScreenState::MatchLoading => {
            menu_state.confirmation = None;
        },
        _ => {},
    }
}

/// The effect of a menu action: the new menu, the launch intent it sets and the screen it asks
/// for, if any.
pub open spec fn spec_menu_action(m: MenuModel, screen: AppScreenState, action: MenuAction) -> (
    MenuModel,
    Option<MatchLaunchIntent>,
    Option<AppScreenState>,
) {
    match action {
        MenuAction::OpenSetup => (MenuModel { panel: MenuPanel::Setup, context: MenuContext::MainMenu, ..m }, None, None),
        MenuAction::OpenLoadList => (MenuModel { panel: MenuPanel::LoadList, ..m }, None, None),
        MenuAction::OpenSettings => (MenuModel { panel: MenuPanel::Settings, ..m }, None, None),
        MenuAction::BackToSetup => (MenuModel { panel: MenuPanel::Setup, ..m }, None, None),
        MenuAction::StartNewMatch => (
            MenuModel { context: MenuContext::MainMenu, ..m },
            Some(MatchLaunchIntent::NewLocalMatch),
            Some(AppScreenState::MatchLoading),
        ),
        MenuAction::Rematch => (
            MenuModel { context: MenuContext::MainMenu, ..m },
            Some(MatchLaunchIntent::Rematch),
            Some(AppScreenState::MatchLoading),
        ),
        MenuAction::PauseMatch => if screen == AppScreenState::InMatch {
            (
                MenuModel { panel: MenuPanel::Setup, context: MenuContext::InMatchOverlay, confirmation: None, ..m },
                None,
                None,
            )
        } else {
            (m, None, None)
        },
        MenuAction::ResumeMatch => (MenuModel { confirmation: None, context: MenuContext::MainMenu, ..m }, None, None),
        MenuAction::ReturnToMenu => (
            MenuModel { panel: MenuPanel::Home, context: MenuContext::MainMenu, confirmation: None, ..m },
            None,
            Some(AppScreenState::MainMenu),
        ),
        MenuAction::SelectSave(slot_id) => (
            MenuModel {
                selected_save: Some(slot_id@),
                status_line: Some("Selected save "@ + slot_id@ + "."@),
                ..m
            },
            None,
            None,
        ),
        MenuAction::RequestConfirmation(kind) => (MenuModel { confirmation: Some(kind), ..m }, None, None),
        MenuAction::CancelModal => (MenuModel { confirmation: None, ..m }, None, None),
    }
}

/// Applies a menu action on screen `screen`; returns the launch intent it sets and the screen
/// it asks for, if any.
pub fn apply_menu_action(action: &MenuAction, screen: AppScreenState, menu_state: &mut ShellMenuState) -> (r: (
    Option<MatchLaunchIntent>,
    Option<AppScreenState>,
))
    ensures
        (final(menu_state)@, r.0, r.1) == spec_menu_action(old(menu_state)@, screen, *action),
{
    match action {
        MenuAction::OpenSetup => {
            menu_state.panel = MenuPanel::Setup;
            menu_state.context = MenuContext::MainMenu;
            (None, None)
        },
        MenuAction::OpenLoadList => {
            menu_state.panel = MenuPanel::LoadList;
            (None, None)
        },
        MenuAction::OpenSettings => {
            menu_state.panel = MenuPanel::Settings;
            (None, None)
        },
        MenuAction::BackToSetup => {
            menu_state.panel = MenuPanel::Setup;
            (None, None)
        },
        MenuAction::StartNewMatch => {
            menu_state.context = MenuContext::MainMenu;
            (Some(MatchLaunchIntent::NewLocalMatch), Some(AppScreenState::MatchLoading))
        },
        MenuAction::Rematch => {
            menu_state.context = MenuContext::MainMenu;
            (Some(MatchLaunchIntent::Rematch), Some(AppScreenState::MatchLoading))
        },
        MenuAction::PauseMatch => {
            if screen == AppScreenState::InMatch {
                menu_state.panel = MenuPanel::Setup;
                menu_state.context = MenuContext::InMatchOverlay;
                menu_state.confirmation = None;
            }
            (None, None)
        },
        MenuAction::ResumeMatch => {
            menu_state.confirmation = None;
            menu_state.context = MenuContext::MainMenu;
            (None, None)
        },
        MenuAction::ReturnToMenu => {
            menu_state.panel = MenuPanel::Home;
            menu_state.context = MenuContext::MainMenu;
            menu_state.confirmation = None;
            (None, Some(AppScreenState::MainMenu))
        },
        MenuAction::SelectSave(slot_id) => {
            menu_state.selected_save = Some(slot_id.clone());
            let mut line = String::from_str("Selected save ");
            push_text(&mut line, slot_id.as_str());
            push_text(&mut line, ".");
            menu_state.status_line = Some(line);
            (None, None)
        },
        MenuAction::RequestConfirmation(kind) => {
            menu_state.confirmation = Some(*kind);
            (None, None)
        },
        MenuAction::CancelModal => {
            menu_state.confirmation = None;
            (None, None)
        },
    }
}

/// What the menu actions are for: only starting a new match or a rematch sets a launch intent,
/// the one it names, and both go to match loading; returning to the menu goes to the main menu
/// at its home panel; no other action changes the screen. Each panel action opens the panel it
/// names, pausing in a match opens the in-match overlay, resuming closes it, asking for a
/// confirmation opens that dialog and cancelling closes it, and selecting a save selects it.
pub proof fn law_menu_action_meaning(m: MenuModel, screen: AppScreenState, action: MenuAction)
    ensures
        spec_menu_action(m, screen, action).1 is Some <==> (action is StartNewMatch || action is Rematch),
        action is StartNewMatch ==> spec_menu_action(m, screen, action).1 == Some(MatchLaunchIntent::NewLocalMatch)
            && spec_menu_action(m, screen, action).2 == Some(AppScreenState::MatchLoading),
        action is Rematch ==> spec_menu_action(m, screen, action).1 == Some(MatchLaunchIntent::Rematch)
            && spec_menu_action(m, screen, action).2 == Some(AppScreenState::MatchLoading),
        action is ReturnToMenu ==> spec_menu_action(m, screen, action).2 == Some(AppScreenState::MainMenu)
            && spec_menu_action(m, screen, action).0.panel == MenuPanel::Home,
        spec_menu_action(m, screen, action).2 is Some ==> (action is StartNewMatch || action is Rematch
            || action is ReturnToMenu),
        action is OpenSetup || action is BackToSetup ==> spec_menu_action(m, screen, action).0.panel == MenuPanel::Setup,
        action is OpenLoadList ==> spec_menu_action(m, screen, action).0.panel == MenuPanel::LoadList,
        action is OpenSettings ==> spec_menu_action(m, screen, action).0.panel == MenuPanel::Settings,
        action is PauseMatch && screen == AppScreenState::InMatch ==> spec_menu_action(m, screen, action).0.context
            == MenuContext::InMatchOverlay,
        action is ResumeMatch ==> spec_menu_action(m, screen, action).0.context == MenuContext::MainMenu,
        action matches MenuAction::RequestConfirmation(kind) ==> spec_menu_action(m, screen, action).0.confirmation
            == Some(kind),
        action is CancelModal ==> spec_menu_action(m, screen, action).0.confirmation is None,
        action matches MenuAction::SelectSave(id) ==> spec_menu_action(m, screen, action).0.selected_save == Some(id@),
{
}

} // verus!
