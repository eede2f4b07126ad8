//! The game shell around a match: screens, menus, save-list state, the local match session and
//! the automation contract, all as plain state with the rules that change it.
pub mod app_shell;
pub mod app_shell_logic;
pub mod automation;
pub mod board_view;
pub mod feedback;
pub mod interaction;
pub mod match_state;
pub mod menu;
pub mod save_load;
pub mod save_load_logic;
