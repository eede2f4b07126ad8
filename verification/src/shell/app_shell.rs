//! What the shell's buttons do.
use vstd::prelude::*;

use super::match_state::{spec_session_play, MatchSession};
use super::menu::AppScreenState;
use crate::mv::Move;
use crate::pieces::PieceKind;

verus! {

/// A button of the shell.
#[derive(Debug, Clone, Copy, PartialEq, Eq, Structural)]
pub enum ShellAction {
    StartLocalMatch,
    Rematch,
    ReturnToMenu,
    Promote(PieceKind),
}

/// Presses a shell button: starting a match or a rematch goes to match loading, returning goes
/// to the main menu (the screen it returns), and a promotion button completes the promotion
/// waiting for its piece, if any.
pub fn apply_shell_action(action: ShellAction, match_session: &mut MatchSession) -> (next: Option<AppScreenState>)
    ensures
        match action {
            ShellAction::StartLocalMatch | ShellAction::Rematch => next == Some(AppScreenState::MatchLoading)
                && *final(match_session) == *old(match_session),
            ShellAction::ReturnToMenu => next == Some(AppScreenState::MainMenu) && *final(match_session) == *old(
                match_session,
            ),
            ShellAction::Promote(kind) => next is None && match old(match_session).pending_promotion_move {
                Some(p) => final(match_session)@ == spec_session_play(
                    old(match_session)@,
                    Move { from: p.from, to: p.to, promotion: Some(kind) },
                ),
                None => *final(match_session) == *old(match_session),
            },
        },
{
    match action {
        ShellAction::StartLocalMatch | ShellAction::Rematch => Some(AppScreenState::MatchLoading),
        ShellAction::ReturnToMenu => Some(AppScreenState::MainMenu),
        ShellAction::Promote(kind) => {
            match match_session.pending_promotion_move {
                Some(p) => {
                    let _ = match_session.apply_move(Move::with_promotion(p.from(), p.to(), kind));
                },
                None => {},
            }
            None
        },
    }
}

} // verus!
