//! Where a game stands: ongoing (with the draws that may be claimed) or finished.
use vstd::prelude::*;

use crate::pieces::Side;

verus! {

/// The draws the side to move may claim.
#[derive(Debug, Clone, Copy, PartialEq, Eq, Structural)]
pub struct DrawAvailability {
    pub threefold_repetition: bool,
    pub fifty_move_rule: bool,
}

impl DrawAvailability {
    pub open spec fn spec_is_claimable(self) -> bool {
        self.threefold_repetition || self.fifty_move_rule
    }

    /// Whether some draw may be claimed.
    pub fn is_claimable(self) -> (r: bool)
        ensures
            r == self.spec_is_claimable(),
    {
        self.threefold_repetition || self.fifty_move_rule
    }

}

impl Default for DrawAvailability {
    /// Neither draw available.
    fn default() -> (r: DrawAvailability)
        ensures
            r == (DrawAvailability { threefold_repetition: false, fifty_move_rule: false }),
    {
        DrawAvailability { threefold_repetition: false, fifty_move_rule: false }
    }
}

#[derive(Debug, Clone, Copy, PartialEq, Eq, Structural)]
pub enum AutomaticDrawReason {
    FivefoldRepetition,
    SeventyFiveMoveRule,
}

#[derive(Debug, Clone, Copy, PartialEq, Eq, Structural)]
pub enum DrawReason {
    Stalemate,
    Automatic(AutomaticDrawReason),
}

#[derive(Debug, Clone, Copy, PartialEq, Eq, Structural)]
pub enum WinReason {
    Checkmate,
}

#[derive(Debug, Clone, Copy, PartialEq, Eq, Structural)]
pub enum GameOutcome {
    Win { winner: Side, reason: WinReason },
    Draw(DrawReason),
}

#[derive(Debug, Clone, Copy, PartialEq, Eq, Structural)]
pub enum GameStatus {
    Ongoing { in_check: bool, draw_available: DrawAvailability },
    Finished(GameOutcome),
}

impl GameStatus {
    /// Whether the game is over.
    pub fn is_finished(self) -> (r: bool)
        ensures
            r == (self is Finished),
    {
        match self {
            GameStatus::Finished(_) => true,
            GameStatus::Ongoing { .. } => false,
        }
    }
}

} // verus!
