//! How each square of the board is shaded: the king in check, the selected piece's targets,
//! the selected square, or its plain light or dark shade.
use vstd::prelude::*;

use super::match_state::MatchSession;
use crate::board::spec_king_square;
use crate::rules::spec_status;
use crate::square::Square;
use crate::status::GameStatus;

verus! {

/// The shade of a square.
#[derive(Debug, Clone, Copy, PartialEq, Eq, Structural)]
pub enum SquareHighlight {
    CheckedKing,
    LegalTarget,
    Selected,
    Light,
    Dark,
}

/// Whether a square takes the light shade: its file and rank add up to an even number.
pub fn is_light_square(square: Square) -> (r: bool)
    ensures
        r == ((square.file + square.rank) % 2 == 0),
{
    (square.file as u16 + square.rank as u16) % 2 == 0
}

/// The square of the king of the side to move while it is in check in a game that goes on.
pub fn checked_king_square(match_session: &MatchSession) -> (r: Option<Square>)
    ensures
        r == match spec_status(match_session.game_state@) {
            GameStatus::Ongoing { in_check: true, .. } => spec_king_square(
                match_session.game_state@.board,
                match_session.game_state@.side_to_move,
            ),
            _ => None,
        },
{
    match match_session.status() {
        GameStatus::Ongoing { in_check: true, .. } => match_session.game_state().board().king_square(
            match_session.game_state().side_to_move(),
        ),
        _ => None,
    }
}

/// The shade of `square`, given the checked king's square, the selected piece's targets and
/// the selection: the checked king first, then a target, then the selection, else the square's
/// own shade.
pub fn square_highlight(
    square: Square,
    is_light: bool,
    checked_king: Option<Square>,
    legal_targets: &Vec<Square>,
    selected: Option<Square>,
) -> (r: SquareHighlight)
    ensures
        r == if checked_king == Some(square) {
            SquareHighlight::CheckedKing
        } else if legal_targets@.contains(square) {
            SquareHighlight::LegalTarget
        } else if selected == Some(square) {
            SquareHighlight::Selected
        } else if is_light {
            SquareHighlight::Light
        } else {
            SquareHighlight::Dark
        },
{
    if checked_king == Some(square) {
        return SquareHighlight::CheckedKing;
    }
    let mut i: usize = 0;
    while i < legal_targets.len()
        invariant
            i <= legal_targets@.len(),
            checked_king != Some(square),
            forall|j: int| 0 <= j < i ==> legal_targets@[j] != square,
        decreases legal_targets@.len() - i,
    {
        if legal_targets[i] == square {
            proof {
                assert(legal_targets@.contains(legal_targets@[i as int]));
            }
            return SquareHighlight::LegalTarget;
        }
        i = i + 1;
    }
    if selected == Some(square) {
        SquareHighlight::Selected
    } else if is_light {
        SquareHighlight::Light
    } else {
        SquareHighlight::Dark
    }
}

} // verus!
