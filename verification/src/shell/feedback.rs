//! The match HUD's wording: the status line and the claim-draw button.
use vstd::prelude::*;

use super::match_state::{ClaimedDrawReason, MatchSession};
use super::menu::SaveLoadState;
use crate::persistence::store::spec_text_of;
use crate::pieces::Side;
use crate::rules::{spec_draw_availability, spec_status};
use crate::status::{AutomaticDrawReason, DrawReason, GameOutcome, GameStatus, WinReason};
use crate::text::push_text;

verus! {

pub open spec fn spec_side_label(side: Side) -> Seq<char> {
    match side {
        Side::White => "White"@,
        Side::Black => "Black"@,
    }
}

/// The name of a side.
pub fn side_label(side: Side) -> (r: &'static str)
    ensures
        r@ == spec_side_label(side),
{
    match side {
        Side::White => "White",
        Side::Black => "Black",
    }
}

/// The claim-draw button shows while no draw was claimed, the game goes on and a draw may be
/// claimed.
pub fn claim_draw_banner_visible(match_session: &MatchSession) -> (r: bool)
    ensures
        r == (match_session.claimed_draw is None && !(spec_status(match_session.game_state@) is Finished)
            && spec_draw_availability(match_session.game_state@).spec_is_claimable()),
{
    match_session.claimed_draw_reason().is_none() && !match_session.status().is_finished()
        && match_session.claimable_draw().is_claimable()
}

/// The claim-draw button's text: repetition before the fifty-move rule.
pub fn claim_draw_banner_label(match_session: &MatchSession) -> (r: &'static str)
    ensures
        r@ == if spec_draw_availability(match_session.game_state@).threefold_repetition {
            "Claim Draw by Repetition"@
        } else {
            "Claim Draw by Fifty-Move Rule"@
        },
{
    if match_session.claimable_draw().threefold_repetition {
        "Claim Draw by Repetition"
    } else {
        "Claim Draw by Fifty-Move Rule"
    }
}

/// The HUD's status line for a session.
pub open spec fn spec_match_status_label(
    claimed: Option<ClaimedDrawReason>,
    status: GameStatus,
    selected: Option<crate::square::Square>,
) -> Seq<char> {
    match claimed {
        Some(ClaimedDrawReason::ThreefoldRepetition) => "Draw claimed by threefold repetition."@,
        Some(ClaimedDrawReason::FiftyMoveRule) => "Draw claimed by the fifty-move rule."@,
        None => match status {
            GameStatus::Ongoing { in_check, draw_available } => if in_check && draw_available.spec_is_claimable() {
                "Check. A draw can also be claimed from this position."@
            } else if in_check {
                "Check."@
            } else if draw_available.spec_is_claimable() {
                "Draw is claimable from this position."@
            } else {
                match selected {
                    Some(s) => "Selected "@ + s.spec_algebraic() + "."@,
                    None => "Select a piece to move."@,
                }
            },
            GameStatus::Finished(GameOutcome::Win { winner, .. }) => "Checkmate. "@ + spec_side_label(winner)
                + " wins."@,
            GameStatus::Finished(GameOutcome::Draw(DrawReason::Stalemate)) => "Stalemate."@,
            GameStatus::Finished(GameOutcome::Draw(DrawReason::Automatic(AutomaticDrawReason::FivefoldRepetition))) => 
                "Draw by fivefold repetition."@,
            GameStatus::Finished(GameOutcome::Draw(DrawReason::Automatic(AutomaticDrawReason::SeventyFiveMoveRule))) => 
                "Draw by the seventy-five move rule."@,
        },
    }
}

/// The HUD's status line: a claimed draw, check and claimable draws, the selection, or the
/// outcome.
pub fn match_status_label(match_session: &MatchSession) -> (r: String)
    requires
        match_session.selected_square matches Some(s) ==> s.spec_nameable(),
    ensures
        r@ == spec_match_status_label(
            match_session.claimed_draw,
            spec_status(match_session.game_state@),
            match_session.selected_square,
        ),
{
    match match_session.claimed_draw_reason() {
        Some(ClaimedDrawReason::ThreefoldRepetition) => {
            return String::from_str("Draw claimed by threefold repetition.");
        },
        Some(ClaimedDrawReason::FiftyMoveRule) => {
            return String::from_str("Draw claimed by the fifty-move rule.");
        },
        None => {},
    }
    match match_session.status() {
        GameStatus::Ongoing { in_check, draw_available } => {
            if in_check && draw_available.is_claimable() {
                String::from_str("Check. A draw can also be claimed from this position.")
            } else if in_check {
                String::from_str("Check.")
            } else if draw_available.is_claimable() {
                String::from_str("Draw is claimable from this position.")
            } else {
                match match_session.selected_square {
                    Some(square) => {
                        let mut line = String::from_str("Selected ");
                        let name = square.to_string();
                        push_text(&mut line, name.as_str());
                        push_text(&mut line, ".");
                        line
                    },
                    None => String::from_str("Select a piece to move."),
                }
            }
        },
        GameStatus::Finished(GameOutcome::Win { winner, reason: WinReason::Checkmate }) => {
            let mut line = String::from_str("Checkmate. ");
            push_text(&mut line, side_label(winner));
            push_text(&mut line, " wins.");
            line
        },
        GameStatus::Finished(GameOutcome::Draw(DrawReason::Stalemate)) => String::from_str("Stalemate."),
        GameStatus::Finished(GameOutcome::Draw(DrawReason::Automatic(AutomaticDrawReason::FivefoldRepetition))) => 
            String::from_str("Draw by fivefold repetition."),
        GameStatus::Finished(GameOutcome::Draw(DrawReason::Automatic(AutomaticDrawReason::SeventyFiveMoveRule))) => 
            String::from_str("Draw by the seventy-five move rule."),
    }
}

/// The HUD's turn line: `<side> to move`.
pub fn turn_label(match_session: &MatchSession) -> (r: String)
    ensures
        r@ == spec_side_label(match_session.game_state@.side_to_move) + " to move"@,
{
    let mut line = String::from_str(side_label(match_session.game_state().side_to_move()));
    push_text(&mut line, " to move");
    line
}

/// The HUD's promotion line: the promotion waiting for its piece, else the last move, else how
/// promotion works.
pub open spec fn spec_promotion_hint_label(
    pending: Option<crate::mv::Move>,
    last_move: Option<crate::mv::Move>,
) -> Seq<char> {
    match pending {
        Some(m) => "Promotion pending for "@ + m.from.spec_algebraic() + " -> "@ + m.to.spec_algebraic()
            + ". Choose Q / R / B / N or use the overlay."@,
        None => match last_move {
            Some(m) => "Last move: "@ + m.spec_uci(),
            None => "Promotion uses Q / R / B / N."@,
        },
    }
}

/// The HUD's promotion line.
pub fn promotion_hint_label(match_session: &MatchSession) -> (r: String)
    requires
        match_session.pending_promotion_move matches Some(m) ==> m.from.spec_nameable() && m.to.spec_nameable(),
        match_session.last_move matches Some(m) ==> m.from.spec_nameable() && m.to.spec_nameable(),
    ensures
        r@ == spec_promotion_hint_label(match_session.pending_promotion_move, match_session.last_move),
{
    match match_session.pending_promotion_move {
        Some(m) => {
            let mut line = String::from_str("Promotion pending for ");
            let from = m.from().to_string();
            push_text(&mut line, from.as_str());
            push_text(&mut line, " -> ");
            let to = m.to().to_string();
            push_text(&mut line, to.as_str());
            push_text(&mut line, ". Choose Q / R / B / N or use the overlay.");
            line
        },
        None => match match_session.last_move {
            Some(m) => {
                let mut line = String::from_str("Last move: ");
                let text = m.to_string();
                push_text(&mut line, text.as_str());
                line
            },
            None => String::from_str("Promotion uses Q / R / B / N."),
        },
    }
}

/// The HUD's persistence line: the last error, else the last message, else whether the
/// recovery record is current.
pub open spec fn spec_persistence_label(save_state: SaveLoadState, dirty: bool) -> Seq<char> {
    match spec_text_of(save_state.last_error) {
        Some(e) => e,
        None => match spec_text_of(save_state.last_message) {
            Some(m) => m,
            None => if dirty {
                "Interrupted-session recovery is waiting for the next autosave."@
            } else {
                "Interrupted-session recovery is current."@
            },
        },
    }
}

/// The HUD's persistence line.
pub fn persistence_label(match_session: &MatchSession, save_state: &SaveLoadState) -> (r: String)
    ensures
        r@ == spec_persistence_label(*save_state, match_session.dirty_recovery),
{
    match &save_state.last_error {
        Some(e) => e.clone(),
        None => match &save_state.last_message {
            Some(m) => m.clone(),
            None => if match_session.is_recovery_dirty() {
                String::from_str("Interrupted-session recovery is waiting for the next autosave.")
            } else {
                String::from_str("Interrupted-session recovery is current.")
            },
        },
    }
}

/// The two sides are named "White" and "Black".
pub proof fn law_side_names()
    ensures
        spec_side_label(Side::White) == "White"@,
        spec_side_label(Side::Black) == "Black"@,
        spec_side_label(Side::White) != spec_side_label(Side::Black),
{
    reveal_strlit("White");
    reveal_strlit("Black");
    assert(spec_side_label(Side::White)[0] != spec_side_label(Side::Black)[0]);
}

/// With no claimed draw, the status line of a finished game tells its outcome: a checkmate
/// names the winner, a stalemate reads "Stalemate.", and each automatic draw names its rule,
/// whatever square is selected.
pub proof fn law_status_line_of_outcome(selected: Option<crate::square::Square>)
    ensures
        spec_match_status_label(None, GameStatus::Finished(GameOutcome::Draw(DrawReason::Stalemate)), selected)
            == "Stalemate."@,
        spec_match_status_label(
            None,
            GameStatus::Finished(GameOutcome::Draw(DrawReason::Automatic(AutomaticDrawReason::FivefoldRepetition))),
            selected,
        ) == "Draw by fivefold repetition."@,
        spec_match_status_label(
            None,
            GameStatus::Finished(GameOutcome::Draw(DrawReason::Automatic(AutomaticDrawReason::SeventyFiveMoveRule))),
            selected,
        ) == "Draw by the seventy-five move rule."@,
        spec_match_status_label(
            None,
            GameStatus::Finished(GameOutcome::Win { winner: Side::White, reason: WinReason::Checkmate }),
            selected,
        ) == "Checkmate. White wins."@,
        spec_match_status_label(
            None,
            GameStatus::Finished(GameOutcome::Win { winner: Side::Black, reason: WinReason::Checkmate }),
            selected,
        ) == "Checkmate. Black wins."@,
{
    reveal_strlit("Checkmate. ");
    reveal_strlit(" wins.");
    reveal_strlit("White");
    reveal_strlit("Black");
    reveal_strlit("Checkmate. White wins.");
    reveal_strlit("Checkmate. Black wins.");
    assert(spec_match_status_label(
        None,
        GameStatus::Finished(GameOutcome::Win { winner: Side::White, reason: WinReason::Checkmate }),
        selected,
    ) =~= "Checkmate. White wins."@);
    assert(spec_match_status_label(
        None,
        GameStatus::Finished(GameOutcome::Win { winner: Side::Black, reason: WinReason::Checkmate }),
        selected,
    ) =~= "Checkmate. Black wins."@);
}

/// With no claimed draw, distinct outcomes of a finished game give distinct status lines.
pub proof fn law_status_line_tells_outcomes_apart(
    a: GameOutcome,
    b: GameOutcome,
    selected: Option<crate::square::Square>,
)
    requires
        spec_match_status_label(None, GameStatus::Finished(a), selected) == spec_match_status_label(
            None,
            GameStatus::Finished(b),
            selected,
        ),
    ensures
        a == b,
{
    law_status_line_of_outcome(selected);
    reveal_strlit("Stalemate.");
    reveal_strlit("Draw by fivefold repetition.");
    reveal_strlit("Draw by the seventy-five move rule.");
    reveal_strlit("Checkmate. White wins.");
    reveal_strlit("Checkmate. Black wins.");
    let la = spec_match_status_label(None, GameStatus::Finished(a), selected);
    let lb = spec_match_status_label(None, GameStatus::Finished(b), selected);
    assert(la.len() == lb.len());
    assert(la[11] == lb[11]);
    assert(la[0] == lb[0]);
}

/// A claimed draw is named whatever the game's status; in a game that goes on with no claim,
/// the status line says check, a claimable draw, or both, and otherwise names the selected
/// square or asks for a selection.
pub proof fn law_status_line_while_playing(
    status: GameStatus,
    in_check: bool,
    draw: crate::status::DrawAvailability,
    selected: Option<crate::square::Square>,
)
    ensures
        spec_match_status_label(Some(ClaimedDrawReason::ThreefoldRepetition), status, selected)
            == "Draw claimed by threefold repetition."@,
        spec_match_status_label(Some(ClaimedDrawReason::FiftyMoveRule), status, selected)
            == "Draw claimed by the fifty-move rule."@,
        in_check && draw.spec_is_claimable() ==> spec_match_status_label(
            None,
            GameStatus::Ongoing { in_check, draw_available: draw },
            selected,
        ) == "Check. A draw can also be claimed from this position."@,
        in_check && !draw.spec_is_claimable() ==> spec_match_status_label(
            None,
            GameStatus::Ongoing { in_check, draw_available: draw },
            selected,
        ) == "Check."@,
        !in_check && draw.spec_is_claimable() ==> spec_match_status_label(
            None,
            GameStatus::Ongoing { in_check, draw_available: draw },
            selected,
        ) == "Draw is claimable from this position."@,
        !in_check && !draw.spec_is_claimable() ==> spec_match_status_label(
            None,
            GameStatus::Ongoing { in_check, draw_available: draw },
            selected,
        ) == match selected {
            Some(sq) => "Selected "@ + sq.spec_algebraic() + "."@,
            None => "Select a piece to move."@,
        },
{
}

} // verus!
