//! What clicks on the board, promotion choices and automation match actions do to a match
//! session. Every move goes through the session's legality check.
use vstd::prelude::*;

use super::automation::{AutomationError, AutomationMatchAction};
use super::match_state::{spec_is_target_from, spec_session_play, MatchSession, SessionModel};
use super::menu::{MenuAction, MenuContext, MenuModel, ShellMenuState};
use super::save_load::SaveLoadRequest;
use crate::board::spec_piece_on;
use crate::mv::Move;
use crate::game::play::spec_play;
use crate::laws::law_promotion_places_piece;
use crate::pieces::{Piece, PieceKind};
use crate::rules::{spec_is_legal, spec_status, Position};
use crate::square::Square;

verus! {

/// The session with the selection and a waiting promotion dropped, marked as changed.
pub open spec fn spec_cleared(s: SessionModel) -> SessionModel {
    SessionModel { selected_square: None, pending_promotion_move: None, dirty_recovery: true, ..s }
}

/// Whether a piece of the side to move stands on `c`.
pub open spec fn spec_own_piece(game: Position, c: Square) -> bool {
    spec_piece_on(game.board, c) matches Some(p) && p.side == game.side_to_move
}

/// Whether a legal move from `from` to `to` promotes.
pub open spec fn spec_promotes(game: Position, from: Square, to: Square) -> bool {
    exists|m: Move| #[trigger] spec_is_legal(game, m) && m.from == from && m.to == to && m.promotion is Some
}

/// A click on `clicked` (none for a click off the board): it selects a piece of the side to
/// move, deselects, moves the selected piece, or stages a promotion; while a promotion waits
/// for its piece, clicks on the board do nothing.
pub open spec fn spec_square_interaction(s: SessionModel, clicked: Option<Square>) -> SessionModel {
    match clicked {
        None => spec_cleared(s),
        Some(c) => if s.pending_promotion_move is Some {
            s
        } else {
            match s.selected_square {
                None => if spec_own_piece(s.game, c) {
                    SessionModel { selected_square: Some(c), dirty_recovery: true, ..s }
                } else {
                    s
                },
                Some(sel) => if c == sel {
                    spec_cleared(s)
                } else if spec_own_piece(s.game, c) {
                    SessionModel { selected_square: Some(c), dirty_recovery: true, ..s }
                } else if !spec_is_target_from(s.game, sel, c) {
                    spec_cleared(s)
                } else if spec_promotes(s.game, sel, c) {
                    SessionModel {
                        pending_promotion_move: Some(Move { from: sel, to: c, promotion: None }),
                        dirty_recovery: true,
                        ..s
                    }
                } else {
                    spec_session_play(s, Move { from: sel, to: c, promotion: None })
                },
            }
        },
    }
}

/// Drops the selection and a waiting promotion, and marks the session as changed.
pub fn clear_match_interaction(match_session: &mut MatchSession)
    ensures
        final(match_session)@ == spec_cleared(old(match_session)@),
{
    match_session.clear_interaction();
    match_session.mark_recovery_dirty();
}

/// Handles a click on the board.
pub fn apply_square_interaction(match_session: &mut MatchSession, clicked_square: Option<Square>)
    ensures
        final(match_session)@ == spec_square_interaction(old(match_session)@, clicked_square),
{
    let clicked = match clicked_square {
        None => {
            clear_match_interaction(match_session);
            return ;
        },
        Some(square) => square,
    };
    if match_session.pending_promotion_move.is_some() {
        return ;
    }
    let current_side = match_session.game_state().side_to_move();
    let own = match match_session.piece_at(clicked) {
        Some(piece) => piece.side == current_side,
        None => false,
    };
    let selected = match match_session.selected_square {
        None => {
            if own {
                match_session.selected_square = Some(clicked);
                match_session.mark_recovery_dirty();
            }
            return ;
        },
        Some(square) => square,
    };
    if clicked == selected {
        clear_match_interaction(match_session);
        return ;
    }
    if own {
        match_session.selected_square = Some(clicked);
        match_session.mark_recovery_dirty();
        return ;
    }
    let moves = match_session.game_state().legal_moves();
    let ghost game = match_session.game_state@;
    let mut found = false;
    let mut promotes = false;
    let mut i: usize = 0;
    while i < moves.len()
        invariant
            i <= moves@.len(),
            game == match_session.game_state@,
            forall|m: Move| #[trigger] moves@.contains(m) <==> spec_is_legal(game, m),
            found <==> exists|j: int| 0 <= j < i && moves@[j].from == selected && moves@[j].to == clicked,
            promotes <==> exists|j: int|
                0 <= j < i && moves@[j].from == selected && moves@[j].to == clicked && moves@[j].promotion is Some,
        decreases moves@.len() - i,
    {
        let m = moves[i];
        if m.from == selected && m.to == clicked {
            found = true;
            if m.promotion.is_some() {
                promotes = true;
            }
        }
        i = i + 1;
    }
    proof {
        if found {
            let j = choose|j: int| 0 <= j < moves@.len() && moves@[j].from == selected && moves@[j].to == clicked;
            assert(moves@.contains(moves@[j]));
            assert(spec_is_legal(game, moves@[j]));
        } else {
            assert forall|m: Move| #[trigger] spec_is_legal(game, m) implies !(m.from == selected && m.to == clicked) by {
                assert(moves@.contains(m));
                let j = choose|j: int| 0 <= j < moves@.len() && moves@[j] == m;
            }
        }
        if promotes {
            let j = choose|j: int|
                0 <= j < moves@.len() && moves@[j].from == selected && moves@[j].to == clicked && moves@[j].promotion is Some;
            assert(moves@.contains(moves@[j]));
            assert(spec_is_legal(game, moves@[j]));
        } else {
            assert forall|m: Move| #[trigger] spec_is_legal(game, m) implies !(m.from == selected && m.to == clicked
                && m.promotion is Some) by {
                assert(moves@.contains(m));
                let j = choose|j: int| 0 <= j < moves@.len() && moves@[j] == m;
            }
        }
    }
    if !found {
        clear_match_interaction(match_session);
        return ;
    }
    if promotes {
        match_session.pending_promotion_move = Some(Move::new(selected, clicked));
        match_session.mark_recovery_dirty();
        return ;
    }
    let _ = match_session.apply_move(Move::new(selected, clicked));
}

/// The session after choosing the promotion piece for the waiting promotion, or `None` when no
/// promotion waits.
pub open spec fn spec_promotion_choice(s: SessionModel, kind: PieceKind) -> Option<SessionModel> {
    match s.pending_promotion_move {
        None => None,
        Some(p) => Some(spec_session_play(s, Move { from: p.from, to: p.to, promotion: Some(kind) })),
    }
}

/// Completes the waiting promotion with `promotion_kind`; refused when no promotion waits.
pub fn apply_promotion_choice(match_session: &mut MatchSession, promotion_kind: PieceKind) -> (r: Result<
    (),
    AutomationError,
>)
    ensures
        match spec_promotion_choice(old(match_session)@, promotion_kind) {
            None => r == Err::<(), AutomationError>(AutomationError::PromotionUnavailable) && final(match_session)@
                == old(match_session)@,
            Some(next) => r is Ok && final(match_session)@ == next,
        },
{
    let pending = match match_session.pending_promotion_move {
        None => {
            return Err(AutomationError::PromotionUnavailable);
        },
        Some(m) => m,
    };
    let _ = match_session.apply_move(Move::with_promotion(pending.from(), pending.to(), promotion_kind));
    Ok(())
}

/// The session after an automation match action, or `None` when the action is refused.
pub open spec fn spec_match_action(s: SessionModel, action: AutomationMatchAction) -> Option<SessionModel> {
    match action {
        AutomationMatchAction::SelectSquare { square } => Some(spec_square_interaction(s, Some(square))),
        AutomationMatchAction::SubmitMove { from, to, promotion } => {
            let after = spec_square_interaction(spec_square_interaction(s, Some(from)), Some(to));
            match promotion {
                Some(piece) => spec_promotion_choice(after, piece),
                None => Some(after),
            }
        },
        AutomationMatchAction::ChoosePromotion { piece } => spec_promotion_choice(s, piece),
        AutomationMatchAction::ClearInteraction => Some(spec_cleared(s)),
    }
}

/// Carries out an automation match action the way a player's clicks and keys would.
pub fn apply_match_action(match_session: &mut MatchSession, action: &AutomationMatchAction) -> (r: Result<
    (),
    AutomationError,
>)
    ensures
        match spec_match_action(old(match_session)@, *action) {
            Some(next) => r is Ok && final(match_session)@ == next,
            None => r == Err::<(), AutomationError>(AutomationError::PromotionUnavailable),
        },
{
    match action {
        AutomationMatchAction::SelectSquare { square } => {
            apply_square_interaction(match_session, Some(*square));
            Ok(())
        },
        AutomationMatchAction::SubmitMove { from, to, promotion } => {
            apply_square_interaction(match_session, Some(*from));
            apply_square_interaction(match_session, Some(*to));
            match promotion {
                Some(piece) => apply_promotion_choice(match_session, *piece),
                None => Ok(()),
            }
        },
        AutomationMatchAction::ChoosePromotion { piece } => apply_promotion_choice(match_session, *piece),
        AutomationMatchAction::ClearInteraction => {
            clear_match_interaction(match_session);
            Ok(())
        },
    }
}

/// Whether the promotion the session waits on, if any, has no piece chosen yet.
pub open spec fn spec_pending_unchosen(s: SessionModel) -> bool {
    s.pending_promotion_move matches Some(m) ==> m.promotion is None
}

/// Clicks, promotion choices and automation match actions only ever stage a promotion with no
/// piece chosen, so a session driven by them restores from its snapshot unchanged.
pub proof fn law_interaction_stages_unchosen_promotions(s: SessionModel, clicked: Option<Square>, action: AutomationMatchAction)
    requires
        spec_pending_unchosen(s),
    ensures
        spec_pending_unchosen(spec_square_interaction(s, clicked)),
        forall|kind: PieceKind| #[trigger] spec_promotion_choice(s, kind) matches Some(next) ==> spec_pending_unchosen(next),
        spec_match_action(s, action) matches Some(next) ==> spec_pending_unchosen(next),
{
    match action {
        AutomationMatchAction::SubmitMove { from, to, promotion } => {
            let first = spec_square_interaction(s, Some(from));
            assert(spec_pending_unchosen(first));
            assert(spec_pending_unchosen(spec_square_interaction(first, Some(to))));
        },
        _ => {},
    }
}

/// Whether the pause overlay takes the match's input.
pub fn overlay_captures_match_input(menu_state: &ShellMenuState) -> (r: bool)
    ensures
        r == (menu_state.context == MenuContext::InMatchOverlay),
{
    menu_state.context == MenuContext::InMatchOverlay
}

/// A press of the left mouse button (`pressed`) with the cursor over `hovered`: it acts on the
/// board unless the pause overlay is open or the game is over.
pub fn handle_square_click(
    menu_state: &ShellMenuState,
    pressed: bool,
    hovered: Option<Square>,
    match_session: &mut MatchSession,
)
    ensures
        if menu_state.context == MenuContext::InMatchOverlay || !pressed || spec_status(
            old(match_session).game_state@,
        ) is Finished {
            *final(match_session) == *old(match_session)
        } else {
            final(match_session)@ == spec_square_interaction(old(match_session)@, hovered)
        },
{
    if overlay_captures_match_input(menu_state) || !pressed || match_session.status().is_finished() {
        return ;
    }
    apply_square_interaction(match_session, hovered);
}

/// The keys pressed in this frame that the match listens to.
#[derive(Debug, Clone, Copy, PartialEq, Eq, Default)]
pub struct MatchKeys {
    pub escape: bool,
    pub quick_save: bool,
    pub queen: bool,
    pub rook: bool,
    pub bishop: bool,
    pub knight: bool,
}

/// The promotion piece the keys choose, queen first.
pub open spec fn spec_key_choice(keys: MatchKeys) -> Option<PieceKind> {
    if keys.queen {
        Some(PieceKind::Queen)
    } else if keys.rook {
        Some(PieceKind::Rook)
    } else if keys.bishop {
        Some(PieceKind::Bishop)
    } else if keys.knight {
        Some(PieceKind::Knight)
    } else {
        None
    }
}

/// The menu action that Escape asks for, if it asks for one rather than clearing the board's
/// interaction.
pub open spec fn spec_escape_action(menu: MenuModel, s: SessionModel) -> Option<MenuAction> {
    if menu.confirmation is Some {
        Some(MenuAction::CancelModal)
    } else if menu.context == MenuContext::InMatchOverlay {
        Some(MenuAction::ResumeMatch)
    } else if s.pending_promotion_move is Some || s.selected_square is Some {
        None
    } else {
        Some(MenuAction::PauseMatch)
    }
}

/// What the keys of a frame do in a match: Escape cancels a dialog, leaves the pause overlay,
/// clears the board's interaction or pauses, in that order of preference, and nothing else
/// happens in that frame. Otherwise, with the overlay closed, the quick-save key asks for a
/// save unless a promotion waits, and a piece key completes a waiting promotion. Returns the
/// menu action and the store request that the keys ask for.
pub fn handle_keyboard_match_actions(
    keys: MatchKeys,
    menu_state: &ShellMenuState,
    match_session: &mut MatchSession,
) -> (r: (Option<MenuAction>, Option<SaveLoadRequest>))
    ensures
        keys.escape ==> {
            &&& r.0 == spec_escape_action(menu_state@, old(match_session)@)
            &&& r.1 is None
            &&& if r.0 is None {
                final(match_session)@ == spec_cleared(old(match_session)@)
            } else {
                *final(match_session) == *old(match_session)
            }
        },
        !keys.escape && menu_state.context == MenuContext::InMatchOverlay ==> r.0 is None && r.1 is None
            && *final(match_session) == *old(match_session),
        !keys.escape && menu_state.context != MenuContext::InMatchOverlay ==> {
            &&& r.0 is None
            &&& if keys.quick_save && old(match_session).pending_promotion_move is None {
                r.1 matches Some(SaveLoadRequest::SaveManual { label, slot_id }) && label@ == "Quick Save"@
                    && slot_id is None
            } else {
                r.1 is None
            }
            &&& match (old(match_session).pending_promotion_move, spec_key_choice(keys)) {
                (Some(_), Some(kind)) => spec_promotion_choice(old(match_session)@, kind) matches Some(next)
                    && final(match_session)@ == next,
                _ => *final(match_session) == *old(match_session),
            }
        },
{
    if keys.escape {
        if menu_state.confirmation.is_some() {
            return (Some(MenuAction::CancelModal), None);
        } else if overlay_captures_match_input(menu_state) {
            return (Some(MenuAction::ResumeMatch), None);
        } else if match_session.pending_promotion_move.is_some() || match_session.selected_square.is_some() {
            clear_match_interaction(match_session);
            return (None, None);
        } else {
            return (Some(MenuAction::PauseMatch), None);
        }
    }
    if overlay_captures_match_input(menu_state) {
        return (None, None);
    }
    let request = if keys.quick_save && match_session.pending_promotion_move.is_none() {
        Some(SaveLoadRequest::SaveManual { label: String::from_str("Quick Save"), slot_id: None })
    } else {
        None
    };
    if match_session.pending_promotion_move.is_none() {
        return (None, request);
    }
    let choice = if keys.queen {
        Some(PieceKind::Queen)
    } else if keys.rook {
        Some(PieceKind::Rook)
    } else if keys.bishop {
        Some(PieceKind::Bishop)
    } else if keys.knight {
        Some(PieceKind::Knight)
    } else {
        None
    };
    match choice {
        Some(kind) => {
            let _ = apply_promotion_choice(match_session, kind);
        },
        None => {},
    }
    (None, request)
}

/// Whether the key for piece `kind` is pressed.
pub open spec fn spec_key_pressed(keys: MatchKeys, kind: PieceKind) -> bool {
    match kind {
        PieceKind::Queen => keys.queen,
        PieceKind::Rook => keys.rook,
        PieceKind::Bishop => keys.bishop,
        PieceKind::Knight => keys.knight,
        _ => false,
    }
}

/// The promotion piece the keys choose is one whose key is pressed, a queen, rook, bishop or
/// knight; a piece key pressed alone chooses the piece it names; with several pressed the
/// queen comes before the rook, the rook before the bishop and the bishop before the knight;
/// with none pressed nothing is chosen.
pub proof fn law_key_names_piece(keys: MatchKeys)
    ensures
        spec_key_choice(keys) matches Some(k) ==> spec_key_pressed(keys, k) && k.spec_is_valid_promotion(),
        spec_key_choice(keys) is None <==> !(keys.queen || keys.rook || keys.bishop || keys.knight),
        keys.queen ==> spec_key_choice(keys) == Some(PieceKind::Queen),
        !keys.queen && keys.rook ==> spec_key_choice(keys) == Some(PieceKind::Rook),
        !keys.queen && !keys.rook && keys.bishop ==> spec_key_choice(keys) == Some(PieceKind::Bishop),
        !keys.queen && !keys.rook && !keys.bishop && keys.knight ==> spec_key_choice(keys) == Some(PieceKind::Knight),
{
}

/// Choosing a piece for a waiting promotion that the game accepts plays that promotion: the
/// last move names the chosen piece, a piece of that kind and of the side that moved stands on
/// the target square, and nothing waits any more.
pub proof fn law_promotion_choice_places_piece(s: SessionModel, kind: PieceKind)
    requires
        s.pending_promotion_move is Some,
        spec_play(
            s.game,
            Move {
                from: s.pending_promotion_move.unwrap().from,
                to: s.pending_promotion_move.unwrap().to,
                promotion: Some(kind),
            },
        ) is Ok,
    ensures
        spec_promotion_choice(s, kind) matches Some(next) && {
            let p = s.pending_promotion_move.unwrap();
            &&& next.last_move == Some(Move { from: p.from, to: p.to, promotion: Some(kind) })
            &&& spec_piece_on(next.game.board, p.to) == Some(Piece { side: s.game.side_to_move, kind })
            &&& next.pending_promotion_move is None
        },
{
    let p = s.pending_promotion_move.unwrap();
    let m = Move { from: p.from, to: p.to, promotion: Some(kind) };
    let next = spec_play(s.game, m)->Ok_0;
    law_promotion_places_piece(s.game, m, next);
}

/// What a click does. A click off the board drops the selection and any waiting promotion;
/// while a promotion waits, clicks on the board change nothing; a click on a piece of the side
/// to move (other than the selected one) selects it; a click on the selected square deselects
/// it. The game itself changes only by playing a legal move from the selected square to the
/// clicked one, which then becomes the last move; a promoting move is staged instead, waiting
/// for its piece.
pub proof fn law_click_meaning(s: SessionModel, c: Square)
    ensures
        spec_square_interaction(s, None).selected_square is None && spec_square_interaction(
            s,
            None,
        ).pending_promotion_move is None && spec_square_interaction(s, None).game == s.game,
        s.pending_promotion_move is Some ==> spec_square_interaction(s, Some(c)) == s,
        s.pending_promotion_move is None && spec_own_piece(s.game, c) && s.selected_square != Some(c)
            ==> spec_square_interaction(s, Some(c)).selected_square == Some(c) && spec_square_interaction(
            s,
            Some(c),
        ).game == s.game,
        s.pending_promotion_move is None && s.selected_square == Some(c) ==> spec_square_interaction(
            s,
            Some(c),
        ).selected_square is None && spec_square_interaction(s, Some(c)).game == s.game,
        ({
            let after = spec_square_interaction(s, Some(c));
            after.game == s.game || (s.selected_square matches Some(sel) && spec_play(
                s.game,
                Move { from: sel, to: c, promotion: None },
            ) == Ok::<Position, crate::mv::MoveError>(after.game) && after.last_move == Some(
                Move { from: sel, to: c, promotion: None },
            ))
        }),
        forall|sel: Square|
            s.pending_promotion_move is None && s.selected_square == Some(sel) && sel != c && !spec_own_piece(s.game, c)
                && #[trigger] spec_promotes(s.game, sel, c) ==> spec_square_interaction(s, Some(c)).pending_promotion_move
                == Some(Move { from: sel, to: c, promotion: None }) && spec_square_interaction(s, Some(c)).game
                == s.game,
{
}

/// Escape cancels an open dialog first; otherwise it leaves the pause overlay; otherwise it
/// drops a selection or a waiting promotion without asking for anything; and only with none of
/// these does it pause the match.
pub proof fn law_escape_meaning(menu: MenuModel, s: SessionModel)
    ensures
        menu.confirmation is Some ==> spec_escape_action(menu, s) == Some(MenuAction::CancelModal),
        menu.confirmation is None && menu.context == MenuContext::InMatchOverlay ==> spec_escape_action(menu, s)
            == Some(MenuAction::ResumeMatch),
        menu.confirmation is None && menu.context != MenuContext::InMatchOverlay && (s.pending_promotion_move is Some
            || s.selected_square is Some) ==> spec_escape_action(menu, s) is None,
        menu.confirmation is None && menu.context != MenuContext::InMatchOverlay && s.pending_promotion_move is None
            && s.selected_square is None ==> spec_escape_action(menu, s) == Some(MenuAction::PauseMatch),
{
}

} // verus!
