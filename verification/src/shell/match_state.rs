//! The local match session: the game plus the interaction state layered on top of it (the
//! selected square, a promotion waiting for its piece, the last move, a claimed draw).
use vstd::prelude::*;

use crate::board::spec_piece_on;
use crate::game::spec_starting_position;
use crate::game::GameState;
use crate::mv::{Move, MoveError};
use crate::persistence::snapshot::{
    ClaimedDrawSnapshot, GameSnapshot, PendingPromotionSnapshot, SaveFormatVersion, SnapshotMetadata,
    SnapshotShellState,
};
use crate::pieces::Piece;
use crate::game::play::{spec_legal_list, spec_play};
use crate::rules::{spec_draw_availability, spec_is_legal, spec_status, Position};
use crate::square::Square;
use crate::status::{DrawAvailability, GameStatus};

verus! {

/// The rule under which the player claimed a draw.
#[derive(Debug, Clone, Copy, PartialEq, Eq, Structural)]
pub enum ClaimedDrawReason {
    ThreefoldRepetition,
    FiftyMoveRule,
}

/// A local match in progress.
#[derive(Debug, PartialEq, Eq)]
pub struct MatchSession {
    pub game_state: GameState,
    pub selected_square: Option<Square>,
    pub pending_promotion_move: Option<Move>,
    pub last_move: Option<Move>,
    pub claimed_draw: Option<ClaimedDrawReason>,
    /// Whether the session changed since the recovery record was last written.
    pub dirty_recovery: bool,
}

/// The model of a match session.
pub struct SessionModel {
    pub game: Position,
    pub selected_square: Option<Square>,
    pub pending_promotion_move: Option<Move>,
    pub last_move: Option<Move>,
    pub claimed_draw: Option<ClaimedDrawReason>,
    pub dirty_recovery: bool,
}

impl View for MatchSession {
    type V = SessionModel;

    open spec fn view(&self) -> SessionModel {
        SessionModel {
            game: self.game_state@,
            selected_square: self.selected_square,
            pending_promotion_move: self.pending_promotion_move,
            last_move: self.last_move,
            claimed_draw: self.claimed_draw,
            dirty_recovery: self.dirty_recovery,
        }
    }
}

/// The session after trying move `m`: on success the move is the last move and a claimed draw
/// and the interaction state are dropped; a refused move changes nothing.
pub open spec fn spec_session_play(s: SessionModel, m: Move) -> SessionModel {
    match spec_play(s.game, m) {
        Ok(next) => SessionModel {
            game: next,
            last_move: Some(m),
            claimed_draw: None,
            selected_square: None,
            pending_promotion_move: None,
            ..s
        },
        Err(_) => s,
    }
}

/// The draw a player may claim: threefold repetition before the fifty-move rule.
pub open spec fn spec_claimable_reason(availability: DrawAvailability) -> Option<ClaimedDrawReason> {
    if availability.threefold_repetition {
        Some(ClaimedDrawReason::ThreefoldRepetition)
    } else if availability.fifty_move_rule {
        Some(ClaimedDrawReason::FiftyMoveRule)
    } else {
        None
    }
}

/// The targets of the legal moves from `from`.
pub open spec fn spec_is_target_from(pos: Position, from: Square, t: Square) -> bool {
    exists|m: Move| #[trigger] spec_is_legal(pos, m) && m.from == from && m.to == t
}

/// The interaction state that a snapshot records for a session.
pub open spec fn spec_snapshot_shell(s: SessionModel) -> SnapshotShellState {
    SnapshotShellState {
        selected_square: s.selected_square,
        pending_promotion: match s.pending_promotion_move {
            Some(m) => Some(PendingPromotionSnapshot { from: m.from, to: m.to }),
            None => None,
        },
        last_move: s.last_move,
        claimed_draw: spec_claimed_draw_snapshot(s.claimed_draw),
        dirty_recovery: s.dirty_recovery,
    }
}

/// The session that a snapshot of `game` with interaction state `shell` restores.
pub open spec fn spec_restored_session(game: Position, shell: SnapshotShellState) -> SessionModel {
    SessionModel {
        game,
        selected_square: shell.selected_square,
        pending_promotion_move: match shell.pending_promotion {
            Some(p) => Some(Move { from: p.from, to: p.to, promotion: None }),
            None => None,
        },
        last_move: shell.last_move,
        claimed_draw: spec_claimed_draw_reason(shell.claimed_draw),
        dirty_recovery: shell.dirty_recovery,
    }
}

/// Restoring a session from its snapshot gives the session back, as long as the promotion it
/// waits on, if any, has no piece chosen yet (the only kind a session stages).
pub proof fn law_snapshot_restores_session(s: SessionModel)
    requires
        s.pending_promotion_move matches Some(m) ==> m.promotion is None,
    ensures
        spec_restored_session(s.game, spec_snapshot_shell(s)) == s,
{
}

/// The targets of the moves from `from` in a list of moves, in order.
pub open spec fn spec_targets_from(moves: Seq<Move>, from: Square) -> Seq<Square>
    decreases moves.len(),
{
    if moves.len() == 0 {
        Seq::empty()
    } else {
        spec_targets_from(moves.drop_last(), from) + if moves.last().from == from {
            seq![moves.last().to]
        } else {
            Seq::empty()
        }
    }
}

pub open spec fn spec_claimed_draw_snapshot(reason: Option<ClaimedDrawReason>) -> Option<ClaimedDrawSnapshot> {
    match reason {
        Some(ClaimedDrawReason::ThreefoldRepetition) => Some(ClaimedDrawSnapshot::ThreefoldRepetition),
        Some(ClaimedDrawReason::FiftyMoveRule) => Some(ClaimedDrawSnapshot::FiftyMoveRule),
        None => None,
    }
}

pub open spec fn spec_claimed_draw_reason(reason: Option<ClaimedDrawSnapshot>) -> Option<ClaimedDrawReason> {
    match reason {
        Some(ClaimedDrawSnapshot::ThreefoldRepetition) => Some(ClaimedDrawReason::ThreefoldRepetition),
        Some(ClaimedDrawSnapshot::FiftyMoveRule) => Some(ClaimedDrawReason::FiftyMoveRule),
        None => None,
    }
}

/// A claim names a draw that is available: threefold repetition whenever it is, the
/// fifty-move rule when only it is, and nothing when neither is.
pub proof fn law_claimable_reason(a: DrawAvailability)
    ensures
        (spec_claimable_reason(a) == Some(ClaimedDrawReason::ThreefoldRepetition)) <==> a.threefold_repetition,
        (spec_claimable_reason(a) == Some(ClaimedDrawReason::FiftyMoveRule)) <==> !a.threefold_repetition
            && a.fifty_move_rule,
        spec_claimable_reason(a) is None <==> !a.threefold_repetition && !a.fifty_move_rule,
{
}

/// A snapshot records a claimed draw as the claim of the same name, and reading it back gives
/// the claim again.
pub proof fn law_claimed_draw_snapshot(reason: Option<ClaimedDrawReason>)
    ensures
        spec_claimed_draw_snapshot(Some(ClaimedDrawReason::ThreefoldRepetition)) == Some(
            ClaimedDrawSnapshot::ThreefoldRepetition,
        ),
        spec_claimed_draw_snapshot(Some(ClaimedDrawReason::FiftyMoveRule)) == Some(ClaimedDrawSnapshot::FiftyMoveRule),
        spec_claimed_draw_snapshot(None) is None,
        spec_claimed_draw_reason(spec_claimed_draw_snapshot(reason)) == reason,
{
}

impl MatchSession {
    /// A new local match from the starting position; it has not been recorded yet.
    pub fn start_local_match() -> (r: MatchSession)
        ensures
            r.game_state@ == spec_starting_position(),
            r.selected_square is None,
            r.pending_promotion_move is None,
            r.last_move is None,
            r.claimed_draw is None,
            r.dirty_recovery,
    {
        MatchSession {
            game_state: GameState::starting_position(),
            selected_square: None,
            pending_promotion_move: None,
            last_move: None,
            claimed_draw: None,
            dirty_recovery: true,
        }
    }

    /// The session of a new local match.
    pub fn default() -> (r: MatchSession)
        ensures
            r.game_state@ == spec_starting_position(),
            r.selected_square is None,
            r.pending_promotion_move is None,
            r.last_move is None,
            r.claimed_draw is None,
            r.dirty_recovery,
    {
        MatchSession::start_local_match()
    }

    /// Starts over with a new local match.
    pub fn reset_for_local_match(&mut self)
        ensures
            final(self).game_state@ == spec_starting_position(),
            final(self).selected_square is None,
            final(self).pending_promotion_move is None,
            final(self).last_move is None,
            final(self).claimed_draw is None,
            final(self).dirty_recovery,
    {
        *self = MatchSession::start_local_match();
    }

    pub fn game_state(&self) -> (r: &GameState)
        ensures
            r@ == self.game_state@,
    {
        &self.game_state
    }

    /// Puts another game in place, forgetting the last move, a claimed draw and the
    /// interaction state.
    pub fn replace_game_state(&mut self, game_state: GameState)
        ensures
            final(self).game_state@ == game_state@,
            final(self).last_move is None,
            final(self).claimed_draw is None,
            final(self).selected_square is None,
            final(self).pending_promotion_move is None,
            final(self).dirty_recovery == old(self).dirty_recovery,
    {
        self.game_state = game_state;
        self.last_move = None;
        self.claimed_draw = None;
        self.clear_interaction();
    }

    /// The squares that the selected piece can move to, one per legal move in the order the
    /// moves are listed (a promotion's square once per promotion piece).
    pub fn legal_targets_for_selected(&self) -> (r: Vec<Square>)
        ensures
            match self.selected_square {
                None => r@.len() == 0,
                Some(from) => {
                    &&& forall|t: Square| #[trigger] r@.contains(t) <==> spec_is_target_from(self.game_state@, from, t)
                    &&& r@ == spec_targets_from(spec_legal_list(self.game_state@), from)
                },
            },
    {
        let from = match self.selected_square {
            None => {
                return Vec::new();
            },
            Some(square) => square,
        };
        let moves = self.game_state.legal_moves();
        let mut targets: Vec<Square> = Vec::new();
        let mut i: usize = 0;
        while i < moves.len()
            invariant
                i <= moves@.len(),
                forall|m: Move| #[trigger] moves@.contains(m) <==> spec_is_legal(self.game_state@, m),
                moves@ == spec_legal_list(self.game_state@),
                self.selected_square == Some(from),
                targets@ == spec_targets_from(moves@.take(i as int), from),
                forall|t: Square|
                    #[trigger] targets@.contains(t) <==> exists|j: int| 0 <= j < i && moves@[j].from == from && moves@[j].to == t,
            decreases moves@.len() - i,
        {
            let m = moves[i];
            let ghost before = targets@;
            proof {
                assert(moves@.take(i + 1).drop_last() =~= moves@.take(i as int));
            }
            if m.from == from {
                targets.push(m.to);
            }
            proof {
                assert(targets@ =~= spec_targets_from(moves@.take(i + 1), from));
                assert forall|t: Square| #[trigger] targets@.contains(t) <==> exists|j: int|
                    0 <= j < i + 1 && moves@[j].from == from && moves@[j].to == t by {
                    if targets@.contains(t) && !before.contains(t) {
                        assert(moves@[i as int].from == from && moves@[i as int].to == t);
                    }
                    if exists|j: int| 0 <= j < i + 1 && moves@[j].from == from && moves@[j].to == t {
                        let j = choose|j: int| 0 <= j < i + 1 && moves@[j].from == from && moves@[j].to == t;
                        if j == i {
                            assert(targets@.last() == t);
                        } else {
                            assert(before.contains(t));
                            let k = choose|k: int| 0 <= k < before.len() && before[k] == t;
                            assert(targets@[k] == t);
                        }
                    }
                }
            }
            i = i + 1;
        }
        proof {
            assert(moves@.take(i as int) =~= moves@);
            assert forall|t: Square| #[trigger] targets@.contains(t) <==> spec_is_target_from(self.game_state@, from, t) by {
                if targets@.contains(t) {
                    let j = choose|j: int| 0 <= j < moves@.len() && moves@[j].from == from && moves@[j].to == t;
                    assert(moves@.contains(moves@[j]));
                }
                if spec_is_target_from(self.game_state@, from, t) {
                    let m = choose|m: Move| #[trigger] spec_is_legal(self.game_state@, m) && m.from == from && m.to == t;
                    assert(moves@.contains(m));
                    let j = choose|j: int| 0 <= j < moves@.len() && moves@[j] == m;
                }
            }
        }
        targets
    }

    pub fn status(&self) -> (r: GameStatus)
        ensures
            r == spec_status(self.game_state@),
    {
        self.game_state.status()
    }

    pub fn claimable_draw(&self) -> (r: DrawAvailability)
        ensures
            r == spec_draw_availability(self.game_state@),
    {
        self.game_state.draw_availability()
    }

    /// Drops the selection and a promotion waiting for its piece.
    pub fn clear_interaction(&mut self)
        ensures
            final(self).selected_square is None,
            final(self).pending_promotion_move is None,
            final(self).game_state@ == old(self).game_state@,
            final(self).last_move == old(self).last_move,
            final(self).claimed_draw == old(self).claimed_draw,
            final(self).dirty_recovery == old(self).dirty_recovery,
    {
        self.selected_square = None;
        self.pending_promotion_move = None;
    }

    pub fn piece_at(&self, square: Square) -> (r: Option<Piece>)
        ensures
            r == spec_piece_on(self.game_state@.board, square),
    {
        self.game_state.piece_at(square)
    }

    /// Plays a move: on success it becomes the last move, a claimed draw and the interaction
    /// state are dropped; a refused move changes nothing.
    pub fn apply_move(&mut self, candidate: Move) -> (r: Result<(), MoveError>)
        ensures
            match r {
                Ok(()) => {
                    &&& spec_play(old(self).game_state@, candidate) == Ok::<Position, MoveError>(
                        final(self).game_state@,
                    )
                    &&& final(self)@ == spec_session_play(old(self)@, candidate)
                },
                Err(e) => {
                    &&& spec_play(old(self).game_state@, candidate) == Err::<Position, MoveError>(e)
                    &&& *final(self) == *old(self)
                    &&& final(self)@ == spec_session_play(old(self)@, candidate)
                },
            },
    {
        match self.game_state.apply_move(candidate) {
            Ok(next) => {
                self.game_state = next;
                self.last_move = Some(candidate);
                self.claimed_draw = None;
                self.clear_interaction();
                Ok(())
            },
            Err(e) => Err(e),
        }
    }

    pub fn claimed_draw_reason(&self) -> (r: Option<ClaimedDrawReason>)
        ensures
            r == self.claimed_draw,
    {
        self.claimed_draw
    }

    /// Whether the match is over: a draw was claimed or the game has ended.
    pub fn is_finished(&self) -> (r: bool)
        ensures
            r == (self.claimed_draw is Some || spec_status(self.game_state@) is Finished),
    {
        self.claimed_draw.is_some() || self.status().is_finished()
    }

    /// Claims a draw when one is available, threefold repetition first; says whether it did.
    pub fn claim_draw(&mut self) -> (r: bool)
        ensures
            r == (spec_claimable_reason(spec_draw_availability(old(self).game_state@)) is Some),
            r ==> {
                &&& final(self).claimed_draw == spec_claimable_reason(spec_draw_availability(old(self).game_state@))
                &&& final(self).selected_square is None
                &&& final(self).pending_promotion_move is None
                &&& final(self).game_state@ == old(self).game_state@
                &&& final(self).last_move == old(self).last_move
                &&& final(self).dirty_recovery == old(self).dirty_recovery
            },
            !r ==> *final(self) == *old(self),
    {
        let availability = self.claimable_draw();
        let reason = if availability.threefold_repetition {
            ClaimedDrawReason::ThreefoldRepetition
        } else if availability.fifty_move_rule {
            ClaimedDrawReason::FiftyMoveRule
        } else {
            return false;
        };
        self.claimed_draw = Some(reason);
        self.clear_interaction();
        true
    }

    /// Notes that the session changed since the recovery record was written.
    pub fn mark_recovery_dirty(&mut self)
        ensures
            final(self).dirty_recovery,
            final(self).game_state@ == old(self).game_state@,
            final(self).selected_square == old(self).selected_square,
            final(self).pending_promotion_move == old(self).pending_promotion_move,
            final(self).last_move == old(self).last_move,
            final(self).claimed_draw == old(self).claimed_draw,
    {
        self.dirty_recovery = true;
    }

    /// Notes that the recovery record now holds the session.
    pub fn mark_recovery_persisted(&mut self)
        ensures
            !final(self).dirty_recovery,
            final(self).game_state@ == old(self).game_state@,
            final(self).selected_square == old(self).selected_square,
            final(self).pending_promotion_move == old(self).pending_promotion_move,
            final(self).last_move == old(self).last_move,
            final(self).claimed_draw == old(self).claimed_draw,
    {
        self.dirty_recovery = false;
    }

    pub fn is_recovery_dirty(&self) -> (r: bool)
        ensures
            r == self.dirty_recovery,
    {
        self.dirty_recovery
    }

    /// A snapshot of the session with the given metadata.
    pub fn to_snapshot(&self, metadata: SnapshotMetadata) -> (r: GameSnapshot)
        ensures
            r.version == SaveFormatVersion::V2,
            r.game_state@ == self.game_state@,
            r.metadata == metadata,
            r.shell_state == spec_snapshot_shell(self@),
    {
        let pending_promotion = match self.pending_promotion_move {
            Some(m) => Some(PendingPromotionSnapshot { from: m.from, to: m.to }),
            None => None,
        };
        let claimed_draw = match self.claimed_draw {
            Some(ClaimedDrawReason::ThreefoldRepetition) => Some(ClaimedDrawSnapshot::ThreefoldRepetition),
            Some(ClaimedDrawReason::FiftyMoveRule) => Some(ClaimedDrawSnapshot::FiftyMoveRule),
            None => None,
        };
        GameSnapshot::from_parts(
            self.game_state.copy(),
            metadata,
            SnapshotShellState {
                selected_square: self.selected_square,
                pending_promotion,
                last_move: self.last_move,
                claimed_draw,
                dirty_recovery: self.dirty_recovery,
            },
        )
    }

    /// The session a snapshot records.
    pub fn from_snapshot(snapshot: &GameSnapshot) -> (r: MatchSession)
        ensures
            r@ == spec_restored_session(snapshot.game_state@, snapshot.shell_state),
    {
        let shell = snapshot.shell_state;
        MatchSession {
            game_state: snapshot.restore_game_state(),
            selected_square: shell.selected_square,
            pending_promotion_move: match shell.pending_promotion {
                Some(p) => Some(Move::new(p.from, p.to)),
                None => None,
            },
            last_move: shell.last_move,
            claimed_draw: match shell.claimed_draw {
                Some(ClaimedDrawSnapshot::ThreefoldRepetition) => Some(ClaimedDrawReason::ThreefoldRepetition),
                Some(ClaimedDrawSnapshot::FiftyMoveRule) => Some(ClaimedDrawReason::FiftyMoveRule),
                None => None,
            },
            dirty_recovery: shell.dirty_recovery,
        }
    }
}

} // verus!
