//! Carrying out a move on a copy of the position, without the king-safety check.
use vstd::prelude::*;

use super::notation::position_key;
use super::{spec_texts, GameState};
use crate::board::{spec_piece_on, BoardState};
use crate::mv::Move;
use crate::pieces::{Piece, PieceKind, Side};
use crate::rules::{spec_abs_diff, spec_apply, spec_castle_rook, spec_landing, spec_next_core, spec_pawn_landing, spec_position_key, spec_saturating_inc};
use crate::square::Square;

verus! {

fn abs_diff(a: u8, b: u8) -> (r: u8)
    ensures
        r == spec_abs_diff(a, b),
{
    if a >= b { a - b } else { b - a }
}

fn saturating_inc(x: u16) -> (r: u16)
    ensures
        r == spec_saturating_inc(x),
{
    if x == u16::MAX { x } else { x + 1 }
}

/// Copies the keys of the positions reached.
pub(crate) fn copy_history(v: &Vec<String>) -> (r: Vec<String>)
    ensures
        r@ == v@,
{
    let mut out: Vec<String> = Vec::new();
    let mut i: usize = 0;
    while i < v.len()
        invariant
            i <= v@.len(),
            out@ == v@.take(i as int),
        decreases v@.len() - i,
    {
        out.push(v[i].clone());
        proof {
            assert(v@.take(i + 1) == v@.take(i as int).push(v@[i as int]));
        }
        i = i + 1;
    }
    proof {
        assert(v@.take(i as int) == v@);
    }
    out
}

fn is_target(target: Option<Square>, square: Square) -> (r: bool)
    ensures
        r == (target == Some(square)),
{
    match target {
        Some(t) => t == square,
        None => false,
    }
}

impl GameState {
    /// Lands a pawn lifted off `m.from` on `board`: captures (en passant too), promotes, and
    /// reports whether it captured and the new en-passant target.
    fn land_pawn(&self, m: Move, piece: Piece, board: &mut BoardState) -> (r: Option<(bool, Option<Square>)>)
        requires
            piece.kind == PieceKind::Pawn,
        ensures
            match spec_pawn_landing(self@, m, piece, old(board)@) {
                Some((b3, capture, ep)) => r == Some((capture, ep)) && final(board)@ == b3,
                None => r is None,
            },
    {
        let ghost b1 = board@;
        let from = m.from;
        let to = m.to;
        let mut is_capture = false;
        if abs_diff(from.file, to.file) == 1 && board.piece_at(to).is_none() {
            if !is_target(self.en_passant_target, to) {
                return None;
            }
            let captured_square = Square { file: to.file, rank: from.rank };
            let captured = board.remove_piece(captured_square);
            match captured {
                Some(c) => {
                    if c != (Piece { side: piece.side.opponent(), kind: PieceKind::Pawn }) {
                        return None;
                    }
                },
                None => {
                    return None;
                },
            }
            is_capture = true;
        } else {
            let taken = board.remove_piece(to);
            if taken.is_some() {
                is_capture = true;
            } else {
                proof {
                    assert(board@ =~= b1);
                }
            }
        }
        let ghost b2 = board@;
        if to.rank == piece.side.promotion_rank() {
            match m.promotion {
                None => {
                    return None;
                },
                Some(kind) => {
                    if !kind.is_valid_promotion() {
                        return None;
                    }
                    board.set_piece(to, Piece { side: piece.side, kind });
                },
            }
        } else {
            if m.promotion.is_some() {
                return None;
            }
            board.set_piece(to, piece);
        }
        let new_target = if abs_diff(from.rank, to.rank) == 2 {
            Some(Square { file: from.file, rank: ((from.rank as u16 + to.rank as u16) / 2) as u8 })
        } else {
            None
        };
        Some((is_capture, new_target))
    }

    /// Lands a piece lifted off `m.from` on `board`.
    fn land(&self, m: Move, piece: Piece, board: &mut BoardState) -> (r: Option<(bool, Option<Square>)>)
        ensures
            match spec_landing(self@, m, piece, old(board)@) {
                Some((b3, capture, ep)) => r == Some((capture, ep)) && final(board)@ == b3,
                None => r is None,
            },
    {
        if piece.kind == PieceKind::Pawn {
            self.land_pawn(m, piece, board)
        } else {
            if m.promotion.is_some() {
                return None;
            }
            let ghost b1 = board@;
            let taken = board.remove_piece(m.to);
            board.set_piece(m.to, piece);
            proof {
                assert(board@ =~= b1.insert(m.to, piece));
            }
            Some((taken.is_some(), None))
        }
    }
}

/// Moves the rook of a castling king.
fn castle_rook(board: &mut BoardState, piece: Piece, m: Move) -> (r: bool)
    ensures
        match spec_castle_rook(old(board)@, piece, m) {
            Some(b5) => r && final(board)@ == b5,
            None => !r,
        },
{
    if piece.kind == PieceKind::King && abs_diff(m.from.file, m.to.file) == 2 {
        let home = piece.side.home_rank();
        let rook = Piece { side: piece.side, kind: PieceKind::Rook };
        let (rook_from, rook_to) = if m.to.file == 6 {
            (Square { file: 7, rank: home }, Square { file: 5, rank: home })
        } else if m.to.file == 2 {
            (Square { file: 0, rank: home }, Square { file: 3, rank: home })
        } else {
            return false;
        };
        match board.remove_piece(rook_from) {
            Some(found) => {
                if found != rook {
                    return false;
                }
            },
            None => {
                return false;
            },
        }
        board.set_piece(rook_to, rook);
        true
    } else {
        true
    }
}

impl GameState {
    /// Plays `candidate` without asking whether it leaves the mover's king attacked.
    pub(crate) fn apply_move_unchecked(&self, candidate: Move) -> (r: Option<GameState>)
        requires
            candidate.to.spec_is_on_board(),
        ensures
            match r {
                Some(next) => spec_apply(self@, candidate) == Some(next@),
                None => spec_apply(self@, candidate) is None,
            },
    {
        proof {
            use_type_invariant(self);
        }
        let from = candidate.from;
        let to = candidate.to;
        let mut board = self.board.copy();
        let piece = match board.remove_piece(from) {
            Some(p) => p,
            None => {
                return None;
            },
        };
        let ghost b1 = board@;
        if piece.side != self.side_to_move {
            return None;
        }
        match board.piece_at(to) {
            Some(occupant) => {
                if occupant.side == piece.side {
                    return None;
                }
            },
            None => {},
        }
        let (is_capture, new_target) = match self.land(candidate, piece, &mut board) {
            Some(landed) => landed,
            None => {
                return None;
            },
        };
        if !castle_rook(&mut board, piece, candidate) {
            return None;
        }
        let mut rights = self.castling_rights;
        if piece.kind == PieceKind::King {
            rights.revoke_side(piece.side);
        }
        if piece.kind == PieceKind::Rook {
            rights.revoke_rook_origin(from);
        }
        if is_capture {
            rights.revoke_rook_origin(to);
        }
        let halfmove_clock = if piece.kind == PieceKind::Pawn || is_capture {
            0
        } else {
            saturating_inc(self.halfmove_clock)
        };
        let fullmove_number = if piece.side == Side::Black {
            saturating_inc(self.fullmove_number)
        } else {
            self.fullmove_number
        };
        let side_to_move = piece.side.opponent();
        let key = position_key(&board, side_to_move, rights, new_target);
        let mut history = copy_history(&self.position_history);
        history.push(key);
        proof {
            let core = spec_next_core(self@, candidate, piece, board@, is_capture, new_target);
            assert(key@ == spec_position_key(core));
            assert(spec_texts(history@) =~= self@.history.push(spec_position_key(core)));
            assert forall|s: Square| #[trigger] board@.contains_key(s) implies s.spec_is_on_board() by {
                if s != to && s.file != 3 && s.file != 5 {
                    assert(self@.board.contains_key(s));
                }
            }
        }
        Some(GameState {
            board,
            side_to_move,
            castling_rights: rights,
            en_passant_target: new_target,
            halfmove_clock,
            fullmove_number,
            position_history: history,
        })
    }
}

} // verus!
