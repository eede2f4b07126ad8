//! Attack detection: whether a square is attacked by a side.
use vstd::prelude::*;

use super::geometry::{direction, jump_delta, lemma_ray_bounded, lemma_ray_stays_off};
use super::GameState;
use crate::board::{spec_piece_on, BoardState};
use crate::pieces::{Piece, PieceKind, Side};
use crate::rules::{spec_jumper, spec_attacked, spec_attacked_by_jump, spec_direction, spec_jump_delta, spec_path_clear, spec_piece_at_offset, spec_ray, spec_slider_hit};
use crate::square::Square;

verus! {

fn piece_at_offset(board: &BoardState, square: Square, df: i8, dr: i8, piece: Piece) -> (r: bool)
    ensures
        r == spec_piece_at_offset(board@, square, df as int, dr as int, piece),
{
    match square.offset(df, dr) {
        Some(t) => match board.piece_at(t) {
            Some(p) => p == piece,
            None => false,
        },
        None => false,
    }
}

/// Whether `by` has a knight (`king == false`) or king a jump away from `square`.
fn jump_attack(board: &BoardState, square: Square, by: Side, king: bool) -> (r: bool)
    ensures
        r == spec_attacked_by_jump(board@, square, by, king),
{
    let piece = Piece { side: by, kind: if king { PieceKind::King } else { PieceKind::Knight } };
    let mut i: usize = 0;
    while i < 8
        invariant
            i <= 8,
            piece == spec_jumper(by, king),
            forall|j: int|
                0 <= j < i ==> !#[trigger] spec_piece_at_offset(
                    board@,
                    square,
                    spec_jump_delta(king, j).0,
                    spec_jump_delta(king, j).1,
                    piece,
                ),
        decreases 8 - i,
    {
        let (df, dr) = jump_delta(king, i);
        if piece_at_offset(board, square, df, dr, piece) {
            proof {
                assert(spec_piece_at_offset(
                    board@,
                    square,
                    spec_jump_delta(king, i as int).0,
                    spec_jump_delta(king, i as int).1,
                    piece,
                ));
            }
            return true;
        }
        i = i + 1;
    }
    false
}

/// Whether the first piece met from `square` in direction `i` is one of `by`'s pieces that
/// attacks along that direction.
fn slider_attack_along(board: &BoardState, square: Square, by: Side, i: usize) -> (r: bool)
    requires
        i < 8,
    ensures
        r == exists|k: nat| #[trigger] spec_slider_hit(board@, square, by, i as int, k),
{
    let (df, dr) = direction(i);
    let ghost dfi = spec_direction(i as int).0;
    let ghost dri = spec_direction(i as int).1;
    let mut cursor = square;
    let mut k: usize = 0;
    loop
        invariant
            i < 8,
            df as int == dfi,
            dr as int == dri,
            dfi == spec_direction(i as int).0,
            dri == spec_direction(i as int).1,
            k <= 8,
            spec_ray(square, dfi, dri, k as nat) == Some(cursor),
            spec_path_clear(board@, square, dfi, dri, (k + 1) as nat),
        decreases 8 - k,
    {
        match cursor.offset(df, dr) {
            None => {
                proof {
                    assert(spec_ray(square, dfi, dri, (k + 1) as nat) is None);
                    assert forall|kk: nat| !#[trigger] spec_slider_hit(board@, square, by, i as int, kk) by {
                        if kk >= k + 1 {
                            lemma_ray_stays_off(square, dfi, dri, (k + 1) as nat, kk);
                        } else if kk >= 1 {
                            assert(spec_ray(square, dfi, dri, kk) is Some);
                        }
                    }
                }
                return false;
            },
            Some(next) => {
                proof {
                    assert(spec_ray(square, dfi, dri, (k + 1) as nat) == Some(next));
                    lemma_ray_bounded(square, i as int, (k + 1) as nat);
                }
                match board.piece_at(next) {
                    Some(p) => {
                        let attacker = if i < 4 { PieceKind::Bishop } else { PieceKind::Rook };
                        let hit = p.side == by && (p.kind == attacker || p.kind == PieceKind::Queen);
                        proof {
                            assert forall|kk: nat| #[trigger] spec_slider_hit(board@, square, by, i as int, kk)
                                implies hit by {
                                if kk > k + 1 {
                                    assert(spec_ray(square, dfi, dri, (k + 1) as nat) == Some(next));
                                } else if kk < k + 1 {
                                    assert(spec_ray(square, dfi, dri, kk) is Some);
                                }
                            }
                            if hit {
                                assert(spec_slider_hit(board@, square, by, i as int, (k + 1) as nat));
                            }
                        }
                        return hit;
                    },
                    None => {
                        cursor = next;
                        k = k + 1;
                    },
                }
            },
        }
    }
}

impl GameState {
    /// Whether a piece of `by_side` attacks `square`.
    pub(crate) fn is_square_attacked(&self, square: Square, by_side: Side) -> (r: bool)
        ensures
            r == spec_attacked(self@.board, square, by_side),
    {
        square_attacked(&self.board, square, by_side)
    }
}

/// Whether a piece of `by` attacks `square` on `board`.
pub(crate) fn square_attacked(board: &BoardState, square: Square, by: Side) -> (r: bool)
    ensures
        r == spec_attacked(board@, square, by),
{
    let pawn = Piece { side: by, kind: PieceKind::Pawn };
    let back: i8 = -by.pawn_forward();
    if piece_at_offset(board, square, -1, back, pawn) || piece_at_offset(board, square, 1, back, pawn) {
        return true;
    }
    if jump_attack(board, square, by, false) {
        return true;
    }
    if jump_attack(board, square, by, true) {
        return true;
    }
    let mut i: usize = 0;
    while i < 8
        invariant
            i <= 8,
            forall|j: int, k: nat| 0 <= j < i ==> !#[trigger] spec_slider_hit(board@, square, by, j, k),
        decreases 8 - i,
    {
        if slider_attack_along(board, square, by, i) {
            return true;
        }
        i = i + 1;
    }
    false
}

} // verus!
