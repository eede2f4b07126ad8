//! Legal play from a sound position stays sound, and the checker finds nothing along it.
use vstd::prelude::*;

use super::checker::{law_no_violations, spec_violations, ViolationKind};
use super::oracle::{lemma_black_moves_step, spec_black_moves, spec_path_violations, spec_side_after};
use crate::board::{spec_count_of, spec_is_first_king, spec_king_square, spec_piece_on, spec_squares_holding};
use crate::game::spec_starting_position;
use crate::game::geometry::lemma_ray_position;
use crate::game::play::{spec_play, spec_played};
use crate::laws::{
    lemma_accepted, law_history_records_position, law_mover_not_in_check, law_no_king_capture,
    law_one_king_each, law_turn_passes,
};
use crate::mv::{Move, MoveError};
use crate::pieces::{Piece, PieceKind, Side};
use crate::rules::{
    spec_abs_diff, spec_attacked, spec_attacked_by_jump, spec_direction, spec_ray, spec_slider_hit, spec_generates, spec_in_check, spec_is_legal, spec_jump_delta, spec_on_board,
    spec_pawn_capture, spec_pawn_double, spec_pawn_push, spec_slide_target, spec_castle_generates, Position,
};
use crate::square::Square;

verus! {

/// The pawn that just stepped two squares stands right past the en-passant target, seen from
/// the side to move.
pub open spec fn spec_en_passant_backed(pos: Position) -> bool {
    pos.en_passant_target matches Some(t) ==> (t.spec_offset(
        0,
        pos.side_to_move.spec_opponent().spec_pawn_forward(),
    ) matches Some(b) && spec_piece_on(pos.board, b) == Some(
        Piece { side: pos.side_to_move.spec_opponent(), kind: PieceKind::Pawn },
    ))
}

/// A position that legal play keeps: everything on the board, one king of each side, the side
/// not to move out of check, and an en-passant target only right behind the pawn that made it.
pub open spec fn spec_sound(pos: Position) -> bool {
    &&& spec_on_board(pos)
    &&& spec_count_of(pos.board, Piece { side: Side::White, kind: PieceKind::King }) == 1
    &&& spec_count_of(pos.board, Piece { side: Side::Black, kind: PieceKind::King }) == 1
    &&& !spec_in_check(pos.board, pos.side_to_move.spec_opponent())
    &&& spec_en_passant_backed(pos)
}

/// Every move a piece generates ends on the board.
proof fn lemma_target_on_board(pos: Position, s: Square, p: Piece, m: Move)
    requires
        spec_generates(pos, s, p, m),
    ensures
        m.to.spec_is_on_board(),
{
    match p.kind {
        PieceKind::Pawn => {
            if spec_pawn_push(pos.board, s, p.side, m) {
            } else if spec_pawn_double(pos.board, s, p.side, m) {
            } else if spec_pawn_capture(pos, s, p.side, -1, m) {
            } else {
                assert(spec_pawn_capture(pos, s, p.side, 1, m));
            }
        },
        PieceKind::Knight => {
            let i = choose|i: int|
                0 <= i < 8 && #[trigger] s.spec_offset(spec_jump_delta(false, i).0, spec_jump_delta(false, i).1)
                    == Some(m.to);
        },
        PieceKind::King => {
            if exists|i: int|
                0 <= i < 8 && #[trigger] s.spec_offset(spec_jump_delta(true, i).0, spec_jump_delta(true, i).1)
                    == Some(m.to) {
                let i = choose|i: int|
                    0 <= i < 8 && #[trigger] s.spec_offset(spec_jump_delta(true, i).0, spec_jump_delta(true, i).1)
                        == Some(m.to);
            } else {
                assert(spec_castle_generates(pos, p.side, m));
            }
        },
        _ => {
            let (i, k) = choose|i: int, k: nat|
                0 <= i < 8 && #[trigger] spec_slide_target(pos.board, s, p.side, i, k, m.to);
            lemma_ray_position(s, spec_direction(i).0, spec_direction(i).1, k);
        },
    }
}

/// After a move the game accepts, everything stays on the board.
pub proof fn lemma_on_board_next(pos: Position, m: Move, next: Position)
    requires
        spec_play(pos, m) == Ok::<Position, MoveError>(next),
        spec_on_board(pos),
    ensures
        spec_on_board(next),
{
    lemma_accepted(pos, m, next);
    let p = spec_piece_on(pos.board, m.from).unwrap();
    lemma_target_on_board(pos, m.from, p, m);
    assert(pos.board.contains_key(m.from));
    let home = p.side.spec_home_rank();
    assert forall|s: Square| #[trigger] next.board.contains_key(s) implies s.spec_is_on_board() by {
        if s != m.to && s != (Square { file: 5, rank: home }) && s != (Square { file: 3, rank: home }) {
            assert(pos.board.contains_key(s));
        }
    }
}

/// After a move the game accepts, an en-passant target stands right behind the pawn that made
/// it.
pub proof fn lemma_en_passant_backed_next(pos: Position, m: Move, next: Position)
    requires
        spec_play(pos, m) == Ok::<Position, MoveError>(next),
    ensures
        spec_en_passant_backed(next),
{
    lemma_accepted(pos, m, next);
    let p = spec_piece_on(pos.board, m.from).unwrap();
    if next.en_passant_target is Some {
        assert(p.kind == PieceKind::Pawn);
        assert(spec_abs_diff(m.from.rank, m.to.rank) == 2);
        assert(spec_pawn_double(pos.board, m.from, p.side, m)) by {
            if spec_pawn_push(pos.board, m.from, p.side, m) {
            } else if spec_pawn_capture(pos, m.from, p.side, -1, m) {
            } else if spec_pawn_capture(pos, m.from, p.side, 1, m) {
            }
        }
        let t = next.en_passant_target.unwrap();
        assert(t.spec_offset(0, p.side.spec_pawn_forward()) == Some(m.to));
        assert(m.to.rank != p.side.spec_promotion_rank());
        assert(spec_piece_on(next.board, m.to) == Some(p));
    }
}

/// From a position whose en-passant target is backed, no legal move is a straight pawn step
/// onto that target.
pub proof fn lemma_no_straight_step_onto_target(pos: Position, m: Move)
    requires
        spec_en_passant_backed(pos),
        spec_is_legal(pos, m),
    ensures
        !(spec_piece_on(pos.board, m.from) matches Some(p) && p.kind == PieceKind::Pawn && m.from.file == m.to.file
            && pos.en_passant_target == Some(m.to)),
{
    let p = spec_piece_on(pos.board, m.from).unwrap();
    if p.kind == PieceKind::Pawn && m.from.file == m.to.file && pos.en_passant_target == Some(m.to) {
        let side = pos.side_to_move;
        assert(p.side == side);
        if spec_pawn_push(pos.board, m.from, side, m) {
            assert(m.to.spec_offset(0, side.spec_opponent().spec_pawn_forward()) == Some(m.from));
        } else if spec_pawn_double(pos.board, m.from, side, m) {
            let f = m.from.spec_offset(0, side.spec_pawn_forward()).unwrap();
            assert(m.to.spec_offset(0, side.spec_opponent().spec_pawn_forward()) == Some(f));
        } else if spec_pawn_capture(pos, m.from, side, -1, m) {
        } else {
            assert(spec_pawn_capture(pos, m.from, side, 1, m));
        }
    }
}

/// Legal play keeps a position sound.
pub proof fn law_sound_position_stays_sound(pos: Position, m: Move, next: Position)
    requires
        spec_sound(pos),
        spec_play(pos, m) == Ok::<Position, MoveError>(next),
    ensures
        spec_sound(next),
{
    lemma_accepted(pos, m, next);
    law_no_king_capture(pos, m);
    law_one_king_each(pos, m, next, Side::White);
    law_one_king_each(pos, m, next, Side::Black);
    law_mover_not_in_check(pos, m, next);
    law_turn_passes(pos, m, next);
    lemma_on_board_next(pos, m, next);
    lemma_en_passant_backed_next(pos, m, next);
}

/// What holds at every position of a line played from a sound start: it is sound, the turn
/// alternates, the fullmove number counted Black's moves (while it had room), and the history
/// grew by one per move.
pub proof fn lemma_line_sound(start: Position, moves: Seq<Move>)
    requires
        spec_sound(start),
        spec_played(start, moves) is Some,
    ensures
        spec_sound(spec_played(start, moves).unwrap()),
        spec_played(start, moves).unwrap().side_to_move == spec_side_after(start.side_to_move, moves.len()),
        start.fullmove_number + spec_black_moves(start.side_to_move, moves.len()) <= u16::MAX ==> spec_played(
            start,
            moves,
        ).unwrap().fullmove_number == start.fullmove_number + spec_black_moves(start.side_to_move, moves.len()),
        spec_played(start, moves).unwrap().history.len() == start.history.len() + moves.len(),
    decreases moves.len(),
{
    if moves.len() > 0 {
        let rest = moves.drop_last();
        let before = spec_played(start, rest).unwrap();
        lemma_line_sound(start, rest);
        lemma_black_moves_step(start.side_to_move, rest.len());
        let next = spec_played(start, moves).unwrap();
        law_sound_position_stays_sound(before, moves.last(), next);
        law_history_records_position(before, moves.last(), next);
        law_turn_passes(before, moves.last(), next);
        crate::laws::law_fullmove_number(before, moves.last(), next);
    }
}

/// Along a line of accepted moves from a sound position, the checker reports nothing, as long
/// as the fullmove number has room for Black's moves and the history for the whole line.
pub proof fn law_sound_line_has_no_violations(start: Position, moves: Seq<Move>)
    requires
        spec_sound(start),
        spec_played(start, moves) is Some,
        start.fullmove_number + spec_black_moves(start.side_to_move, moves.len()) <= u16::MAX,
        start.history.len() + moves.len() <= usize::MAX,
    ensures
        spec_path_violations(start, moves) == Seq::<(ViolationKind, Seq<char>)>::empty(),
    decreases moves.len(),
{
    if moves.len() > 0 {
        let rest = moves.drop_last();
        let m = moves.last();
        let before = spec_played(start, rest).unwrap();
        let next = spec_played(start, moves).unwrap();
        lemma_black_moves_step(start.side_to_move, rest.len());
        law_sound_line_has_no_violations(start, rest);
        lemma_line_sound(start, rest);
        lemma_accepted(before, m, next);
        crate::laws::law_accepted_iff_legal(before, m);
        lemma_no_straight_step_onto_target(before, m);
        law_no_violations(before, m, next);
        assert(spec_path_violations(start, moves) == spec_path_violations(start, rest) + spec_violations(
            before,
            m,
            next,
        ));
        assert(spec_path_violations(start, moves) =~= Seq::<(ViolationKind, Seq<char>)>::empty());
    }
}

/// The starting position is sound.
pub proof fn lemma_start_sound()
    ensures
        spec_sound(spec_starting_position()),
{
    let pos = spec_starting_position();
    let b = pos.board;
    let e1 = Square { file: 4, rank: 0 };
    let e8 = Square { file: 4, rank: 7 };
    let white_king = Piece { side: Side::White, kind: PieceKind::King };
    let black_king = Piece { side: Side::Black, kind: PieceKind::King };
    assert(spec_squares_holding(b, white_king) =~= set![e1]);
    assert(spec_squares_holding(b, black_king) =~= set![e8]);
    assert(set![e1].len() == 1);
    assert(set![e8].len() == 1);
    assert(spec_is_first_king(b, Side::Black, e8));
    assert(spec_king_square(b, Side::Black) == Some(e8));
    assert(!spec_attacked_by_jump(b, e8, Side::White, false));
    assert(!spec_attacked_by_jump(b, e8, Side::White, true));
    assert forall|i: int, k: nat| 0 <= i < 8 implies !#[trigger] spec_slider_hit(b, e8, Side::White, i, k) by {
        let (df, dr) = spec_direction(i);
        assert(spec_ray(e8, df, dr, 0) == Some(e8));
        assert(spec_ray(e8, df, dr, 1) == e8.spec_offset(df, dr));
        if k > 1 {
            assert(spec_ray(e8, df, dr, 1) is Some ==> spec_piece_on(b, spec_ray(e8, df, dr, 1).unwrap()) is Some);
        }
    }
    assert(!spec_attacked(b, e8, Side::White));
}

} // verus!
