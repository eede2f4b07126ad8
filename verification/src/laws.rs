//! What holds of every move the game accepts: the invariants a played game keeps.
use vstd::prelude::*;

use crate::board::{spec_count_of, spec_is_first_king, spec_king_square, spec_piece_on, spec_squares_holding};
use crate::game::fen::{spec_has_two_kings, spec_king_fault};
use crate::game::geometry::{lemma_ray_position, lemma_ray_stays_off};
use crate::game::play::spec_play;
use crate::mv::{Move, MoveError};
use crate::pieces::{Piece, PieceKind, Side};
use crate::rules::{
    spec_abs_diff, spec_apply, spec_attacked, spec_castle_generates, spec_pawn_double, spec_pawn_landing, spec_pawn_push, spec_attacked_by_jump, spec_attacked_by_slider, spec_direction,
    spec_generates, spec_in_check, spec_is_legal, spec_jump_delta, spec_jumper, spec_line_attacker, spec_on_board,
    spec_pawn_capture, spec_piece_at_offset, spec_position_key, spec_ray, spec_saturating_inc, spec_slide_target,
    spec_slider_hit, spec_status, spec_draw_availability, spec_has_legal_move, spec_repetition_count, Position,
};
use crate::status::{AutomaticDrawReason, DrawReason, GameOutcome, GameStatus, WinReason};
use crate::square::Square;
use vstd::set_lib::{lemma_int_range, lemma_len_subset, set_int_range};

verus! {

/// A board whose squares all lie on the board has finitely many pieces.
pub proof fn lemma_board_finite(board: Map<Square, Piece>)
    requires
        forall|s: Square| #[trigger] board.contains_key(s) ==> s.spec_is_on_board(),
    ensures
        board.dom().finite(),
        board.dom().len() <= 64,
{
    let f = |i: int| Square { file: (i % 8) as u8, rank: (i / 8) as u8 };
    let all = set_int_range(0, 64).map(f);
    lemma_int_range(0, 64);
    set_int_range(0, 64).lemma_map_finite(f);
    assert forall|s: Square| board.dom().contains(s) implies all.contains(s) by {
        let i = s.rank * 8 + s.file;
        assert(i % 8 == s.file as int && i / 8 == s.rank as int) by (nonlinear_arith)
            requires
                i == s.rank * 8 + s.file,
                s.file < 8,
        ;
        assert(set_int_range(0, 64).contains(i));
        assert(f(i) == s);
    }
    lemma_len_subset(board.dom(), all);
    vstd::set_lib::lemma_map_size_bound(set_int_range(0, 64), all, f);
}

/// A move that the game accepts is legal, and the position after it is the one the move
/// produces on the board.
pub proof fn lemma_accepted(pos: Position, m: Move, next: Position)
    requires
        spec_play(pos, m) == Ok::<Position, MoveError>(next),
    ensures
        spec_is_legal(pos, m),
        spec_apply(pos, m) == Some(next),
        spec_piece_on(pos.board, m.from) is Some,
        spec_piece_on(pos.board, m.from).unwrap().side == pos.side_to_move,
        spec_generates(pos, m.from, spec_piece_on(pos.board, m.from).unwrap(), m),
{
}

/// A move that a piece generates never ends on the square it starts from.
pub proof fn lemma_generated_moves_away(pos: Position, s: Square, p: Piece, m: Move)
    requires
        spec_generates(pos, s, p, m),
        spec_piece_on(pos.board, s) == Some(p),
    ensures
        m.to != s,
{
    match p.kind {
        PieceKind::Knight => {
            let i = choose|i: int|
                0 <= i < 8 && #[trigger] s.spec_offset(spec_jump_delta(false, i).0, spec_jump_delta(false, i).1)
                    == Some(m.to);
        },
        PieceKind::King => {
            if exists|i: int|
                0 <= i < 8 && #[trigger] s.spec_offset(spec_jump_delta(true, i).0, spec_jump_delta(true, i).1)
                    == Some(m.to) {
                let i = choose|i: int|
                    0 <= i < 8 && #[trigger] s.spec_offset(spec_jump_delta(true, i).0, spec_jump_delta(true, i).1)
                        == Some(m.to);
            }
        },
        PieceKind::Pawn => {},
        _ => {
            let (i, k) = choose|i: int, k: nat|
                0 <= i < 8 && #[trigger] spec_slide_target(pos.board, s, p.side, i, k, m.to);
            let df = spec_direction(i).0;
            let dr = spec_direction(i).1;
            lemma_ray_position(s, df, dr, k);
            assert(k * df != 0 || k * dr != 0) by (nonlinear_arith)
                requires
                    k >= 1,
                    df != 0 || dr != 0,
            ;
        },
    }
}

/// The moves the game accepts are exactly the legal moves of a game that is not over.
pub proof fn law_accepted_iff_legal(pos: Position, m: Move)
    ensures
        spec_play(pos, m) is Ok <==> !(spec_status(pos) is Finished) && spec_is_legal(pos, m),
{
}

/// Every legal move moves a piece of the side to move, names a promotion only when a pawn
/// reaches the last rank, and then a queen, rook, bishop or knight. A pawn reaching the last
/// rank names one unless it captures en passant there, moving onto an empty square of another
/// file.
/// While the game goes on the game accepts the move, and afterwards the side that moved is not
/// in check.
pub proof fn law_legal_move_shape(pos: Position, m: Move)
    requires
        spec_is_legal(pos, m),
    ensures
        spec_piece_on(pos.board, m.from) matches Some(p) && p.side == pos.side_to_move,
        m.promotion is Some ==> spec_piece_on(pos.board, m.from).unwrap().kind == PieceKind::Pawn && m.to.rank
            == pos.side_to_move.spec_promotion_rank(),
        spec_piece_on(pos.board, m.from).unwrap().kind == PieceKind::Pawn && m.to.rank
            == pos.side_to_move.spec_promotion_rank() && !(m.from.file != m.to.file && spec_piece_on(pos.board, m.to)
            is None) ==> m.promotion is Some,
        m.promotion matches Some(k) ==> k.spec_is_valid_promotion(),
        !(spec_status(pos) is Finished) ==> (spec_play(pos, m) matches Ok(next) && !spec_in_check(
            next.board,
            pos.side_to_move,
        )),
{
    let p = spec_piece_on(pos.board, m.from).unwrap();
    let side = p.side;
    if p.kind == PieceKind::Pawn {
        if spec_pawn_push(pos.board, m.from, side, m) {
        } else if spec_pawn_double(pos.board, m.from, side, m) {
        } else if spec_pawn_capture(pos, m.from, side, -1, m) {
        } else {
            assert(spec_pawn_capture(pos, m.from, side, 1, m));
        }
    } else if p.kind == PieceKind::King {
        if spec_castle_generates(pos, side, m) {
        }
    }
}

/// A draw may be claimed by the fifty-move rule exactly when the halfmove clock has reached
/// 100, and by threefold repetition exactly when the position has occurred three times. A game
/// ends: in checkmate, won by the side not to move, when the side to move has no legal move and
/// is in check; in stalemate when it has none and is not in check; otherwise drawn by the
/// seventy-five-move rule once the halfmove clock reaches 150, or else by fivefold repetition
/// once the position has occurred five times. An ongoing game reports whether the side to move
/// is in check and which draws may be claimed.
pub proof fn law_status_meaning(pos: Position)
    ensures
        spec_draw_availability(pos).fifty_move_rule <==> pos.halfmove_clock >= 100,
        spec_draw_availability(pos).threefold_repetition <==> spec_repetition_count(pos) >= 3,
        (spec_status(pos) == GameStatus::Finished(
            GameOutcome::Win { winner: pos.side_to_move.spec_opponent(), reason: WinReason::Checkmate },
        )) <==> !spec_has_legal_move(pos) && spec_in_check(pos.board, pos.side_to_move),
        spec_status(pos) matches GameStatus::Finished(GameOutcome::Win { winner, .. }) ==> winner
            == pos.side_to_move.spec_opponent(),
        (spec_status(pos) == GameStatus::Finished(GameOutcome::Draw(DrawReason::Stalemate))) <==> !spec_has_legal_move(pos)
            && !spec_in_check(pos.board, pos.side_to_move),
        (spec_status(pos) == GameStatus::Finished(
            GameOutcome::Draw(DrawReason::Automatic(AutomaticDrawReason::SeventyFiveMoveRule)),
        )) <==> spec_has_legal_move(pos) && pos.halfmove_clock >= 150,
        (spec_status(pos) == GameStatus::Finished(
            GameOutcome::Draw(DrawReason::Automatic(AutomaticDrawReason::FivefoldRepetition)),
        )) <==> spec_has_legal_move(pos) && pos.halfmove_clock < 150 && spec_repetition_count(pos) >= 5,
        spec_status(pos) matches GameStatus::Ongoing { in_check, draw_available } ==> in_check == spec_in_check(
            pos.board,
            pos.side_to_move,
        ) && draw_available == spec_draw_availability(pos) && spec_has_legal_move(pos) && pos.halfmove_clock < 150
            && spec_repetition_count(pos) < 5,
{
}

/// Whether a move loses the castling right held by the rook that starts on `corner` of the
/// given side: that side's king moves, that rook leaves its corner, or a piece is captured on it.
pub open spec fn spec_loses_right(pos: Position, m: Move, side: Side, corner: Square) -> bool {
    let mover = spec_piece_on(pos.board, m.from).unwrap();
    ||| mover == Piece { side, kind: PieceKind::King }
    ||| (mover.kind == PieceKind::Rook && m.from == corner)
    ||| (spec_removes_piece(pos, m) && m.to == corner)
}

/// After a move the game accepts, each castling right is still held exactly when it was held
/// before and the move did not lose it: a king's move loses both rights of its side, and a
/// rook leaving its corner, or any capture on that corner, loses the right of that corner (a1
/// and h1 for White's queen and king side, a8 and h8 for Black's).
pub proof fn law_castling_rights_after(pos: Position, m: Move, next: Position)
    requires
        spec_play(pos, m) == Ok::<Position, MoveError>(next),
    ensures
        next.castling_rights.white_queenside <==> pos.castling_rights.white_queenside && !spec_loses_right(
            pos,
            m,
            Side::White,
            Square { file: 0, rank: 0 },
        ),
        next.castling_rights.white_kingside <==> pos.castling_rights.white_kingside && !spec_loses_right(
            pos,
            m,
            Side::White,
            Square { file: 7, rank: 0 },
        ),
        next.castling_rights.black_queenside <==> pos.castling_rights.black_queenside && !spec_loses_right(
            pos,
            m,
            Side::Black,
            Square { file: 0, rank: 7 },
        ),
        next.castling_rights.black_kingside <==> pos.castling_rights.black_kingside && !spec_loses_right(
            pos,
            m,
            Side::Black,
            Square { file: 7, rank: 7 },
        ),
{
    lemma_accepted(pos, m, next);
    law_legal_move_shape(pos, m);
    let p = spec_piece_on(pos.board, m.from).unwrap();
    lemma_generated_moves_away(pos, m.from, p, m);
    let b1 = pos.board.remove(m.from);
    assert(spec_piece_on(b1, m.to) == spec_piece_on(pos.board, m.to));
    if p.kind == PieceKind::Pawn {
        let (b3, capture, ep) = spec_pawn_landing(pos, m, p, b1).unwrap();
        if spec_pawn_push(pos.board, m.from, p.side, m) {
        } else if spec_pawn_double(pos.board, m.from, p.side, m) {
        } else if spec_pawn_capture(pos, m.from, p.side, -1, m) {
        } else {
            assert(spec_pawn_capture(pos, m.from, p.side, 1, m));
        }
        assert(capture == spec_removes_piece(pos, m));
    }
}

/// A promotion the game accepts leaves the chosen piece, of the side that moved, on the target
/// square.
pub proof fn law_promotion_places_piece(pos: Position, m: Move, next: Position)
    requires
        spec_play(pos, m) == Ok::<Position, MoveError>(next),
        m.promotion is Some,
    ensures
        spec_piece_on(next.board, m.to) == Some(Piece { side: pos.side_to_move, kind: m.promotion.unwrap() }),
{
    lemma_accepted(pos, m, next);
    law_legal_move_shape(pos, m);
    let p = spec_piece_on(pos.board, m.from).unwrap();
    let b1 = pos.board.remove(m.from);
    let (b3, capture, ep) = spec_pawn_landing(pos, m, p, b1).unwrap();
    assert(spec_piece_on(b3, m.to) == Some(Piece { side: p.side, kind: m.promotion.unwrap() }));
}

/// After a move the game accepts, the side that moved is not in check.
pub proof fn law_mover_not_in_check(pos: Position, m: Move, next: Position)
    requires
        spec_play(pos, m) == Ok::<Position, MoveError>(next),
    ensures
        !spec_in_check(next.board, pos.side_to_move),
{
    lemma_accepted(pos, m, next);
}

/// After a move the game accepts, it is the other side's turn.
pub proof fn law_turn_passes(pos: Position, m: Move, next: Position)
    requires
        spec_play(pos, m) == Ok::<Position, MoveError>(next),
    ensures
        next.side_to_move == pos.side_to_move.spec_opponent(),
{
    lemma_accepted(pos, m, next);
}

/// Castling rights are only ever lost: no right is held after a move that was not held before.
pub proof fn law_castling_rights_never_grow(pos: Position, m: Move, next: Position)
    requires
        spec_play(pos, m) == Ok::<Position, MoveError>(next),
    ensures
        next.castling_rights.spec_within(pos.castling_rights),
{
    lemma_accepted(pos, m, next);
}

/// Whether `m` captures: a piece stands on its target, or a pawn moves to the en-passant target.
pub open spec fn spec_is_capture(pos: Position, m: Move) -> bool {
    ||| spec_piece_on(pos.board, m.to) is Some
    ||| (spec_piece_on(pos.board, m.from) matches Some(p) && p.kind == PieceKind::Pawn && pos.en_passant_target
        == Some(m.to))
}

/// The halfmove clock restarts after a pawn move or a capture and otherwise counts up by one
/// (stopping at its largest value).
pub proof fn law_halfmove_clock(pos: Position, m: Move, next: Position)
    requires
        spec_play(pos, m) == Ok::<Position, MoveError>(next),
    ensures
        next.halfmove_clock == if spec_piece_on(pos.board, m.from).unwrap().kind == PieceKind::Pawn
            || spec_is_capture(pos, m) {
            0
        } else {
            spec_saturating_inc(pos.halfmove_clock)
        },
{
    lemma_accepted(pos, m, next);
    let p = spec_piece_on(pos.board, m.from).unwrap();
    lemma_generated_moves_away(pos, m.from, p, m);
    assert(spec_piece_on(pos.board.remove(m.from), m.to) == spec_piece_on(pos.board, m.to));
}

/// The fullmove number goes up after Black moves (stopping at its largest value) and stays
/// after White moves.
pub proof fn law_fullmove_number(pos: Position, m: Move, next: Position)
    requires
        spec_play(pos, m) == Ok::<Position, MoveError>(next),
    ensures
        next.fullmove_number == if pos.side_to_move == Side::Black {
            spec_saturating_inc(pos.fullmove_number)
        } else {
            pos.fullmove_number
        },
{
    lemma_accepted(pos, m, next);
}

/// Each accepted move appends the key of the new position to the history and keeps the rest.
pub proof fn law_history_records_position(pos: Position, m: Move, next: Position)
    requires
        spec_play(pos, m) == Ok::<Position, MoveError>(next),
    ensures
        next.history == pos.history.push(spec_position_key(next)),
        next.history.len() == pos.history.len() + 1,
{
    lemma_accepted(pos, m, next);
}

/// After a move the en-passant target, if any, lies on the third or the sixth rank.
pub proof fn law_en_passant_rank(pos: Position, m: Move, next: Position)
    requires
        spec_play(pos, m) == Ok::<Position, MoveError>(next),
    ensures
        next.en_passant_target matches Some(t) ==> t.rank == 2 || t.rank == 5,
{
    lemma_accepted(pos, m, next);
}

/// A move leaves an en-passant target exactly when it is a pawn's double step, and the target
/// is the square the pawn passed over.
pub proof fn law_en_passant_after_double_step(pos: Position, m: Move, next: Position)
    requires
        spec_play(pos, m) == Ok::<Position, MoveError>(next),
    ensures
        next.en_passant_target is Some <==> (spec_piece_on(pos.board, m.from).unwrap().kind == PieceKind::Pawn
            && spec_abs_diff(m.from.rank, m.to.rank) == 2),
        next.en_passant_target matches Some(t) ==> t.file == m.from.file && t.rank == (m.from.rank + m.to.rank) / 2,
{
    lemma_accepted(pos, m, next);
}

/// Whether `m` takes a piece off the board: one stands on its target, or a pawn moves to
/// another file (which a pawn only does to capture, en passant among others).
pub open spec fn spec_removes_piece(pos: Position, m: Move) -> bool {
    ||| spec_piece_on(pos.board, m.to) is Some
    ||| (spec_piece_on(pos.board, m.from) matches Some(p) && p.kind == PieceKind::Pawn && m.from.file != m.to.file)
}

/// A capture takes exactly one piece off the board and any other move, castling and
/// promotion among them, keeps the number of pieces; so the number never grows. A pawn that
/// steps straight onto the en-passant target captures nothing.
pub proof fn law_piece_count(pos: Position, m: Move, next: Position)
    requires
        spec_play(pos, m) == Ok::<Position, MoveError>(next),
        spec_on_board(pos),
    ensures
        next.board.dom().finite(),
        next.board.dom().len() == pos.board.dom().len() - (if spec_removes_piece(pos, m) {
            1int
        } else {
            0
        }),
{
    lemma_accepted(pos, m, next);
    lemma_board_finite(pos.board);
    let p = spec_piece_on(pos.board, m.from).unwrap();
    lemma_generated_moves_away(pos, m.from, p, m);
    let b1 = pos.board.remove(m.from);
    assert(spec_piece_on(b1, m.to) == spec_piece_on(pos.board, m.to));
    assert(b1.dom() == pos.board.dom().remove(m.from));
    assert(b1.dom().len() == pos.board.dom().len() - 1);
    if p.kind == PieceKind::Pawn {
        if spec_abs_diff(m.from.file, m.to.file) == 1 && spec_piece_on(b1, m.to) is None {
            let captured = Square { file: m.to.file, rank: m.from.rank };
            assert(captured != m.from);
            assert(b1.contains_key(captured));
            let b2 = b1.remove(captured);
            assert(b2.dom() == b1.dom().remove(captured));
            assert(!b2.contains_key(m.to));
        } else if spec_piece_on(b1, m.to) is Some {
            let b2 = b1.remove(m.to);
            assert(b2.dom() == b1.dom().remove(m.to));
        } else {
        }
    } else {
        let b3 = b1.insert(m.to, p);
        assert(b3.dom() == b1.dom().insert(m.to));
        if p.kind == PieceKind::King && spec_abs_diff(m.from.file, m.to.file) == 2 {
            if exists|i: int|
                0 <= i < 8 && #[trigger] m.from.spec_offset(spec_jump_delta(true, i).0, spec_jump_delta(true, i).1)
                    == Some(m.to) {
                let i = choose|i: int|
                    0 <= i < 8 && #[trigger] m.from.spec_offset(
                        spec_jump_delta(true, i).0,
                        spec_jump_delta(true, i).1,
                    ) == Some(m.to);
                assert(false);
            }
            let home = p.side.spec_home_rank();
            let rook_from = if m.to.file == 6 { Square { file: 7, rank: home } } else { Square { file: 0, rank: home } };
            let rook_to = if m.to.file == 6 { Square { file: 5, rank: home } } else { Square { file: 3, rank: home } };
            assert(!pos.board.contains_key(rook_to));
            assert(b3.contains_key(rook_from));
            let b4 = b3.remove(rook_from);
            assert(b4.dom() == b3.dom().remove(rook_from));
            assert(!b4.contains_key(rook_to));
            assert(b4.insert(rook_to, Piece { side: p.side, kind: PieceKind::Rook }).dom() == b4.dom().insert(rook_to));
        }
    }
}

// ---------------------------------------------------------------- kings

/// Taking a square off a board, or putting a piece on it, changes how often a piece occurs by
/// what stood there and what was put there.
pub proof fn lemma_count_insert(board: Map<Square, Piece>, s: Square, v: Piece, p: Piece)
    requires
        board.dom().finite(),
    ensures
        spec_count_of(board.insert(s, v), p) == spec_count_of(board, p) - (if board.contains_key(s) && board[s] == p {
            1int
        } else {
            0
        }) + (if v == p {
            1int
        } else {
            0
        }),
        spec_count_of(board.remove(s), p) == spec_count_of(board, p) - (if board.contains_key(s) && board[s] == p {
            1int
        } else {
            0
        }),
{
    let held = spec_squares_holding(board, p);
    assert(held.subset_of(board.dom()));
    lemma_len_subset(held, board.dom());
    let without = held.remove(s);
    assert(spec_squares_holding(board.remove(s), p) =~= without);
    if v == p {
        assert(spec_squares_holding(board.insert(s, v), p) =~= without.insert(s));
    } else {
        assert(spec_squares_holding(board.insert(s, v), p) =~= without);
    }
}

/// A board with exactly one king of a side has that king's square as its king square.
pub proof fn lemma_single_king(board: Map<Square, Piece>, side: Side)
    requires
        board.dom().finite(),
        spec_count_of(board, Piece { side, kind: PieceKind::King }) == 1,
    ensures
        spec_king_square(board, side) is Some,
        spec_king_fault(board, side) is None,
{
    let king = Piece { side, kind: PieceKind::King };
    let held = spec_squares_holding(board, king);
    assert(held.subset_of(board.dom()));
    lemma_len_subset(held, board.dom());
    let k = held.choose();
    assert(held.contains(k));
    assert forall|t: Square| #[trigger] spec_piece_on(board, t) == Some(king) implies t == k by {
        if t != k {
            assert(held.contains(t));
            assert(held.remove(k).contains(t));
            assert(held.remove(k).len() == 0);
        }
    }
    assert(spec_is_first_king(board, side, k));
    assert(spec_piece_on(board, k) == Some(king));
}

/// A side has no king fault exactly when it has one king.
pub proof fn lemma_king_fault_count(board: Map<Square, Piece>, side: Side)
    requires
        board.dom().finite(),
    ensures
        spec_king_fault(board, side) is None <==> spec_count_of(board, Piece { side, kind: PieceKind::King }) == 1,
{
    let king = Piece { side, kind: PieceKind::King };
    let held = spec_squares_holding(board, king);
    assert(held.subset_of(board.dom()));
    lemma_len_subset(held, board.dom());
    if spec_count_of(board, king) == 1 {
        lemma_single_king(board, side);
    } else if held.len() == 0 {
        assert forall|s: Square| #[trigger] spec_piece_on(board, s) != Some(king) by {
            if spec_piece_on(board, s) == Some(king) {
                assert(held.contains(s));
            }
        }
    } else {
        let a = held.choose();
        assert(held.contains(a));
        assert(held.remove(a).len() > 0);
        let b = held.remove(a).choose();
        assert(held.remove(a).contains(b));
        assert(spec_piece_on(board, a) == Some(king) && spec_piece_on(board, b) == Some(king) && a != b);
        assert(spec_has_two_kings(board, side));
    }
}

/// An accepted move that captures no king keeps one king of each side on a board that had
/// one of each.
pub proof fn law_one_king_each(pos: Position, m: Move, next: Position, side: Side)
    requires
        spec_play(pos, m) == Ok::<Position, MoveError>(next),
        spec_on_board(pos),
        spec_count_of(pos.board, Piece { side, kind: PieceKind::King }) == 1,
        !(spec_piece_on(pos.board, m.to) matches Some(q) && q.kind == PieceKind::King),
    ensures
        next.board.dom().finite(),
        spec_count_of(next.board, Piece { side, kind: PieceKind::King }) == 1,
{
    lemma_accepted(pos, m, next);
    lemma_board_finite(pos.board);
    let king = Piece { side, kind: PieceKind::King };
    let p = spec_piece_on(pos.board, m.from).unwrap();
    lemma_generated_moves_away(pos, m.from, p, m);
    let b1 = pos.board.remove(m.from);
    lemma_count_insert(pos.board, m.from, p, king);
    assert(b1.dom().finite());
    assert(spec_piece_on(b1, m.to) == spec_piece_on(pos.board, m.to));
    if p.kind == PieceKind::Pawn {
        let placed = if m.to.rank == p.side.spec_promotion_rank() {
            Piece { side: p.side, kind: m.promotion.unwrap() }
        } else {
            p
        };
        if spec_abs_diff(m.from.file, m.to.file) == 1 && spec_piece_on(b1, m.to) is None {
            let captured = Square { file: m.to.file, rank: m.from.rank };
            let b2 = b1.remove(captured);
            lemma_count_insert(b1, captured, placed, king);
            assert(b2.dom().finite());
            lemma_count_insert(b2, m.to, placed, king);
        } else if spec_piece_on(b1, m.to) is Some {
            let b2 = b1.remove(m.to);
            lemma_count_insert(b1, m.to, placed, king);
            assert(b2.dom().finite());
            lemma_count_insert(b2, m.to, placed, king);
        } else {
            lemma_count_insert(b1, m.to, placed, king);
        }
    } else {
        let b3 = b1.insert(m.to, p);
        lemma_count_insert(b1, m.to, p, king);
        assert(b3.dom().finite());
        if p.kind == PieceKind::King && spec_abs_diff(m.from.file, m.to.file) == 2 {
            let home = p.side.spec_home_rank();
            let rook = Piece { side: p.side, kind: PieceKind::Rook };
            let rook_from = if m.to.file == 6 { Square { file: 7, rank: home } } else { Square { file: 0, rank: home } };
            let rook_to = if m.to.file == 6 { Square { file: 5, rank: home } } else { Square { file: 3, rank: home } };
            let b4 = b3.remove(rook_from);
            lemma_count_insert(b3, rook_from, rook, king);
            assert(b4.dom().finite());
            lemma_count_insert(b4, rook_to, rook, king);
        }
    }
    lemma_board_finite_next(pos, m, next);
}

/// The board after an accepted move stays on the board.
proof fn lemma_board_finite_next(pos: Position, m: Move, next: Position)
    requires
        spec_play(pos, m) == Ok::<Position, MoveError>(next),
        spec_on_board(pos),
    ensures
        next.board.dom().finite(),
{
    lemma_accepted(pos, m, next);
    lemma_board_finite(pos.board);
    let p = spec_piece_on(pos.board, m.from).unwrap();
    let b1 = pos.board.remove(m.from);
    assert(b1.dom() == pos.board.dom().remove(m.from));
    if p.kind == PieceKind::Pawn {
        let captured = Square { file: m.to.file, rank: m.from.rank };
        assert(b1.remove(captured).dom() == b1.dom().remove(captured));
        assert(b1.remove(m.to).dom() == b1.dom().remove(m.to));
        assert(b1.remove(captured).insert(m.to, p).dom() == b1.dom().remove(captured).insert(m.to));
    }
}

// ---------------------------------------------------------------- captures are attacks

/// Walking a ray back from its end retraces it.
proof fn lemma_ray_back(s: Square, df: int, dr: int, k: nat, j: nat)
    requires
        s.spec_is_on_board(),
        k >= 1,
        spec_ray(s, df, dr, k) is Some,
        j <= k,
    ensures
        spec_ray(spec_ray(s, df, dr, k).unwrap(), -df, -dr, j) == spec_ray(s, df, dr, (k - j) as nat),
    decreases j,
{
    let t = spec_ray(s, df, dr, k).unwrap();
    if j > 0 {
        lemma_ray_back(s, df, dr, k, (j - 1) as nat);
        let i = (k - j) as nat;
        if spec_ray(s, df, dr, i) is None {
            lemma_ray_stays_off(s, df, dr, i, k);
        }
        if spec_ray(s, df, dr, (i + 1) as nat) is None {
            lemma_ray_stays_off(s, df, dr, (i + 1) as nat, k);
        }
        let e = spec_ray(s, df, dr, i).unwrap();
        if i >= 1 {
            lemma_ray_position(s, df, dr, i);
        }
        assert(e.spec_is_on_board());
        assert(spec_ray(s, df, dr, (i + 1) as nat) == e.spec_offset(df, dr));
        let c = spec_ray(s, df, dr, (i + 1) as nat).unwrap();
        assert(c.spec_offset(-df, -dr) == Some(e));
        assert(spec_ray(t, -df, -dr, j) == spec_ray(t, -df, -dr, (j - 1) as nat).unwrap().spec_offset(-df, -dr));
        assert((k - (j - 1)) as nat == i + 1);
    }
}

/// The direction opposite to direction `i`.
pub open spec fn spec_opposite(i: int) -> int {
    if i == 0 { 3 } else if i == 1 { 2 } else if i == 2 { 1 } else if i == 3 { 0 }
    else if i == 4 { 5 } else if i == 5 { 4 } else if i == 6 { 7 } else { 6 }
}

/// A piece that can move onto an occupied square attacks that square.
pub proof fn lemma_capture_attacks(pos: Position, s: Square, p: Piece, m: Move)
    requires
        spec_on_board(pos),
        spec_generates(pos, s, p, m),
        spec_piece_on(pos.board, s) == Some(p),
        spec_piece_on(pos.board, m.to) is Some,
    ensures
        spec_attacked(pos.board, m.to, p.side),
{
    let board = pos.board;
    let t = m.to;
    assert(s.spec_is_on_board());
    match p.kind {
        PieceKind::Pawn => {
            let fwd = p.side.spec_pawn_forward();
            let pawn = Piece { side: p.side, kind: PieceKind::Pawn };
            if spec_pawn_capture(pos, s, p.side, -1, m) {
                assert(t.spec_offset(1, -fwd) == Some(s));
                assert(spec_piece_at_offset(board, t, 1, -fwd, pawn));
            } else if spec_pawn_capture(pos, s, p.side, 1, m) {
                assert(t.spec_offset(-1, -fwd) == Some(s));
                assert(spec_piece_at_offset(board, t, -1, -fwd, pawn));
            }
        },
        PieceKind::Knight | PieceKind::King => {
            let king = p.kind == PieceKind::King;
            if exists|i: int|
                0 <= i < 8 && #[trigger] s.spec_offset(spec_jump_delta(king, i).0, spec_jump_delta(king, i).1)
                    == Some(t) {
                let i = choose|i: int|
                    0 <= i < 8 && #[trigger] s.spec_offset(spec_jump_delta(king, i).0, spec_jump_delta(king, i).1)
                        == Some(t);
                let j = 7 - i;
                assert(spec_jump_delta(king, j).0 == -spec_jump_delta(king, i).0);
                assert(spec_jump_delta(king, j).1 == -spec_jump_delta(king, i).1);
                assert(t.spec_offset(spec_jump_delta(king, j).0, spec_jump_delta(king, j).1) == Some(s));
                assert(spec_piece_at_offset(board, t, spec_jump_delta(king, j).0, spec_jump_delta(king, j).1, spec_jumper(p.side, king)));
                assert(spec_attacked_by_jump(board, t, p.side, king));
            }
        },
        _ => {
            let lo: int = if p.kind == PieceKind::Rook { 4 } else { 0 };
            let hi: int = if p.kind == PieceKind::Bishop { 4 } else { 8 };
            let (i, k) = choose|i: int, k: nat|
                lo <= i < hi && #[trigger] spec_slide_target(board, s, p.side, i, k, t);
            let df = spec_direction(i).0;
            let dr = spec_direction(i).1;
            let o = spec_opposite(i);
            assert(spec_direction(o).0 == -df && spec_direction(o).1 == -dr);
            assert(spec_line_attacker(o) == spec_line_attacker(i));
            lemma_ray_back(s, df, dr, k, k);
            assert forall|j: nat| 1 <= j < k implies match #[trigger] spec_ray(t, -df, -dr, j) {
                Some(c) => spec_piece_on(board, c) is None,
                None => false,
            } by {
                lemma_ray_back(s, df, dr, k, j);
                assert(spec_ray(s, df, dr, (k - j) as nat) matches Some(c) && spec_piece_on(board, c) is None);
            }
            assert(spec_slider_hit(board, t, p.side, o, k));
            assert(spec_attacked_by_slider(board, t, p.side));
        },
    }
}

/// A legal move never lands on the king of a side that is not in check.
pub proof fn law_no_king_capture(pos: Position, m: Move)
    requires
        spec_on_board(pos),
        spec_is_legal(pos, m),
        spec_count_of(pos.board, Piece { side: pos.side_to_move.spec_opponent(), kind: PieceKind::King }) == 1,
        !spec_in_check(pos.board, pos.side_to_move.spec_opponent()),
    ensures
        !(spec_piece_on(pos.board, m.to) matches Some(q) && q.kind == PieceKind::King),
{
    let side = pos.side_to_move;
    let opp = side.spec_opponent();
    let p = spec_piece_on(pos.board, m.from).unwrap();
    if spec_piece_on(pos.board, m.to) matches Some(q) && q.kind == PieceKind::King {
        let q = spec_piece_on(pos.board, m.to).unwrap();
        assert(q.side != side) by {
            if p.kind == PieceKind::Pawn {
                if spec_pawn_capture(pos, m.from, side, -1, m) {
                } else if spec_pawn_capture(pos, m.from, side, 1, m) {
                }
            }
        }
        assert(q.side == opp);
        lemma_board_finite(pos.board);
        lemma_single_king(pos.board, opp);
        let king = Piece { side: opp, kind: PieceKind::King };
        let held = spec_squares_holding(pos.board, king);
        assert(held.contains(m.to));
        assert forall|t: Square| #[trigger] spec_piece_on(pos.board, t) == Some(king) implies t == m.to || m.to.spec_precedes(t) by {
            if t != m.to {
                assert(held.contains(t));
                assert(held.remove(m.to).contains(t));
                assert(held.remove(m.to).len() == 0);
            }
        }
        assert(spec_is_first_king(pos.board, opp, m.to));
        crate::board::lemma_first_king_unique(pos.board, opp, m.to);
        lemma_capture_attacks(pos, m.from, p, m);
        crate::pieces::lemma_opponent_involution(side);
    }
}

} // verus!