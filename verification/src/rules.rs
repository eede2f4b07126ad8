//! The rules of chess as spec functions over a mathematical model of a position.
//! The executable game code is proved against these definitions.
use vstd::prelude::*;

use crate::board::{spec_king_square, spec_piece_on};
use crate::castling::CastlingRights;
use crate::mv::Move;
use crate::pieces::{spec_fen_char, Piece, PieceKind, Side};
use crate::square::Square;
use crate::text::{spec_decimal, spec_digit};
use crate::status::{AutomaticDrawReason, DrawAvailability, DrawReason, GameOutcome, GameStatus, WinReason};

verus! {

/// The model of a game position.
pub struct Position {
    pub board: Map<Square, Piece>,
    pub side_to_move: Side,
    pub castling_rights: CastlingRights,
    pub en_passant_target: Option<Square>,
    pub halfmove_clock: u16,
    pub fullmove_number: u16,
    /// The position key of every position reached so far, the current one last.
    pub history: Seq<Seq<char>>,
}

/// Every piece and the en-passant target stand on the board.
pub open spec fn spec_on_board(pos: Position) -> bool {
    &&& forall|s: Square| #[trigger] pos.board.contains_key(s) ==> s.spec_is_on_board()
    &&& pos.en_passant_target matches Some(t) ==> t.spec_is_on_board()
}

// ---------------------------------------------------------------- geometry

/// Knight jumps (`king == false`) or king steps (`king == true`), in generation order.
pub open spec fn spec_jump_delta(king: bool, i: int) -> (int, int) {
    if king {
        if i == 0 { (-1, -1) } else if i == 1 { (-1, 0) } else if i == 2 { (-1, 1) } else if i == 3 { (0, -1) }
        else if i == 4 { (0, 1) } else if i == 5 { (1, -1) } else if i == 6 { (1, 0) } else { (1, 1) }
    } else {
        if i == 0 { (-2, -1) } else if i == 1 { (-2, 1) } else if i == 2 { (-1, -2) } else if i == 3 { (-1, 2) }
        else if i == 4 { (1, -2) } else if i == 5 { (1, 2) } else if i == 6 { (2, -1) } else { (2, 1) }
    }
}

/// Queen directions: the four diagonals (0..4, the bishop's) then the four lines (4..8, the rook's).
pub open spec fn spec_direction(i: int) -> (int, int) {
    if i == 0 { (-1, -1) } else if i == 1 { (-1, 1) } else if i == 2 { (1, -1) } else if i == 3 { (1, 1) }
    else if i == 4 { (-1, 0) } else if i == 5 { (1, 0) } else if i == 6 { (0, -1) } else { (0, 1) }
}

/// The square reached from `s` after `j` steps in direction `(df, dr)`, stopping at the board's edge.
pub open spec fn spec_ray(s: Square, df: int, dr: int, j: nat) -> Option<Square>
    decreases j,
{
    if j == 0 {
        Some(s)
    } else {
        match spec_ray(s, df, dr, (j - 1) as nat) {
            Some(c) => c.spec_offset(df, dr),
            None => None,
        }
    }
}

/// Every square strictly between `s` and step `k` of the ray exists and is empty.
pub open spec fn spec_path_clear(board: Map<Square, Piece>, s: Square, df: int, dr: int, k: nat) -> bool {
    forall|j: nat|
        1 <= j < k ==> match #[trigger] spec_ray(s, df, dr, j) {
            Some(c) => spec_piece_on(board, c) is None,
            None => false,
        }
}

pub open spec fn spec_has_piece_of(board: Map<Square, Piece>, t: Square, side: Side) -> bool {
    match spec_piece_on(board, t) {
        Some(p) => p.side == side,
        None => false,
    }
}

pub open spec fn spec_piece_at_offset(board: Map<Square, Piece>, sq: Square, df: int, dr: int, piece: Piece) -> bool {
    match sq.spec_offset(df, dr) {
        Some(t) => spec_piece_on(board, t) == Some(piece),
        None => false,
    }
}

// ---------------------------------------------------------------- attacks

pub open spec fn spec_attacked_by_pawn(board: Map<Square, Piece>, sq: Square, by: Side) -> bool {
    let pawn = Piece { side: by, kind: PieceKind::Pawn };
    spec_piece_at_offset(board, sq, -1, -by.spec_pawn_forward(), pawn)
        || spec_piece_at_offset(board, sq, 1, -by.spec_pawn_forward(), pawn)
}

/// The piece that attacks by jumping: a king or a knight of side `by`.
pub open spec fn spec_jumper(by: Side, king: bool) -> Piece {
    Piece { side: by, kind: if king { PieceKind::King } else { PieceKind::Knight } }
}

pub open spec fn spec_attacked_by_jump(board: Map<Square, Piece>, sq: Square, by: Side, king: bool) -> bool {
    exists|i: int|
        0 <= i < 8 && #[trigger] spec_piece_at_offset(
            board,
            sq,
            spec_jump_delta(king, i).0,
            spec_jump_delta(king, i).1,
            spec_jumper(by, king),
        )
}

/// The piece besides the queen that attacks along direction `i`.
pub open spec fn spec_line_attacker(i: int) -> PieceKind {
    if i < 4 { PieceKind::Bishop } else { PieceKind::Rook }
}

/// Walking `k` steps from `sq` in direction `i` meets, as first piece, one of `by`'s pieces
/// that attacks along that direction.
pub open spec fn spec_slider_hit(board: Map<Square, Piece>, sq: Square, by: Side, i: int, k: nat) -> bool {
    &&& k >= 1
    &&& spec_path_clear(board, sq, spec_direction(i).0, spec_direction(i).1, k)
    &&& match spec_ray(sq, spec_direction(i).0, spec_direction(i).1, k) {
        Some(t) => match spec_piece_on(board, t) {
            Some(p) => p.side == by && (p.kind == spec_line_attacker(i) || p.kind == PieceKind::Queen),
            None => false,
        },
        None => false,
    }
}

pub open spec fn spec_attacked_by_slider(board: Map<Square, Piece>, sq: Square, by: Side) -> bool {
    exists|i: int, k: nat|
        0 <= i < 8 && #[trigger] spec_slider_hit(board, sq, by, i, k)
}

/// Whether a piece of side `by` attacks `sq`.
pub open spec fn spec_attacked(board: Map<Square, Piece>, sq: Square, by: Side) -> bool {
    ||| spec_attacked_by_pawn(board, sq, by)
    ||| spec_attacked_by_jump(board, sq, by, false)
    ||| spec_attacked_by_jump(board, sq, by, true)
    ||| spec_attacked_by_slider(board, sq, by)
}

/// Whether `side`'s king stands attacked.
pub open spec fn spec_in_check(board: Map<Square, Piece>, side: Side) -> bool {
    match spec_king_square(board, side) {
        Some(k) => spec_attacked(board, k, side.spec_opponent()),
        None => false,
    }
}

// ---------------------------------------------------------------- move generation

/// A pawn arriving on `t`: on the last rank it must name a promotion piece, elsewhere none.
pub open spec fn spec_pawn_arrival(side: Side, t: Square, m: Move) -> bool {
    &&& m.to == t
    &&& if t.rank == side.spec_promotion_rank() {
        m.promotion matches Some(k) && k.spec_is_valid_promotion()
    } else {
        m.promotion is None
    }
}

pub open spec fn spec_pawn_push(board: Map<Square, Piece>, s: Square, side: Side, m: Move) -> bool {
    match s.spec_offset(0, side.spec_pawn_forward()) {
        Some(f) => spec_piece_on(board, f) is None && spec_pawn_arrival(side, f, m),
        None => false,
    }
}

pub open spec fn spec_pawn_double(board: Map<Square, Piece>, s: Square, side: Side, m: Move) -> bool {
    &&& s.rank == side.spec_pawn_start_rank()
    &&& s.spec_offset(0, side.spec_pawn_forward()) matches Some(f)
    &&& spec_piece_on(board, f) is None
    &&& s.spec_offset(0, 2 * side.spec_pawn_forward()) matches Some(d)
    &&& spec_piece_on(board, d) is None
    &&& m.to == d
    &&& m.promotion is None
}

pub open spec fn spec_pawn_capture(pos: Position, s: Square, side: Side, df: int, m: Move) -> bool {
    match s.spec_offset(df, side.spec_pawn_forward()) {
        Some(c) => match spec_piece_on(pos.board, c) {
            Some(target) => target.side != side && spec_pawn_arrival(side, c, m),
            None => {
                &&& pos.en_passant_target == Some(c)
                &&& spec_piece_on(pos.board, Square { file: c.file, rank: s.rank }) == Some(
                    Piece { side: side.spec_opponent(), kind: PieceKind::Pawn },
                )
                &&& m.to == c
                &&& m.promotion is None
            },
        },
        None => false,
    }
}

pub open spec fn spec_pawn_generates(pos: Position, s: Square, side: Side, m: Move) -> bool {
    ||| spec_pawn_push(pos.board, s, side, m)
    ||| spec_pawn_double(pos.board, s, side, m)
    ||| spec_pawn_capture(pos, s, side, -1, m)
    ||| spec_pawn_capture(pos, s, side, 1, m)
}

pub open spec fn spec_jump_generates(board: Map<Square, Piece>, s: Square, side: Side, king: bool, m: Move) -> bool {
    &&& m.promotion is None
    &&& !spec_has_piece_of(board, m.to, side)
    &&& exists|i: int|
        0 <= i < 8 && #[trigger] s.spec_offset(spec_jump_delta(king, i).0, spec_jump_delta(king, i).1)
            == Some(m.to)
}

/// Step `k` of direction `i` from `s` is reachable and not blocked by `side`'s own piece.
pub open spec fn spec_slide_target(board: Map<Square, Piece>, s: Square, side: Side, i: int, k: nat, t: Square) -> bool {
    &&& k >= 1
    &&& spec_ray(s, spec_direction(i).0, spec_direction(i).1, k) == Some(t)
    &&& spec_path_clear(board, s, spec_direction(i).0, spec_direction(i).1, k)
    &&& !spec_has_piece_of(board, t, side)
}

pub open spec fn spec_slide_generates(board: Map<Square, Piece>, s: Square, side: Side, lo: int, hi: int, m: Move) -> bool {
    &&& m.promotion is None
    &&& exists|i: int, k: nat| lo <= i < hi && #[trigger] spec_slide_target(board, s, side, i, k, m.to)
}

pub open spec fn spec_castle_generates(pos: Position, side: Side, m: Move) -> bool {
    let home = side.spec_home_rank();
    let opp = side.spec_opponent();
    let rook = Piece { side, kind: PieceKind::Rook };
    &&& m.promotion is None
    &&& !spec_in_check(pos.board, side)
    &&& {
        ||| {
            &&& pos.castling_rights.spec_kingside(side)
            &&& spec_piece_on(pos.board, Square { file: 7, rank: home }) == Some(rook)
            &&& spec_piece_on(pos.board, Square { file: 5, rank: home }) is None
            &&& spec_piece_on(pos.board, Square { file: 6, rank: home }) is None
            &&& !spec_attacked(pos.board, Square { file: 5, rank: home }, opp)
            &&& !spec_attacked(pos.board, Square { file: 6, rank: home }, opp)
            &&& m.to == Square { file: 6, rank: home }
        }
        ||| {
            &&& pos.castling_rights.spec_queenside(side)
            &&& spec_piece_on(pos.board, Square { file: 0, rank: home }) == Some(rook)
            &&& spec_piece_on(pos.board, Square { file: 1, rank: home }) is None
            &&& spec_piece_on(pos.board, Square { file: 2, rank: home }) is None
            &&& spec_piece_on(pos.board, Square { file: 3, rank: home }) is None
            &&& !spec_attacked(pos.board, Square { file: 3, rank: home }, opp)
            &&& !spec_attacked(pos.board, Square { file: 2, rank: home }, opp)
            &&& m.to == Square { file: 2, rank: home }
        }
    }
}

/// The moves a piece `p` standing on `s` may make before king safety is considered.
pub open spec fn spec_generates(pos: Position, s: Square, p: Piece, m: Move) -> bool {
    &&& m.from == s
    &&& match p.kind {
        PieceKind::Pawn => spec_pawn_generates(pos, s, p.side, m),
        PieceKind::Knight => spec_jump_generates(pos.board, s, p.side, false, m),
        PieceKind::Bishop => spec_slide_generates(pos.board, s, p.side, 0, 4, m),
        PieceKind::Rook => spec_slide_generates(pos.board, s, p.side, 4, 8, m),
        PieceKind::Queen => spec_slide_generates(pos.board, s, p.side, 0, 8, m),
        PieceKind::King => spec_jump_generates(pos.board, s, p.side, true, m) || spec_castle_generates(
            pos,
            p.side,
            m,
        ),
    }
}

// ---------------------------------------------------------------- making a move

pub open spec fn spec_abs_diff(a: u8, b: u8) -> int {
    if a >= b { a - b } else { b - a }
}

pub open spec fn spec_saturating_inc(x: u16) -> u16 {
    if x == u16::MAX { x } else { (x + 1) as u16 }
}

/// Lifting a pawn off `m.from` (already removed in `b1`): the board after it lands, whether it
/// captured, and the new en-passant target.
pub open spec fn spec_pawn_landing(pos: Position, m: Move, piece: Piece, b1: Map<Square, Piece>) -> Option<(Map<Square, Piece>, bool, Option<Square>)> {
    let from = m.from;
    let to = m.to;
    let cleared: Option<(Map<Square, Piece>, bool)> = if spec_abs_diff(from.file, to.file) == 1
        && spec_piece_on(b1, to) is None {
        let captured = Square { file: to.file, rank: from.rank };
        if pos.en_passant_target != Some(to) {
            None
        } else if spec_piece_on(b1, captured) != Some(Piece { side: piece.side.spec_opponent(), kind: PieceKind::Pawn }) {
            None
        } else {
            Some((b1.remove(captured), true))
        }
    } else if spec_piece_on(b1, to) is Some {
        Some((b1.remove(to), true))
    } else {
        Some((b1, false))
    };
    match cleared {
        None => None,
        Some((b2, capture)) => {
            let placed: Option<Map<Square, Piece>> = if to.rank == piece.side.spec_promotion_rank() {
                match m.promotion {
                    None => None,
                    Some(k) => if !k.spec_is_valid_promotion() {
                        None
                    } else {
                        Some(b2.insert(to, Piece { side: piece.side, kind: k }))
                    },
                }
            } else if m.promotion is Some {
                None
            } else {
                Some(b2.insert(to, piece))
            };
            match placed {
                None => None,
                Some(b3) => Some((b3, capture, if spec_abs_diff(from.rank, to.rank) == 2 {
                    Some(Square { file: from.file, rank: ((from.rank + to.rank) / 2) as u8 })
                } else {
                    None
                })),
            }
        },
    }
}

pub open spec fn spec_landing(pos: Position, m: Move, piece: Piece, b1: Map<Square, Piece>) -> Option<(Map<Square, Piece>, bool, Option<Square>)> {
    if piece.kind == PieceKind::Pawn {
        spec_pawn_landing(pos, m, piece, b1)
    } else if m.promotion is Some {
        None
    } else {
        Some((b1.insert(m.to, piece), spec_piece_on(b1, m.to) is Some, None))
    }
}

/// A king that moved two files brings its rook along.
pub open spec fn spec_castle_rook(b3: Map<Square, Piece>, piece: Piece, m: Move) -> Option<Map<Square, Piece>> {
    if piece.kind == PieceKind::King && spec_abs_diff(m.from.file, m.to.file) == 2 {
        let home = piece.side.spec_home_rank();
        let rook = Piece { side: piece.side, kind: PieceKind::Rook };
        if m.to.file == 6 {
            let rook_from = Square { file: 7, rank: home };
            if spec_piece_on(b3, rook_from) != Some(rook) {
                None
            } else {
                Some(b3.remove(rook_from).insert(Square { file: 5, rank: home }, rook))
            }
        } else if m.to.file == 2 {
            let rook_from = Square { file: 0, rank: home };
            if spec_piece_on(b3, rook_from) != Some(rook) {
                None
            } else {
                Some(b3.remove(rook_from).insert(Square { file: 3, rank: home }, rook))
            }
        } else {
            None
        }
    } else {
        Some(b3)
    }
}

pub open spec fn spec_rights_after(rights: CastlingRights, piece: Piece, m: Move, capture: bool) -> CastlingRights {
    let r1 = if piece.kind == PieceKind::King { rights.spec_revoke_side(piece.side) } else { rights };
    let r2 = if piece.kind == PieceKind::Rook { r1.spec_revoke_rook_origin(m.from) } else { r1 };
    if capture { r2.spec_revoke_rook_origin(m.to) } else { r2 }
}

/// The position after the move, before its key is appended to the history.
pub open spec fn spec_next_core(pos: Position, m: Move, piece: Piece, board: Map<Square, Piece>, capture: bool, ep: Option<Square>) -> Position {
    Position {
        board,
        side_to_move: piece.side.spec_opponent(),
        castling_rights: spec_rights_after(pos.castling_rights, piece, m, capture),
        en_passant_target: ep,
        halfmove_clock: if piece.kind == PieceKind::Pawn || capture { 0 } else { spec_saturating_inc(pos.halfmove_clock) },
        fullmove_number: if piece.side == Side::Black { spec_saturating_inc(pos.fullmove_number) } else { pos.fullmove_number },
        history: pos.history,
    }
}

/// The position after playing `m` without checking king safety, or `None` when the move
/// cannot be carried out on this board.
pub open spec fn spec_apply(pos: Position, m: Move) -> Option<Position> {
    match spec_piece_on(pos.board, m.from) {
        None => None,
        Some(piece) => {
            let b1 = pos.board.remove(m.from);
            if piece.side != pos.side_to_move {
                None
            } else if spec_has_piece_of(b1, m.to, piece.side) {
                None
            } else {
                match spec_landing(pos, m, piece, b1) {
                    None => None,
                    Some((b3, capture, ep)) => match spec_castle_rook(b3, piece, m) {
                        None => None,
                        Some(b5) => {
                            let core = spec_next_core(pos, m, piece, b5, capture, ep);
                            Some(Position { history: pos.history.push(spec_position_key(core)), ..core })
                        },
                    },
                }
            }
        },
    }
}

/// A legal move: one the side to move's piece generates, that can be carried out, and that
/// does not leave that side's king attacked.
pub open spec fn spec_is_legal(pos: Position, m: Move) -> bool {
    match spec_piece_on(pos.board, m.from) {
        Some(p) => {
            &&& p.side == pos.side_to_move
            &&& spec_generates(pos, m.from, p, m)
            &&& match spec_apply(pos, m) {
                Some(next) => !spec_in_check(next.board, pos.side_to_move),
                None => false,
            }
        },
        None => false,
    }
}

pub open spec fn spec_has_legal_move(pos: Position) -> bool {
    exists|m: Move| #[trigger] spec_is_legal(pos, m)
}

// ---------------------------------------------------------------- notation

/// FEN text of the files `file..8` of a rank, with `run` empty squares pending before them.
pub open spec fn spec_rank_fen_from(board: Map<Square, Piece>, rank: int, file: int, run: int) -> Seq<char>
    decreases 8 - file,
{
    if file >= 8 {
        if run > 0 { seq![spec_digit(run)] } else { Seq::<char>::empty() }
    } else {
        match spec_piece_on(board, Square { file: file as u8, rank: rank as u8 }) {
            Some(p) => (if run > 0 { seq![spec_digit(run)] } else { Seq::<char>::empty() }) + seq![spec_fen_char(p)]
                + spec_rank_fen_from(board, rank, file + 1, 0),
            None => spec_rank_fen_from(board, rank, file + 1, run + 1),
        }
    }
}

/// FEN text of ranks `rank` down to 1, separated by `/`.
pub open spec fn spec_ranks_fen(board: Map<Square, Piece>, rank: int) -> Seq<char>
    decreases rank,
{
    if rank <= 0 {
        spec_rank_fen_from(board, 0, 0, 0)
    } else {
        spec_rank_fen_from(board, rank, 0, 0) + seq!['/'] + spec_ranks_fen(board, rank - 1)
    }
}

/// The FEN board field.
pub open spec fn spec_board_fen(board: Map<Square, Piece>) -> Seq<char> {
    spec_ranks_fen(board, 7)
}

pub open spec fn spec_square_text(target: Option<Square>) -> Seq<char> {
    match target {
        Some(s) => s.spec_algebraic(),
        None => seq!['-'],
    }
}

/// A pawn of the side to move beside the pawn that just made a double step.
pub open spec fn spec_en_passant_capturer(board: Map<Square, Piece>, target: Square, side: Side, df: int) -> bool {
    match target.spec_offset(df, -side.spec_pawn_forward()) {
        Some(ps) => {
            &&& spec_piece_on(board, ps) == Some(Piece { side, kind: PieceKind::Pawn })
            &&& spec_piece_on(board, Square { file: target.file, rank: ps.rank }) == Some(
                Piece { side: side.spec_opponent(), kind: PieceKind::Pawn },
            )
        },
        None => false,
    }
}

/// The en-passant target, kept only when a pawn of the side to move could capture there.
pub open spec fn spec_normalized_en_passant(pos: Position) -> Option<Square> {
    match pos.en_passant_target {
        Some(t) => if spec_en_passant_capturer(pos.board, t, pos.side_to_move, -1)
            || spec_en_passant_capturer(pos.board, t, pos.side_to_move, 1) {
            Some(t)
        } else {
            None
        },
        None => None,
    }
}

/// The text that identifies a position for repetition counting.
pub open spec fn spec_position_key(pos: Position) -> Seq<char> {
    spec_board_fen(pos.board) + seq![' ', pos.side_to_move.spec_fen_token(), ' '] + pos.castling_rights.spec_fen()
        + seq![' '] + spec_square_text(spec_normalized_en_passant(pos))
}

/// The full FEN of a position.
pub open spec fn spec_fen(pos: Position) -> Seq<char> {
    spec_board_fen(pos.board) + seq![' ', pos.side_to_move.spec_fen_token(), ' '] + pos.castling_rights.spec_fen()
        + seq![' '] + spec_square_text(pos.en_passant_target) + seq![' '] + spec_decimal(
        pos.halfmove_clock as nat,
    ) + seq![' '] + spec_decimal(pos.fullmove_number as nat)
}

// ---------------------------------------------------------------- game status

/// How often the current position occurs in the history.
pub open spec fn spec_repetition_count(pos: Position) -> nat {
    pos.history.filter(|entry: Seq<char>| entry == spec_position_key(pos)).len()
}

pub open spec fn spec_draw_availability(pos: Position) -> DrawAvailability {
    DrawAvailability {
        threefold_repetition: spec_repetition_count(pos) >= 3,
        fifty_move_rule: pos.halfmove_clock >= 100,
    }
}

pub open spec fn spec_status(pos: Position) -> GameStatus {
    let in_check = spec_in_check(pos.board, pos.side_to_move);
    if !spec_has_legal_move(pos) {
        if in_check {
            GameStatus::Finished(GameOutcome::Win { winner: pos.side_to_move.spec_opponent(), reason: WinReason::Checkmate })
        } else {
            GameStatus::Finished(GameOutcome::Draw(DrawReason::Stalemate))
        }
    } else if pos.halfmove_clock >= 150 {
        GameStatus::Finished(GameOutcome::Draw(DrawReason::Automatic(AutomaticDrawReason::SeventyFiveMoveRule)))
    } else if spec_repetition_count(pos) >= 5 {
        GameStatus::Finished(GameOutcome::Draw(DrawReason::Automatic(AutomaticDrawReason::FivefoldRepetition)))
    } else {
        GameStatus::Ongoing { in_check, draw_available: spec_draw_availability(pos) }
    }
}

} // verus!
