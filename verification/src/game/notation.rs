//! Writing positions as text: the FEN board field, position keys and full FEN.
use vstd::prelude::*;

use super::GameState;
use crate::board::{spec_piece_on, BoardState};
use crate::castling::CastlingRights;
use crate::pieces::{Piece, PieceKind, Side};
use crate::rules::{Position, spec_board_fen, spec_en_passant_capturer, spec_fen, spec_normalized_en_passant, spec_position_key, spec_rank_fen_from, spec_ranks_fen};
use crate::square::Square;
use crate::text::{digit_char, push_char, push_decimal, push_text, spec_decimal, spec_digit};

verus! {

/// Appends the FEN text of one rank.
fn push_rank_fen(board: &BoardState, rank: u8, out: &mut String)
    requires
        rank < 8,
    ensures
        final(out)@ == old(out)@ + spec_rank_fen_from(board@, rank as int, 0, 0),
{
    let ghost start = out@;
    let mut empty_run: u8 = 0;
    let mut file: u8 = 0;
    while file < 8
        invariant
            rank < 8,
            file <= 8,
            empty_run <= file,
            out@ + spec_rank_fen_from(board@, rank as int, file as int, empty_run as int) == start
                + spec_rank_fen_from(board@, rank as int, 0, 0),
        decreases 8 - file,
    {
        let ghost before = out@;
        match board.piece_at(Square { file, rank }) {
            Some(piece) => {
                if empty_run > 0 {
                    push_char(out, digit_char(empty_run));
                }
                push_char(out, piece.fen_char());
                proof {
                    let run_text = if empty_run > 0 { seq![spec_digit(empty_run as int)] } else { Seq::<char>::empty() };
                    assert(out@ == before + run_text + seq![crate::pieces::spec_fen_char(piece)]);
                    assert(out@ + spec_rank_fen_from(board@, rank as int, file + 1, 0) =~= before
                        + spec_rank_fen_from(board@, rank as int, file as int, empty_run as int));
                }
                empty_run = 0;
            },
            None => {
                empty_run = empty_run + 1;
            },
        }
        file = file + 1;
    }
    if empty_run > 0 {
        push_char(out, digit_char(empty_run));
    }
    proof {
        assert(final(out)@ =~= start + spec_rank_fen_from(board@, rank as int, 0, 0));
    }
}

/// The FEN board field of a board.
pub fn board_fen(board: &BoardState) -> (r: String)
    ensures
        r@ == spec_board_fen(board@),
{
    let mut out = String::new();
    push_rank_fen(board, 7, &mut out);
    let mut rank: u8 = 7;
    while rank > 0
        invariant
            rank <= 7,
            rank > 0 ==> out@ + seq!['/'] + spec_ranks_fen(board@, rank - 1) == spec_ranks_fen(board@, 7),
            rank == 0 ==> out@ == spec_ranks_fen(board@, 7),
        decreases rank,
    {
        let ghost before = out@;
        rank = rank - 1;
        push_char(&mut out, '/');
        push_rank_fen(board, rank, &mut out);
        proof {
            if rank > 0 {
                assert(spec_ranks_fen(board@, rank as int) == spec_rank_fen_from(board@, rank as int, 0, 0)
                    + seq!['/'] + spec_ranks_fen(board@, rank - 1));
                assert(out@ + seq!['/'] + spec_ranks_fen(board@, rank - 1) =~= before + seq!['/']
                    + spec_ranks_fen(board@, rank as int));
            } else {
                assert(out@ =~= before + seq!['/'] + spec_ranks_fen(board@, 0));
            }
        }
    }
    out
}

fn en_passant_capturer(board: &BoardState, side: Side, target: Square, df: i8) -> (r: bool)
    ensures
        r == spec_en_passant_capturer(board@, target, side, df as int),
{
    let back: i8 = -side.pawn_forward();
    match target.offset(df, back) {
        Some(pawn_square) => {
            match board.piece_at(pawn_square) {
                Some(p) => {
                    if p == (Piece { side, kind: PieceKind::Pawn }) {
                        let captured = Square { file: target.file, rank: pawn_square.rank };
                        match board.piece_at(captured) {
                            Some(q) => q == (Piece { side: side.opponent(), kind: PieceKind::Pawn }),
                            None => false,
                        }
                    } else {
                        false
                    }
                },
                None => false,
            }
        },
        None => false,
    }
}

/// The en-passant target of a position when a pawn of the side to move could capture there.
fn normalized_en_passant(board: &BoardState, side: Side, target: Option<Square>) -> (r: Option<Square>)
    ensures
        forall|pos: Position|
            pos.board == board@ && pos.side_to_move == side && pos.en_passant_target == target
                ==> r == #[trigger] spec_normalized_en_passant(pos),
        r matches Some(t) ==> t.spec_nameable(),
{
    match target {
        Some(t) => {
            if en_passant_capturer(board, side, t, -1) || en_passant_capturer(board, side, t, 1) {
                Some(t)
            } else {
                None
            }
        },
        None => None,
    }
}

/// The position key of the position with these parts.
pub(crate) fn position_key(board: &BoardState, side: Side, rights: CastlingRights, target: Option<Square>) -> (r: String)
    ensures
        forall|pos: Position|
            pos.board == board@ && pos.side_to_move == side && pos.castling_rights == rights
                && pos.en_passant_target == target ==> r@ == #[trigger] spec_position_key(pos),
{
    let mut key = board_fen(board);
    push_char(&mut key, ' ');
    push_char(&mut key, side.fen_token());
    push_char(&mut key, ' ');
    let castling = rights.to_fen();
    push_text(&mut key, castling.as_str());
    push_char(&mut key, ' ');
    let normalized = normalized_en_passant(board, side, target);
    match normalized {
        Some(t) => {
            let name = t.to_algebraic();
            push_text(&mut key, name.as_str());
        },
        None => push_char(&mut key, '-'),
    }
    proof {
        assert forall|pos: Position|
            pos.board == board@ && pos.side_to_move == side && pos.castling_rights == rights
                && pos.en_passant_target == target implies key@ == #[trigger] spec_position_key(pos) by {
            assert(normalized == spec_normalized_en_passant(pos));
            assert(key@ =~= spec_position_key(pos));
        }
    }
    key
}

impl GameState {
    /// The FEN board field.
    pub(crate) fn board_to_fen(&self) -> (r: String)
        ensures
            r@ == spec_board_fen(self@.board),
    {
        board_fen(&self.board)
    }

    /// The en-passant target when a pawn of the side to move could capture there.
    pub(crate) fn normalized_en_passant_target(&self) -> (r: Option<Square>)
        ensures
            r == spec_normalized_en_passant(self@),
            r matches Some(t) ==> t.spec_nameable(),
    {
        normalized_en_passant(&self.board, self.side_to_move, self.en_passant_target)
    }

    /// The text identifying the position for repetition counting.
    pub(crate) fn current_position_key(&self) -> (r: String)
        ensures
            r@ == spec_position_key(self@),
    {
        position_key(&self.board, self.side_to_move, self.castling_rights, self.en_passant_target)
    }

    /// The position in Forsyth-Edwards Notation.
    pub fn to_fen(&self) -> (r: String)
        ensures
            r@ == spec_fen(self@),
    {
        proof {
            use_type_invariant(self);
        }
        let mut fen = self.board_to_fen();
        push_char(&mut fen, ' ');
        push_char(&mut fen, self.side_to_move.fen_token());
        push_char(&mut fen, ' ');
        let castling = self.castling_rights.to_fen();
        push_text(&mut fen, castling.as_str());
        push_char(&mut fen, ' ');
        match self.en_passant_target {
            Some(target) => {
                let name = target.to_algebraic();
                push_text(&mut fen, name.as_str());
            },
            None => push_char(&mut fen, '-'),
        }
        push_char(&mut fen, ' ');
        push_decimal(&mut fen, self.halfmove_clock as u64);
        push_char(&mut fen, ' ');
        push_decimal(&mut fen, self.fullmove_number as u64);
        proof {
            assert(fen@ =~= spec_fen(self@));
        }
        fen
    }
}

} // verus!
