//! Legal moves, playing a move, and the status of the game.
use vstd::prelude::*;

use super::distinct::{law_legal_list_no_duplicates, spec_castling_apart};
use crate::laws::law_legal_move_shape;
use super::movegen::{spec_pseudo_list, spec_targets_on_board};
use super::{spec_texts, GameState};
use crate::board::spec_piece_on;
use crate::mv::{Move, MoveError};
use crate::pieces::{Piece, PieceKind, Side};
use crate::square::Square;
use crate::rules::{
    spec_apply, spec_draw_availability, spec_generates, spec_has_legal_move, spec_in_check, spec_is_legal, spec_on_board,
    spec_position_key, spec_repetition_count, spec_status, Position,
};
use crate::status::{AutomaticDrawReason, DrawAvailability, DrawReason, GameOutcome, GameStatus, WinReason};

verus! {

broadcast use vstd::seq_lib::lemma_seq_contains_after_push;

/// The outcome of asking to play `m`: refused when the game is over, when no piece of the side
/// to move stands on the source square, or when the move is not legal; otherwise the next position.
pub open spec fn spec_play(pos: Position, m: Move) -> Result<Position, MoveError> {
    if spec_status(pos) is Finished {
        Err(MoveError::GameAlreadyFinished)
    } else {
        match spec_piece_on(pos.board, m.from) {
            None => Err(MoveError::NoPieceAtSource),
            Some(piece) => if piece.side != pos.side_to_move {
                Err(MoveError::WrongSideToMove)
            } else if !spec_is_legal(pos, m) {
                Err(MoveError::IllegalMove)
            } else {
                Ok(spec_apply(pos, m).unwrap())
            },
        }
    }
}

/// The position after playing `moves` from `start`, each accepted in turn; none when one is
/// refused.
pub open spec fn spec_played(start: Position, moves: Seq<Move>) -> Option<Position>
    decreases moves.len(),
{
    if moves.len() == 0 {
        Some(start)
    } else {
        match spec_played(start, moves.drop_last()) {
            Some(p) => match spec_play(p, moves.last()) {
                Ok(next) => Some(next),
                Err(_) => None,
            },
            None => None,
        }
    }
}

/// Whether `pos` can follow the move `m` without leaving the mover's king attacked.
pub open spec fn spec_keeps_king_safe(pos: Position, m: Move) -> bool {
    match spec_apply(pos, m) {
        Some(next) => !spec_in_check(next.board, pos.side_to_move),
        None => false,
    }
}

fn list_contains(moves: &Vec<Move>, candidate: Move) -> (r: bool)
    ensures
        r == moves@.contains(candidate),
{
    let mut i: usize = 0;
    while i < moves.len()
        invariant
            i <= moves@.len(),
            forall|j: int| 0 <= j < i ==> moves@[j] != candidate,
        decreases moves@.len() - i,
    {
        if moves[i] == candidate {
            return true;
        }
        i = i + 1;
    }
    false
}

/// The square numbered `j` in board order, file by file from a1: a1, a2, ..., a8, b1, ...
pub open spec fn spec_square_at(j: int) -> Square {
    Square { file: (j / 8) as u8, rank: (j % 8) as u8 }
}

/// Whether `s` comes among the first `n` squares in board order.
pub open spec fn spec_index_below(s: Square, n: int) -> bool {
    s.file * 8 + s.rank < n
}

proof fn lemma_index_below_next(s: Square, j: int)
    requires
        0 <= j < 64,
        s.spec_is_on_board(),
    ensures
        spec_index_below(s, j + 1) <==> spec_index_below(s, j) || s == spec_square_at(j),
{
    if s.file * 8 + s.rank == j {
        assert(j / 8 == s.file && j % 8 == s.rank);
        assert(s == spec_square_at(j));
    }
    if s == spec_square_at(j) {
        assert(s.file * 8 + s.rank == j);
    }
}

/// The legal moves of the piece of the side to move on `s`, in the order its moves are
/// listed; none when no such piece stands there.
pub open spec fn spec_legal_from(pos: Position, s: Square) -> Seq<Move> {
    match spec_piece_on(pos.board, s) {
        Some(p) => if p.side == pos.side_to_move {
            spec_pseudo_list(pos, s, p).filter(|m: Move| spec_keeps_king_safe(pos, m))
        } else {
            Seq::empty()
        },
        None => Seq::empty(),
    }
}

/// The legal moves from the first `n` squares in board order.
pub open spec fn spec_legal_list_upto(pos: Position, n: int) -> Seq<Move>
    decreases n,
{
    if n <= 0 {
        Seq::empty()
    } else {
        spec_legal_list_upto(pos, n - 1) + spec_legal_from(pos, spec_square_at(n - 1))
    }
}

/// The legal moves of a position in the order they are listed: square by square in board
/// order, and for each piece in the order its moves are generated.
pub open spec fn spec_legal_list(pos: Position) -> Seq<Move> {
    spec_legal_list_upto(pos, 64)
}

impl GameState {
    /// The legal moves of `side`, which must be the side to move, square by square in board
    /// order.
    fn legal_moves_for_side(&self, side: Side) -> (r: Vec<Move>)
        requires
            side == self@.side_to_move,
        ensures
            forall|m: Move| #[trigger] r@.contains(m) <==> spec_is_legal(self@, m),
            spec_targets_on_board(r@),
            r@ == spec_legal_list(self@),
    {
        proof {
            use_type_invariant(self);
        }
        let ghost pos = self@;
        let ghost safe = |m: Move| spec_keeps_king_safe(pos, m);
        let mut legal: Vec<Move> = Vec::new();
        let mut idx: usize = 0;
        while idx < 64
            invariant
                idx <= 64,
                pos == self@,
                side == pos.side_to_move,
                spec_on_board(pos),
                safe == (|m: Move| spec_keeps_king_safe(pos, m)),
                spec_targets_on_board(legal@),
                legal@ == spec_legal_list_upto(pos, idx as int),
                forall|m: Move|
                    #[trigger] legal@.contains(m) <==> spec_index_below(m.from, idx as int) && spec_is_legal(pos, m),
            decreases 64 - idx,
        {
            let square = Square { file: (idx / 8) as u8, rank: (idx % 8) as u8 };
            assert(square == spec_square_at(idx as int));
            let ghost before = legal@;
            match self.board.piece_at(square) {
                Some(piece) => {
                    if piece.side == side {
                        let pseudo = self.pseudo_legal_moves_from(square, piece);
                        let mut t: usize = 0;
                        while t < pseudo.len()
                            invariant
                                t <= pseudo@.len(),
                                pos == self@,
                                side == pos.side_to_move,
                                spec_piece_on(pos.board, square) == Some(piece),
                                piece.side == side,
                                safe == (|m: Move| spec_keeps_king_safe(pos, m)),
                                pseudo@ == spec_pseudo_list(pos, square, piece),
                                spec_targets_on_board(pseudo@),
                                spec_targets_on_board(legal@),
                                forall|m: Move| #[trigger] pseudo@.contains(m) <==> spec_generates(pos, square, piece, m),
                                legal@ == before + pseudo@.take(t as int).filter(safe),
                                forall|m: Move|
                                    #[trigger] legal@.contains(m) <==> before.contains(m) || (exists|u: int|
                                        0 <= u < t && pseudo@[u] == m) && spec_keeps_king_safe(pos, m),
                            decreases pseudo@.len() - t,
                        {
                            let candidate = pseudo[t];
                            let ghost mid = legal@;
                            proof {
                                reveal_with_fuel(Seq::<_>::filter, 1);
                                assert(pseudo@.take(t + 1).drop_last() =~= pseudo@.take(t as int));
                            }
                            match self.apply_move_unchecked(candidate) {
                                Some(next) => {
                                    if !next.is_in_check(side) {
                                        legal.push(candidate);
                                    }
                                },
                                None => {},
                            }
                            proof {
                                assert(legal@ =~= before + pseudo@.take(t + 1).filter(safe));
                                assert forall|m: Move|
                                    #[trigger] legal@.contains(m) <==> before.contains(m) || (exists|u: int|
                                        0 <= u < t + 1 && pseudo@[u] == m) && spec_keeps_king_safe(pos, m) by {
                                    if (exists|u: int| 0 <= u < t + 1 && pseudo@[u] == m) && spec_keeps_king_safe(pos, m) {
                                        let u = choose|u: int| 0 <= u < t + 1 && pseudo@[u] == m;
                                        if u < t {
                                            assert(mid.contains(m));
                                        }
                                    }
                                    if mid.contains(m) && !before.contains(m) {
                                        let u = choose|u: int| 0 <= u < t && pseudo@[u] == m;
                                        assert(0 <= u < t + 1 && pseudo@[u] == m);
                                    }
                                }
                            }
                            t = t + 1;
                        }
                        proof {
                            assert(pseudo@.take(t as int) =~= pseudo@);
                            assert forall|m: Move| #[trigger] legal@.contains(m) <==> spec_index_below(m.from, idx + 1)
                                && spec_is_legal(pos, m) by {
                                if exists|u: int| 0 <= u < t && pseudo@[u] == m {
                                    let u = choose|u: int| 0 <= u < t && pseudo@[u] == m;
                                    assert(pseudo@.contains(m));
                                }
                                if spec_is_legal(pos, m) && m.from == square {
                                    assert(pseudo@.contains(m));
                                    let u = choose|u: int| 0 <= u < pseudo@.len() && pseudo@[u] == m;
                                    assert(0 <= u < t && pseudo@[u] == m);
                                }
                                if m.from.spec_is_on_board() {
                                    lemma_index_below_next(m.from, idx as int);
                                }
                            }
                        }
                    } else {
                        proof {
                            assert forall|m: Move| #[trigger] legal@.contains(m) <==> spec_index_below(m.from, idx + 1)
                                && spec_is_legal(pos, m) by {
                                if m.from.spec_is_on_board() {
                                    lemma_index_below_next(m.from, idx as int);
                                }
                            }
                        }
                    }
                },
                None => {
                    proof {
                        assert forall|m: Move| #[trigger] legal@.contains(m) <==> spec_index_below(m.from, idx + 1)
                            && spec_is_legal(pos, m) by {
                            if m.from.spec_is_on_board() {
                                lemma_index_below_next(m.from, idx as int);
                            }
                        }
                    }
                },
            }
            proof {
                assert(legal@ =~= spec_legal_list_upto(pos, idx + 1));
            }
            idx = idx + 1;
        }
        proof {
            assert forall|m: Move| #[trigger] legal@.contains(m) <==> spec_is_legal(pos, m) by {
                if spec_is_legal(pos, m) {
                    assert(pos.board.contains_key(m.from));
                    assert(m.from.spec_is_on_board());
                }
            }
        }
        legal
    }

    /// The legal moves of the side to move. While the game goes on they are exactly the moves
    /// it accepts, and none leaves the mover in check. Each moves a piece of the side to move.
    /// A move names a promotion only when a pawn reaches the last rank, and then a queen, rook,
    /// bishop or knight; a pawn reaching the last rank names one unless it captures en passant
    /// there. No move is listed twice unless a legal castling move is also a single step of the
    /// same king.
    pub fn legal_moves(&self) -> (r: Vec<Move>)
        ensures
            forall|m: Move| #[trigger] r@.contains(m) <==> spec_is_legal(self@, m),
            !(spec_status(self@) is Finished) ==> forall|m: Move| #[trigger] r@.contains(m) <==> spec_play(self@, m) is Ok,
            forall|m: Move|
                #[trigger] r@.contains(m) ==> (spec_piece_on(self@.board, m.from) matches Some(p) && p.side
                    == self@.side_to_move),
            forall|m: Move|
                #[trigger] r@.contains(m) && !(spec_status(self@) is Finished) ==> (spec_play(self@, m) matches Ok(
                    next,
                ) && !spec_in_check(next.board, self@.side_to_move)),
            forall|m: Move|
                #[trigger] r@.contains(m) ==> (m.promotion is Some ==> spec_piece_on(self@.board, m.from).unwrap().kind
                    == PieceKind::Pawn && m.to.rank == self@.side_to_move.spec_promotion_rank()) && (m.promotion matches Some(
                    k,
                ) ==> k.spec_is_valid_promotion()) && (spec_piece_on(self@.board, m.from).unwrap().kind
                    == PieceKind::Pawn && m.to.rank == self@.side_to_move.spec_promotion_rank() && !(m.from.file
                    != m.to.file && spec_piece_on(self@.board, m.to) is None) ==> m.promotion is Some),
            spec_castling_apart(self@) ==> r@.no_duplicates(),
            spec_targets_on_board(r@),
            r@ == spec_legal_list(self@),
    {
        proof {
            if spec_castling_apart(self@) {
                law_legal_list_no_duplicates(self@);
            }
            assert forall|m: Move| #[trigger] spec_is_legal(self@, m) implies (spec_piece_on(self@.board, m.from) matches Some(
                p,
            ) && p.side == self@.side_to_move) && (!(spec_status(self@) is Finished) ==> (spec_play(self@, m) matches Ok(
                next,
            ) && !spec_in_check(next.board, self@.side_to_move))) && (m.promotion is Some ==> spec_piece_on(
                self@.board,
                m.from,
            ).unwrap().kind == PieceKind::Pawn && m.to.rank == self@.side_to_move.spec_promotion_rank()) && (
            m.promotion matches Some(k) ==> k.spec_is_valid_promotion()) && (spec_piece_on(self@.board, m.from).unwrap().kind
                == PieceKind::Pawn && m.to.rank == self@.side_to_move.spec_promotion_rank() && !(m.from.file != m.to.file
                && spec_piece_on(self@.board, m.to) is None) ==> m.promotion is Some) by {
                law_legal_move_shape(self@, m);
            }
        }
        self.legal_moves_for_side(self.side_to_move)
    }

    /// Whether `candidate` is a legal move of the side to move.
    pub fn is_legal_move(&self, candidate: Move) -> (r: bool)
        ensures
            r == spec_is_legal(self@, candidate),
    {
        let legal = self.legal_moves();
        list_contains(&legal, candidate)
    }

    /// How often the current position has occurred, counting the present occurrence.
    pub fn current_position_repetition_count(&self) -> (r: usize)
        ensures
            r == spec_repetition_count(self@),
    {
        let current = self.current_position_key();
        let ghost key = spec_position_key(self@);
        let ghost pred = |entry: Seq<char>| entry == key;
        let ghost texts = spec_texts(self.position_history@);
        let mut count: usize = 0;
        let mut i: usize = 0;
        while i < self.position_history.len()
            invariant
                i <= self.position_history@.len(),
                texts == spec_texts(self.position_history@),
                current@ == key,
                pred == (|entry: Seq<char>| entry == key),
                count == texts.take(i as int).filter(pred).len(),
                count <= i,
            decreases self.position_history@.len() - i,
        {
            proof {
                reveal_with_fuel(Seq::<_>::filter, 1);
                assert(texts.take(i + 1).drop_last() == texts.take(i as int));
                assert(texts[i as int] == self.position_history@[i as int]@);
            }
            if self.position_history[i] == current {
                count = count + 1;
            }
            i = i + 1;
        }
        proof {
            assert(texts.take(i as int) == texts);
        }
        count
    }

    /// The draws the side to move may claim.
    pub fn draw_availability(&self) -> (r: DrawAvailability)
        ensures
            r == spec_draw_availability(self@),
            r.fifty_move_rule <==> self@.halfmove_clock >= 100,
            r.threefold_repetition <==> spec_repetition_count(self@) >= 3,
    {
        DrawAvailability {
            threefold_repetition: self.current_position_repetition_count() >= 3,
            fifty_move_rule: self.halfmove_clock >= 100,
        }
    }

    /// Where the game stands.
    pub fn status(&self) -> (r: GameStatus)
        ensures
            r == spec_status(self@),
    {
        let legal_moves = self.legal_moves();
        let in_check = self.is_in_check(self.side_to_move);
        proof {
            if legal_moves@.len() > 0 {
                assert(legal_moves@.contains(legal_moves@[0]));
                assert(spec_is_legal(self@, legal_moves@[0]));
            } else {
                assert forall|m: Move| !spec_is_legal(self@, m) by {
                    if spec_is_legal(self@, m) {
                        assert(legal_moves@.contains(m));
                    }
                }
            }
        }
        if legal_moves.len() == 0 {
            if in_check {
                return GameStatus::Finished(GameOutcome::Win { winner: self.side_to_move.opponent(), reason: WinReason::Checkmate });
            }
            return GameStatus::Finished(GameOutcome::Draw(DrawReason::Stalemate));
        }
        if self.halfmove_clock >= 150 {
            return GameStatus::Finished(GameOutcome::Draw(DrawReason::Automatic(AutomaticDrawReason::SeventyFiveMoveRule)));
        }
        if self.current_position_repetition_count() >= 5 {
            return GameStatus::Finished(GameOutcome::Draw(DrawReason::Automatic(AutomaticDrawReason::FivefoldRepetition)));
        }
        GameStatus::Ongoing { in_check, draw_available: self.draw_availability() }
    }

    /// Plays `candidate` for the side to move and returns the next position.
    pub fn apply_move(&self, candidate: Move) -> (r: Result<GameState, MoveError>)
        ensures
            match r {
                Ok(next) => spec_play(self@, candidate) == Ok::<Position, MoveError>(next@),
                Err(e) => spec_play(self@, candidate) == Err::<Position, MoveError>(e),
            },
    {
        if self.status().is_finished() {
            return Err(MoveError::GameAlreadyFinished);
        }
        let piece = match self.board.piece_at(candidate.from) {
            Some(p) => p,
            None => {
                return Err(MoveError::NoPieceAtSource);
            },
        };
        if piece.side != self.side_to_move {
            return Err(MoveError::WrongSideToMove);
        }
        let legal = self.legal_moves();
        if !list_contains(&legal, candidate) {
            return Err(MoveError::IllegalMove);
        }
        proof {
            let j = choose|j: int| 0 <= j < legal@.len() && legal@[j] == candidate;
            assert(legal@[j].to.spec_is_on_board());
        }
        match self.apply_move_unchecked(candidate) {
            Some(next) => Ok(next),
            None => Err(MoveError::IllegalMove),
        }
    }
}

} // verus!
