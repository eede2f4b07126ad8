//! A chess game: the position, whose turn it is, castling and en-passant state, the move
//! clocks and the history of positions used for repetition draws.
use vstd::prelude::*;

use crate::board::{spec_piece_on, BoardState};
use crate::castling::CastlingRights;
use crate::pieces::{Piece, PieceKind, Side};
use crate::rules::{spec_on_board, spec_position_key, Position};
use crate::square::Square;

pub mod attack;
pub mod geometry;
pub mod notation;
pub mod apply;
pub mod fen;
pub mod movegen;
pub mod play;
pub mod distinct;

pub use fen::FenError;

verus! {

/// The state of a game.
#[derive(Debug, PartialEq, Eq)]
pub struct GameState {
    board: BoardState,
    side_to_move: Side,
    castling_rights: CastlingRights,
    en_passant_target: Option<Square>,
    halfmove_clock: u16,
    fullmove_number: u16,
    position_history: Vec<String>,
}

/// The back-rank piece kind on `file` at the start of a game.
pub open spec fn spec_back_rank_kind(file: int) -> PieceKind {
    if file == 0 || file == 7 {
        PieceKind::Rook
    } else if file == 1 || file == 6 {
        PieceKind::Knight
    } else if file == 2 || file == 5 {
        PieceKind::Bishop
    } else if file == 3 {
        PieceKind::Queen
    } else {
        PieceKind::King
    }
}

/// The piece on `s` at the start of a game.
pub open spec fn spec_start_piece(s: Square) -> Option<Piece> {
    if !s.spec_is_on_board() {
        None
    } else if s.rank == 1 {
        Some(Piece { side: Side::White, kind: PieceKind::Pawn })
    } else if s.rank == 6 {
        Some(Piece { side: Side::Black, kind: PieceKind::Pawn })
    } else if s.rank == 0 {
        Some(Piece { side: Side::White, kind: spec_back_rank_kind(s.file as int) })
    } else if s.rank == 7 {
        Some(Piece { side: Side::Black, kind: spec_back_rank_kind(s.file as int) })
    } else {
        None
    }
}

pub open spec fn spec_start_board() -> Map<Square, Piece> {
    Map::new(|s: Square| spec_start_piece(s) is Some, |s: Square| spec_start_piece(s).unwrap())
}

/// The position at the start of a game, with its key as the only history entry.
pub open spec fn spec_starting_position() -> Position {
    let core = Position {
        board: spec_start_board(),
        side_to_move: Side::White,
        castling_rights: CastlingRights {
            white_kingside: true,
            white_queenside: true,
            black_kingside: true,
            black_queenside: true,
        },
        en_passant_target: None,
        halfmove_clock: 0,
        fullmove_number: 1,
        history: Seq::empty(),
    };
    Position { history: seq![spec_position_key(core)], ..core }
}

fn back_rank_kind(file: u8) -> (r: PieceKind)
    ensures
        r == spec_back_rank_kind(file as int),
{
    if file == 0 || file == 7 {
        PieceKind::Rook
    } else if file == 1 || file == 6 {
        PieceKind::Knight
    } else if file == 2 || file == 5 {
        PieceKind::Bishop
    } else if file == 3 {
        PieceKind::Queen
    } else {
        PieceKind::King
    }
}

pub open spec fn spec_texts(v: Seq<String>) -> Seq<Seq<char>> {
    v.map_values(|s: String| s@)
}

impl View for GameState {
    type V = Position;

    closed spec fn view(&self) -> Position {
        Position {
            board: self.board@,
            side_to_move: self.side_to_move,
            castling_rights: self.castling_rights,
            en_passant_target: self.en_passant_target,
            halfmove_clock: self.halfmove_clock,
            fullmove_number: self.fullmove_number,
            history: spec_texts(self.position_history@),
        }
    }
}

impl GameState {
    #[verifier::type_invariant]
    pub open spec fn wf(&self) -> bool {
        spec_on_board(self@)
    }

    /// A game from its parts; with no history given, the history starts with the current position.
    fn from_parts(
        board: BoardState,
        side_to_move: Side,
        castling_rights: CastlingRights,
        en_passant_target: Option<Square>,
        halfmove_clock: u16,
        fullmove_number: u16,
        position_history: Vec<String>,
    ) -> (r: GameState)
        requires
            spec_on_board(
                Position {
                    board: board@,
                    side_to_move,
                    castling_rights,
                    en_passant_target,
                    halfmove_clock,
                    fullmove_number,
                    history: Seq::empty(),
                },
            ),
        ensures
            ({
                let core = Position {
                    board: board@,
                    side_to_move,
                    castling_rights,
                    en_passant_target,
                    halfmove_clock,
                    fullmove_number,
                    history: Seq::empty(),
                };
                r@ == Position {
                    history: if position_history@.len() == 0 {
                        seq![spec_position_key(core)]
                    } else {
                        spec_texts(position_history@)
                    },
                    ..core
                }
            }),
    {
        let mut history = position_history;
        if history.len() == 0 {
            let key = notation::position_key(&board, side_to_move, castling_rights, en_passant_target);
            history.push(key);
            proof {
                assert(spec_texts(history@) =~= seq![key@]);
            }
        }
        GameState {
            board,
            side_to_move,
            castling_rights,
            en_passant_target,
            halfmove_clock,
            fullmove_number,
            position_history: history,
        }
    }

    /// A game from its parts, when every piece and the en-passant target stand on the board
    /// (none otherwise); with no history given, the history starts with the current position.
    pub fn try_from_parts(
        board: BoardState,
        side_to_move: Side,
        castling_rights: CastlingRights,
        en_passant_target: Option<Square>,
        halfmove_clock: u16,
        fullmove_number: u16,
        position_history: Vec<String>,
    ) -> (r: Option<GameState>)
        ensures
            ({
                let core = Position {
                    board: board@,
                    side_to_move,
                    castling_rights,
                    en_passant_target,
                    halfmove_clock,
                    fullmove_number,
                    history: Seq::empty(),
                };
                &&& r is Some <==> spec_on_board(core)
                &&& r matches Some(g) ==> g@ == Position {
                    history: if position_history@.len() == 0 {
                        seq![spec_position_key(core)]
                    } else {
                        spec_texts(position_history@)
                    },
                    ..core
                }
            }),
    {
        proof {
            use_type_invariant(&board);
            crate::board::lemma_board_entries(&board);
        }
        let entries = board.iter();
        let mut i: usize = 0;
        while i < entries.len()
            invariant
                entries@ == board.spec_entries(),
                i <= entries@.len(),
                forall|j: int| 0 <= j < i ==> (#[trigger] entries@[j]).0.spec_is_on_board(),
            decreases entries@.len() - i,
        {
            let square = entries[i].0;
            if square.file >= 8 || square.rank >= 8 {
                proof {
                    assert(board@.contains_key(entries@[i as int].0));
                }
                return None;
            }
            i = i + 1;
        }
        match en_passant_target {
            Some(t) => {
                if t.file >= 8 || t.rank >= 8 {
                    return None;
                }
            },
            None => {},
        }
        proof {
            assert forall|s: Square| #[trigger] board@.contains_key(s) implies s.spec_is_on_board() by {
                let j = choose|j: int| 0 <= j < board.spec_entries().len() && (#[trigger] board.spec_entries()[j]).0 == s;
                assert(entries@[j].0 == s);
            }
        }
        Some(GameState::from_parts(
            board,
            side_to_move,
            castling_rights,
            en_passant_target,
            halfmove_clock,
            fullmove_number,
            position_history,
        ))
    }

    /// A copy of the game.
    pub fn copy(&self) -> (r: GameState)
        ensures
            r@ == self@,
    {
        proof {
            use_type_invariant(self);
        }
        GameState {
            board: self.board.copy(),
            side_to_move: self.side_to_move,
            castling_rights: self.castling_rights,
            en_passant_target: self.en_passant_target,
            halfmove_clock: self.halfmove_clock,
            fullmove_number: self.fullmove_number,
            position_history: apply::copy_history(&self.position_history),
        }
    }

    /// The position at the start of a game.
    pub fn starting_position() -> (r: GameState)
        ensures
            r@ == spec_starting_position(),
    {
        let mut board = BoardState::empty();
        let mut file: u8 = 0;
        while file < 8
            invariant
                file <= 8,
                forall|s: Square|
                    #[trigger] spec_piece_on(board@, s) == if s.spec_is_on_board() && (s.rank == 1 || s.rank == 6)
                        && s.file < file {
                        spec_start_piece(s)
                    } else {
                        None
                    },
            decreases 8 - file,
        {
            let ghost before = board@;
            board.set_piece(Square { file, rank: 1 }, Piece { side: Side::White, kind: PieceKind::Pawn });
            board.set_piece(Square { file, rank: 6 }, Piece { side: Side::Black, kind: PieceKind::Pawn });
            proof {
                assert forall|s: Square|
                    #[trigger] spec_piece_on(board@, s) == if s.spec_is_on_board() && (s.rank == 1 || s.rank == 6)
                        && s.file < file + 1 {
                        spec_start_piece(s)
                    } else {
                        None
                    } by {
                    if s != (Square { file, rank: 1 }) && s != (Square { file, rank: 6 }) {
                        assert(spec_piece_on(board@, s) == spec_piece_on(before, s));
                    }
                }
            }
            file = file + 1;
        }
        file = 0;
        while file < 8
            invariant
                file <= 8,
                forall|s: Square|
                    #[trigger] spec_piece_on(board@, s) == if s.spec_is_on_board() && ((s.rank == 1 || s.rank == 6)
                        || ((s.rank == 0 || s.rank == 7) && s.file < file)) {
                        spec_start_piece(s)
                    } else {
                        None
                    },
            decreases 8 - file,
        {
            let kind = back_rank_kind(file);
            let ghost before = board@;
            board.set_piece(Square { file, rank: 0 }, Piece { side: Side::White, kind });
            board.set_piece(Square { file, rank: 7 }, Piece { side: Side::Black, kind });
            proof {
                assert forall|s: Square|
                    #[trigger] spec_piece_on(board@, s) == if s.spec_is_on_board() && ((s.rank == 1 || s.rank == 6)
                        || ((s.rank == 0 || s.rank == 7) && s.file < file + 1)) {
                        spec_start_piece(s)
                    } else {
                        None
                    } by {
                    if s != (Square { file, rank: 0 }) && s != (Square { file, rank: 7 }) {
                        assert(spec_piece_on(board@, s) == spec_piece_on(before, s));
                    }
                }
            }
            file = file + 1;
        }
        proof {
            assert forall|s: Square| board@.contains_key(s) <==> spec_start_board().contains_key(s) by {
                assert(spec_piece_on(board@, s) == spec_start_piece(s));
            }
            assert forall|s: Square| #[trigger] board@.contains_key(s) implies board@[s] == spec_start_board()[s] by {
                assert(spec_piece_on(board@, s) == spec_start_piece(s));
            }
            assert(board@ =~= spec_start_board());
        }
        GameState::from_parts(board, Side::White, CastlingRights::standard(), None, 0, 1, Vec::new())
    }

    /// The pieces on the board.
    pub fn board(&self) -> (r: &BoardState)
        ensures
            r@ == self@.board,
    {
        &self.board
    }

    pub fn side_to_move(&self) -> (r: Side)
        ensures
            r == self@.side_to_move,
    {
        self.side_to_move
    }

    pub fn castling_rights(&self) -> (r: CastlingRights)
        ensures
            r == self@.castling_rights,
    {
        self.castling_rights
    }

    pub fn en_passant_target(&self) -> (r: Option<Square>)
        ensures
            r == self@.en_passant_target,
    {
        self.en_passant_target
    }

    pub fn halfmove_clock(&self) -> (r: u16)
        ensures
            r == self@.halfmove_clock,
    {
        self.halfmove_clock
    }

    pub fn fullmove_number(&self) -> (r: u16)
        ensures
            r == self@.fullmove_number,
    {
        self.fullmove_number
    }

    /// The keys of all positions reached, the current one last.
    pub fn position_history(&self) -> (r: &[String])
        ensures
            spec_texts(r@) == self@.history,
    {
        self.position_history.as_slice()
    }

    /// The piece on `square`, if any.
    pub fn piece_at(&self, square: Square) -> (r: Option<Piece>)
        ensures
            r == crate::board::spec_piece_on(self@.board, square),
    {
        self.board.piece_at(square)
    }
}

} // verus!
