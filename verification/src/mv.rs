//! Moves and the reasons a move can be refused.
use vstd::prelude::*;

use crate::pieces::PieceKind;
use crate::square::Square;
use crate::text::{push_char, push_text};

verus! {

/// A move from one square to another, with the piece a pawn promotes to.
#[derive(Debug, Clone, Copy, PartialEq, Eq, Hash, Structural)]
pub struct Move {
    pub from: Square,
    pub to: Square,
    pub promotion: Option<PieceKind>,
}

/// The UCI letter of a promotion piece; kings and pawns have none.
pub open spec fn spec_promotion_suffix(kind: PieceKind) -> Seq<char> {
    match kind {
        PieceKind::Queen => seq!['q'],
        PieceKind::Rook => seq!['r'],
        PieceKind::Bishop => seq!['b'],
        PieceKind::Knight => seq!['n'],
        _ => Seq::<char>::empty(),
    }
}

/// A promotion piece is written in UCI by its lower-case FEN letter (q, r, b, n); a king or a
/// pawn has no letter.
pub proof fn law_promotion_suffix(kind: PieceKind)
    ensures
        kind.spec_is_valid_promotion() ==> spec_promotion_suffix(kind) == seq![kind.spec_fen_letter()],
        !kind.spec_is_valid_promotion() ==> spec_promotion_suffix(kind).len() == 0,
        spec_promotion_suffix(PieceKind::Knight) == seq!['n'],
        spec_promotion_suffix(PieceKind::Queen) == seq!['q'],
{
}

impl Move {
    /// The UCI text of the move: both squares, then the promotion letter if any.
    pub open spec fn spec_uci(self) -> Seq<char> {
        self.from.spec_algebraic() + self.to.spec_algebraic() + match self.promotion {
            Some(kind) => spec_promotion_suffix(kind),
            None => Seq::<char>::empty(),
        }
    }

    pub fn new(from: Square, to: Square) -> (r: Move)
        ensures
            r == (Move { from, to, promotion: None }),
    {
        Move { from, to, promotion: None }
    }

    pub fn with_promotion(from: Square, to: Square, promotion: PieceKind) -> (r: Move)
        ensures
            r == (Move { from, to, promotion: Some(promotion) }),
    {
        Move { from, to, promotion: Some(promotion) }
    }

    pub fn from(self) -> (r: Square)
        ensures
            r == self.from,
    {
        self.from
    }

    pub fn to(self) -> (r: Square)
        ensures
            r == self.to,
    {
        self.to
    }

    pub fn promotion(self) -> (r: Option<PieceKind>)
        ensures
            r == self.promotion,
    {
        self.promotion
    }

    /// The UCI text of the move, as its display form (`e2e4`, `a7a8q`).
    pub fn to_string(self) -> (r: String)
        requires
            self.from.spec_nameable(),
            self.to.spec_nameable(),
        ensures
            r@ == self.spec_uci(),
    {
        let mut out = self.from.to_algebraic();
        let to_text = self.to.to_algebraic();
        push_text(&mut out, to_text.as_str());
        match self.promotion {
            Some(PieceKind::Queen) => push_char(&mut out, 'q'),
            Some(PieceKind::Rook) => push_char(&mut out, 'r'),
            Some(PieceKind::Bishop) => push_char(&mut out, 'b'),
            Some(PieceKind::Knight) => push_char(&mut out, 'n'),
            _ => {},
        }
        proof {
            assert(out@ =~= self.spec_uci());
        }
        out
    }
}

/// Why a move was refused.
#[derive(Debug, Clone, PartialEq, Eq, Structural)]
pub enum MoveError {
    GameAlreadyFinished,
    NoPieceAtSource,
    WrongSideToMove,
    IllegalMove,
    MissingPromotionChoice,
    InvalidPromotionChoice,
}

/// Each refusal of a move has its own message.
pub proof fn law_move_error_messages(a: MoveError, b: MoveError)
    ensures
        a.spec_message() == b.spec_message() ==> a == b,
        MoveError::GameAlreadyFinished.spec_message() == "game is already finished"@,
        MoveError::IllegalMove.spec_message() == "move is not legal in this position"@,
{
    reveal_strlit("game is already finished");
    reveal_strlit("no piece at source square");
    reveal_strlit("piece does not match side to move");
    reveal_strlit("move is not legal in this position");
    reveal_strlit("promotion move requires a promotion piece");
    reveal_strlit("promotion piece must be queen, rook, bishop, or knight");
    if a.spec_message() == b.spec_message() {
        assert(a.spec_message().len() == b.spec_message().len());
    }
}

impl MoveError {
    pub open spec fn spec_message(self) -> Seq<char> {
        match self {
            MoveError::GameAlreadyFinished => "game is already finished"@,
            MoveError::NoPieceAtSource => "no piece at source square"@,
            MoveError::WrongSideToMove => "piece does not match side to move"@,
            MoveError::IllegalMove => "move is not legal in this position"@,
            MoveError::MissingPromotionChoice => "promotion move requires a promotion piece"@,
            MoveError::InvalidPromotionChoice => "promotion piece must be queen, rook, bishop, or knight"@,
        }
    }

    /// The message shown for the error.
    pub fn to_string(&self) -> (r: String)
        ensures
            r@ == self.spec_message(),
    {
        match self {
            MoveError::GameAlreadyFinished => String::from_str("game is already finished"),
            MoveError::NoPieceAtSource => String::from_str("no piece at source square"),
            MoveError::WrongSideToMove => String::from_str("piece does not match side to move"),
            MoveError::IllegalMove => String::from_str("move is not legal in this position"),
            MoveError::MissingPromotionChoice => String::from_str(
                "promotion move requires a promotion piece",
            ),
            MoveError::InvalidPromotionChoice => String::from_str(
                "promotion piece must be queen, rook, bishop, or knight",
            ),
        }
    }
}

} // verus!
