//! Sides, piece kinds and their FEN letters.
use vstd::prelude::*;

verus! {

/// The two players.
#[derive(Debug, Clone, Copy, PartialEq, Eq, Structural)]
pub enum Side {
    White,
    Black,
}

impl Side {
    pub open spec fn spec_opponent(self) -> Side {
        match self {
            Side::White => Side::Black,
            Side::Black => Side::White,
        }
    }

    pub open spec fn spec_pawn_forward(self) -> int {
        match self {
            Side::White => 1,
            Side::Black => -1,
        }
    }

    pub open spec fn spec_home_rank(self) -> u8 {
        match self {
            Side::White => 0,
            Side::Black => 7,
        }
    }

    pub open spec fn spec_pawn_start_rank(self) -> u8 {
        match self {
            Side::White => 1,
            Side::Black => 6,
        }
    }

    pub open spec fn spec_promotion_rank(self) -> u8 {
        match self {
            Side::White => 7,
            Side::Black => 0,
        }
    }

    pub open spec fn spec_fen_token(self) -> char {
        match self {
            Side::White => 'w',
            Side::Black => 'b',
        }
    }

    /// The other side.
    pub fn opponent(self) -> (r: Side)
        ensures
            r == self.spec_opponent(),
            r != self,
    {
        match self {
            Side::White => Side::Black,
            Side::Black => Side::White,
        }
    }

    /// Rank direction in which this side's pawns advance.
    pub fn pawn_forward(self) -> (r: i8)
        ensures
            r == self.spec_pawn_forward(),
    {
        match self {
            Side::White => 1,
            Side::Black => -1,
        }
    }

    /// The back rank on which this side's king and rooks start.
    pub fn home_rank(self) -> (r: u8)
        ensures
            r == self.spec_home_rank(),
    {
        match self {
            Side::White => 0,
            Side::Black => 7,
        }
    }

    /// The rank on which this side's pawns start.
    pub fn pawn_start_rank(self) -> (r: u8)
        ensures
            r == self.spec_pawn_start_rank(),
    {
        match self {
            Side::White => 1,
            Side::Black => 6,
        }
    }

    /// The rank on which this side's pawns promote.
    pub fn promotion_rank(self) -> (r: u8)
        ensures
            r == self.spec_promotion_rank(),
    {
        match self {
            Side::White => 7,
            Side::Black => 0,
        }
    }

    /// The side-to-move token used in FEN.
    pub fn fen_token(self) -> (r: char)
        ensures
            r == self.spec_fen_token(),
    {
        match self {
            Side::White => 'w',
            Side::Black => 'b',
        }
    }
}

/// Taking the opponent twice gives back the side one started with.
pub proof fn lemma_opponent_involution(side: Side)
    ensures
        side.spec_opponent().spec_opponent() == side,
        side.spec_opponent() != side,
{
}

/// White moves up the board from rank 1 and Black down from rank 8: each side's pawns start
/// one rank in front of its home rank and promote on the other side's home rank, and each
/// side's opponent is the other side.
pub proof fn law_side_geometry(side: Side)
    ensures
        Side::White.spec_home_rank() == 0 && Side::Black.spec_home_rank() == 7,
        Side::White.spec_pawn_forward() == 1 && Side::Black.spec_pawn_forward() == -1,
        side.spec_pawn_start_rank() == side.spec_home_rank() + side.spec_pawn_forward(),
        side.spec_promotion_rank() == side.spec_opponent().spec_home_rank(),
        Side::White.spec_opponent() == Side::Black && Side::Black.spec_opponent() == Side::White,
        Side::White.spec_fen_token() == 'w' && Side::Black.spec_fen_token() == 'b',
{
}

/// The kinds of chess pieces.
#[derive(Debug, Clone, Copy, PartialEq, Eq, Hash, Structural)]
pub enum PieceKind {
    King,
    Queen,
    Rook,
    Bishop,
    Knight,
    Pawn,
}

impl PieceKind {
    pub open spec fn spec_fen_letter(self) -> char {
        match self {
            PieceKind::King => 'k',
            PieceKind::Queen => 'q',
            PieceKind::Rook => 'r',
            PieceKind::Bishop => 'b',
            PieceKind::Knight => 'n',
            PieceKind::Pawn => 'p',
        }
    }

    pub open spec fn spec_is_valid_promotion(self) -> bool {
        self == PieceKind::Queen || self == PieceKind::Rook || self == PieceKind::Bishop
            || self == PieceKind::Knight
    }

    /// The lower-case FEN letter of this kind.
    pub fn fen_letter(self) -> (r: char)
        ensures
            r == self.spec_fen_letter(),
    {
        match self {
            PieceKind::King => 'k',
            PieceKind::Queen => 'q',
            PieceKind::Rook => 'r',
            PieceKind::Bishop => 'b',
            PieceKind::Knight => 'n',
            PieceKind::Pawn => 'p',
        }
    }

    /// Whether a pawn may promote to this kind.
    pub fn is_valid_promotion(self) -> (r: bool)
        ensures
            r == self.spec_is_valid_promotion(),
    {
        match self {
            PieceKind::Queen | PieceKind::Rook | PieceKind::Bishop | PieceKind::Knight => true,
            _ => false,
        }
    }
}

/// A piece of one side.
#[derive(Debug, Clone, Copy, PartialEq, Eq, Structural)]
pub struct Piece {
    pub side: Side,
    pub kind: PieceKind,
}

pub open spec fn spec_is_ascii_uppercase(c: char) -> bool {
    'A' <= c && c <= 'Z'
}

pub open spec fn spec_to_ascii_lowercase(c: char) -> char {
    if spec_is_ascii_uppercase(c) {
        ((c as u32) + 32) as char
    } else {
        c
    }
}

pub open spec fn spec_kind_from_letter(c: char) -> Option<PieceKind> {
    if c == 'k' {
        Some(PieceKind::King)
    } else if c == 'q' {
        Some(PieceKind::Queen)
    } else if c == 'r' {
        Some(PieceKind::Rook)
    } else if c == 'b' {
        Some(PieceKind::Bishop)
    } else if c == 'n' {
        Some(PieceKind::Knight)
    } else if c == 'p' {
        Some(PieceKind::Pawn)
    } else {
        None
    }
}

/// The piece a FEN board character stands for: upper case is White, lower case Black.
pub open spec fn spec_piece_from_fen(c: char) -> Option<Piece> {
    match spec_kind_from_letter(spec_to_ascii_lowercase(c)) {
        Some(kind) => Some(
            Piece {
                side: if spec_is_ascii_uppercase(c) {
                    Side::White
                } else {
                    Side::Black
                },
                kind,
            },
        ),
        None => None,
    }
}

pub open spec fn spec_fen_char(piece: Piece) -> char {
    match piece.side {
        Side::White => match piece.kind {
            PieceKind::King => 'K',
            PieceKind::Queen => 'Q',
            PieceKind::Rook => 'R',
            PieceKind::Bishop => 'B',
            PieceKind::Knight => 'N',
            PieceKind::Pawn => 'P',
        },
        Side::Black => piece.kind.spec_fen_letter(),
    }
}

/// The FEN letters name the kinds: k, q, r, b, n and p, each kind its own; White's pieces are
/// written in upper case and Black's in lower case, and reading a piece's letter gives the
/// piece back.
pub proof fn law_fen_letters(piece: Piece, k1: PieceKind, k2: PieceKind)
    ensures
        PieceKind::King.spec_fen_letter() == 'k' && PieceKind::Queen.spec_fen_letter() == 'q'
            && PieceKind::Rook.spec_fen_letter() == 'r' && PieceKind::Bishop.spec_fen_letter() == 'b'
            && PieceKind::Knight.spec_fen_letter() == 'n' && PieceKind::Pawn.spec_fen_letter() == 'p',
        k1.spec_fen_letter() == k2.spec_fen_letter() ==> k1 == k2,
        piece.side == Side::White ==> spec_is_ascii_uppercase(spec_fen_char(piece)),
        piece.side == Side::Black ==> spec_fen_char(piece) == piece.kind.spec_fen_letter(),
        spec_piece_from_fen(spec_fen_char(piece)) == Some(piece),
{
}

impl Piece {
    /// A piece of the given side and kind.
    pub fn new(side: Side, kind: PieceKind) -> (r: Piece)
        ensures
            r == (Piece { side, kind }),
    {
        Piece { side, kind }
    }

    /// Reads a FEN board character.
    pub fn from_fen(char_repr: char) -> (r: Option<Piece>)
        ensures
            r == spec_piece_from_fen(char_repr),
    {
        let side = if 'A' <= char_repr && char_repr <= 'Z' {
            Side::White
        } else {
            Side::Black
        };
        let kind = if char_repr == 'k' || char_repr == 'K' {
            PieceKind::King
        } else if char_repr == 'q' || char_repr == 'Q' {
            PieceKind::Queen
        } else if char_repr == 'r' || char_repr == 'R' {
            PieceKind::Rook
        } else if char_repr == 'b' || char_repr == 'B' {
            PieceKind::Bishop
        } else if char_repr == 'n' || char_repr == 'N' {
            PieceKind::Knight
        } else if char_repr == 'p' || char_repr == 'P' {
            PieceKind::Pawn
        } else {
            return None;
        };
        Some(Piece { side, kind })
    }

    /// The FEN board character of this piece.
    pub fn fen_char(self) -> (r: char)
        ensures
            r == spec_fen_char(self),
            spec_piece_from_fen(r) == Some(self),
    {
        match self.side {
            Side::White => match self.kind {
                PieceKind::King => 'K',
                PieceKind::Queen => 'Q',
                PieceKind::Rook => 'R',
                PieceKind::Bishop => 'B',
                PieceKind::Knight => 'N',
                PieceKind::Pawn => 'P',
            },
            Side::Black => self.kind.fen_letter(),
        }
    }
}

} // verus!
