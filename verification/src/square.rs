//! Board squares in file/rank coordinates and their algebraic names.
use vstd::prelude::*;

use crate::text::push_char;

verus! {

/// A board square: `file` 0..8 is a..h and `rank` 0..8 is 1..8 on the board.
#[derive(Debug, Clone, Copy, PartialEq, Eq, PartialOrd, Ord, Hash, Structural)]
pub struct Square {
    pub file: u8,
    pub rank: u8,
}

pub open spec fn spec_square_new(file: int, rank: int) -> Option<Square> {
    if 0 <= file < 8 && 0 <= rank < 8 {
        Some(Square { file: file as u8, rank: rank as u8 })
    } else {
        None
    }
}

/// The square named by a two-character algebraic string such as `e4`.
pub open spec fn spec_from_algebraic(text: Seq<char>) -> Option<Square> {
    if text.len() == 2 && 'a' <= text[0] && text[0] <= 'h' && '1' <= text[1] && text[1] <= '8' {
        Some(Square { file: (text[0] as u32 - 97) as u8, rank: (text[1] as u32 - 49) as u8 })
    } else {
        None
    }
}

impl Square {
    pub open spec fn spec_is_on_board(self) -> bool {
        self.file < 8 && self.rank < 8
    }

    /// The square `file_delta` files and `rank_delta` ranks away, when it lies on the board.
    pub open spec fn spec_offset(self, file_delta: int, rank_delta: int) -> Option<Square> {
        spec_square_new(self.file + file_delta, self.rank + rank_delta)
    }

    /// Whether the square's algebraic name can be written without overflow.
    pub open spec fn spec_nameable(self) -> bool {
        self.file + 97 < 256 && self.rank + 49 < 256
    }

    /// The algebraic name: file letter then rank digit.
    pub open spec fn spec_algebraic(self) -> Seq<char> {
        seq![((self.file + 97) as u32) as char, ((self.rank + 49) as u32) as char]
    }

    /// Square order: by file, then by rank.
    pub open spec fn spec_precedes(self, other: Square) -> bool {
        self.file < other.file || (self.file == other.file && self.rank < other.rank)
    }

    /// The square at the given coordinates, when they lie on the board.
    pub fn new(file: u8, rank: u8) -> (r: Option<Square>)
        ensures
            r == spec_square_new(file as int, rank as int),
    {
        if file < 8 && rank < 8 {
            Some(Square { file, rank })
        } else {
            None
        }
    }

    /// The square with the given coordinates, on the board or not.
    pub fn from_coords_unchecked(file: u8, rank: u8) -> (r: Square)
        ensures
            r == (Square { file, rank }),
    {
        Square { file, rank }
    }

    pub fn file(self) -> (r: u8)
        ensures
            r == self.file,
    {
        self.file
    }

    pub fn rank(self) -> (r: u8)
        ensures
            r == self.rank,
    {
        self.rank
    }

    /// The square reached by moving the given number of files and ranks, if it is on the board.
    pub fn offset(self, file_delta: i8, rank_delta: i8) -> (r: Option<Square>)
        ensures
            r == self.spec_offset(file_delta as int, rank_delta as int),
    {
        let file: i16 = self.file as i16 + file_delta as i16;
        let rank: i16 = self.rank as i16 + rank_delta as i16;
        if 0 <= file && file <= 7 && 0 <= rank && rank <= 7 {
            Some(Square { file: file as u8, rank: rank as u8 })
        } else {
            None
        }
    }

    /// Reads an algebraic square name such as `e4`.
    pub fn from_algebraic(text: &str) -> (r: Option<Square>)
        ensures
            r == spec_from_algebraic(text@),
    {
        if text.unicode_len() != 2 {
            return None;
        }
        let file_char = text.get_char(0);
        let rank_char = text.get_char(1);
        if !('a' <= file_char && file_char <= 'h') || !('1' <= rank_char && rank_char <= '8') {
            return None;
        }
        let file: u8 = (file_char as u32 - 97) as u8;
        let rank: u8 = (rank_char as u32 - 49) as u8;
        Some(Square { file, rank })
    }

    /// The algebraic name of the square.
    pub fn to_algebraic(self) -> (r: String)
        requires
            self.spec_nameable(),
        ensures
            r@ == self.spec_algebraic(),
    {
        let mut out = String::new();
        let file_byte: u8 = 97 + self.file;
        let rank_byte: u8 = 49 + self.rank;
        push_char(&mut out, file_byte as char);
        push_char(&mut out, rank_byte as char);
        out
    }

    /// The algebraic name of the square, as its display form.
    pub fn to_string(self) -> (r: String)
        requires
            self.spec_nameable(),
        ensures
            r@ == self.spec_algebraic(),
    {
        self.to_algebraic()
    }

    /// All 64 squares, rank by rank from a1 to h8.
    pub fn all() -> (r: Vec<Square>)
        ensures
            r@.len() == 64,
            forall|i: int|
                0 <= i < 64 ==> #[trigger] r@[i] == (Square { file: (i % 8) as u8, rank: (i / 8) as u8 }),
    {
        let mut out: Vec<Square> = Vec::new();
        let mut rank: u8 = 0;
        while rank < 8
            invariant
                rank <= 8,
                out@.len() == 8 * rank,
                forall|i: int|
                    0 <= i < out@.len() ==> #[trigger] out@[i] == (Square {
                        file: (i % 8) as u8,
                        rank: (i / 8) as u8,
                    }),
            decreases 8 - rank,
        {
            let mut file: u8 = 0;
            while file < 8
                invariant
                    rank < 8,
                    file <= 8,
                    out@.len() == 8 * rank + file,
                    forall|i: int|
                        0 <= i < out@.len() ==> #[trigger] out@[i] == (Square {
                            file: (i % 8) as u8,
                            rank: (i / 8) as u8,
                        }),
                decreases 8 - file,
            {
                proof {
                    let i = 8 * rank + file;
                    assert(i % 8 == file as int && i / 8 == rank as int) by (nonlinear_arith)
                        requires
                            i == 8 * rank + file,
                            file < 8,
                    ;
                }
                out.push(Square { file, rank });
                file = file + 1;
            }
            rank = rank + 1;
        }
        out
    }
}

/// Reading the algebraic name of an on-board square gives back the square.
pub proof fn lemma_algebraic_roundtrip(square: Square)
    requires
        square.spec_is_on_board(),
    ensures
        spec_from_algebraic(square.spec_algebraic()) == Some(square),
{
}

/// A square read from algebraic notation is on the board and is named by the same text.
pub proof fn lemma_from_algebraic_names(text: Seq<char>)
    requires
        spec_from_algebraic(text) is Some,
    ensures
        spec_from_algebraic(text).unwrap().spec_is_on_board(),
        spec_from_algebraic(text).unwrap().spec_algebraic() == text,
{
    assert(spec_from_algebraic(text).unwrap().spec_algebraic() =~= text);
}

} // verus!
