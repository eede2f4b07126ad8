//! Reading positions from FEN text.
use vstd::prelude::*;

use super::GameState;
use crate::board::{lemma_board_entries, spec_piece_on, BoardState};
use crate::castling::{spec_no_rights, CastlingRights};
use crate::pieces::{spec_piece_from_fen, Piece, PieceKind, Side};
use crate::rules::{spec_position_key, Position};
use crate::square::{spec_from_algebraic, Square};
use crate::text::{push_char, push_text, spec_split, spec_texts_of, spec_words, split_at_char, split_whitespace};

verus! {

/// Why a FEN text was refused.
#[derive(Debug, Clone, PartialEq, Eq)]
pub enum FenError {
    InvalidFieldCount,
    InvalidBoard(String),
    InvalidSideToMove,
    InvalidCastlingRights,
    InvalidEnPassantTarget,
    InvalidHalfmoveClock,
    InvalidFullmoveNumber,
    MissingKing(Side),
    MultipleKings(Side),
}

/// The model of a `FenError`, with the board field's fault as text.
pub enum FenFault {
    InvalidFieldCount,
    InvalidBoard(Seq<char>),
    InvalidSideToMove,
    InvalidCastlingRights,
    InvalidEnPassantTarget,
    InvalidHalfmoveClock,
    InvalidFullmoveNumber,
    MissingKing(Side),
    MultipleKings(Side),
}

impl View for FenError {
    type V = FenFault;

    open spec fn view(&self) -> FenFault {
        match self {
            FenError::InvalidFieldCount => FenFault::InvalidFieldCount,
            FenError::InvalidBoard(reason) => FenFault::InvalidBoard(reason@),
            FenError::InvalidSideToMove => FenFault::InvalidSideToMove,
            FenError::InvalidCastlingRights => FenFault::InvalidCastlingRights,
            FenError::InvalidEnPassantTarget => FenFault::InvalidEnPassantTarget,
            FenError::InvalidHalfmoveClock => FenFault::InvalidHalfmoveClock,
            FenError::InvalidFullmoveNumber => FenFault::InvalidFullmoveNumber,
            FenError::MissingKing(side) => FenFault::MissingKing(*side),
            FenError::MultipleKings(side) => FenFault::MultipleKings(*side),
        }
    }
}

/// The name of a side as it appears in messages.
pub open spec fn spec_side_name(side: Side) -> Seq<char> {
    match side {
        Side::White => "White"@,
        Side::Black => "Black"@,
    }
}

impl FenFault {
    pub open spec fn spec_message(self) -> Seq<char> {
        match self {
            FenFault::InvalidFieldCount => "FEN must contain exactly six fields"@,
            FenFault::InvalidBoard(reason) => "invalid board field: "@ + reason,
            FenFault::InvalidSideToMove => "invalid side-to-move token"@,
            FenFault::InvalidCastlingRights => "invalid castling-rights token"@,
            FenFault::InvalidEnPassantTarget => "invalid en-passant target"@,
            FenFault::InvalidHalfmoveClock => "invalid halfmove clock"@,
            FenFault::InvalidFullmoveNumber => "invalid fullmove number"@,
            FenFault::MissingKing(side) => "missing "@ + spec_side_name(side) + " king"@,
            FenFault::MultipleKings(side) => "multiple "@ + spec_side_name(side) + " kings"@,
        }
    }
}

fn side_name(side: Side) -> (r: String)
    ensures
        r@ == spec_side_name(side),
{
    match side {
        Side::White => String::from_str("White"),
        Side::Black => String::from_str("Black"),
    }
}

impl FenError {
    /// The message shown for the error.
    pub fn to_string(&self) -> (r: String)
        ensures
            r@ == self@.spec_message(),
    {
        match self {
            FenError::InvalidFieldCount => String::from_str("FEN must contain exactly six fields"),
            FenError::InvalidBoard(reason) => {
                let mut out = String::from_str("invalid board field: ");
                push_text(&mut out, reason.as_str());
                out
            },
            FenError::InvalidSideToMove => String::from_str("invalid side-to-move token"),
            FenError::InvalidCastlingRights => String::from_str("invalid castling-rights token"),
            FenError::InvalidEnPassantTarget => String::from_str("invalid en-passant target"),
            FenError::InvalidHalfmoveClock => String::from_str("invalid halfmove clock"),
            FenError::InvalidFullmoveNumber => String::from_str("invalid fullmove number"),
            FenError::MissingKing(side) => {
                let mut out = String::from_str("missing ");
                let name = side_name(*side);
                push_text(&mut out, name.as_str());
                push_text(&mut out, " king");
                out
            },
            FenError::MultipleKings(side) => {
                let mut out = String::from_str("multiple ");
                let name = side_name(*side);
                push_text(&mut out, name.as_str());
                push_text(&mut out, " kings");
                out
            },
        }
    }
}

// ---------------------------------------------------------------- the grammar

pub open spec fn spec_is_digit(c: char) -> bool {
    '0' <= c && c <= '9'
}

pub open spec fn spec_digit_value(c: char) -> int {
    c as int - 48
}

pub open spec fn spec_all_digits(t: Seq<char>) -> bool {
    forall|i: int| 0 <= i < t.len() ==> spec_is_digit(#[trigger] t[i])
}

/// The number a string of decimal digits denotes.
pub open spec fn spec_digits_value(t: Seq<char>) -> int
    decreases t.len(),
{
    if t.len() == 0 {
        0
    } else {
        spec_digits_value(t.drop_last()) * 10 + spec_digit_value(t.last())
    }
}

/// The digits of an unsigned number: the text without one leading `+`.
pub open spec fn spec_unsigned_digits(t: Seq<char>) -> Seq<char> {
    if t.len() > 0 && t[0] == '+' {
        t.drop_first()
    } else {
        t
    }
}

/// An unsigned 16-bit number, as `str::parse::<u16>` reads it: an optional `+`, then one or
/// more decimal digits whose value fits.
pub open spec fn spec_parse_u16(t: Seq<char>) -> Option<u16> {
    let d = spec_unsigned_digits(t);
    if d.len() > 0 && spec_all_digits(d) && spec_digits_value(d) <= 65535 {
        Some(spec_digits_value(d) as u16)
    } else {
        None
    }
}

/// Reading the files of one rank from position `i` of its text, `file` files already filled.
pub open spec fn spec_parse_rank(
    t: Seq<char>,
    rank: int,
    i: int,
    file: int,
    board: Map<Square, Piece>,
) -> Result<Map<Square, Piece>, Seq<char>>
    decreases t.len() - i,
{
    if i >= t.len() {
        if file == 8 {
            Ok(board)
        } else {
            Err("rank does not sum to 8 files"@)
        }
    } else if spec_is_digit(t[i]) {
        let skip = spec_digit_value(t[i]);
        if 1 <= skip && skip <= 8 {
            let next = if file + skip > 255 {
                255
            } else {
                file + skip
            };
            spec_parse_rank(t, rank, i + 1, next, board)
        } else {
            Err("empty-square digit must be between 1 and 8"@)
        }
    } else {
        match spec_piece_from_fen(t[i]) {
            Some(piece) => if file >= 8 {
                Err("too many files in rank"@)
            } else {
                spec_parse_rank(
                    t,
                    rank,
                    i + 1,
                    file + 1,
                    board.insert(Square { file: file as u8, rank: rank as u8 }, piece),
                )
            },
            None => Err("invalid piece token '"@ + seq![t[i]] + "'"@),
        }
    }
}

/// Reading the ranks `index..8` of the board field, the first of them being rank 8.
pub open spec fn spec_parse_ranks(ranks: Seq<Seq<char>>, index: int, board: Map<Square, Piece>) -> Result<
    Map<Square, Piece>,
    Seq<char>,
>
    decreases 8 - index,
{
    if index >= 8 {
        Ok(board)
    } else {
        match spec_parse_rank(ranks[index], 7 - index, 0, 0, board) {
            Ok(next) => spec_parse_ranks(ranks, index + 1, next),
            Err(reason) => Err(reason),
        }
    }
}

/// The board that a FEN board field describes, or why it describes none.
pub open spec fn spec_parse_board(field: Seq<char>) -> Result<Map<Square, Piece>, Seq<char>> {
    let ranks = spec_split(field, '/');
    if ranks.len() != 8 {
        Err("expected 8 ranks"@)
    } else {
        spec_parse_ranks(ranks, 0, Map::empty())
    }
}

pub open spec fn spec_has_king(board: Map<Square, Piece>, side: Side) -> bool {
    exists|s: Square| #[trigger] spec_piece_on(board, s) == Some(Piece { side, kind: PieceKind::King })
}

pub open spec fn spec_has_two_kings(board: Map<Square, Piece>, side: Side) -> bool {
    exists|s: Square, t: Square|
        #![trigger spec_piece_on(board, s), spec_piece_on(board, t)]
        s != t && spec_piece_on(board, s) == Some(Piece { side, kind: PieceKind::King }) && spec_piece_on(
            board,
            t,
        ) == Some(Piece { side, kind: PieceKind::King })
}

/// What is wrong with `side`'s kings: none, or more than one.
pub open spec fn spec_king_fault(board: Map<Square, Piece>, side: Side) -> Option<FenFault> {
    if !spec_has_king(board, side) {
        Some(FenFault::MissingKing(side))
    } else if spec_has_two_kings(board, side) {
        Some(FenFault::MultipleKings(side))
    } else {
        None
    }
}

pub open spec fn spec_parse_side(t: Seq<char>) -> Option<Side> {
    if t == seq!['w'] {
        Some(Side::White)
    } else if t == seq!['b'] {
        Some(Side::Black)
    } else {
        None
    }
}

/// Reading castling letters from position `i` on, the rights read so far being `acc`.
pub open spec fn spec_castling_from(t: Seq<char>, i: int, acc: CastlingRights) -> Option<CastlingRights>
    decreases t.len() - i,
{
    if i >= t.len() {
        Some(acc)
    } else if t[i] == 'K' {
        spec_castling_from(t, i + 1, CastlingRights { white_kingside: true, ..acc })
    } else if t[i] == 'Q' {
        spec_castling_from(t, i + 1, CastlingRights { white_queenside: true, ..acc })
    } else if t[i] == 'k' {
        spec_castling_from(t, i + 1, CastlingRights { black_kingside: true, ..acc })
    } else if t[i] == 'q' {
        spec_castling_from(t, i + 1, CastlingRights { black_queenside: true, ..acc })
    } else {
        None
    }
}

/// The castling field: `-`, or letters from `KQkq` in any order and number.
pub open spec fn spec_parse_castling(t: Seq<char>) -> Option<CastlingRights> {
    if t == seq!['-'] {
        Some(spec_no_rights())
    } else {
        spec_castling_from(t, 0, spec_no_rights())
    }
}

/// The en-passant field: `-`, or a square on the third or sixth rank.
pub open spec fn spec_parse_en_passant(t: Seq<char>) -> Option<Option<Square>> {
    if t == seq!['-'] {
        Some(None)
    } else {
        match spec_from_algebraic(t) {
            Some(s) => if s.rank == 2 || s.rank == 5 {
                Some(Some(s))
            } else {
                None
            },
            None => None,
        }
    }
}

/// The position a FEN text describes, with its own key as the only history entry, or the
/// first fault found, the fields being checked in order.
pub open spec fn spec_from_fen(fen: Seq<char>) -> Result<Position, FenFault> {
    let fields = spec_words(fen);
    if fields.len() != 6 {
        Err(FenFault::InvalidFieldCount)
    } else {
        match spec_parse_board(fields[0]) {
            Err(reason) => Err(FenFault::InvalidBoard(reason)),
            Ok(board) => match spec_king_fault(board, Side::White) {
                Some(fault) => Err(fault),
                None => match spec_king_fault(board, Side::Black) {
                    Some(fault) => Err(fault),
                    None => match spec_parse_side(fields[1]) {
                        None => Err(FenFault::InvalidSideToMove),
                        Some(side) => match spec_parse_castling(fields[2]) {
                            None => Err(FenFault::InvalidCastlingRights),
                            Some(rights) => match spec_parse_en_passant(fields[3]) {
                                None => Err(FenFault::InvalidEnPassantTarget),
                                Some(ep) => match spec_parse_u16(fields[4]) {
                                    None => Err(FenFault::InvalidHalfmoveClock),
                                    Some(half) => match spec_parse_u16(fields[5]) {
                                        None => Err(FenFault::InvalidFullmoveNumber),
                                        Some(full) => if full == 0 {
                                            Err(FenFault::InvalidFullmoveNumber)
                                        } else {
                                            let core = Position {
                                                board,
                                                side_to_move: side,
                                                castling_rights: rights,
                                                en_passant_target: ep,
                                                halfmove_clock: half,
                                                fullmove_number: full,
                                                history: Seq::empty(),
                                            };
                                            Ok(Position { history: seq![spec_position_key(core)], ..core })
                                        },
                                    },
                                },
                            },
                        },
                    },
                },
            },
        }
    }
}

// ---------------------------------------------------------------- the reader

/// Reads an unsigned 16-bit number.
pub fn parse_u16(text: &str) -> (r: Option<u16>)
    ensures
        r == spec_parse_u16(text@),
{
    let n = text.unicode_len();
    let mut start: usize = 0;
    if n > 0 && text.get_char(0) == '+' {
        start = 1;
    }
    let ghost d = spec_unsigned_digits(text@);
    assert(d =~= text@.subrange(start as int, n as int));
    if start >= n {
        return None;
    }
    let mut value: u32 = 0;
    let mut over = false;
    let mut i: usize = start;
    while i < n
        invariant
            n == text@.len(),
            start <= i <= n,
            d == spec_unsigned_digits(text@),
            d == text@.subrange(start as int, n as int),
            spec_all_digits(text@.subrange(start as int, i as int)),
            !over ==> value == spec_digits_value(text@.subrange(start as int, i as int)) && value <= 65535,
            over ==> spec_digits_value(text@.subrange(start as int, i as int)) > 65535,
        decreases n - i,
    {
        let c = text.get_char(i);
        if !('0' <= c && c <= '9') {
            assert(d[i - start] == c);
            assert(!spec_is_digit(d[i - start]));
            return None;
        }
        let digit: u32 = c as u32 - 48;
        let ghost prefix = text@.subrange(start as int, i as int);
        let ghost next = text@.subrange(start as int, i + 1);
        assert(next.drop_last() =~= prefix);
        assert(next.last() == c);
        if !over {
            let candidate: u32 = value * 10 + digit;
            if candidate > 65535 {
                over = true;
            } else {
                value = candidate;
            }
        }
        i = i + 1;
    }
    assert(text@.subrange(start as int, n as int) == d);
    if over {
        None
    } else {
        Some(value as u16)
    }
}

/// Whether `t` is the one-character text `c`.
fn is_single(t: &str, c: char) -> (r: bool)
    ensures
        r == (t@ == seq![c]),
{
    if t.unicode_len() == 1 && t.get_char(0) == c {
        assert(t@ =~= seq![c]);
        true
    } else {
        false
    }
}

fn parse_side_to_move(field: &str) -> (r: Option<Side>)
    ensures
        r == spec_parse_side(field@),
{
    if is_single(field, 'w') {
        Some(Side::White)
    } else if is_single(field, 'b') {
        Some(Side::Black)
    } else {
        None
    }
}

fn parse_castling_rights(field: &str) -> (r: Option<CastlingRights>)
    ensures
        r == spec_parse_castling(field@),
{
    if is_single(field, '-') {
        return Some(CastlingRights::default());
    }
    let n = field.unicode_len();
    let mut rights = CastlingRights::default();
    let mut i: usize = 0;
    while i < n
        invariant
            n == field@.len(),
            i <= n,
            field@ != seq!['-'],
            spec_castling_from(field@, i as int, rights) == spec_parse_castling(field@),
        decreases n - i,
    {
        let token = field.get_char(i);
        if token == 'K' {
            rights = CastlingRights::new(
                true,
                rights.queenside(Side::White),
                rights.kingside(Side::Black),
                rights.queenside(Side::Black),
            );
        } else if token == 'Q' {
            rights = CastlingRights::new(
                rights.kingside(Side::White),
                true,
                rights.kingside(Side::Black),
                rights.queenside(Side::Black),
            );
        } else if token == 'k' {
            rights = CastlingRights::new(
                rights.kingside(Side::White),
                rights.queenside(Side::White),
                true,
                rights.queenside(Side::Black),
            );
        } else if token == 'q' {
            rights = CastlingRights::new(
                rights.kingside(Side::White),
                rights.queenside(Side::White),
                rights.kingside(Side::Black),
                true,
            );
        } else {
            return None;
        }
        i = i + 1;
    }
    Some(rights)
}

fn parse_en_passant_target(field: &str) -> (r: Option<Option<Square>>)
    ensures
        r == spec_parse_en_passant(field@),
{
    if is_single(field, '-') {
        return Some(None);
    }
    match Square::from_algebraic(field) {
        Some(square) => if square.rank() == 2 || square.rank() == 5 {
            Some(Some(square))
        } else {
            None
        },
        None => None,
    }
}

/// Places the pieces of one rank's text on `board`.
fn parse_rank(text: &str, rank: u8, board: &mut BoardState) -> (r: Result<(), String>)
    requires
        rank < 8,
        forall|s: Square| #[trigger] old(board)@.contains_key(s) ==> s.spec_is_on_board(),
    ensures
        match r {
            Ok(()) => spec_parse_rank(text@, rank as int, 0, 0, old(board)@) == Ok::<Map<Square, Piece>, Seq<char>>(
                final(board)@,
            ),
            Err(reason) => spec_parse_rank(text@, rank as int, 0, 0, old(board)@) == Err::<
                Map<Square, Piece>,
                Seq<char>,
            >(reason@),
        },
        forall|s: Square| #[trigger] final(board)@.contains_key(s) ==> s.spec_is_on_board(),
{
    let ghost start = board@;
    let n = text.unicode_len();
    let mut file: u8 = 0;
    let mut i: usize = 0;
    while i < n
        invariant
            n == text@.len(),
            i <= n,
            rank < 8,
            start == old(board)@,
            spec_parse_rank(text@, rank as int, i as int, file as int, board@) == spec_parse_rank(
                text@,
                rank as int,
                0,
                0,
                start,
            ),
            forall|s: Square| #[trigger] board@.contains_key(s) ==> s.spec_is_on_board(),
        decreases n - i,
    {
        let token = text.get_char(i);
        assert(text@[i as int] == token);
        if '0' <= token && token <= '9' {
            let skip: u8 = (token as u32 - 48) as u8;
            if !(1 <= skip && skip <= 8) {
                return Err(String::from_str("empty-square digit must be between 1 and 8"));
            }
            file = if skip > 255 - file {
                255
            } else {
                file + skip
            };
        } else {
            match Piece::from_fen(token) {
                Some(piece) => {
                    if file >= 8 {
                        return Err(String::from_str("too many files in rank"));
                    }
                    board.set_piece(Square::from_coords_unchecked(file, rank), piece);
                    file = file + 1;
                },
                None => {
                    let mut reason = String::from_str("invalid piece token '");
                    push_char(&mut reason, token);
                    push_char(&mut reason, '\'');
                    proof {
                        reveal_strlit("'");
                        assert(reason@ =~= "invalid piece token '"@ + seq![token] + "'"@);
                    }
                    return Err(reason);
                },
            }
        }
        i = i + 1;
    }
    if file != 8 {
        return Err(String::from_str("rank does not sum to 8 files"));
    }
    Ok(())
}

/// Reads the board field.
fn parse_board(field: &str) -> (r: Result<BoardState, String>)
    ensures
        match r {
            Ok(board) => spec_parse_board(field@) == Ok::<Map<Square, Piece>, Seq<char>>(board@) && forall|
                s: Square,
            | #[trigger] board@.contains_key(s) ==> s.spec_is_on_board(),
            Err(reason) => spec_parse_board(field@) == Err::<Map<Square, Piece>, Seq<char>>(reason@),
        },
{
    let ranks = split_at_char(field, '/');
    if ranks.len() != 8 {
        return Err(String::from_str("expected 8 ranks"));
    }
    let ghost texts = spec_split(field@, '/');
    let mut board = BoardState::empty();
    let mut index: usize = 0;
    while index < 8
        invariant
            index <= 8,
            ranks@.len() == 8,
            texts == spec_texts_of(ranks@),
            texts.len() == 8,
            spec_parse_board(field@) == spec_parse_ranks(texts, index as int, board@),
            forall|s: Square| #[trigger] board@.contains_key(s) ==> s.spec_is_on_board(),
        decreases 8 - index,
    {
        let rank: u8 = 7 - index as u8;
        assert(texts[index as int] == ranks@[index as int]@);
        match parse_rank(ranks[index].as_str(), rank, &mut board) {
            Ok(()) => {},
            Err(reason) => {
                return Err(reason);
            },
        }
        index = index + 1;
    }
    Ok(board)
}

/// Checks that `board` holds exactly one king of `side`.
fn validate_king_count(board: &BoardState, side: Side) -> (r: Result<(), FenError>)
    ensures
        match r {
            Ok(()) => spec_king_fault(board@, side) == None::<FenFault>,
            Err(e) => spec_king_fault(board@, side) == Some(e@),
        },
{
    proof {
        use_type_invariant(board);
        lemma_board_entries(board);
    }
    let entries = board.iter();
    let ghost es = board.spec_entries();
    let king = Piece { side, kind: PieceKind::King };
    let mut found: Option<usize> = None;
    let mut i: usize = 0;
    while i < entries.len()
        invariant
            entries@ == es,
            es == board.spec_entries(),
            king == (Piece { side, kind: PieceKind::King }),
            i <= es.len(),
            crate::board::spec_sorted_entries(es),
            forall|j: int|
                0 <= j < es.len() ==> board@.contains_key((#[trigger] es[j]).0) && board@[es[j].0] == es[j].1,
            forall|s: Square|
                board@.contains_key(s) ==> exists|j: int| 0 <= j < es.len() && (#[trigger] es[j]).0 == s,
            found matches None ==> forall|j: int| 0 <= j < i ==> (#[trigger] es[j]).1 != king,
            found matches Some(f) ==> f < i && es[f as int].1 == king && forall|j: int|
                0 <= j < i && j != f ==> (#[trigger] es[j]).1 != king,
        decreases es.len() - i,
    {
        if entries[i].1 == king {
            match found {
                Some(f) => {
                    proof {
                        assert(es[f as int].0.spec_precedes(es[i as int].0));
                        assert(spec_piece_on(board@, es[f as int].0) == Some(king));
                        assert(spec_piece_on(board@, es[i as int].0) == Some(king));
                    }
                    return Err(FenError::MultipleKings(side));
                },
                None => {
                    found = Some(i);
                },
            }
        }
        i = i + 1;
    }
    match found {
        None => {
            proof {
                assert forall|s: Square| #[trigger] spec_piece_on(board@, s) != Some(king) by {
                    if board@.contains_key(s) {
                        let j = choose|j: int| 0 <= j < es.len() && (#[trigger] es[j]).0 == s;
                        assert(es[j].1 != king);
                    }
                }
            }
            Err(FenError::MissingKing(side))
        },
        Some(f) => {
            proof {
                assert(spec_piece_on(board@, es[f as int].0) == Some(king));
                assert forall|s: Square| #[trigger] spec_piece_on(board@, s) == Some(king) implies s == es[f as int].0 by {
                    let j = choose|j: int| 0 <= j < es.len() && (#[trigger] es[j]).0 == s;
                    assert(es[j].1 == king);
                }
            }
            Ok(())
        },
    }
}

impl GameState {
    /// Reads a game from FEN text; its history holds the position read and nothing else.
    pub fn from_fen(fen: &str) -> (r: Result<GameState, FenError>)
        ensures
            match r {
                Ok(game) => spec_from_fen(fen@) == Ok::<Position, FenFault>(game@),
                Err(e) => spec_from_fen(fen@) == Err::<Position, FenFault>(e@),
            },
    {
        let fields = split_whitespace(fen);
        if fields.len() != 6 {
            return Err(FenError::InvalidFieldCount);
        }
        let ghost words = spec_words(fen@);
        assert(forall|k: int| 0 <= k < 6 ==> words[k] == (#[trigger] fields@[k])@);
        let board = match parse_board(fields[0].as_str()) {
            Ok(board) => board,
            Err(reason) => {
                return Err(FenError::InvalidBoard(reason));
            },
        };
        match validate_king_count(&board, Side::White) {
            Ok(()) => {},
            Err(e) => {
                return Err(e);
            },
        }
        match validate_king_count(&board, Side::Black) {
            Ok(()) => {},
            Err(e) => {
                return Err(e);
            },
        }
        let side_to_move = match parse_side_to_move(fields[1].as_str()) {
            Some(side) => side,
            None => {
                return Err(FenError::InvalidSideToMove);
            },
        };
        let castling_rights = match parse_castling_rights(fields[2].as_str()) {
            Some(rights) => rights,
            None => {
                return Err(FenError::InvalidCastlingRights);
            },
        };
        let en_passant_target = match parse_en_passant_target(fields[3].as_str()) {
            Some(target) => target,
            None => {
                return Err(FenError::InvalidEnPassantTarget);
            },
        };
        let halfmove_clock = match parse_u16(fields[4].as_str()) {
            Some(value) => value,
            None => {
                return Err(FenError::InvalidHalfmoveClock);
            },
        };
        let fullmove_number = match parse_u16(fields[5].as_str()) {
            Some(value) => value,
            None => {
                return Err(FenError::InvalidFullmoveNumber);
            },
        };
        if fullmove_number == 0 {
            return Err(FenError::InvalidFullmoveNumber);
        }
        Ok(
            GameState::from_parts(
                board,
                side_to_move,
                castling_rights,
                en_passant_target,
                halfmove_clock,
                fullmove_number,
                Vec::new(),
            ),
        )
    }
}

} // verus!
