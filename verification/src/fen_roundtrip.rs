//! Reading back the FEN text of a position gives the position back.
use vstd::prelude::*;

use crate::board::spec_piece_on;
use crate::castling::{spec_no_rights, CastlingRights};
use crate::game::fen::{
    spec_all_digits, spec_castling_from, spec_digit_value, spec_digits_value, spec_is_digit, spec_parse_castling,
    spec_from_fen, spec_king_fault, spec_parse_board, spec_parse_en_passant, spec_parse_rank, spec_parse_ranks,
    spec_parse_side, spec_parse_u16, spec_unsigned_digits, FenFault,
};
use crate::pieces::{spec_fen_char, spec_piece_from_fen, Piece, PieceKind, Side};
use crate::rules::{
    spec_board_fen, spec_fen, spec_on_board, spec_position_key, spec_rank_fen_from,
    spec_ranks_fen, spec_square_text, Position,
};
use crate::square::{lemma_algebraic_roundtrip, Square};
use crate::game::play::{spec_play, spec_played};
use crate::game::spec_starting_position;
use crate::laws::{law_en_passant_rank, law_fullmove_number, lemma_board_finite, lemma_king_fault_count};
use crate::mv::{Move, MoveError};
use crate::testing::soundness::{lemma_line_sound, lemma_on_board_next, lemma_start_sound};
use crate::text::{
    spec_decimal, spec_digit,
    lemma_split_cons, lemma_split_single, lemma_words_cons, lemma_words_single, spec_free_of, spec_is_whitespace,
    spec_no_whitespace, spec_split, spec_words,
};

verus! {

/// The decimal text of a number is a non-empty run of digits worth that number.
pub proof fn lemma_decimal_digits(n: nat)
    ensures
        spec_decimal(n).len() > 0,
        spec_all_digits(spec_decimal(n)),
        spec_digits_value(spec_decimal(n)) == n,
    decreases n,
{
    if n >= 10 {
        lemma_decimal_digits(n / 10);
        let d = spec_decimal(n);
        let last = spec_digit((n % 10) as int);
        assert(d == spec_decimal(n / 10).push(last));
        assert(d.drop_last() =~= spec_decimal(n / 10));
        assert(spec_digit_value(last) == n % 10);
        assert((n / 10) * 10 + n % 10 == n) by (nonlinear_arith);
        assert(spec_digits_value(d) == spec_digits_value(spec_decimal(n / 10)) * 10 + spec_digit_value(last));
        assert forall|k: int| 0 <= k < d.len() implies spec_is_digit(#[trigger] d[k]) by {
            if k < d.len() - 1 {
                assert(d[k] == spec_decimal(n / 10)[k]);
            }
        }
    } else {
        let d = spec_decimal(n);
        assert(d == seq![spec_digit(n as int)]);
        assert(d.drop_last() =~= Seq::<char>::empty());
        assert(spec_digit_value(spec_digit(n as int)) == n);
        assert(spec_digits_value(d) == spec_digits_value(Seq::<char>::empty()) * 10 + spec_digit_value(d.last()));
    }
}

/// Reading the decimal text of a 16-bit number gives the number back.
pub proof fn lemma_u16_roundtrip(n: u16)
    ensures
        spec_parse_u16(spec_decimal(n as nat)) == Some(n),
{
    let d = spec_decimal(n as nat);
    lemma_decimal_digits(n as nat);
    assert(spec_is_digit(d[0]));
    assert(spec_unsigned_digits(d) == d);
}

/// Reading the castling field that a set of rights writes gives the rights back.
pub proof fn lemma_castling_roundtrip(rights: CastlingRights)
    ensures
        spec_parse_castling(rights.spec_fen()) == Some(rights),
{
    reveal_with_fuel(spec_castling_from, 5);
    let t = rights.spec_fen();
    if !rights.white_kingside && !rights.white_queenside && !rights.black_kingside && !rights.black_queenside {
        assert(t =~= seq!['-']);
    } else {
        assert(t != seq!['-']) by {
            if t == seq!['-'] {
                assert(t[0] == '-');
            }
        }
    }
}

/// Reading the side-to-move token gives the side back.
pub proof fn lemma_side_roundtrip(side: Side)
    ensures
        spec_parse_side(seq![side.spec_fen_token()]) == Some(side),
{
    assert(seq!['w'] != seq!['b']) by {
        assert(seq!['w'][0] != seq!['b'][0]);
    }
}

/// Reading the en-passant field gives the target back, for targets on the third or sixth rank.
pub proof fn lemma_en_passant_roundtrip(target: Option<Square>)
    requires
        target matches Some(t) ==> t.spec_is_on_board() && (t.rank == 2 || t.rank == 5),
    ensures
        spec_parse_en_passant(spec_square_text(target)) == Some(target),
{
    if let Some(t) = target {
        lemma_algebraic_roundtrip(t);
        assert(t.spec_algebraic() != seq!['-']) by {
            assert(t.spec_algebraic().len() == 2);
        }
    }
}

/// A character that can appear in a FEN board field.
pub open spec fn spec_board_char(c: char) -> bool {
    ||| ('1' <= c && c <= '8')
    ||| c == 'K' || c == 'Q' || c == 'R' || c == 'B' || c == 'N' || c == 'P'
    ||| c == 'k' || c == 'q' || c == 'r' || c == 'b' || c == 'n' || c == 'p'
}

/// The FEN character of a piece is a board character that reads back as the piece.
pub proof fn lemma_fen_char(p: Piece)
    ensures
        spec_board_char(spec_fen_char(p)),
        !spec_is_digit(spec_fen_char(p)),
        spec_piece_from_fen(spec_fen_char(p)) == Some(p),
{
}

/// Board characters are neither white space nor `/`.
pub proof fn lemma_board_char(c: char)
    requires
        spec_board_char(c),
    ensures
        !spec_is_whitespace(c),
        c != '/',
{
}

/// Every character of the FEN text of files `file..8` of a rank is a board character.
pub proof fn lemma_rank_text_chars(board: Map<Square, Piece>, rank: int, file: int, run: int)
    requires
        0 <= run <= file <= 8,
    ensures
        forall|k: int|
            0 <= k < spec_rank_fen_from(board, rank, file, run).len() ==> spec_board_char(
                #[trigger] spec_rank_fen_from(board, rank, file, run)[k],
            ),
    decreases 8 - file,
{
    let t = spec_rank_fen_from(board, rank, file, run);
    let pending = if run > 0 { seq![spec_digit(run)] } else { Seq::<char>::empty() };
    if run > 0 {
        assert(spec_digit_value(spec_digit(run)) == run);
        assert(spec_board_char(spec_digit(run)));
    }
    if file >= 8 {
        assert(t == pending);
        assert forall|k: int| 0 <= k < t.len() implies spec_board_char(#[trigger] t[k]) by {
            assert(t[k] == pending[k]);
        }
    } else {
        match spec_piece_on(board, Square { file: file as u8, rank: rank as u8 }) {
            Some(p) => {
                lemma_rank_text_chars(board, rank, file + 1, 0);
                lemma_fen_char(p);
                let rest = spec_rank_fen_from(board, rank, file + 1, 0);
                assert(t == pending + seq![spec_fen_char(p)] + rest);
                assert forall|k: int| 0 <= k < t.len() implies spec_board_char(#[trigger] t[k]) by {
                    if k >= pending.len() + 1 {
                        assert(t[k] == rest[k - pending.len() - 1]);
                    }
                }
            },
            None => {
                lemma_rank_text_chars(board, rank, file + 1, run + 1);
                assert(t == spec_rank_fen_from(board, rank, file + 1, run + 1));
            },
        }
    }
}

/// A character of a FEN board field: a board character or the rank separator.
pub open spec fn spec_field_char(c: char) -> bool {
    spec_board_char(c) || c == '/'
}

/// The FEN texts of ranks `r` down to 1, the text of rank `r` first.
pub open spec fn spec_rank_texts(board: Map<Square, Piece>, r: int) -> Seq<Seq<char>>
    decreases r,
{
    if r <= 0 {
        seq![spec_rank_fen_from(board, 0, 0, 0)]
    } else {
        seq![spec_rank_fen_from(board, r, 0, 0)] + spec_rank_texts(board, r - 1)
    }
}

/// The board field of ranks `r` down to 1 splits at `/` into the ranks' texts, and consists
/// of field characters.
pub proof fn lemma_ranks_split(board: Map<Square, Piece>, r: int)
    requires
        0 <= r,
    ensures
        spec_split(spec_ranks_fen(board, r), '/') == spec_rank_texts(board, r),
        spec_rank_texts(board, r).len() == r + 1,
        forall|j: int| 0 <= j <= r ==> #[trigger] spec_rank_texts(board, r)[j] == spec_rank_fen_from(board, r - j, 0, 0),
        forall|k: int|
            0 <= k < spec_ranks_fen(board, r).len() ==> spec_field_char(#[trigger] spec_ranks_fen(board, r)[k]),
    decreases r,
{
    let head = spec_rank_fen_from(board, r, 0, 0);
    lemma_rank_text_chars(board, r, 0, 0);
    assert(spec_free_of(head, '/')) by {
        assert forall|k: int| 0 <= k < head.len() implies #[trigger] head[k] != '/' by {
            lemma_board_char(head[k]);
        }
    }
    if r <= 0 {
        lemma_split_single(head, '/');
    } else {
        lemma_ranks_split(board, r - 1);
        let rest = spec_ranks_fen(board, r - 1);
        lemma_split_cons(head, '/', rest);
        let t = spec_ranks_fen(board, r);
        assert(t == head + seq!['/'] + rest);
        assert forall|k: int| 0 <= k < t.len() implies spec_field_char(#[trigger] t[k]) by {
            if k > head.len() {
                assert(t[k] == rest[k - head.len() - 1]);
            } else if k < head.len() {
                assert(t[k] == head[k]);
            }
        }
        assert forall|j: int| 0 <= j <= r implies #[trigger] spec_rank_texts(board, r)[j] == spec_rank_fen_from(
            board,
            r - j,
            0,
            0,
        ) by {
            if j > 0 {
                assert(spec_rank_texts(board, r)[j] == spec_rank_texts(board, r - 1)[j - 1]);
            }
        }
    }
}

/// Reading a rank looks only at the characters from position `i` on.
pub proof fn lemma_parse_rank_shift(
    a: Seq<char>,
    t: Seq<char>,
    rank: int,
    i: int,
    file: int,
    acc: Map<Square, Piece>,
)
    requires
        0 <= i <= t.len(),
    ensures
        spec_parse_rank(a + t, rank, a.len() + i, file, acc) == spec_parse_rank(t, rank, i, file, acc),
    decreases t.len() - i,
{
    if i < t.len() {
        let c = t[i];
        assert((a + t)[a.len() + i] == c);
        if spec_is_digit(c) {
            let skip = spec_digit_value(c);
            let next = if file + skip > 255 { 255 } else { file + skip };
            lemma_parse_rank_shift(a, t, rank, i + 1, next, acc);
        } else if let Some(piece) = spec_piece_from_fen(c) {
            lemma_parse_rank_shift(
                a,
                t,
                rank,
                i + 1,
                file + 1,
                acc.insert(Square { file: file as u8, rank: rank as u8 }, piece),
            );
        }
    }
}

/// Whether `s` is one of the squares of `rank` from file `file` on that hold a piece.
pub open spec fn spec_in_rank_from(board: Map<Square, Piece>, rank: int, file: int, s: Square) -> bool {
    s.rank == rank && s.file >= file && board.contains_key(s)
}

/// `acc` with the pieces of `rank` from file `file` on placed as on `board`.
pub open spec fn spec_rank_merge(acc: Map<Square, Piece>, board: Map<Square, Piece>, rank: int, file: int) -> Map<
    Square,
    Piece,
> {
    Map::new(
        |s: Square| acc.contains_key(s) || spec_in_rank_from(board, rank, file, s),
        |s: Square|
            if spec_in_rank_from(board, rank, file, s) {
                board[s]
            } else {
                acc[s]
            },
    )
}

/// Reading the FEN text of files `file..8` of a rank, `run` empty files pending before them,
/// places that rank's pieces as they stand on the board.
pub proof fn lemma_parse_rank_text(board: Map<Square, Piece>, rank: int, file: int, run: int, acc: Map<Square, Piece>)
    requires
        0 <= rank < 8,
        0 <= run <= file <= 8,
        forall|s: Square| #[trigger] board.contains_key(s) ==> s.spec_is_on_board(),
        forall|f: int|
            file - run <= f < file ==> !(#[trigger] board.contains_key(Square { file: f as u8, rank: rank as u8 })),
    ensures
        spec_parse_rank(spec_rank_fen_from(board, rank, file, run), rank, 0, file - run, acc) == Ok::<
            Map<Square, Piece>,
            Seq<char>,
        >(spec_rank_merge(acc, board, rank, file)),
    decreases 8 - file,
{
    let t = spec_rank_fen_from(board, rank, file, run);
    let pending = if run > 0 { seq![spec_digit(run)] } else { Seq::<char>::empty() };
    if file >= 8 {
        assert(spec_rank_merge(acc, board, rank, file) =~= acc);
        assert(t == pending);
        if run > 0 {
            assert(spec_digit_value(spec_digit(run)) == run);
            assert(spec_parse_rank(t, rank, 1, 8, acc) == Ok::<Map<Square, Piece>, Seq<char>>(acc));
        }
    } else {
        let sq = Square { file: file as u8, rank: rank as u8 };
        match spec_piece_on(board, sq) {
            Some(p) => {
                lemma_fen_char(p);
                let c = spec_fen_char(p);
                let rest = spec_rank_fen_from(board, rank, file + 1, 0);
                let acc2 = acc.insert(sq, p);
                assert(t == pending + seq![c] + rest);
                lemma_parse_rank_text(board, rank, file + 1, 0, acc2);
                lemma_parse_rank_shift(pending + seq![c], rest, rank, 0, file + 1, acc2);
                assert((pending + seq![c]).len() + 0 == pending.len() + 1);
                assert(t[pending.len() as int] == c);
                if run > 0 {
                    assert(t[0] == spec_digit(run));
                    assert(spec_digit_value(spec_digit(run)) == run);
                    assert(spec_parse_rank(t, rank, 0, file - run, acc) == spec_parse_rank(t, rank, 1, file, acc));
                }
                assert(spec_parse_rank(t, rank, pending.len() as int, file, acc) == spec_parse_rank(
                    t,
                    rank,
                    pending.len() + 1int,
                    file + 1,
                    acc2,
                ));
                assert(spec_rank_merge(acc2, board, rank, file + 1) =~= spec_rank_merge(acc, board, rank, file));
            },
            None => {
                lemma_parse_rank_text(board, rank, file + 1, run + 1, acc);
                assert(spec_rank_merge(acc, board, rank, file + 1) =~= spec_rank_merge(acc, board, rank, file));
            },
        }
    }
}

/// The pieces of `board` on ranks `lo` and above.
pub open spec fn spec_upper_ranks(board: Map<Square, Piece>, lo: int) -> Map<Square, Piece> {
    Map::new(|s: Square| board.contains_key(s) && s.rank >= lo, |s: Square| board[s])
}

/// Reading the rank texts of a board from the `index`-th on, the ranks above already placed,
/// gives the board.
pub proof fn lemma_parse_ranks_text(board: Map<Square, Piece>, index: int)
    requires
        0 <= index <= 8,
        forall|s: Square| #[trigger] board.contains_key(s) ==> s.spec_is_on_board(),
    ensures
        spec_parse_ranks(spec_rank_texts(board, 7), index, spec_upper_ranks(board, 8 - index)) == Ok::<
            Map<Square, Piece>,
            Seq<char>,
        >(board),
    decreases 8 - index,
{
    lemma_ranks_split(board, 7);
    if index >= 8 {
        assert(spec_upper_ranks(board, 0) =~= board);
    } else {
        let rank = 7 - index;
        let acc = spec_upper_ranks(board, 8 - index);
        assert(spec_rank_texts(board, 7)[index] == spec_rank_fen_from(board, rank, 0, 0));
        lemma_parse_rank_text(board, rank, 0, 0, acc);
        assert(spec_rank_merge(acc, board, rank, 0) =~= spec_upper_ranks(board, 8 - (index + 1)));
        lemma_parse_ranks_text(board, index + 1);
    }
}

/// Reading the FEN board field of a board gives the board back; the field is a single word.
pub proof fn lemma_board_roundtrip(board: Map<Square, Piece>)
    requires
        forall|s: Square| #[trigger] board.contains_key(s) ==> s.spec_is_on_board(),
    ensures
        spec_parse_board(spec_board_fen(board)) == Ok::<Map<Square, Piece>, Seq<char>>(board),
        spec_no_whitespace(spec_board_fen(board)),
        spec_board_fen(board).len() > 0,
{
    let t = spec_board_fen(board);
    lemma_ranks_split(board, 7);
    lemma_parse_ranks_text(board, 0);
    assert(spec_upper_ranks(board, 8) =~= Map::<Square, Piece>::empty());
    assert forall|k: int| 0 <= k < t.len() implies !spec_is_whitespace(#[trigger] t[k]) by {
        if t[k] != '/' {
            lemma_board_char(t[k]);
        }
    }
    assert(t == spec_rank_fen_from(board, 7, 0, 0) + seq!['/'] + spec_ranks_fen(board, 6));
}

/// A run of digits has no white space.
pub proof fn lemma_digits_no_whitespace(t: Seq<char>)
    requires
        spec_all_digits(t),
    ensures
        spec_no_whitespace(t),
{
    assert forall|k: int| 0 <= k < t.len() implies !spec_is_whitespace(#[trigger] t[k]) by {
        assert(spec_is_digit(t[k]));
    }
}

/// The castling field is a non-empty word.
pub proof fn lemma_castling_word(rights: CastlingRights)
    ensures
        spec_no_whitespace(rights.spec_fen()),
        rights.spec_fen().len() > 0,
{
    let t = rights.spec_fen();
    assert forall|k: int| 0 <= k < t.len() implies !spec_is_whitespace(#[trigger] t[k]) by {
        assert(t[k] == 'K' || t[k] == 'Q' || t[k] == 'k' || t[k] == 'q' || t[k] == '-');
    }
}

/// The en-passant field is a non-empty word.
pub proof fn lemma_square_text_word(target: Option<Square>)
    requires
        target matches Some(t) ==> t.spec_is_on_board(),
    ensures
        spec_no_whitespace(spec_square_text(target)),
        spec_square_text(target).len() > 0,
{
    let t = spec_square_text(target);
    assert forall|k: int| 0 <= k < t.len() implies !spec_is_whitespace(#[trigger] t[k]) by {
        if let Some(sq) = target {
            assert(k == 0 || k == 1);
            assert(97 <= t[0] as int && t[0] as int <= 104);
            assert(49 <= t[1] as int && t[1] as int <= 56);
        }
    }
}

/// Six fields joined by single spaces.
pub open spec fn spec_six_fields(
    a: Seq<char>,
    b: Seq<char>,
    c: Seq<char>,
    d: Seq<char>,
    e: Seq<char>,
    f: Seq<char>,
) -> Seq<char> {
    let f5 = e + seq![' '] + f;
    let f4 = d + seq![' '] + f5;
    let f3 = c + seq![' '] + f4;
    let f2 = b + seq![' '] + f3;
    a + seq![' '] + f2
}

/// Six non-empty words joined by single spaces split back into the six words.
proof fn lemma_six_words(
    a: Seq<char>,
    b: Seq<char>,
    c: Seq<char>,
    d: Seq<char>,
    e: Seq<char>,
    f: Seq<char>,
)
    requires
        a.len() > 0 && spec_no_whitespace(a),
        b.len() > 0 && spec_no_whitespace(b),
        c.len() > 0 && spec_no_whitespace(c),
        d.len() > 0 && spec_no_whitespace(d),
        e.len() > 0 && spec_no_whitespace(e),
        f.len() > 0 && spec_no_whitespace(f),
    ensures
        spec_words(spec_six_fields(a, b, c, d, e, f)) == seq![a, b, c, d, e, f],
{
    let f5 = e + seq![' '] + f;
    let f4 = d + seq![' '] + f5;
    let f3 = c + seq![' '] + f4;
    let f2 = b + seq![' '] + f3;
    lemma_words_cons(a, f2);
    lemma_words_cons(b, f3);
    lemma_words_cons(c, f4);
    lemma_words_cons(d, f5);
    lemma_words_cons(e, f);
    lemma_words_single(f);
    let w5 = seq![e] + seq![f];
    let w4 = seq![d] + w5;
    let w3 = seq![c] + w4;
    let w2 = seq![b] + w3;
    assert(seq![a] + w2 =~= seq![a, b, c, d, e, f]);
}

/// The FEN text of a position splits into its six fields.
#[verifier::rlimit(30)]
pub proof fn lemma_fen_fields(pos: Position)
    requires
        spec_on_board(pos),
    ensures
        spec_words(spec_fen(pos)) == seq![
            spec_board_fen(pos.board),
            seq![pos.side_to_move.spec_fen_token()],
            pos.castling_rights.spec_fen(),
            spec_square_text(pos.en_passant_target),
            spec_decimal(pos.halfmove_clock as nat),
            spec_decimal(pos.fullmove_number as nat),
        ],
{
    let board = spec_board_fen(pos.board);
    let tok = seq![pos.side_to_move.spec_fen_token()];
    let cast = pos.castling_rights.spec_fen();
    let sq = spec_square_text(pos.en_passant_target);
    let half = spec_decimal(pos.halfmove_clock as nat);
    let full = spec_decimal(pos.fullmove_number as nat);
    assert(spec_fen(pos) =~= spec_six_fields(board, tok, cast, sq, half, full));
    lemma_board_roundtrip(pos.board);
    lemma_castling_word(pos.castling_rights);
    lemma_square_text_word(pos.en_passant_target);
    lemma_decimal_digits(pos.halfmove_clock as nat);
    lemma_decimal_digits(pos.fullmove_number as nat);
    lemma_digits_no_whitespace(half);
    lemma_digits_no_whitespace(full);
    assert(spec_no_whitespace(tok)) by {
        assert forall|k: int| 0 <= k < tok.len() implies !spec_is_whitespace(#[trigger] tok[k]) by {
            assert(tok[k] == 'w' || tok[k] == 'b');
        }
    }
    lemma_six_words(board, tok, cast, sq, half, full);
}

/// What a position needs, besides one king of each side, for its FEN text to read back: every
/// piece on the board, an en-passant target on the third or sixth rank if any, and a fullmove
/// number of at least one.
pub open spec fn spec_fen_ready(pos: Position) -> bool {
    &&& spec_on_board(pos)
    &&& pos.en_passant_target matches Some(t) ==> t.rank == 2 || t.rank == 5
    &&& pos.fullmove_number >= 1
}

/// Reading the FEN text of a position gives back its board, side to move, castling rights,
/// en-passant target and clocks, with the position read as the whole history. This holds for
/// every position with one king of each side, an en-passant target on the third or sixth
/// rank if any, and a fullmove number of at least one.
pub proof fn law_fen_roundtrip(pos: Position)
    requires
        spec_fen_ready(pos),
        spec_king_fault(pos.board, Side::White) == None::<FenFault>,
        spec_king_fault(pos.board, Side::Black) == None::<FenFault>,
    ensures
        spec_from_fen(spec_fen(pos)) == Ok::<Position, FenFault>(
            Position { history: seq![spec_position_key(pos)], ..pos },
        ),
{
    let fields = spec_words(spec_fen(pos));
    lemma_fen_fields(pos);
    assert(fields.len() == 6);
    lemma_board_roundtrip(pos.board);
    assert(spec_parse_board(fields[0]) == Ok::<Map<Square, Piece>, Seq<char>>(pos.board));
    lemma_side_roundtrip(pos.side_to_move);
    assert(spec_parse_side(fields[1]) == Some(pos.side_to_move));
    lemma_castling_roundtrip(pos.castling_rights);
    assert(spec_parse_castling(fields[2]) == Some(pos.castling_rights));
    lemma_en_passant_roundtrip(pos.en_passant_target);
    assert(spec_parse_en_passant(fields[3]) == Some(pos.en_passant_target));
    lemma_u16_roundtrip(pos.halfmove_clock);
    assert(spec_parse_u16(fields[4]) == Some(pos.halfmove_clock));
    lemma_u16_roundtrip(pos.fullmove_number);
    assert(spec_parse_u16(fields[5]) == Some(pos.fullmove_number));
    let core = Position { history: Seq::empty(), ..pos };
    assert(spec_position_key(core) == spec_position_key(pos));
}

/// Reading a rank of a board field onto a board whose pieces all stand on the board keeps
/// them all on the board.
proof fn lemma_parse_rank_on_board(t: Seq<char>, rank: int, i: int, file: int, board: Map<Square, Piece>)
    requires
        0 <= rank < 8,
        0 <= file,
        forall|s: Square| #[trigger] board.contains_key(s) ==> s.spec_is_on_board(),
    ensures
        spec_parse_rank(t, rank, i, file, board) matches Ok(b) ==> forall|s: Square| #[trigger] b.contains_key(s)
            ==> s.spec_is_on_board(),
    decreases t.len() - i,
{
    if i < t.len() {
        if spec_is_digit(t[i]) {
            let skip = spec_digit_value(t[i]);
            if 1 <= skip && skip <= 8 {
                let next = if file + skip > 255 {
                    255
                } else {
                    file + skip
                };
                lemma_parse_rank_on_board(t, rank, i + 1, next, board);
            }
        } else if let Some(piece) = spec_piece_from_fen(t[i]) {
            if file < 8 {
                let placed = board.insert(Square { file: file as u8, rank: rank as u8 }, piece);
                lemma_parse_rank_on_board(t, rank, i + 1, file + 1, placed);
            }
        }
    }
}

/// Reading the ranks of a board field keeps every piece on the board.
proof fn lemma_parse_ranks_on_board(ranks: Seq<Seq<char>>, index: int, board: Map<Square, Piece>)
    requires
        0 <= index,
        forall|s: Square| #[trigger] board.contains_key(s) ==> s.spec_is_on_board(),
    ensures
        spec_parse_ranks(ranks, index, board) matches Ok(b) ==> forall|s: Square| #[trigger] b.contains_key(s)
            ==> s.spec_is_on_board(),
    decreases 8 - index,
{
    if index < 8 {
        lemma_parse_rank_on_board(ranks[index], 7 - index, 0, 0, board);
        if let Ok(next) = spec_parse_rank(ranks[index], 7 - index, 0, 0, board) {
            lemma_parse_ranks_on_board(ranks, index + 1, next);
        }
    }
}

/// A position read from FEN text is ready to be written back: the board, the en-passant
/// target and the fullmove number are all as the text format allows.
pub proof fn lemma_read_position_ready(text: Seq<char>)
    requires
        spec_from_fen(text) is Ok,
    ensures
        spec_fen_ready(spec_from_fen(text)->Ok_0),
        spec_king_fault(spec_from_fen(text)->Ok_0.board, Side::White) is None,
        spec_king_fault(spec_from_fen(text)->Ok_0.board, Side::Black) is None,
{
    let fields = spec_words(text);
    lemma_parse_ranks_on_board(spec_split(fields[0], '/'), 0, Map::empty());
}

/// The starting position is ready to be written back.
pub proof fn lemma_start_ready()
    ensures
        spec_fen_ready(spec_starting_position()),
{
}

/// Play keeps a position ready to be written back.
pub proof fn lemma_play_keeps_ready(pos: Position, m: Move, next: Position)
    requires
        spec_fen_ready(pos),
        spec_play(pos, m) == Ok::<Position, MoveError>(next),
    ensures
        spec_fen_ready(next),
{
    lemma_on_board_next(pos, m, next);
    law_en_passant_rank(pos, m, next);
    law_fullmove_number(pos, m, next);
}

/// A line of moves played from a ready position ends in a ready position.
proof fn lemma_line_keeps_ready(start: Position, moves: Seq<Move>)
    requires
        spec_fen_ready(start),
        spec_played(start, moves) is Some,
    ensures
        spec_fen_ready(spec_played(start, moves).unwrap()),
    decreases moves.len(),
{
    if moves.len() > 0 {
        lemma_line_keeps_ready(start, moves.drop_last());
        lemma_play_keeps_ready(
            spec_played(start, moves.drop_last()).unwrap(),
            moves.last(),
            spec_played(start, moves).unwrap(),
        );
    }
}

/// Every position that play reaches from the starting position, or from a position read from
/// FEN text, reads back from its own FEN text as long as each side still has one king: board,
/// side to move, castling rights, en-passant target and clocks come back, with the position
/// read as the whole history.
pub proof fn law_fen_roundtrip_after_play(start: Position, moves: Seq<Move>)
    requires
        start == spec_starting_position() || exists|text: Seq<char>| spec_from_fen(text) == Ok::<Position, FenFault>(start),
        spec_played(start, moves) is Some,
        spec_king_fault(spec_played(start, moves).unwrap().board, Side::White) is None,
        spec_king_fault(spec_played(start, moves).unwrap().board, Side::Black) is None,
    ensures
        spec_from_fen(spec_fen(spec_played(start, moves).unwrap())) == Ok::<Position, FenFault>(
            Position { history: seq![spec_position_key(spec_played(start, moves).unwrap())], ..spec_played(start, moves).unwrap() },
        ),
{
    if start == spec_starting_position() {
        lemma_start_ready();
    } else {
        let text = choose|text: Seq<char>| spec_from_fen(text) == Ok::<Position, FenFault>(start);
        lemma_read_position_ready(text);
    }
    lemma_line_keeps_ready(start, moves);
    law_fen_roundtrip(spec_played(start, moves).unwrap());
}

/// Every position that play reaches from the starting position reads back from its own FEN
/// text: board, side to move, castling rights, en-passant target and clocks come back, with the
/// position read as the whole history.
pub proof fn law_start_line_fen_roundtrip(moves: Seq<Move>)
    requires
        spec_played(spec_starting_position(), moves) is Some,
    ensures
        spec_from_fen(spec_fen(spec_played(spec_starting_position(), moves).unwrap())) == Ok::<Position, FenFault>(
            Position {
                history: seq![spec_position_key(spec_played(spec_starting_position(), moves).unwrap())],
                ..spec_played(spec_starting_position(), moves).unwrap()
            },
        ),
{
    let start = spec_starting_position();
    lemma_start_sound();
    lemma_line_sound(start, moves);
    let p = spec_played(start, moves).unwrap();
    lemma_board_finite(p.board);
    lemma_king_fault_count(p.board, Side::White);
    lemma_king_fault_count(p.board, Side::Black);
    law_fen_roundtrip_after_play(start, moves);
}

} // verus!
