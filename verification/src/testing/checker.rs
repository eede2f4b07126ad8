//! The invariant checker run after every move of an automated game: it reports each rule that
//! the position after a move breaks.
use vstd::prelude::*;

use crate::board::{spec_count_of, spec_king_square, spec_piece_on};
use crate::castling::CastlingRights;
use crate::game::GameState;
use crate::game::play::spec_play;
use crate::laws::{
    law_castling_rights_never_grow, law_en_passant_rank, law_fullmove_number, law_halfmove_clock,
    law_history_records_position, law_mover_not_in_check, law_no_king_capture, law_one_king_each, law_piece_count, lemma_accepted,
    lemma_board_finite, lemma_single_king,
};
use crate::mv::MoveError;
use crate::mv::Move;
use crate::pieces::{Piece, PieceKind, Side};
use crate::rules::{spec_in_check, spec_on_board, Position};
use crate::text::{push_decimal, push_text, spec_decimal};

verus! {

/// The rule a violation breaks.
#[derive(Debug, Clone, Copy, PartialEq, Eq, Structural)]
pub enum ViolationKind {
    KingInCheck,
    KingCountInvalid,
    PieceCountInconsistent,
    CastlingRightsIncreased,
    EnPassantInvalid,
    HalfmoveClockWrong,
    FullmoveNumberWrong,
    PositionHistoryInconsistent,
    LegalMoveRejected,
}

/// A broken rule, with a description of how it broke.
#[derive(Debug, Clone, PartialEq, Eq)]
pub struct Violation {
    pub kind: ViolationKind,
    pub description: String,
}

impl View for Violation {
    type V = (ViolationKind, Seq<char>);

    open spec fn view(&self) -> (ViolationKind, Seq<char>) {
        (self.kind, self.description@)
    }
}

pub open spec fn spec_views(v: Seq<Violation>) -> Seq<(ViolationKind, Seq<char>)> {
    v.map_values(|x: Violation| x@)
}

pub open spec fn spec_side_name(side: Side) -> Seq<char> {
    match side {
        Side::White => "White"@,
        Side::Black => "Black"@,
    }
}

pub open spec fn spec_bool_text(b: bool) -> Seq<char> {
    if b {
        "true"@
    } else {
        "false"@
    }
}

/// The rights as the tuple `(white kingside, white queenside, black kingside, black queenside)`.
pub open spec fn spec_rights_text(r: CastlingRights) -> Seq<char> {
    "("@ + spec_bool_text(r.white_kingside) + ", "@ + spec_bool_text(r.white_queenside) + ", "@ + spec_bool_text(
        r.black_kingside,
    ) + ", "@ + spec_bool_text(r.black_queenside) + ")"@
}

pub open spec fn spec_one(kind: ViolationKind, text: Seq<char>) -> Seq<(ViolationKind, Seq<char>)> {
    seq![(kind, text)]
}

pub open spec fn spec_none() -> Seq<(ViolationKind, Seq<char>)> {
    Seq::empty()
}

/// The side that moved still has a king and it is not attacked.
pub open spec fn spec_check_king_safety(after: Position, moved: Side) -> Seq<(ViolationKind, Seq<char>)> {
    if spec_king_square(after.board, moved) is None {
        spec_one(ViolationKind::KingInCheck, spec_side_name(moved) + " king not found after move"@)
    } else if spec_in_check(after.board, moved) {
        spec_one(ViolationKind::KingInCheck, spec_side_name(moved) + " king is in check after their own move"@)
    } else {
        spec_none()
    }
}

pub open spec fn spec_check_kings_of(after: Position, side: Side) -> Seq<(ViolationKind, Seq<char>)> {
    let count = spec_count_of(after.board, Piece { side, kind: PieceKind::King });
    if count != 1 {
        spec_one(
            ViolationKind::KingCountInvalid,
            spec_side_name(side) + " has "@ + spec_decimal(count) + " kings, expected 1"@,
        )
    } else {
        spec_none()
    }
}

/// Each side has exactly one king.
pub open spec fn spec_check_king_count(after: Position) -> Seq<(ViolationKind, Seq<char>)> {
    spec_check_kings_of(after, Side::White) + spec_check_kings_of(after, Side::Black)
}

pub open spec fn spec_totals_text(before: nat, after: nat) -> Seq<char> {
    "before="@ + spec_decimal(before) + ", after="@ + spec_decimal(after)
}

/// A capture takes one piece off, any other move keeps the count, and the count never grows.
pub open spec fn spec_check_piece_counts(before: Position, m: Move, after: Position) -> Seq<(ViolationKind, Seq<char>)> {
    let bt = before.board.dom().len();
    let at = after.board.dom().len();
    let moved = spec_piece_on(before.board, m.from).unwrap();
    let is_capture = spec_piece_on(before.board, m.to) is Some;
    let is_en_passant = moved.kind == PieceKind::Pawn && before.en_passant_target == Some(m.to) && !is_capture;
    let first = if is_capture || is_en_passant {
        if at != bt - 1 {
            spec_one(
                ViolationKind::PieceCountInconsistent,
                "capture should reduce total pieces by 1: "@ + spec_totals_text(bt, at),
            )
        } else {
            spec_none()
        }
    } else if m.promotion is Some {
        if at != bt {
            spec_one(
                ViolationKind::PieceCountInconsistent,
                "promotion (no capture) should keep total pieces: "@ + spec_totals_text(bt, at),
            )
        } else {
            spec_none()
        }
    } else if at != bt {
        spec_one(
            ViolationKind::PieceCountInconsistent,
            "quiet move should keep total pieces: "@ + spec_totals_text(bt, at),
        )
    } else {
        spec_none()
    };
    let second = if at > bt {
        spec_one(
            ViolationKind::PieceCountInconsistent,
            "total piece count must never increase: "@ + spec_totals_text(bt, at),
        )
    } else {
        spec_none()
    };
    first + second
}

/// No castling right comes back.
pub open spec fn spec_check_castling(before: Position, after: Position) -> Seq<(ViolationKind, Seq<char>)> {
    if !after.castling_rights.spec_within(before.castling_rights) {
        spec_one(
            ViolationKind::CastlingRightsIncreased,
            "castling rights increased: before="@ + spec_rights_text(before.castling_rights) + ", after="@
                + spec_rights_text(after.castling_rights),
        )
    } else {
        spec_none()
    }
}

/// An en-passant target lies on the third or the sixth rank.
pub open spec fn spec_check_en_passant(after: Position) -> Seq<(ViolationKind, Seq<char>)> {
    match after.en_passant_target {
        Some(t) => if t.rank != 2 && t.rank != 5 {
            spec_one(
                ViolationKind::EnPassantInvalid,
                "en passant target "@ + t.spec_algebraic() + " has rank "@ + spec_decimal(t.rank as nat)
                    + ", expected 2 or 5"@,
            )
        } else {
            spec_none()
        },
        None => spec_none(),
    }
}

/// The halfmove clock the rules expect after `m`.
pub open spec fn spec_expected_halfmove(before: Position, m: Move) -> int {
    let moved = spec_piece_on(before.board, m.from).unwrap();
    let is_capture = spec_piece_on(before.board, m.to) is Some || (moved.kind == PieceKind::Pawn
        && before.en_passant_target == Some(m.to));
    if moved.kind == PieceKind::Pawn || is_capture {
        0
    } else {
        before.halfmove_clock + 1
    }
}

pub open spec fn spec_check_halfmove(before: Position, m: Move, after: Position) -> Seq<(ViolationKind, Seq<char>)> {
    let expected = spec_expected_halfmove(before, m);
    if after.halfmove_clock != expected {
        spec_one(
            ViolationKind::HalfmoveClockWrong,
            "halfmove clock: expected "@ + spec_decimal(expected as nat) + ", got "@ + spec_decimal(
                after.halfmove_clock as nat,
            ),
        )
    } else {
        spec_none()
    }
}

pub open spec fn spec_expected_fullmove(before: Position) -> int {
    if before.side_to_move == Side::Black {
        before.fullmove_number + 1
    } else {
        before.fullmove_number as int
    }
}

pub open spec fn spec_check_fullmove(before: Position, after: Position) -> Seq<(ViolationKind, Seq<char>)> {
    let expected = spec_expected_fullmove(before);
    if after.fullmove_number != expected {
        spec_one(
            ViolationKind::FullmoveNumberWrong,
            "fullmove number: expected "@ + spec_decimal(expected as nat) + ", got "@ + spec_decimal(
                after.fullmove_number as nat,
            ) + " (moved side: "@ + spec_side_name(before.side_to_move) + ")"@,
        )
    } else {
        spec_none()
    }
}

pub open spec fn spec_check_history(before: Position, after: Position) -> Seq<(ViolationKind, Seq<char>)> {
    let expected = before.history.len() + 1;
    if after.history.len() != expected {
        spec_one(
            ViolationKind::PositionHistoryInconsistent,
            "position history length: expected "@ + spec_decimal(expected) + ", got "@ + spec_decimal(
                after.history.len(),
            ),
        )
    } else {
        spec_none()
    }
}

/// Everything the checker reports for the move `m` from `before` to `after`, in order.
pub open spec fn spec_violations(before: Position, m: Move, after: Position) -> Seq<(ViolationKind, Seq<char>)> {
    spec_check_king_safety(after, before.side_to_move) + spec_check_king_count(after) + spec_check_piece_counts(
        before,
        m,
        after,
    ) + spec_check_castling(before, after) + spec_check_en_passant(after) + spec_check_halfmove(before, m, after)
        + spec_check_fullmove(before, after) + spec_check_history(before, after)
}

/// What the checker needs of a move: a piece on its origin, and a history that can grow by one.
pub open spec fn spec_checkable(before: Position, m: Move) -> bool {
    &&& spec_piece_on(before.board, m.from) is Some
    &&& before.history.len() + 1 <= usize::MAX
}

fn side_name(side: Side) -> (r: &'static str)
    ensures
        r@ == spec_side_name(side),
{
    match side {
        Side::White => "White",
        Side::Black => "Black",
    }
}

fn bool_text(b: bool) -> (r: &'static str)
    ensures
        r@ == spec_bool_text(b),
{
    if b {
        "true"
    } else {
        "false"
    }
}

fn rights_text(r: CastlingRights) -> (t: String)
    ensures
        t@ == spec_rights_text(r),
{
    let mut t = String::from_str("(");
    push_text(&mut t, bool_text(r.white_kingside));
    push_text(&mut t, ", ");
    push_text(&mut t, bool_text(r.white_queenside));
    push_text(&mut t, ", ");
    push_text(&mut t, bool_text(r.black_kingside));
    push_text(&mut t, ", ");
    push_text(&mut t, bool_text(r.black_queenside));
    push_text(&mut t, ")");
    t
}

fn totals_text(prefix: &str, before: u64, after: u64) -> (t: String)
    ensures
        t@ == prefix@ + spec_totals_text(before as nat, after as nat),
{
    let mut t = prefix.to_owned();
    push_text(&mut t, "before=");
    push_decimal(&mut t, before);
    push_text(&mut t, ", after=");
    push_decimal(&mut t, after);
    proof {
        assert(t@ =~= prefix@ + spec_totals_text(before as nat, after as nat));
    }
    t
}

fn report(violations: &mut Vec<Violation>, kind: ViolationKind, description: String)
    ensures
        spec_views(final(violations)@) == spec_views(old(violations)@) + spec_one(kind, description@),
{
    violations.push(Violation { kind, description });
    proof {
        assert(spec_views(final(violations)@) =~= spec_views(old(violations)@) + spec_one(kind, description@));
    }
}

fn check_king_safety(violations: &mut Vec<Violation>, before: &GameState, after: &GameState)
    ensures
        spec_views(final(violations)@) == spec_views(old(violations)@) + spec_check_king_safety(
            after@,
            before@.side_to_move,
        ),
{
    let moved_side = before.side_to_move();
    let ghost start = spec_views(violations@);
    match after.board().king_square(moved_side) {
        None => {
            let mut text = side_name(moved_side).to_owned();
            push_text(&mut text, " king not found after move");
            report(violations, ViolationKind::KingInCheck, text);
        },
        Some(_) => {
            if after.is_in_check(moved_side) {
                let mut text = side_name(moved_side).to_owned();
                push_text(&mut text, " king is in check after their own move");
                report(violations, ViolationKind::KingInCheck, text);
            }
        },
    }
    assert(spec_views(violations@) =~= start + spec_check_king_safety(after@, before@.side_to_move));
}

fn check_king_count(violations: &mut Vec<Violation>, after: &GameState)
    ensures
        spec_views(final(violations)@) == spec_views(old(violations)@) + spec_check_king_count(after@),
{
    let ghost v1 = spec_views(violations@);
    let ghost a = after@;
    let mut k: usize = 0;
    while k < 2
        invariant
            k <= 2,
            a == after@,
            spec_views(violations@) == v1 + if k == 0 {
                spec_none()
            } else if k == 1 {
                spec_check_kings_of(a, Side::White)
            } else {
                spec_check_king_count(a)
            },
        decreases 2 - k,
    {
        let side = if k == 0 { Side::White } else { Side::Black };
        let count = after.board().count_piece(Piece { side, kind: PieceKind::King });
        if count != 1 {
            let mut text = side_name(side).to_owned();
            push_text(&mut text, " has ");
            push_decimal(&mut text, count as u64);
            push_text(&mut text, " kings, expected 1");
            report(violations, ViolationKind::KingCountInvalid, text);
        }
        proof {
            if k == 0 {
                assert(spec_views(violations@) =~= v1 + spec_check_kings_of(a, Side::White));
            } else {
                assert(spec_views(violations@) =~= v1 + spec_check_king_count(a));
            }
        }
        k = k + 1;
    }
}

fn check_piece_counts(violations: &mut Vec<Violation>, before: &GameState, mv: &Move, after: &GameState)
    requires
        spec_checkable(before@, *mv),
    ensures
        spec_views(final(violations)@) == spec_views(old(violations)@) + spec_check_piece_counts(
            before@,
            *mv,
            after@,
        ),
{
    proof {
        use_type_invariant(before);
        use_type_invariant(after);
        lemma_board_finite(before@.board);
        lemma_board_finite(after@.board);
    }
    let ghost start = spec_views(violations@);
    let before_total: u64 = before.board().piece_count() as u64;
    let after_total: u64 = after.board().piece_count() as u64;
    let moved_piece = match before.piece_at(mv.from()) {
        Some(p) => p,
        None => {
            return ;
        },
    };
    let is_capture = before.piece_at(mv.to()).is_some();
    let is_en_passant = moved_piece.kind == PieceKind::Pawn && before.en_passant_target() == Some(mv.to())
        && !is_capture;
    if is_capture || is_en_passant {
        if after_total != before_total - 1 {
            report(
                violations,
                ViolationKind::PieceCountInconsistent,
                totals_text("capture should reduce total pieces by 1: ", before_total, after_total),
            );
        }
    } else if mv.promotion().is_some() {
        if after_total != before_total {
            report(
                violations,
                ViolationKind::PieceCountInconsistent,
                totals_text("promotion (no capture) should keep total pieces: ", before_total, after_total),
            );
        }
    } else if after_total != before_total {
        report(
            violations,
            ViolationKind::PieceCountInconsistent,
            totals_text("quiet move should keep total pieces: ", before_total, after_total),
        );
    }
    if after_total > before_total {
        report(
            violations,
            ViolationKind::PieceCountInconsistent,
            totals_text("total piece count must never increase: ", before_total, after_total),
        );
    }
    assert(spec_views(violations@) =~= start + spec_check_piece_counts(before@, *mv, after@));
}

fn check_castling(violations: &mut Vec<Violation>, before: &GameState, after: &GameState)
    ensures
        spec_views(final(violations)@) == spec_views(old(violations)@) + spec_check_castling(before@, after@),
{
    let ghost start = spec_views(violations@);
    let rb = before.castling_rights();
    let ra = after.castling_rights();
    if (!rb.white_kingside && ra.white_kingside) || (!rb.white_queenside && ra.white_queenside) || (
    !rb.black_kingside && ra.black_kingside) || (!rb.black_queenside && ra.black_queenside) {
        let mut text = String::from_str("castling rights increased: before=");
        let before_text = rights_text(rb);
        push_text(&mut text, before_text.as_str());
        push_text(&mut text, ", after=");
        let after_text = rights_text(ra);
        push_text(&mut text, after_text.as_str());
        report(violations, ViolationKind::CastlingRightsIncreased, text);
    }
    assert(spec_views(violations@) =~= start + spec_check_castling(before@, after@));
}

fn check_en_passant(violations: &mut Vec<Violation>, after: &GameState)
    ensures
        spec_views(final(violations)@) == spec_views(old(violations)@) + spec_check_en_passant(after@),
{
    proof {
        use_type_invariant(after);
    }
    let ghost start = spec_views(violations@);
    match after.en_passant_target() {
        Some(target) => {
            if target.rank() != 2 && target.rank() != 5 {
                let mut text = String::from_str("en passant target ");
                let name = target.to_string();
                push_text(&mut text, name.as_str());
                push_text(&mut text, " has rank ");
                push_decimal(&mut text, target.rank() as u64);
                push_text(&mut text, ", expected 2 or 5");
                report(violations, ViolationKind::EnPassantInvalid, text);
            }
        },
        None => {},
    }
    assert(spec_views(violations@) =~= start + spec_check_en_passant(after@));
}

fn check_clocks(violations: &mut Vec<Violation>, before: &GameState, mv: &Move, after: &GameState)
    requires
        spec_checkable(before@, *mv),
    ensures
        spec_views(final(violations)@) == spec_views(old(violations)@) + spec_check_halfmove(
            before@,
            *mv,
            after@,
        ) + spec_check_fullmove(before@, after@) + spec_check_history(before@, after@),
{
    let ghost start = spec_views(violations@);
    let moved_piece = match before.piece_at(mv.from()) {
        Some(p) => p,
        None => {
            return ;
        },
    };
    let is_capture = before.piece_at(mv.to()).is_some();
    let halfmove_capture = is_capture || (moved_piece.kind == PieceKind::Pawn && before.en_passant_target() == Some(
        mv.to(),
    ));
    let expected_halfmove: u32 = if moved_piece.kind == PieceKind::Pawn || halfmove_capture {
        0
    } else {
        before.halfmove_clock() as u32 + 1
    };
    if after.halfmove_clock() as u32 != expected_halfmove {
        let mut text = String::from_str("halfmove clock: expected ");
        push_decimal(&mut text, expected_halfmove as u64);
        push_text(&mut text, ", got ");
        push_decimal(&mut text, after.halfmove_clock() as u64);
        report(violations, ViolationKind::HalfmoveClockWrong, text);
    }
    let ghost v6 = spec_views(violations@);
    assert(v6 =~= start + spec_check_halfmove(before@, *mv, after@));
    let expected_fullmove: u32 = if before.side_to_move() == Side::Black {
        before.fullmove_number() as u32 + 1
    } else {
        before.fullmove_number() as u32
    };
    if after.fullmove_number() as u32 != expected_fullmove {
        let mut text = String::from_str("fullmove number: expected ");
        push_decimal(&mut text, expected_fullmove as u64);
        push_text(&mut text, ", got ");
        push_decimal(&mut text, after.fullmove_number() as u64);
        push_text(&mut text, " (moved side: ");
        push_text(&mut text, side_name(before.side_to_move()));
        push_text(&mut text, ")");
        report(violations, ViolationKind::FullmoveNumberWrong, text);
    }
    let ghost v7 = spec_views(violations@);
    assert(v7 =~= v6 + spec_check_fullmove(before@, after@));
    let expected_len = before.position_history().len() + 1;
    if after.position_history().len() != expected_len {
        let mut text = String::from_str("position history length: expected ");
        push_decimal(&mut text, expected_len as u64);
        push_text(&mut text, ", got ");
        push_decimal(&mut text, after.position_history().len() as u64);
        report(violations, ViolationKind::PositionHistoryInconsistent, text);
    }
    assert(spec_views(violations@) =~= v7 + spec_check_history(before@, after@));
}

/// Checks each move of a game against the rules that every legal move keeps.
pub struct InvariantChecker;

impl InvariantChecker {
    /// The rules that the move `mv` from `before` to `after` breaks.
    pub fn check(before: &GameState, mv: &Move, after: &GameState) -> (r: Vec<Violation>)
        requires
            spec_checkable(before@, *mv),
        ensures
            spec_views(r@) == spec_violations(before@, *mv, after@),
    {
        let mut violations: Vec<Violation> = Vec::new();
        assert(spec_views(violations@) =~= spec_none());
        check_king_safety(&mut violations, before, after);
        check_king_count(&mut violations, after);
        check_piece_counts(&mut violations, before, mv, after);
        check_castling(&mut violations, before, after);
        check_en_passant(&mut violations, after);
        check_clocks(&mut violations, before, mv, after);
        assert(spec_views(violations@) =~= spec_violations(before@, *mv, after@));
        violations
    }
}

/// On a move that the game accepts from a position with one king of each side and the side
/// not to move out of check, the checker reports nothing. Two kinds of move are left out, on
/// which it does report: a straight pawn step onto the en-passant target, which it counts as a
/// capture, and a Black move with the fullmove number already at its largest value, which stops
/// there instead of counting up.
pub proof fn law_no_violations(before: Position, m: Move, after: Position)
    requires
        spec_play(before, m) == Ok::<Position, MoveError>(after),
        spec_on_board(before),
        spec_count_of(before.board, Piece { side: Side::White, kind: PieceKind::King }) == 1,
        spec_count_of(before.board, Piece { side: Side::Black, kind: PieceKind::King }) == 1,
        !spec_in_check(before.board, before.side_to_move.spec_opponent()),
        !(spec_piece_on(before.board, m.from) matches Some(p) && p.kind == PieceKind::Pawn && m.from.file
            == m.to.file && before.en_passant_target == Some(m.to)),
        spec_checkable(before, m),
        before.side_to_move == Side::Black ==> before.fullmove_number < u16::MAX,
    ensures
        spec_violations(before, m, after) == Seq::<(ViolationKind, Seq<char>)>::empty(),
{
    lemma_accepted(before, m, after);
    law_no_king_capture(before, m);
    law_one_king_each(before, m, after, Side::White);
    law_one_king_each(before, m, after, Side::Black);
    lemma_single_king(after.board, before.side_to_move);
    law_mover_not_in_check(before, m, after);
    law_piece_count(before, m, after);
    law_castling_rights_never_grow(before, m, after);
    law_en_passant_rank(before, m, after);
    law_halfmove_clock(before, m, after);
    law_fullmove_number(before, m, after);
    law_history_records_position(before, m, after);
    assert(spec_check_king_safety(after, before.side_to_move) =~= spec_none());
    assert(spec_check_king_count(after) =~= spec_none());
    assert(spec_check_piece_counts(before, m, after) =~= spec_none());
    assert(spec_check_castling(before, after) =~= spec_none());
    assert(spec_check_en_passant(after) =~= spec_none());
    assert(spec_check_halfmove(before, m, after) =~= spec_none());
    assert(spec_check_fullmove(before, after) =~= spec_none());
    assert(spec_check_history(before, after) =~= spec_none());
    assert(spec_violations(before, m, after) =~= Seq::<(ViolationKind, Seq<char>)>::empty());
}

} // verus!