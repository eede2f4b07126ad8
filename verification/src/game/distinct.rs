//! No move is listed twice among the legal moves, as long as castling rights are held only by
//! a king on its home square.
use vstd::prelude::*;

use vstd::seq_lib::lemma_no_dup_in_concat;

use super::geometry::lemma_ray_position;
use super::movegen::{
    spec_arrivals, spec_jump_list, spec_king_list, spec_pawn_capture_list, spec_pawn_list, spec_pseudo_list, spec_ray_list,
    spec_slide_list,
};
use super::play::{
    spec_keeps_king_safe, spec_legal_from, spec_legal_list, spec_legal_list_upto, spec_play, spec_played, spec_square_at,
};
use super::spec_starting_position;
use crate::laws::{lemma_accepted, law_castling_rights_never_grow};
use crate::board::spec_piece_on;
use crate::mv::{Move, MoveError};
use crate::pieces::{Piece, PieceKind, Side};
use crate::rules::{spec_apply, spec_castle_generates, spec_direction, spec_jump_delta, spec_pawn_landing, spec_ray, Position};
use crate::square::Square;

verus! {

/// Whether every element that occurs twice in `s` fails `pred`.
pub open spec fn spec_repeats_fail<A>(s: Seq<A>, pred: spec_fn(A) -> bool) -> bool {
    forall|i: int, j: int| 0 <= i < j < s.len() && #[trigger] s[i] == #[trigger] s[j] ==> !pred(s[i])
}

/// Keeping only the elements of a list that pass `pred` leaves no duplicates when every
/// element that occurs twice fails it.
proof fn lemma_filter_no_dup<A>(s: Seq<A>, pred: spec_fn(A) -> bool)
    requires
        spec_repeats_fail(s, pred),
    ensures
        s.filter(pred).no_duplicates(),
    decreases s.len(),
{
    reveal(Seq::filter);
    if s.len() > 0 {
        let rest = s.drop_last();
        assert(spec_repeats_fail(rest, pred)) by {
            assert forall|i: int, j: int| 0 <= i < j < rest.len() && #[trigger] rest[i] == #[trigger] rest[j] implies !pred(
                rest[i],
            ) by {
                assert(s[i] == rest[i] && s[j] == rest[j]);
            }
        }
        lemma_filter_no_dup(rest, pred);
        if pred(s.last()) {
            if rest.filter(pred).contains(s.last()) {
                rest.lemma_filter_contains_rev(pred, s.last());
                let k = choose|k: int| 0 <= k < rest.len() && rest[k] == s.last();
                assert(s[k] == s[s.len() - 1]);
            }
            lemma_no_dup_in_concat(rest.filter(pred), seq![s.last()]);
            assert(rest.filter(pred).push(s.last()) =~= rest.filter(pred) + seq![s.last()]);
        }
    }
}

/// The moves of a pawn arriving on `t` from `s` all go from `s` to `t`, once each.
proof fn lemma_arrivals(s: Square, t: Square, side: Side)
    ensures
        spec_arrivals(s, t, side).no_duplicates(),
        forall|q: int|
            0 <= q < spec_arrivals(s, t, side).len() ==> (#[trigger] spec_arrivals(s, t, side)[q]).from == s
                && spec_arrivals(s, t, side)[q].to == t,
{
}

/// A pawn's captures toward file offset `df` all go to the square diagonally ahead, once each.
proof fn lemma_capture_list(pos: Position, s: Square, side: Side, df: int)
    ensures
        spec_pawn_capture_list(pos, s, side, df).no_duplicates(),
        forall|q: int|
            0 <= q < spec_pawn_capture_list(pos, s, side, df).len() ==> (#[trigger] spec_pawn_capture_list(
                pos,
                s,
                side,
                df,
            )[q]).from == s && s.spec_offset(df, side.spec_pawn_forward()) == Some(
                spec_pawn_capture_list(pos, s, side, df)[q].to,
            ),
{
    if let Some(c) = s.spec_offset(df, side.spec_pawn_forward()) {
        lemma_arrivals(s, c, side);
    }
}

/// A pawn's moves are listed once each, all from its square.
proof fn lemma_pawn_list(pos: Position, s: Square, side: Side)
    ensures
        spec_pawn_list(pos, s, side).no_duplicates(),
        forall|q: int| 0 <= q < spec_pawn_list(pos, s, side).len() ==> (#[trigger] spec_pawn_list(pos, s, side)[q]).from == s,
{
    let fwd = side.spec_pawn_forward();
    let lo = spec_pawn_capture_list(pos, s, side, -1);
    let hi = spec_pawn_capture_list(pos, s, side, 1);
    lemma_capture_list(pos, s, side, -1);
    lemma_capture_list(pos, s, side, 1);
    let pushes = match s.spec_offset(0, fwd) {
        Some(f) => if spec_piece_on(pos.board, f) is None {
            spec_arrivals(s, f, side) + if s.rank == side.spec_pawn_start_rank() {
                match s.spec_offset(0, fwd * 2) {
                    Some(d) => if spec_piece_on(pos.board, d) is None {
                        seq![Move { from: s, to: d, promotion: None }]
                    } else {
                        Seq::empty()
                    },
                    None => Seq::empty(),
                }
            } else {
                Seq::empty()
            }
        } else {
            Seq::empty()
        },
        None => Seq::empty(),
    };
    assert(spec_pawn_list(pos, s, side) == pushes + lo + hi);
    if let Some(f) = s.spec_offset(0, fwd) {
        if spec_piece_on(pos.board, f) is None {
            lemma_arrivals(s, f, side);
            let a = spec_arrivals(s, f, side);
            let b = pushes.subrange(a.len() as int, pushes.len() as int);
            assert(pushes == a + b);
            lemma_no_dup_in_concat(a, b);
        }
    }
    assert forall|q: int| 0 <= q < pushes.len() implies (#[trigger] pushes[q]).from == s && pushes[q].to.file == s.file by {
        if let Some(f) = s.spec_offset(0, fwd) {
            lemma_arrivals(s, f, side);
        }
    }
    lemma_no_dup_in_concat(pushes, lo);
    lemma_no_dup_in_concat(pushes + lo, hi);
}

/// Whether step `j` of direction `i` from `s` lands on `t`.
spec fn spec_on_ray(s: Square, i: int, j: nat, t: Square) -> bool {
    spec_ray(s, spec_direction(i).0, spec_direction(i).1, j) == Some(t)
}

/// Whether jump `i` (a king step, or a knight jump) from `s` lands on `t`.
pub open spec fn spec_on_jump(s: Square, king: bool, i: int, t: Square) -> bool {
    s.spec_offset(spec_jump_delta(king, i).0, spec_jump_delta(king, i).1) == Some(t)
}

/// Two jumps from one square that land on the same square are the same jump.
proof fn lemma_jump_unique(s: Square, king: bool, i: int, i2: int, t: Square)
    requires
        0 <= i < 8,
        0 <= i2 < 8,
        spec_on_jump(s, king, i, t),
        spec_on_jump(s, king, i2, t),
    ensures
        i == i2,
{
}

/// Two rays from one square that reach the same square go the same way the same distance.
proof fn lemma_ray_unique(s: Square, i: int, j: nat, i2: int, j2: nat, t: Square)
    requires
        0 <= i < 8,
        0 <= i2 < 8,
        j >= 1,
        j2 >= 1,
        spec_on_ray(s, i, j, t),
        spec_on_ray(s, i2, j2, t),
    ensures
        i == i2,
        j == j2,
{
    let (a, b) = spec_direction(i);
    let (c, d) = spec_direction(i2);
    lemma_ray_position(s, a, b, j);
    lemma_ray_position(s, c, d, j2);
    assert(j * a == j2 * c && j * b == j2 * d);
    assert(i == i2 && j == j2) by (nonlinear_arith)
        requires
            0 <= i < 8,
            0 <= i2 < 8,
            j >= 1,
            j2 >= 1,
            (a, b) == spec_direction(i),
            (c, d) == spec_direction(i2),
            j * a == j2 * c,
            j * b == j2 * d,
    {
        if i == 0 {} else if i == 1 {} else if i == 2 {} else if i == 3 {} else if i == 4 {} else if i == 5 {} else if i == 6 {} else {}
    }
}

/// The first `n` jumps of a piece on `s` are listed once each, each from `s` to the square of
/// one of those jumps.
proof fn lemma_jump_list(board: Map<Square, Piece>, s: Square, side: Side, king: bool, n: int)
    requires
        n <= 8,
    ensures
        spec_jump_list(board, s, side, king, n).no_duplicates(),
        forall|q: int|
            0 <= q < spec_jump_list(board, s, side, king, n).len() ==> (#[trigger] spec_jump_list(
                board,
                s,
                side,
                king,
                n,
            )[q]).from == s && exists|i: int|
                0 <= i < n && #[trigger] spec_on_jump(s, king, i, spec_jump_list(board, s, side, king, n)[q].to),
    decreases n,
{
    if n > 0 {
        let prev = spec_jump_list(board, s, side, king, n - 1);
        lemma_jump_list(board, s, side, king, n - 1);
        let extra = spec_jump_list(board, s, side, king, n).subrange(prev.len() as int, spec_jump_list(board, s, side, king, n).len() as int);
        assert(spec_jump_list(board, s, side, king, n) == prev + extra);
        assert forall|q: int, r: int| 0 <= q < prev.len() && 0 <= r < extra.len() implies prev[q] != extra[r] by {
            let i = choose|i: int| 0 <= i < n - 1 && #[trigger] spec_on_jump(s, king, i, prev[q].to);
            if prev[q] == extra[r] {
                assert(spec_on_jump(s, king, n - 1, extra[r].to));
                lemma_jump_unique(s, king, i, n - 1, prev[q].to);
            }
        }
        lemma_no_dup_in_concat(prev, extra);
        assert forall|q: int| 0 <= q < extra.len() implies (#[trigger] extra[q]).from == s && spec_on_jump(s, king, n - 1, extra[q].to) by {
        }
    }
}

/// The moves along direction `i` from step `k + 1` on are listed once each, each from `s` to a
/// square further along that direction.
proof fn lemma_ray_list(board: Map<Square, Piece>, s: Square, side: Side, i: int, k: nat)
    requires
        0 <= i < 8,
    ensures
        spec_ray_list(board, s, side, i, k).no_duplicates(),
        forall|q: int|
            0 <= q < spec_ray_list(board, s, side, i, k).len() ==> (#[trigger] spec_ray_list(board, s, side, i, k)[q]).from
                == s && exists|j: nat| k < j && #[trigger] spec_on_ray(s, i, j, spec_ray_list(board, s, side, i, k)[q].to),
    decreases 8 - k,
{
    let l = spec_ray_list(board, s, side, i, k);
    if k < 8 {
        if let Some(next) = spec_ray(s, spec_direction(i).0, spec_direction(i).1, k + 1) {
            assert(spec_on_ray(s, i, k + 1, next));
            if spec_piece_on(board, next) is None {
                let rest = spec_ray_list(board, s, side, i, (k + 1) as nat);
                lemma_ray_list(board, s, side, i, (k + 1) as nat);
                let head = seq![Move { from: s, to: next, promotion: None }];
                assert(l == head + rest);
                assert forall|r: int| 0 <= r < rest.len() implies head[0] != rest[r] by {
                    let j = choose|j: nat| k + 1 < j && #[trigger] spec_on_ray(s, i, j, rest[r].to);
                    if head[0] == rest[r] {
                        lemma_ray_unique(s, i, (k + 1) as nat, i, j, next);
                    }
                }
                lemma_no_dup_in_concat(head, rest);
                assert forall|q: int| 0 <= q < l.len() implies (#[trigger] l[q]).from == s && exists|j: nat|
                    k < j && #[trigger] spec_on_ray(s, i, j, l[q].to) by {
                    if q == 0 {
                        assert(spec_on_ray(s, i, k + 1, l[q].to));
                    } else {
                        assert(l[q] == rest[q - 1]);
                    }
                }
            } else {
                assert forall|q: int| 0 <= q < l.len() implies (#[trigger] l[q]).from == s && exists|j: nat|
                    k < j && #[trigger] spec_on_ray(s, i, j, l[q].to) by {
                    assert(spec_on_ray(s, i, k + 1, l[q].to));
                }
            }
        }
    }
}

/// A slider's moves along directions `lo..n` are listed once each, each from `s` along one of
/// those directions.
proof fn lemma_slide_list(board: Map<Square, Piece>, s: Square, side: Side, lo: int, n: int)
    requires
        0 <= lo,
        n <= 8,
    ensures
        spec_slide_list(board, s, side, lo, n).no_duplicates(),
        forall|q: int|
            0 <= q < spec_slide_list(board, s, side, lo, n).len() ==> (#[trigger] spec_slide_list(
                board,
                s,
                side,
                lo,
                n,
            )[q]).from == s && exists|i: int, j: nat|
                lo <= i < n && 1 <= j && #[trigger] spec_on_ray(s, i, j, spec_slide_list(board, s, side, lo, n)[q].to),
    decreases n - lo,
{
    if n > lo {
        let prev = spec_slide_list(board, s, side, lo, n - 1);
        let ray = spec_ray_list(board, s, side, n - 1, 0);
        lemma_slide_list(board, s, side, lo, n - 1);
        lemma_ray_list(board, s, side, n - 1, 0);
        assert forall|q: int, r: int| 0 <= q < prev.len() && 0 <= r < ray.len() implies prev[q] != ray[r] by {
            let (i, j) = choose|i: int, j: nat| lo <= i < n - 1 && 1 <= j && #[trigger] spec_on_ray(s, i, j, prev[q].to);
            let j2 = choose|j2: nat| 0 < j2 && #[trigger] spec_on_ray(s, n - 1, j2, ray[r].to);
            if prev[q] == ray[r] {
                lemma_ray_unique(s, i, j, n - 1, j2, prev[q].to);
            }
        }
        lemma_no_dup_in_concat(prev, ray);
        let l = spec_slide_list(board, s, side, lo, n);
        assert forall|q: int| 0 <= q < l.len() implies (#[trigger] l[q]).from == s && exists|i: int, j: nat|
            lo <= i < n && 1 <= j && #[trigger] spec_on_ray(s, i, j, l[q].to) by {
            if q < prev.len() {
                assert(l[q] == prev[q]);
                let (i, j) = choose|i: int, j: nat| lo <= i < n - 1 && 1 <= j && #[trigger] spec_on_ray(s, i, j, prev[q].to);
                assert(spec_on_ray(s, i, j, l[q].to));
            } else {
                assert(l[q] == ray[q - prev.len()]);
                let j2 = choose|j2: nat| 0 < j2 && #[trigger] spec_on_ray(s, n - 1, j2, ray[q - prev.len()].to);
                assert(spec_on_ray(s, n - 1, j2, l[q].to));
            }
        }
    }
}

/// Whether a king of the side to move stands on its home square, the e-file of its back rank,
/// wherever that side still holds a castling right.
pub open spec fn spec_castling_from_home(pos: Position) -> bool {
    let side = pos.side_to_move;
    forall|s: Square|
        #[trigger] spec_piece_on(pos.board, s) == Some(Piece { side, kind: PieceKind::King }) && (
        pos.castling_rights.spec_kingside(side) || pos.castling_rights.spec_queenside(side)) ==> s == (Square {
            file: 4,
            rank: side.spec_home_rank(),
        })
}

/// No castling move of a king of `side` on `s` that keeps the king safe lands where one of its
/// single steps lands.
pub open spec fn spec_castle_apart_from(pos: Position, s: Square, side: Side) -> bool {
    forall|t: Square|
        #[trigger] spec_castle_generates(pos, side, Move { from: s, to: t, promotion: None }) && spec_keeps_king_safe(
            pos,
            Move { from: s, to: t, promotion: None },
        ) ==> forall|i: int| 0 <= i < 8 ==> !#[trigger] spec_on_jump(s, true, i, t)
}

/// No legal castling move of the side to move coincides with a single step of the same king.
pub open spec fn spec_castling_apart(pos: Position) -> bool {
    forall|s: Square|
        #[trigger] spec_piece_on(pos.board, s) == Some(Piece { side: pos.side_to_move, kind: PieceKind::King })
            ==> spec_castle_apart_from(pos, s, pos.side_to_move)
}

/// A king on its home square, the only square from which its side may then castle, never has
/// a castling move that is also a single step.
pub proof fn lemma_castling_from_home_apart(pos: Position)
    requires
        spec_castling_from_home(pos),
    ensures
        spec_castling_apart(pos),
{
    let side = pos.side_to_move;
    assert forall|s: Square|
        #[trigger] spec_piece_on(pos.board, s) == Some(Piece { side, kind: PieceKind::King }) implies spec_castle_apart_from(
        pos,
        s,
        side,
    ) by {
        assert forall|t: Square|
            #[trigger] spec_castle_generates(pos, side, Move { from: s, to: t, promotion: None }) && spec_keeps_king_safe(
                pos,
                Move { from: s, to: t, promotion: None },
            ) implies forall|i: int| 0 <= i < 8 ==> !#[trigger] spec_on_jump(s, true, i, t) by {
            assert(s == (Square { file: 4, rank: side.spec_home_rank() }));
        }
    }
}

/// A king's moves all go from its square, and a move listed twice is a castling move that is
/// also a single step; where no such move keeps the king safe, a repeated move never does.
proof fn lemma_king_list(pos: Position, s: Square, side: Side)
    requires
        spec_castle_apart_from(pos, s, side),
    ensures
        spec_repeats_fail(spec_king_list(pos, s, side), |m: Move| spec_keeps_king_safe(pos, m)),
        forall|q: int| 0 <= q < spec_king_list(pos, s, side).len() ==> (#[trigger] spec_king_list(pos, s, side)[q]).from == s,
{
    let steps = spec_jump_list(pos.board, s, side, true, 8);
    lemma_jump_list(pos.board, s, side, true, 8);
    let l = spec_king_list(pos, s, side);
    let safe = |m: Move| spec_keeps_king_safe(pos, m);
    let castles = l.subrange(steps.len() as int, l.len() as int);
    assert(l == steps + castles);
    assert(castles.no_duplicates());
    assert forall|q: int| 0 <= q < castles.len() implies (#[trigger] castles[q]) == (Move {
        from: s,
        to: castles[q].to,
        promotion: None,
    }) && spec_castle_generates(pos, side, castles[q]) by {
    }
    assert forall|i: int, j: int| 0 <= i < j < l.len() && #[trigger] l[i] == #[trigger] l[j] implies !safe(l[i]) by {
        if i < steps.len() && j >= steps.len() {
            let q = i;
            let r = j - steps.len();
            assert(steps[q] == l[i] && castles[r] == l[j]);
            let k = choose|k: int| 0 <= k < 8 && #[trigger] spec_on_jump(s, true, k, steps[q].to);
            let t = castles[r].to;
            assert(spec_castle_generates(pos, side, Move { from: s, to: t, promotion: None }));
            if safe(l[i]) {
                assert(spec_keeps_king_safe(pos, Move { from: s, to: t, promotion: None }));
                assert(!spec_on_jump(s, true, k, t));
            }
        } else if j < steps.len() {
            assert(steps[i] == l[i] && steps[j] == l[j]);
        } else {
            assert(castles[i - steps.len()] == l[i] && castles[j - steps.len()] == l[j]);
        }
    }
}

/// The moves a piece may make before king safety is considered all go from its square, and a
/// move listed twice never keeps the king safe, when no legal castling move of a king is also
/// one of its single steps.
proof fn lemma_pseudo_list(pos: Position, s: Square, p: Piece)
    requires
        p.kind == PieceKind::King ==> spec_castle_apart_from(pos, s, p.side),
    ensures
        spec_repeats_fail(spec_pseudo_list(pos, s, p), |m: Move| spec_keeps_king_safe(pos, m)),
        forall|q: int| 0 <= q < spec_pseudo_list(pos, s, p).len() ==> (#[trigger] spec_pseudo_list(pos, s, p)[q]).from == s,
{
    match p.kind {
        PieceKind::Pawn => lemma_pawn_list(pos, s, p.side),
        PieceKind::Knight => lemma_jump_list(pos.board, s, p.side, false, 8),
        PieceKind::Bishop => lemma_slide_list(pos.board, s, p.side, 0, 4),
        PieceKind::Rook => lemma_slide_list(pos.board, s, p.side, 4, 8),
        PieceKind::Queen => lemma_slide_list(pos.board, s, p.side, 0, 8),
        PieceKind::King => lemma_king_list(pos, s, p.side),
    }
}

/// The legal moves from one square are listed once each, all from that square.
proof fn lemma_legal_from(pos: Position, s: Square)
    requires
        spec_castling_apart(pos),
    ensures
        spec_legal_from(pos, s).no_duplicates(),
        forall|m: Move| #[trigger] spec_legal_from(pos, s).contains(m) ==> m.from == s,
{
    if let Some(p) = spec_piece_on(pos.board, s) {
        if p.side == pos.side_to_move {
            lemma_pseudo_list(pos, s, p);
            let safe = |m: Move| spec_keeps_king_safe(pos, m);
            let pseudo = spec_pseudo_list(pos, s, p);
            lemma_filter_no_dup(pseudo, safe);
            assert forall|m: Move| #[trigger] spec_legal_from(pos, s).contains(m) implies m.from == s by {
                pseudo.lemma_filter_contains_rev(safe, m);
            }
        }
    }
}

/// The legal moves from the first `n` squares in board order are listed once each, each from
/// one of those squares.
proof fn lemma_legal_list_upto(pos: Position, n: int)
    requires
        spec_castling_apart(pos),
        n <= 64,
    ensures
        spec_legal_list_upto(pos, n).no_duplicates(),
        forall|m: Move| #[trigger] spec_legal_list_upto(pos, n).contains(m) ==> m.from.file * 8 + m.from.rank < n,
    decreases n,
{
    if n > 0 {
        let prev = spec_legal_list_upto(pos, n - 1);
        let here = spec_legal_from(pos, spec_square_at(n - 1));
        lemma_legal_list_upto(pos, n - 1);
        lemma_legal_from(pos, spec_square_at(n - 1));
        let sq = spec_square_at(n - 1);
        assert(sq.file * 8 + sq.rank == n - 1);
        assert forall|q: int, r: int| 0 <= q < prev.len() && 0 <= r < here.len() implies prev[q] != here[r] by {
            assert(prev.contains(prev[q]));
            assert(here.contains(here[r]));
        }
        lemma_no_dup_in_concat(prev, here);
        assert forall|m: Move| #[trigger] spec_legal_list_upto(pos, n).contains(m) implies m.from.file * 8 + m.from.rank
            < n by {
            let l = spec_legal_list_upto(pos, n);
            let q = choose|q: int| 0 <= q < l.len() && l[q] == m;
            if q < prev.len() {
                assert(prev[q] == m);
                assert(prev.contains(m));
            } else {
                assert(here[q - prev.len()] == m);
                assert(here.contains(m));
            }
        }
    }
}

/// No move is listed twice among the legal moves of a position in which no legal castling
/// move of the side to move is also a single step of the same king.
pub proof fn law_legal_list_no_duplicates(pos: Position)
    requires
        spec_castling_apart(pos),
    ensures
        spec_legal_list(pos).no_duplicates(),
{
    lemma_legal_list_upto(pos, 64);
}

/// Whether `side`, while it holds a castling right, has kings only on its home square.
pub open spec fn spec_rights_kept_at_home(pos: Position, side: Side) -> bool {
    pos.castling_rights.spec_kingside(side) || pos.castling_rights.spec_queenside(side) ==> forall|s: Square|
        #[trigger] spec_piece_on(pos.board, s) == Some(Piece { side, kind: PieceKind::King }) ==> s == (Square {
            file: 4,
            rank: side.spec_home_rank(),
        })
}

/// After a move, a king stands where a king of its side stood before, or where the moving
/// king went.
proof fn lemma_kings_after(pos: Position, m: Move, next: Position, side: Side, t: Square)
    requires
        spec_apply(pos, m) == Some(next),
        spec_piece_on(next.board, t) == Some(Piece { side, kind: PieceKind::King }),
    ensures
        (t == m.to && spec_piece_on(pos.board, m.from) == Some(Piece { side, kind: PieceKind::King }))
            || spec_piece_on(pos.board, t) == Some(Piece { side, kind: PieceKind::King }),
{
    let piece = spec_piece_on(pos.board, m.from).unwrap();
    let b1 = pos.board.remove(m.from);
    if piece.kind == PieceKind::Pawn {
        let (b3, capture, ep) = spec_pawn_landing(pos, m, piece, b1).unwrap();
        assert(spec_piece_on(b3, t) == Some(Piece { side, kind: PieceKind::King }));
    } else {
        let b3 = b1.insert(m.to, piece);
        assert(spec_piece_on(b3, t) == Some(Piece { side, kind: PieceKind::King }));
    }
}

/// Play keeps a side's castling rights held only by kings on its home square.
pub proof fn law_play_keeps_rights_at_home(pos: Position, m: Move, next: Position, side: Side)
    requires
        spec_play(pos, m) == Ok::<Position, MoveError>(next),
        spec_rights_kept_at_home(pos, side),
    ensures
        spec_rights_kept_at_home(next, side),
{
    lemma_accepted(pos, m, next);
    law_castling_rights_never_grow(pos, m, next);
    if next.castling_rights.spec_kingside(side) || next.castling_rights.spec_queenside(side) {
        assert forall|t: Square| #[trigger] spec_piece_on(next.board, t) == Some(Piece { side, kind: PieceKind::King })
            implies t == (Square { file: 4, rank: side.spec_home_rank() }) by {
            lemma_kings_after(pos, m, next, side, t);
        }
    }
}

/// In the starting position each side's king stands on its home square.
pub proof fn lemma_start_rights_at_home(side: Side)
    ensures
        spec_rights_kept_at_home(spec_starting_position(), side),
{
}

/// No move is listed twice among the legal moves of any position that play reaches from a
/// position in which castling rights are held only by kings on their home squares, the
/// starting position among them.
pub proof fn law_reached_legal_list_no_duplicates(start: Position, moves: Seq<Move>)
    requires
        spec_rights_kept_at_home(start, Side::White),
        spec_rights_kept_at_home(start, Side::Black),
        spec_played(start, moves) is Some,
    ensures
        spec_legal_list(spec_played(start, moves).unwrap()).no_duplicates(),
{
    lemma_line_rights_at_home(start, moves);
    let p = spec_played(start, moves).unwrap();
    assert(spec_rights_kept_at_home(p, p.side_to_move));
    lemma_castling_from_home_apart(p);
    law_legal_list_no_duplicates(p);
}

/// Play along a line keeps castling rights held only by kings on their home squares.
proof fn lemma_line_rights_at_home(start: Position, moves: Seq<Move>)
    requires
        spec_rights_kept_at_home(start, Side::White),
        spec_rights_kept_at_home(start, Side::Black),
        spec_played(start, moves) is Some,
    ensures
        spec_rights_kept_at_home(spec_played(start, moves).unwrap(), Side::White),
        spec_rights_kept_at_home(spec_played(start, moves).unwrap(), Side::Black),
    decreases moves.len(),
{
    if moves.len() > 0 {
        lemma_line_rights_at_home(start, moves.drop_last());
        let before = spec_played(start, moves.drop_last()).unwrap();
        let next = spec_played(start, moves).unwrap();
        law_play_keeps_rights_at_home(before, moves.last(), next, Side::White);
        law_play_keeps_rights_at_home(before, moves.last(), next, Side::Black);
    }
}

} // verus!
