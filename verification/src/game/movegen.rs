//! Move generation: the moves each piece may make, and the legal moves of a position.
use vstd::prelude::*;

use super::attack::square_attacked;
use super::geometry::{direction, jump_delta, lemma_ray_bounded, lemma_ray_position, lemma_ray_stays_off};
use super::GameState;
use crate::board::{lemma_board_entries, spec_piece_on, BoardState};
use crate::mv::Move;
use crate::pieces::{Piece, PieceKind, Side};
use crate::rules::{Position, spec_attacked, spec_castle_generates, spec_direction, spec_generates, spec_has_piece_of, spec_in_check, spec_jump_delta, spec_jump_generates, spec_path_clear, spec_pawn_arrival, spec_pawn_capture, spec_pawn_generates, spec_ray, spec_slide_generates, spec_slide_target};
use crate::square::Square;

verus! {

broadcast use vstd::seq_lib::lemma_seq_contains_after_push;

/// Every move in the list goes to a square on the board.
pub open spec fn spec_targets_on_board(moves: Seq<Move>) -> bool {
    forall|i: int| 0 <= i < moves.len() ==> (#[trigger] moves[i]).to.spec_is_on_board()
}

// ---------------------------------------------------------------- generation order

/// The moves of a pawn of `side` arriving on `t` from `s`: on the last rank the four
/// promotions, queen, rook, bishop, knight; elsewhere the plain move.
pub open spec fn spec_arrivals(s: Square, t: Square, side: Side) -> Seq<Move> {
    if t.rank == side.spec_promotion_rank() {
        seq![
            Move { from: s, to: t, promotion: Some(PieceKind::Queen) },
            Move { from: s, to: t, promotion: Some(PieceKind::Rook) },
            Move { from: s, to: t, promotion: Some(PieceKind::Bishop) },
            Move { from: s, to: t, promotion: Some(PieceKind::Knight) },
        ]
    } else {
        seq![Move { from: s, to: t, promotion: None }]
    }
}

/// The captures of a pawn of `side` on `s` toward file offset `df`, en passant included.
pub open spec fn spec_pawn_capture_list(pos: Position, s: Square, side: Side, df: int) -> Seq<Move> {
    match s.spec_offset(df, side.spec_pawn_forward()) {
        Some(c) => match spec_piece_on(pos.board, c) {
            Some(target) => if target.side != side {
                spec_arrivals(s, c, side)
            } else {
                Seq::empty()
            },
            None => if pos.en_passant_target == Some(c) && spec_piece_on(pos.board, Square { file: c.file, rank: s.rank })
                == Some(Piece { side: side.spec_opponent(), kind: PieceKind::Pawn }) {
                seq![Move { from: s, to: c, promotion: None }]
            } else {
                Seq::empty()
            },
        },
        None => Seq::empty(),
    }
}

/// The moves of a pawn of `side` on `s`, in the order they are listed: the step forward, the
/// double step, then the captures toward the lower and the higher file.
pub open spec fn spec_pawn_list(pos: Position, s: Square, side: Side) -> Seq<Move> {
    let fwd = side.spec_pawn_forward();
    let pushes = match s.spec_offset(0, fwd) {
        Some(f) => if spec_piece_on(pos.board, f) is None {
            spec_arrivals(s, f, side) + if s.rank == side.spec_pawn_start_rank() {
                match s.spec_offset(0, fwd * 2) {
                    Some(d) => if spec_piece_on(pos.board, d) is None {
                        seq![Move { from: s, to: d, promotion: None }]
                    } else {
                        Seq::empty()
                    },
                    None => Seq::empty(),
                }
            } else {
                Seq::empty()
            }
        } else {
            Seq::empty()
        },
        None => Seq::empty(),
    };
    pushes + spec_pawn_capture_list(pos, s, side, -1) + spec_pawn_capture_list(pos, s, side, 1)
}

/// The first `n` knight jumps (`king == false`) or king steps of a piece of `side` on `s`, in
/// the order of the deltas.
pub open spec fn spec_jump_list(board: Map<Square, Piece>, s: Square, side: Side, king: bool, n: int) -> Seq<Move>
    decreases n,
{
    if n <= 0 {
        Seq::empty()
    } else {
        spec_jump_list(board, s, side, king, n - 1) + match s.spec_offset(
            spec_jump_delta(king, n - 1).0,
            spec_jump_delta(king, n - 1).1,
        ) {
            Some(t) => if !spec_has_piece_of(board, t, side) {
                seq![Move { from: s, to: t, promotion: None }]
            } else {
                Seq::empty()
            },
            None => Seq::empty(),
        }
    }
}

/// The moves of a slider of `side` on `s` along direction `i`, from step `k + 1` on: each
/// empty square, then the first occupied one if it holds a piece of the other side.
pub open spec fn spec_ray_list(board: Map<Square, Piece>, s: Square, side: Side, i: int, k: nat) -> Seq<Move>
    decreases 8 - k,
{
    if k >= 8 {
        Seq::empty()
    } else {
        match spec_ray(s, spec_direction(i).0, spec_direction(i).1, k + 1) {
            None => Seq::empty(),
            Some(next) => match spec_piece_on(board, next) {
                Some(p) => if p.side != side {
                    seq![Move { from: s, to: next, promotion: None }]
                } else {
                    Seq::empty()
                },
                None => seq![Move { from: s, to: next, promotion: None }] + spec_ray_list(
                    board,
                    s,
                    side,
                    i,
                    (k + 1) as nat,
                ),
            },
        }
    }
}

/// The moves of a slider of `side` on `s` along the directions `lo..n`, direction by direction.
pub open spec fn spec_slide_list(board: Map<Square, Piece>, s: Square, side: Side, lo: int, n: int) -> Seq<Move>
    decreases n - lo,
{
    if n <= lo {
        Seq::empty()
    } else {
        spec_slide_list(board, s, side, lo, n - 1) + spec_ray_list(board, s, side, n - 1, 0)
    }
}

/// The king steps of a king of `side` on `s`, then castling king-side, then queen-side.
pub open spec fn spec_king_list(pos: Position, s: Square, side: Side) -> Seq<Move> {
    let home = side.spec_home_rank();
    let opp = side.spec_opponent();
    let rook = Piece { side, kind: PieceKind::Rook };
    let kingside = if pos.castling_rights.spec_kingside(side) && spec_piece_on(pos.board, Square { file: 7, rank: home })
        == Some(rook) && spec_piece_on(pos.board, Square { file: 5, rank: home }) is None && spec_piece_on(
        pos.board,
        Square { file: 6, rank: home },
    ) is None && !spec_attacked(pos.board, Square { file: 5, rank: home }, opp) && !spec_attacked(
        pos.board,
        Square { file: 6, rank: home },
        opp,
    ) {
        seq![Move { from: s, to: Square { file: 6, rank: home }, promotion: None }]
    } else {
        Seq::empty()
    };
    let queenside = if pos.castling_rights.spec_queenside(side) && spec_piece_on(pos.board, Square { file: 0, rank: home })
        == Some(rook) && spec_piece_on(pos.board, Square { file: 1, rank: home }) is None && spec_piece_on(
        pos.board,
        Square { file: 2, rank: home },
    ) is None && spec_piece_on(pos.board, Square { file: 3, rank: home }) is None && !spec_attacked(
        pos.board,
        Square { file: 3, rank: home },
        opp,
    ) && !spec_attacked(pos.board, Square { file: 2, rank: home }, opp) {
        seq![Move { from: s, to: Square { file: 2, rank: home }, promotion: None }]
    } else {
        Seq::empty()
    };
    spec_jump_list(pos.board, s, side, true, 8) + if !spec_in_check(pos.board, side) {
        kingside + queenside
    } else {
        Seq::empty()
    }
}

/// The moves `p` on `s` may make before king safety is considered, in the order they are
/// listed.
pub open spec fn spec_pseudo_list(pos: Position, s: Square, p: Piece) -> Seq<Move> {
    match p.kind {
        PieceKind::Pawn => spec_pawn_list(pos, s, p.side),
        PieceKind::Knight => spec_jump_list(pos.board, s, p.side, false, 8),
        PieceKind::Bishop => spec_slide_list(pos.board, s, p.side, 0, 4),
        PieceKind::Rook => spec_slide_list(pos.board, s, p.side, 4, 8),
        PieceKind::Queen => spec_slide_list(pos.board, s, p.side, 0, 8),
        PieceKind::King => spec_king_list(pos, s, p.side),
    }
}

fn own_piece_on(board: &BoardState, t: Square, side: Side) -> (r: bool)
    ensures
        r == spec_has_piece_of(board@, t, side),
{
    match board.piece_at(t) {
        Some(p) => p.side == side,
        None => false,
    }
}

/// Adds the moves of a pawn arriving on `to`: the four promotions on the last rank, else one move.
fn push_pawn_moves(from: Square, to: Square, side: Side, moves: &mut Vec<Move>)
    requires
        to.spec_is_on_board(),
    ensures
        forall|m: Move|
            #[trigger] final(moves)@.contains(m) <==> old(moves)@.contains(m) || (m.from == from
                && spec_pawn_arrival(side, to, m)),
        spec_targets_on_board(old(moves)@) ==> spec_targets_on_board(final(moves)@),
        final(moves)@ == old(moves)@ + spec_arrivals(from, to, side),
{
    if to.rank == side.promotion_rank() {
        moves.push(Move { from, to, promotion: Some(PieceKind::Queen) });
        moves.push(Move { from, to, promotion: Some(PieceKind::Rook) });
        moves.push(Move { from, to, promotion: Some(PieceKind::Bishop) });
        moves.push(Move { from, to, promotion: Some(PieceKind::Knight) });
    } else {
        moves.push(Move { from, to, promotion: None });
    }
}

impl GameState {
    /// Whether `side`'s king stands attacked.
    pub fn is_in_check(&self, side: Side) -> (r: bool)
        ensures
            r == spec_in_check(self@.board, side),
    {
        match self.board.king_square(side) {
            Some(king_square) => square_attacked(&self.board, king_square, side.opponent()),
            None => false,
        }
    }

    fn pawn_capture_moves(&self, square: Square, side: Side, df: i8, moves: &mut Vec<Move>)
        ensures
            forall|m: Move|
                #[trigger] final(moves)@.contains(m) <==> old(moves)@.contains(m) || (m.from == square
                    && spec_pawn_capture(self@, square, side, df as int, m)),
            spec_targets_on_board(old(moves)@) ==> spec_targets_on_board(final(moves)@),
            final(moves)@ == old(moves)@ + spec_pawn_capture_list(self@, square, side, df as int),
    {
        let forward = side.pawn_forward();
        match square.offset(df, forward) {
            Some(capture_square) => {
                match self.board.piece_at(capture_square) {
                    Some(target) => {
                        if target.side != side {
                            push_pawn_moves(square, capture_square, side, moves);
                        }
                    },
                    None => {
                        let is_target = match self.en_passant_target {
                            Some(t) => t == capture_square,
                            None => false,
                        };
                        if is_target {
                            let captured_square = Square { file: capture_square.file, rank: square.rank };
                            match self.board.piece_at(captured_square) {
                                Some(p) => {
                                    if p == (Piece { side: side.opponent(), kind: PieceKind::Pawn }) {
                                        moves.push(Move { from: square, to: capture_square, promotion: None });
                                    }
                                },
                                None => {},
                            }
                        }
                    },
                }
            },
            None => {},
        }
    }

    /// The moves of a pawn of `side` on `square`.
    fn generate_pawn_moves(&self, square: Square, side: Side) -> (r: Vec<Move>)
        ensures
            forall|m: Move|
                #[trigger] r@.contains(m) <==> m.from == square && spec_pawn_generates(self@, square, side, m),
            spec_targets_on_board(r@),
            r@ == spec_pawn_list(self@, square, side),
    {
        let mut moves: Vec<Move> = Vec::new();
        let forward = side.pawn_forward();
        match square.offset(0, forward) {
            Some(forward_square) => {
                if self.board.piece_at(forward_square).is_none() {
                    push_pawn_moves(square, forward_square, side, &mut moves);
                    if square.rank == side.pawn_start_rank() {
                        match square.offset(0, forward * 2) {
                            Some(double_square) => {
                                if self.board.piece_at(double_square).is_none() {
                                    moves.push(Move { from: square, to: double_square, promotion: None });
                                }
                            },
                            None => {},
                        }
                    }
                }
            },
            None => {},
        }
        self.pawn_capture_moves(square, side, -1, &mut moves);
        self.pawn_capture_moves(square, side, 1, &mut moves);
        moves
    }

    /// The knight jumps (`king == false`) or king steps of a piece of `side` on `square`.
    fn generate_jump_moves(&self, square: Square, side: Side, king: bool) -> (r: Vec<Move>)
        ensures
            forall|m: Move|
                #[trigger] r@.contains(m) <==> m.from == square && spec_jump_generates(self@.board, square, side, king, m),
            spec_targets_on_board(r@),
            r@ == spec_jump_list(self@.board, square, side, king, 8),
    {
        let mut moves: Vec<Move> = Vec::new();
        let mut i: usize = 0;
        while i < 8
            invariant
                i <= 8,
                spec_targets_on_board(moves@),
                moves@ == spec_jump_list(self@.board, square, side, king, i as int),
                forall|m: Move|
                    #[trigger] moves@.contains(m) <==> m.from == square && m.promotion is None
                        && !spec_has_piece_of(self@.board, m.to, side) && exists|j: int|
                        0 <= j < i && #[trigger] square.spec_offset(spec_jump_delta(king, j).0, spec_jump_delta(king, j).1)
                            == Some(m.to),
            decreases 8 - i,
        {
            let (df, dr) = jump_delta(king, i);
            match square.offset(df, dr) {
                Some(target) => {
                    if !own_piece_on(&self.board, target, side) {
                        moves.push(Move { from: square, to: target, promotion: None });
                    }
                },
                None => {},
            }
            i = i + 1;
        }
        moves
    }

    /// Adds the moves of a slider of `side` on `square` along direction `i`.
    fn slide_direction(&self, square: Square, side: Side, i: usize, moves: &mut Vec<Move>)
        requires
            i < 8,
        ensures
            forall|m: Move|
                #[trigger] final(moves)@.contains(m) <==> old(moves)@.contains(m) || (m.from == square
                    && m.promotion is None && exists|k: nat| #[trigger] spec_slide_target(self@.board, square, side, i as int, k, m.to)),
            spec_targets_on_board(old(moves)@) ==> spec_targets_on_board(final(moves)@),
            final(moves)@ == old(moves)@ + spec_ray_list(self@.board, square, side, i as int, 0),
    {
        let (df, dr) = direction(i);
        let ghost dfi = spec_direction(i as int).0;
        let ghost dri = spec_direction(i as int).1;
        let ghost start = moves@;
        let mut cursor = square;
        let mut k: usize = 0;
        loop
            invariant
                i < 8,
                df as int == dfi,
                dr as int == dri,
                dfi == spec_direction(i as int).0,
                dri == spec_direction(i as int).1,
                k <= 8,
                spec_ray(square, dfi, dri, k as nat) == Some(cursor),
                spec_path_clear(self@.board, square, dfi, dri, (k + 1) as nat),
                start == old(moves)@,
                start + spec_ray_list(self@.board, square, side, i as int, 0) == moves@ + spec_ray_list(
                    self@.board,
                    square,
                    side,
                    i as int,
                    k as nat,
                ),
                spec_targets_on_board(start) ==> spec_targets_on_board(moves@),
                forall|m: Move|
                    #[trigger] moves@.contains(m) <==> start.contains(m) || (m.from == square
                        && m.promotion is None && exists|kk: nat|
                        1 <= kk <= k && #[trigger] spec_slide_target(self@.board, square, side, i as int, kk, m.to)),
            decreases 8 - k,
        {
            match cursor.offset(df, dr) {
                None => {
                    proof {
                        assert(spec_ray(square, dfi, dri, (k + 1) as nat) is None);
                        assert(spec_ray_list(self@.board, square, side, i as int, k as nat) =~= Seq::<Move>::empty());
                        assert(moves@ =~= start + spec_ray_list(self@.board, square, side, i as int, 0));
                        assert forall|t: Square, kk: nat| #[trigger] spec_slide_target(self@.board, square, side, i as int, kk, t)
                            implies 1 <= kk <= k by {
                            if kk > k {
                                lemma_ray_stays_off(square, dfi, dri, (k + 1) as nat, kk);
                            }
                        }
                        assert forall|m: Move|
                            #[trigger] moves@.contains(m) <==> start.contains(m) || (m.from == square
                                && m.promotion is None && exists|kk: nat| #[trigger] spec_slide_target(self@.board, square, side, i as int, kk, m.to)) by {
                            if exists|kk: nat| #[trigger] spec_slide_target(self@.board, square, side, i as int, kk, m.to) {
                                let kk = choose|kk: nat| #[trigger] spec_slide_target(self@.board, square, side, i as int, kk, m.to);
                                assert(1 <= kk <= k);
                            }
                        }
                    }
                    return;
                },
                Some(next) => {
                    proof {
                        assert(spec_ray(square, dfi, dri, (k + 1) as nat) == Some(next));
                        lemma_ray_bounded(square, i as int, (k + 1) as nat);
                        lemma_ray_position(square, dfi, dri, (k + 1) as nat);
                    }
                    match self.board.piece_at(next) {
                        Some(p) => {
                            let ghost before = moves@;
                            if p.side != side {
                                moves.push(Move { from: square, to: next, promotion: None });
                            }
                            proof {
                                assert(k < 8);
                                if p.side != side {
                                    assert(spec_slide_target(self@.board, square, side, i as int, (k + 1) as nat, next));
                                    assert(moves@ =~= before + spec_ray_list(self@.board, square, side, i as int, k as nat));
                                } else {
                                    assert(moves@ =~= before + spec_ray_list(self@.board, square, side, i as int, k as nat));
                                }
                                assert(moves@ =~= start + spec_ray_list(self@.board, square, side, i as int, 0));
                                assert forall|t: Square, kk: nat| #[trigger] spec_slide_target(self@.board, square, side, i as int, kk, t)
                                    implies 1 <= kk <= k || (kk == k + 1 && p.side != side && t == next) by {
                                    if kk > k + 1 {
                                        assert(spec_ray(square, dfi, dri, (k + 1) as nat) == Some(next));
                                    }
                                }
                                assert forall|m: Move|
                                    #[trigger] moves@.contains(m) <==> start.contains(m) || (m.from == square
                                        && m.promotion is None && exists|kk: nat| #[trigger] spec_slide_target(self@.board, square, side, i as int, kk, m.to)) by {
                                    if exists|kk: nat| #[trigger] spec_slide_target(self@.board, square, side, i as int, kk, m.to) {
                                        let kk = choose|kk: nat| #[trigger] spec_slide_target(self@.board, square, side, i as int, kk, m.to);
                                        assert(1 <= kk <= k || (kk == k + 1 && p.side != side && m.to == next));
                                        if kk == k + 1 && m.from == square && m.promotion is None {
                                            assert(m == Move { from: square, to: next, promotion: None });
                                        }
                                        if 1 <= kk <= k && m.from == square && m.promotion is None {
                                            assert(before.contains(m));
                                        }
                                    }
                                }
                                if spec_targets_on_board(start) {
                                    assert forall|j: int| 0 <= j < moves@.len() implies (#[trigger] moves@[j]).to.spec_is_on_board() by {
                                        if j == moves@.len() - 1 && p.side != side {
                                        }
                                    }
                                }
                            }
                            return;
                        },
                        None => {
                            let ghost before = moves@;
                            moves.push(Move { from: square, to: next, promotion: None });
                            proof {
                                assert(k < 8);
                                assert(spec_ray_list(self@.board, square, side, i as int, k as nat) =~= seq![
                                    Move { from: square, to: next, promotion: None },
                                ] + spec_ray_list(self@.board, square, side, i as int, (k + 1) as nat));
                                assert(start + spec_ray_list(self@.board, square, side, i as int, 0) =~= moves@
                                    + spec_ray_list(self@.board, square, side, i as int, (k + 1) as nat));
                                assert(spec_slide_target(self@.board, square, side, i as int, (k + 1) as nat, next));
                                assert forall|m: Move|
                                    #[trigger] moves@.contains(m) <==> start.contains(m) || (m.from == square
                                        && m.promotion is None && exists|kk: nat|
                                        1 <= kk <= k + 1 && #[trigger] spec_slide_target(self@.board, square, side, i as int, kk, m.to)) by {
                                    if m.from == square && m.promotion is None && exists|kk: nat|
                                        1 <= kk <= k + 1 && #[trigger] spec_slide_target(self@.board, square, side, i as int, kk, m.to) {
                                        let kk = choose|kk: nat|
                                            1 <= kk <= k + 1 && #[trigger] spec_slide_target(self@.board, square, side, i as int, kk, m.to);
                                        if kk <= k {
                                            assert(before.contains(m));
                                        } else {
                                            assert(m == Move { from: square, to: next, promotion: None });
                                        }
                                    }
                                    if before.contains(m) && !start.contains(m) {
                                        let kk = choose|kk: nat|
                                            1 <= kk <= k && #[trigger] spec_slide_target(self@.board, square, side, i as int, kk, m.to);
                                        assert(1 <= kk <= k + 1);
                                    }
                                }
                            }
                            cursor = next;
                            k = k + 1;
                        },
                    }
                },
            }
        }
    }

    /// The moves of a slider of `side` on `square` along directions `lo..hi`.
    fn generate_sliding_moves(&self, square: Square, side: Side, lo: usize, hi: usize) -> (r: Vec<Move>)
        requires
            lo <= hi <= 8,
        ensures
            forall|m: Move|
                #[trigger] r@.contains(m) <==> m.from == square && spec_slide_generates(self@.board, square, side, lo as int, hi as int, m),
            spec_targets_on_board(r@),
            r@ == spec_slide_list(self@.board, square, side, lo as int, hi as int),
    {
        let mut moves: Vec<Move> = Vec::new();
        let mut i: usize = lo;
        while i < hi
            invariant
                lo <= i <= hi <= 8,
                spec_targets_on_board(moves@),
                moves@ == spec_slide_list(self@.board, square, side, lo as int, i as int),
                forall|m: Move|
                    #[trigger] moves@.contains(m) <==> m.from == square && m.promotion is None && exists|j: int, k: nat|
                        lo <= j < i && #[trigger] spec_slide_target(self@.board, square, side, j, k, m.to),
            decreases hi - i,
        {
            self.slide_direction(square, side, i, &mut moves);
            i = i + 1;
        }
        moves
    }

    /// The king steps and castling moves of a king of `side` on `square`.
    fn generate_king_moves(&self, square: Square, side: Side) -> (r: Vec<Move>)
        ensures
            forall|m: Move|
                #[trigger] r@.contains(m) <==> m.from == square && (spec_jump_generates(self@.board, square, side, true, m)
                    || spec_castle_generates(self@, side, m)),
            spec_targets_on_board(r@),
            r@ == spec_king_list(self@, square, side),
    {
        let mut moves = self.generate_jump_moves(square, side, true);
        let home_rank = side.home_rank();
        let opponent = side.opponent();
        if !self.is_in_check(side) {
            let rook = Piece { side, kind: PieceKind::Rook };
            let king_side_rook = match self.board.piece_at(Square { file: 7, rank: home_rank }) {
                Some(p) => p == rook,
                None => false,
            };
            if self.castling_rights.kingside(side) && king_side_rook
                && self.board.piece_at(Square { file: 5, rank: home_rank }).is_none()
                && self.board.piece_at(Square { file: 6, rank: home_rank }).is_none()
                && !square_attacked(&self.board, Square { file: 5, rank: home_rank }, opponent)
                && !square_attacked(&self.board, Square { file: 6, rank: home_rank }, opponent) {
                moves.push(Move { from: square, to: Square { file: 6, rank: home_rank }, promotion: None });
            }
            let queen_side_rook = match self.board.piece_at(Square { file: 0, rank: home_rank }) {
                Some(p) => p == rook,
                None => false,
            };
            if self.castling_rights.queenside(side) && queen_side_rook
                && self.board.piece_at(Square { file: 1, rank: home_rank }).is_none()
                && self.board.piece_at(Square { file: 2, rank: home_rank }).is_none()
                && self.board.piece_at(Square { file: 3, rank: home_rank }).is_none()
                && !square_attacked(&self.board, Square { file: 3, rank: home_rank }, opponent)
                && !square_attacked(&self.board, Square { file: 2, rank: home_rank }, opponent) {
                moves.push(Move { from: square, to: Square { file: 2, rank: home_rank }, promotion: None });
            }
        }
        moves
    }

    /// The moves `piece` on `square` may make before king safety is considered.
    pub(crate) fn pseudo_legal_moves_from(&self, square: Square, piece: Piece) -> (r: Vec<Move>)
        ensures
            forall|m: Move| #[trigger] r@.contains(m) <==> spec_generates(self@, square, piece, m),
            spec_targets_on_board(r@),
            r@ == spec_pseudo_list(self@, square, piece),
    {
        match piece.kind {
            PieceKind::Pawn => self.generate_pawn_moves(square, piece.side),
            PieceKind::Knight => self.generate_jump_moves(square, piece.side, false),
            PieceKind::Bishop => self.generate_sliding_moves(square, piece.side, 0, 4),
            PieceKind::Rook => self.generate_sliding_moves(square, piece.side, 4, 8),
            PieceKind::Queen => self.generate_sliding_moves(square, piece.side, 0, 8),
            PieceKind::King => self.generate_king_moves(square, piece.side),
        }
    }
}

} // verus!
