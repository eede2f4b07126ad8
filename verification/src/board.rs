//! The pieces on the board, kept as a map from squares to pieces in square order.
use vstd::prelude::*;

use crate::pieces::{Piece, PieceKind, Side};
use crate::square::Square;

verus! {

/// Entries strictly increasing in square order (so no square occurs twice).
pub open spec fn spec_sorted_entries(es: Seq<(Square, Piece)>) -> bool {
    forall|i: int, j: int| 0 <= i < j < es.len() ==> (#[trigger] es[i]).0.spec_precedes((#[trigger] es[j]).0)
}

pub open spec fn spec_has_key(es: Seq<(Square, Piece)>, s: Square) -> bool {
    exists|i: int| 0 <= i < es.len() && (#[trigger] es[i]).0 == s
}

/// The map from squares to pieces that a list of entries describes.
pub open spec fn spec_entries_map(es: Seq<(Square, Piece)>) -> Map<Square, Piece> {
    Map::new(
        |s: Square| spec_has_key(es, s),
        |s: Square| es[choose|i: int| 0 <= i < es.len() && (#[trigger] es[i]).0 == s].1,
    )
}

/// The piece on a square of a board map, if any.
pub open spec fn spec_piece_on(board: Map<Square, Piece>, s: Square) -> Option<Piece> {
    if board.contains_key(s) {
        Some(board[s])
    } else {
        None
    }
}

/// `s` holds `side`'s king and no square before it in square order does.
pub open spec fn spec_is_first_king(board: Map<Square, Piece>, side: Side, s: Square) -> bool {
    &&& spec_piece_on(board, s) == Some(Piece { side, kind: PieceKind::King })
    &&& forall|t: Square|
        #[trigger] spec_piece_on(board, t) == Some(Piece { side, kind: PieceKind::King }) ==> t == s
            || s.spec_precedes(t)
}

/// The square of `side`'s king; with several, the first in square order.
pub open spec fn spec_king_square(board: Map<Square, Piece>, side: Side) -> Option<Square> {
    if exists|s: Square| spec_is_first_king(board, side, s) {
        Some(choose|s: Square| spec_is_first_king(board, side, s))
    } else {
        None
    }
}

/// The pieces on the board.
#[derive(Debug, PartialEq, Eq)]
pub struct BoardState {
    pieces: Vec<(Square, Piece)>,
}

impl View for BoardState {
    type V = Map<Square, Piece>;

    open spec fn view(&self) -> Map<Square, Piece> {
        spec_entries_map(self.spec_entries())
    }
}

impl BoardState {
    /// The entries of the board in square order.
    pub closed spec fn spec_entries(&self) -> Seq<(Square, Piece)> {
        self.pieces@
    }

    #[verifier::type_invariant]
    pub closed spec fn wf(&self) -> bool {
        spec_sorted_entries(self.pieces@)
    }

    pub open spec fn spec_piece_at(&self, s: Square) -> Option<Piece> {
        spec_piece_on(self@, s)
    }

    /// An empty board.
    pub fn empty() -> (r: BoardState)
        ensures
            r@ == Map::<Square, Piece>::empty(),
            r.spec_entries().len() == 0,
    {
        let r = BoardState { pieces: Vec::new() };
        assert(r@ =~= Map::<Square, Piece>::empty());
        r
    }

    /// Index of the first entry whose square does not come before `s`.
    fn search(&self, s: Square) -> (r: usize)
        ensures
            r <= self.pieces@.len(),
            forall|j: int| 0 <= j < r ==> (#[trigger] self.pieces@[j]).0.spec_precedes(s),
            r < self.pieces@.len() ==> !self.pieces@[r as int].0.spec_precedes(s),
    {
        let mut i: usize = 0;
        while i < self.pieces.len()
            invariant
                i <= self.pieces@.len(),
                forall|j: int| 0 <= j < i ==> (#[trigger] self.pieces@[j]).0.spec_precedes(s),
            decreases self.pieces@.len() - i,
        {
            let key = self.pieces[i].0;
            if !(key.file < s.file || (key.file == s.file && key.rank < s.rank)) {
                return i;
            }
            i = i + 1;
        }
        i
    }

    /// Places `piece` on `square`, replacing what stood there, and returns the board.
    pub fn place_piece(self, square: Square, piece: Piece) -> (r: BoardState)
        ensures
            r@ == self@.insert(square, piece),
    {
        let mut board = self;
        board.set_piece(square, piece);
        board
    }

    /// Places `piece` on `square`, replacing what stood there.
    pub fn set_piece(&mut self, square: Square, piece: Piece)
        ensures
            final(self)@ == old(self)@.insert(square, piece),
    {
        proof {
            use_type_invariant(&*self);
        }
        let ghost old_es = self.pieces@;
        let i = self.search(square);
        let mut pieces: Vec<(Square, Piece)> = Vec::new();
        std::mem::swap(&mut pieces, &mut self.pieces);
        if i < pieces.len() && pieces[i].0 == square {
            pieces.set(i, (square, piece));
            proof {
                let es = pieces@;
                assert(es == old_es.update(i as int, (square, piece)));
                assert forall|s: Square| #[trigger] spec_has_key(es, s) <==> spec_has_key(old_es, s) || s == square by {
                    if spec_has_key(old_es, s) {
                        let k = choose|k: int| 0 <= k < old_es.len() && (#[trigger] old_es[k]).0 == s;
                        assert(es[k].0 == s);
                    }
                    if spec_has_key(es, s) {
                        let k = choose|k: int| 0 <= k < es.len() && (#[trigger] es[k]).0 == s;
                        assert(old_es[k].0 == s);
                    }
                    if s == square {
                        assert(es[i as int].0 == s);
                    }
                }
                lemma_map_of_sorted(es);
                lemma_map_of_sorted(old_es);
                assert(spec_entries_map(es) =~= spec_entries_map(old_es).insert(square, piece));
            }
        } else {
            pieces.insert(i, (square, piece));
            proof {
                let es = pieces@;
                assert(es == old_es.insert(i as int, (square, piece)));
                assert(spec_sorted_entries(es)) by {
                    assert forall|a: int, b: int| 0 <= a < b < es.len() implies (#[trigger] es[a]).0.spec_precedes((#[trigger] es[b]).0) by {
                        if b < i {
                        } else if a < i && b == i {
                        } else if a < i && b > i {
                            assert(old_es[a].0.spec_precedes(old_es[b - 1].0) || a == b - 1);
                        } else if a == i {
                            assert(!old_es[i as int].0.spec_precedes(square));
                            if b - 1 > i {
                                assert(old_es[i as int].0.spec_precedes(old_es[b - 1].0));
                            }
                        } else {
                            assert(old_es[a - 1].0.spec_precedes(old_es[b - 1].0));
                        }
                    }
                }
                assert forall|s: Square| #[trigger] spec_has_key(es, s) <==> spec_has_key(old_es, s) || s == square by {
                    if spec_has_key(old_es, s) {
                        let k = choose|k: int| 0 <= k < old_es.len() && (#[trigger] old_es[k]).0 == s;
                        if k < i {
                            assert(es[k].0 == s);
                        } else {
                            assert(es[k + 1].0 == s);
                        }
                    }
                    if spec_has_key(es, s) {
                        let k = choose|k: int| 0 <= k < es.len() && (#[trigger] es[k]).0 == s;
                        if k < i {
                            assert(old_es[k].0 == s);
                        } else if k > i {
                            assert(old_es[k - 1].0 == s);
                        }
                    }
                    if s == square {
                        assert(es[i as int].0 == s);
                    }
                }
                lemma_map_of_sorted(es);
                lemma_map_of_sorted(old_es);
                assert forall|s: Square| s != square && #[trigger] spec_has_key(old_es, s) implies
                    spec_entries_map(es)[s] == spec_entries_map(old_es)[s] by {
                    let k = choose|k: int| 0 <= k < old_es.len() && (#[trigger] old_es[k]).0 == s;
                    if k < i {
                        assert(es[k].0 == s);
                    } else {
                        assert(es[k + 1].0 == s);
                    }
                }
                assert(es[i as int].0 == square);
                assert(spec_entries_map(es) =~= spec_entries_map(old_es).insert(square, piece));
            }
        }
        self.pieces = pieces;
    }

    /// Takes the piece off `square` and returns it.
    pub fn remove_piece(&mut self, square: Square) -> (r: Option<Piece>)
        ensures
            r == spec_piece_on(old(self)@, square),
            final(self)@ == old(self)@.remove(square),
    {
        proof {
            use_type_invariant(&*self);
        }
        let ghost old_es = self.pieces@;
        proof {
            lemma_map_of_sorted(old_es);
        }
        let i = self.search(square);
        if i < self.pieces.len() && self.pieces[i].0 == square {
            let mut pieces: Vec<(Square, Piece)> = Vec::new();
            std::mem::swap(&mut pieces, &mut self.pieces);
            let entry = pieces.remove(i);
            proof {
                let es = pieces@;
                assert(es == old_es.remove(i as int));
                assert forall|s: Square| #[trigger] spec_has_key(es, s) <==> spec_has_key(old_es, s) && s != square by {
                    if spec_has_key(old_es, s) && s != square {
                        let k = choose|k: int| 0 <= k < old_es.len() && (#[trigger] old_es[k]).0 == s;
                        if k < i {
                            assert(es[k].0 == s);
                        } else {
                            assert(k != i);
                            assert(es[k - 1].0 == s);
                        }
                    }
                    if spec_has_key(es, s) {
                        let k = choose|k: int| 0 <= k < es.len() && (#[trigger] es[k]).0 == s;
                        if k < i {
                            assert(old_es[k].0 == s);
                            assert(old_es[k].0.spec_precedes(old_es[i as int].0));
                        } else {
                            assert(old_es[k + 1].0 == s);
                            assert(old_es[i as int].0.spec_precedes(old_es[k + 1].0));
                        }
                    }
                }
                lemma_map_of_sorted(es);
                assert forall|s: Square| #[trigger] spec_has_key(es, s) implies
                    spec_entries_map(es)[s] == spec_entries_map(old_es)[s] by {
                    let k = choose|k: int| 0 <= k < es.len() && (#[trigger] es[k]).0 == s;
                    if k < i {
                        assert(old_es[k].0 == s);
                    } else {
                        assert(old_es[k + 1].0 == s);
                    }
                }
                assert(spec_entries_map(es) =~= spec_entries_map(old_es).remove(square));
            }
            self.pieces = pieces;
            Some(entry.1)
        } else {
            proof {
                assert(!spec_has_key(old_es, square)) by {
                    if spec_has_key(old_es, square) {
                        let k = choose|k: int| 0 <= k < old_es.len() && (#[trigger] old_es[k]).0 == square;
                        if k < i {
                        } else if k > i {
                            assert(old_es[i as int].0.spec_precedes(old_es[k].0));
                        }
                    }
                }
                assert(spec_entries_map(old_es) =~= spec_entries_map(old_es).remove(square));
            }
            None
        }
    }

    /// The piece on `square`, if any.
    pub fn piece_at(&self, square: Square) -> (r: Option<Piece>)
        ensures
            r == self.spec_piece_at(square),
    {
        proof {
            use_type_invariant(self);
            lemma_map_of_sorted(self.pieces@);
        }
        let i = self.search(square);
        if i < self.pieces.len() && self.pieces[i].0 == square {
            Some(self.pieces[i].1)
        } else {
            proof {
                let es = self.pieces@;
                assert(!spec_has_key(es, square)) by {
                    if spec_has_key(es, square) {
                        let k = choose|k: int| 0 <= k < es.len() && (#[trigger] es[k]).0 == square;
                        if k > i {
                            assert(es[i as int].0.spec_precedes(es[k].0));
                        }
                    }
                }
            }
            None
        }
    }

    /// Whether a piece stands on `square`.
    pub fn contains_piece(&self, square: Square) -> (r: bool)
        ensures
            r == self@.contains_key(square),
    {
        self.piece_at(square).is_some()
    }

    /// The number of pieces on the board.
    pub fn piece_count(&self) -> (r: usize)
        ensures
            r == self.spec_entries().len(),
            r == self@.dom().len(),
    {
        proof {
            use_type_invariant(self);
            lemma_map_len(self.pieces@);
        }
        self.pieces.len()
    }

    /// A copy of the board.
    pub fn copy(&self) -> (r: BoardState)
        ensures
            r@ == self@,
            r.spec_entries() == self.spec_entries(),
    {
        proof {
            use_type_invariant(self);
        }
        BoardState { pieces: copy_entries(&self.pieces) }
    }

    /// All pieces with their squares, in square order.
    pub fn iter(&self) -> (r: Vec<(Square, Piece)>)
        ensures
            r@ == self.spec_entries(),
    {
        copy_entries(&self.pieces)
    }

    /// The pieces of one side with their squares, in square order.
    pub fn iter_side(&self, side: Side) -> (r: Vec<(Square, Piece)>)
        ensures
            r@ == self.spec_entries().filter(|e: (Square, Piece)| e.1.side == side),
            forall|k: int|
                0 <= k < r@.len() ==> self.spec_piece_at((#[trigger] r@[k]).0) == Some(r@[k].1) && r@[k].1.side
                    == side,
            forall|s: Square|
                #[trigger] self.spec_piece_at(s) is Some && self.spec_piece_at(s).unwrap().side == side ==> r@.contains(
                    (s, self.spec_piece_at(s).unwrap()),
                ),
            spec_sorted_entries(r@),
    {
        proof {
            use_type_invariant(self);
            let es = self.pieces@;
            let pred = |e: (Square, Piece)| e.1.side == side;
            lemma_map_of_sorted(es);
            lemma_filter_sorted(es, pred);
            let f = es.filter(pred);
            assert forall|k: int| 0 <= k < f.len() implies self.spec_piece_at((#[trigger] f[k]).0) == Some(f[k].1)
                && f[k].1.side == side by {
                assert(f.contains(f[k]));
                es.lemma_filter_contains_rev(pred, f[k]);
                es.lemma_filter_pred(pred, k);
            }
            assert forall|s: Square|
                #[trigger] self.spec_piece_at(s) is Some && self.spec_piece_at(s).unwrap().side == side implies f.contains(
                    (s, self.spec_piece_at(s).unwrap()),
                ) by {
                let i = choose|i: int| 0 <= i < es.len() && (#[trigger] es[i]).0 == s;
                assert(es[i] == (s, self.spec_piece_at(s).unwrap()));
                es.lemma_filter_contains(pred, i);
            }
        }
        let mut out: Vec<(Square, Piece)> = Vec::new();
        let mut i: usize = 0;
        let ghost pred = |e: (Square, Piece)| e.1.side == side;
        while i < self.pieces.len()
            invariant
                i <= self.pieces@.len(),
                pred == (|e: (Square, Piece)| e.1.side == side),
                out@ == self.pieces@.take(i as int).filter(pred),
            decreases self.pieces@.len() - i,
        {
            proof {
                reveal_with_fuel(Seq::<_>::filter, 1);
                assert(self.pieces@.take(i + 1).drop_last() == self.pieces@.take(i as int));
            }
            let entry = self.pieces[i];
            if entry.1.side == side {
                out.push(entry);
            }
            i = i + 1;
        }
        proof {
            assert(self.pieces@.take(i as int) == self.pieces@);
        }
        out
    }

    /// How many squares hold `piece`.
    pub fn count_piece(&self, piece: Piece) -> (r: usize)
        ensures
            r == spec_count_of(self@, piece),
    {
        proof {
            use_type_invariant(self);
            lemma_count_of_sorted(self.pieces@, piece);
        }
        let mut count: usize = 0;
        let mut i: usize = 0;
        while i < self.pieces.len()
            invariant
                i <= self.pieces@.len(),
                count == spec_entry_count(self.pieces@.take(i as int), piece),
                count <= i,
            decreases self.pieces@.len() - i,
        {
            proof {
                assert(self.pieces@.take(i + 1).drop_last() =~= self.pieces@.take(i as int));
            }
            if self.pieces[i].1 == piece {
                count = count + 1;
            }
            i = i + 1;
        }
        proof {
            assert(self.pieces@.take(i as int) =~= self.pieces@);
        }
        count
    }

    /// The square of `side`'s king; with several such kings, the first in square order.
    pub fn king_square(&self, side: Side) -> (r: Option<Square>)
        ensures
            r == spec_king_square(self@, side),
            r is Some <==> exists|s: Square| #[trigger] spec_piece_on(self@, s) == Some(Piece { side, kind: PieceKind::King }),
            r matches Some(k) ==> spec_is_first_king(self@, side, k),
    {
        proof {
            law_king_square_found(self@, side);
            use_type_invariant(self);
            lemma_map_of_sorted(self.pieces@);
        }
        let king = Piece { side, kind: PieceKind::King };
        let mut i: usize = 0;
        while i < self.pieces.len()
            invariant
                i <= self.pieces@.len(),
                forall|j: int| 0 <= j < i ==> (#[trigger] self.pieces@[j]).1 != king,
                king == (Piece { side, kind: PieceKind::King }),
                spec_sorted_entries(self.pieces@),
            decreases self.pieces@.len() - i,
        {
            let entry = self.pieces[i];
            if entry.1 == king {
                proof {
                    let es = self.pieces@;
                    let m = spec_entries_map(es);
                    lemma_map_of_sorted(es);
                    assert(es[i as int] == entry);
                    assert(spec_is_first_king(m, side, entry.0)) by {
                        assert forall|t: Square| #[trigger] spec_piece_on(m, t) == Some(king) implies t == entry.0
                            || entry.0.spec_precedes(t) by {
                            let j = choose|j: int| 0 <= j < es.len() && (#[trigger] es[j]).0 == t;
                            if j < i {
                                assert(es[j].1 != king);
                            } else if j > i {
                                assert(es[i as int].0.spec_precedes(es[j].0));
                            }
                        }
                    }
                    lemma_first_king_unique(m, side, entry.0);
                }
                return Some(entry.0);
            }
            i = i + 1;
        }
        proof {
            let es = self.pieces@;
            let m = spec_entries_map(es);
            lemma_map_of_sorted(es);
            assert forall|s: Square| !spec_is_first_king(m, side, s) by {
                if spec_is_first_king(m, side, s) {
                    let j = choose|j: int| 0 <= j < es.len() && (#[trigger] es[j]).0 == s;
                    assert(es[j].1 != king);
                }
            }
        }
        None
    }
}

fn copy_entries(es: &Vec<(Square, Piece)>) -> (r: Vec<(Square, Piece)>)
    ensures
        r@ == es@,
{
    let mut out: Vec<(Square, Piece)> = Vec::new();
    let mut i: usize = 0;
    while i < es.len()
        invariant
            i <= es@.len(),
            out@ == es@.take(i as int),
        decreases es@.len() - i,
    {
        out.push(es[i]);
        proof {
            assert(es@.take(i + 1) == es@.take(i as int).push(es@[i as int]));
        }
        i = i + 1;
    }
    proof {
        assert(es@.take(i as int) == es@);
    }
    out
}

/// At most one square is the first king of a side.
pub proof fn lemma_first_king_unique(board: Map<Square, Piece>, side: Side, s: Square)
    requires
        spec_is_first_king(board, side, s),
    ensures
        spec_king_square(board, side) == Some(s),
{
    let c = choose|c: Square| spec_is_first_king(board, side, c);
    assert(spec_piece_on(board, c) == Some(Piece { side, kind: PieceKind::King }));
    assert(spec_piece_on(board, s) == Some(Piece { side, kind: PieceKind::King }));
}

/// From a king of `side` on `s0`, walking back to kings that come earlier in square order
/// reaches a first one.
proof fn lemma_first_king_from(board: Map<Square, Piece>, side: Side, s0: Square)
    requires
        spec_piece_on(board, s0) == Some(Piece { side, kind: PieceKind::King }),
    ensures
        exists|s: Square| spec_is_first_king(board, side, s),
    decreases s0.file * 256 + s0.rank,
{
    let king = Piece { side, kind: PieceKind::King };
    if forall|t: Square| #[trigger] spec_piece_on(board, t) == Some(king) ==> t == s0 || s0.spec_precedes(t) {
        assert(spec_is_first_king(board, side, s0));
    } else {
        let t = choose|t: Square| #[trigger] spec_piece_on(board, t) == Some(king) && !(t == s0 || s0.spec_precedes(t));
        assert(t.file * 256 + t.rank < s0.file * 256 + s0.rank);
        lemma_first_king_from(board, side, t);
    }
}

/// A side has a king square exactly when one of its kings stands on the board, and the king
/// square is then the first of them in square order.
pub proof fn law_king_square_found(board: Map<Square, Piece>, side: Side)
    ensures
        spec_king_square(board, side) is Some <==> exists|s: Square|
            #[trigger] spec_piece_on(board, s) == Some(Piece { side, kind: PieceKind::King }),
        spec_king_square(board, side) matches Some(k) ==> spec_is_first_king(board, side, k),
{
    if exists|s: Square| #[trigger] spec_piece_on(board, s) == Some(Piece { side, kind: PieceKind::King }) {
        let s = choose|s: Square| #[trigger] spec_piece_on(board, s) == Some(Piece { side, kind: PieceKind::King });
        lemma_first_king_from(board, side, s);
    }
    if spec_king_square(board, side) is Some {
        let k = spec_king_square(board, side).unwrap();
        assert(spec_piece_on(board, k) == Some(Piece { side, kind: PieceKind::King }));
    }
}

/// Keeping some entries of a sorted list keeps it sorted.
proof fn lemma_filter_sorted(es: Seq<(Square, Piece)>, pred: spec_fn((Square, Piece)) -> bool)
    requires
        spec_sorted_entries(es),
    ensures
        spec_sorted_entries(es.filter(pred)),
    decreases es.len(),
{
    reveal(Seq::filter);
    if es.len() > 0 {
        let rest = es.drop_last();
        assert(spec_sorted_entries(rest)) by {
            assert forall|i: int, j: int| 0 <= i < j < rest.len() implies (#[trigger] rest[i]).0.spec_precedes(
                (#[trigger] rest[j]).0,
            ) by {
                assert(rest[i] == es[i] && rest[j] == es[j]);
            }
        }
        lemma_filter_sorted(rest, pred);
        if pred(es.last()) {
            let f = rest.filter(pred);
            let out = f.push(es.last());
            assert forall|i: int, j: int| 0 <= i < j < out.len() implies (#[trigger] out[i]).0.spec_precedes(
                (#[trigger] out[j]).0,
            ) by {
                if j == out.len() - 1 {
                    assert(f.contains(out[i]));
                    rest.lemma_filter_contains_rev(pred, out[i]);
                    let k = choose|k: int| 0 <= k < rest.len() && rest[k] == out[i];
                    assert(es[k] == out[i]);
                } else {
                    assert(out[i] == f[i] && out[j] == f[j]);
                }
            }
        }
    }
}

/// In a sorted entry list each entry is what its square maps to.
pub proof fn lemma_map_of_sorted(es: Seq<(Square, Piece)>)
    requires
        spec_sorted_entries(es),
    ensures
        forall|i: int|
            0 <= i < es.len() ==> spec_entries_map(es).contains_key((#[trigger] es[i]).0)
                && spec_entries_map(es)[es[i].0] == es[i].1,
        forall|s: Square|
            spec_entries_map(es).contains_key(s) ==> exists|i: int|
                0 <= i < es.len() && (#[trigger] es[i]).0 == s,
{
    assert forall|i: int| 0 <= i < es.len() implies spec_entries_map(es).contains_key((#[trigger] es[i]).0)
        && spec_entries_map(es)[es[i].0] == es[i].1 by {
        let s = es[i].0;
        assert(spec_has_key(es, s));
        let k = choose|k: int| 0 <= k < es.len() && (#[trigger] es[k]).0 == s;
        if k < i {
            assert(es[k].0.spec_precedes(es[i].0));
        } else if k > i {
            assert(es[i].0.spec_precedes(es[k].0));
        }
    }
}

/// A sorted entry list has as many entries as its map has squares.
pub proof fn lemma_map_len(es: Seq<(Square, Piece)>)
    requires
        spec_sorted_entries(es),
    ensures
        spec_entries_map(es).dom().len() == es.len(),
        spec_entries_map(es).dom().finite(),
    decreases es.len(),
{
    lemma_map_of_sorted(es);
    if es.len() == 0 {
        assert(spec_entries_map(es).dom() =~= Set::<Square>::empty());
    } else {
        let rest = es.drop_last();
        assert(spec_sorted_entries(rest));
        lemma_map_len(rest);
        lemma_map_of_sorted(rest);
        let last = es.last().0;
        assert(!spec_has_key(rest, last)) by {
            if spec_has_key(rest, last) {
                let k = choose|k: int| 0 <= k < rest.len() && (#[trigger] rest[k]).0 == last;
                assert(es[k].0.spec_precedes(es[es.len() - 1].0));
            }
        }
        assert forall|s: Square| spec_has_key(es, s) <==> spec_has_key(rest, s) || s == last by {
            if spec_has_key(es, s) {
                let k = choose|k: int| 0 <= k < es.len() && (#[trigger] es[k]).0 == s;
                if k < es.len() - 1 {
                    assert(rest[k].0 == s);
                }
            }
            if spec_has_key(rest, s) {
                let k = choose|k: int| 0 <= k < rest.len() && (#[trigger] rest[k]).0 == s;
                assert(es[k].0 == s);
            }
            if s == last {
                assert(es[es.len() - 1].0 == s);
            }
        }
        assert(spec_entries_map(es).dom() =~= spec_entries_map(rest).dom().insert(last));
    }
}

/// The entries of a board are in square order and list exactly its squares.
pub proof fn lemma_board_entries(board: &BoardState)
    requires
        board.wf(),
    ensures
        spec_sorted_entries(board.spec_entries()),
        forall|i: int|
            0 <= i < board.spec_entries().len() ==> board@.contains_key(
                (#[trigger] board.spec_entries()[i]).0,
            ) && board@[board.spec_entries()[i].0] == board.spec_entries()[i].1,
        forall|s: Square|
            board@.contains_key(s) ==> exists|i: int|
                0 <= i < board.spec_entries().len() && (#[trigger] board.spec_entries()[i]).0 == s,
{
    lemma_map_of_sorted(board.pieces@);
}

/// The squares of a board that hold `piece`.
pub open spec fn spec_squares_holding(board: Map<Square, Piece>, piece: Piece) -> Set<Square> {
    Set::new(|s: Square| board.contains_key(s) && board[s] == piece)
}

/// How many squares of a board hold `piece`.
pub open spec fn spec_count_of(board: Map<Square, Piece>, piece: Piece) -> nat {
    spec_squares_holding(board, piece).len()
}

/// How many entries of a list hold `piece`.
pub open spec fn spec_entry_count(es: Seq<(Square, Piece)>, piece: Piece) -> nat
    decreases es.len(),
{
    if es.len() == 0 {
        0
    } else {
        spec_entry_count(es.drop_last(), piece) + if es.last().1 == piece {
            1nat
        } else {
            0nat
        }
    }
}

/// In a sorted entry list, the entries holding `piece` are as many as the squares of its map
/// that hold it.
pub proof fn lemma_count_of_sorted(es: Seq<(Square, Piece)>, piece: Piece)
    requires
        spec_sorted_entries(es),
    ensures
        spec_count_of(spec_entries_map(es), piece) == spec_entry_count(es, piece),
        spec_squares_holding(spec_entries_map(es), piece).finite(),
    decreases es.len(),
{
    let m = spec_entries_map(es);
    let held = spec_squares_holding(m, piece);
    lemma_map_len(es);
    lemma_map_of_sorted(es);
    assert(held.subset_of(m.dom()));
    vstd::set_lib::lemma_len_subset(held, m.dom());
    if es.len() == 0 {
        assert(held =~= Set::<Square>::empty());
    } else {
        let rest = es.drop_last();
        assert(spec_sorted_entries(rest));
        lemma_count_of_sorted(rest, piece);
        lemma_map_of_sorted(rest);
        let mr = spec_entries_map(rest);
        let held_rest = spec_squares_holding(mr, piece);
        let last = es.last();
        assert(!spec_has_key(rest, last.0)) by {
            if spec_has_key(rest, last.0) {
                let k = choose|k: int| 0 <= k < rest.len() && (#[trigger] rest[k]).0 == last.0;
                assert(es[k].0.spec_precedes(es[es.len() - 1].0));
            }
        }
        assert forall|s: Square| mr.contains_key(s) implies m.contains_key(s) && m[s] == mr[s] by {
            let k = choose|k: int| 0 <= k < rest.len() && (#[trigger] rest[k]).0 == s;
            assert(es[k] == rest[k]);
        }
        assert(m.contains_key(last.0) && m[last.0] == last.1) by {
            assert(es[es.len() - 1] == last);
        }
        assert forall|s: Square| m.contains_key(s) implies mr.contains_key(s) || s == last.0 by {
            let k = choose|k: int| 0 <= k < es.len() && (#[trigger] es[k]).0 == s;
            if k < es.len() - 1 {
                assert(rest[k] == es[k]);
            }
        }
        assert(!held_rest.contains(last.0));
        if last.1 == piece {
            assert(held =~= held_rest.insert(last.0));
        } else {
            assert(held =~= held_rest);
        }
    }
}

} // verus!