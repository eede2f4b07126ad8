//! Which castling moves each side still has the right to make.
use vstd::prelude::*;

use crate::pieces::Side;
use crate::square::Square;
use crate::text::push_char;

verus! {

/// The four castling rights.
#[derive(Debug, Clone, Copy, PartialEq, Eq, Structural)]
pub struct CastlingRights {
    pub white_kingside: bool,
    pub white_queenside: bool,
    pub black_kingside: bool,
    pub black_queenside: bool,
}

pub open spec fn spec_no_rights() -> CastlingRights {
    CastlingRights {
        white_kingside: false,
        white_queenside: false,
        black_kingside: false,
        black_queenside: false,
    }
}

impl CastlingRights {
    pub open spec fn spec_kingside(self, side: Side) -> bool {
        match side {
            Side::White => self.white_kingside,
            Side::Black => self.black_kingside,
        }
    }

    pub open spec fn spec_queenside(self, side: Side) -> bool {
        match side {
            Side::White => self.white_queenside,
            Side::Black => self.black_queenside,
        }
    }

    /// The rights with both of `side`'s rights taken away.
    pub open spec fn spec_revoke_side(self, side: Side) -> CastlingRights {
        match side {
            Side::White => CastlingRights { white_kingside: false, white_queenside: false, ..self },
            Side::Black => CastlingRights { black_kingside: false, black_queenside: false, ..self },
        }
    }

    /// The rights after the rook that starts on `square` has moved or been captured.
    pub open spec fn spec_revoke_rook_origin(self, square: Square) -> CastlingRights {
        if square.file == 0 && square.rank == 0 {
            CastlingRights { white_queenside: false, ..self }
        } else if square.file == 7 && square.rank == 0 {
            CastlingRights { white_kingside: false, ..self }
        } else if square.file == 0 && square.rank == 7 {
            CastlingRights { black_queenside: false, ..self }
        } else if square.file == 7 && square.rank == 7 {
            CastlingRights { black_kingside: false, ..self }
        } else {
            self
        }
    }

    /// No right held by `self` is missing from `before`.
    pub open spec fn spec_within(self, before: CastlingRights) -> bool {
        &&& self.white_kingside ==> before.white_kingside
        &&& self.white_queenside ==> before.white_queenside
        &&& self.black_kingside ==> before.black_kingside
        &&& self.black_queenside ==> before.black_queenside
    }

    /// The FEN castling field: the letters of the rights held, or `-` when none is.
    pub open spec fn spec_fen(self) -> Seq<char> {
        let letters = (if self.white_kingside { seq!['K'] } else { Seq::<char>::empty() }) + (
        if self.white_queenside {
            seq!['Q']
        } else {
            Seq::<char>::empty()
        }) + (if self.black_kingside {
            seq!['k']
        } else {
            Seq::<char>::empty()
        }) + (if self.black_queenside {
            seq!['q']
        } else {
            Seq::<char>::empty()
        });
        if letters.len() == 0 {
            seq!['-']
        } else {
            letters
        }
    }

    pub fn new(
        white_kingside: bool,
        white_queenside: bool,
        black_kingside: bool,
        black_queenside: bool,
    ) -> (r: CastlingRights)
        ensures
            r == (CastlingRights { white_kingside, white_queenside, black_kingside, black_queenside }),
    {
        CastlingRights { white_kingside, white_queenside, black_kingside, black_queenside }
    }

    /// All four rights, as at the start of a game.
    pub fn standard() -> (r: CastlingRights)
        ensures
            r == (CastlingRights {
                white_kingside: true,
                white_queenside: true,
                black_kingside: true,
                black_queenside: true,
            }),
    {
        CastlingRights::new(true, true, true, true)
    }

    /// No rights at all.
    pub fn default() -> (r: CastlingRights)
        ensures
            r == spec_no_rights(),
    {
        CastlingRights::new(false, false, false, false)
    }

    pub fn kingside(self, side: Side) -> (r: bool)
        ensures
            r == self.spec_kingside(side),
    {
        match side {
            Side::White => self.white_kingside,
            Side::Black => self.black_kingside,
        }
    }

    pub fn queenside(self, side: Side) -> (r: bool)
        ensures
            r == self.spec_queenside(side),
    {
        match side {
            Side::White => self.white_queenside,
            Side::Black => self.black_queenside,
        }
    }

    pub fn revoke_kingside(&mut self, side: Side)
        ensures
            final(self).spec_kingside(side) == false,
            final(self).spec_queenside(side) == old(self).spec_queenside(side),
            final(self).spec_kingside(side.spec_opponent()) == old(self).spec_kingside(side.spec_opponent()),
            final(self).spec_queenside(side.spec_opponent()) == old(self).spec_queenside(side.spec_opponent()),
    {
        match side {
            Side::White => self.white_kingside = false,
            Side::Black => self.black_kingside = false,
        }
    }

    pub fn revoke_queenside(&mut self, side: Side)
        ensures
            final(self).spec_queenside(side) == false,
            final(self).spec_kingside(side) == old(self).spec_kingside(side),
            final(self).spec_kingside(side.spec_opponent()) == old(self).spec_kingside(side.spec_opponent()),
            final(self).spec_queenside(side.spec_opponent()) == old(self).spec_queenside(side.spec_opponent()),
    {
        match side {
            Side::White => self.white_queenside = false,
            Side::Black => self.black_queenside = false,
        }
    }

    pub fn revoke_side(&mut self, side: Side)
        ensures
            *final(self) == old(self).spec_revoke_side(side),
    {
        self.revoke_kingside(side);
        self.revoke_queenside(side);
    }

    pub fn revoke_rook_origin(&mut self, square: Square)
        ensures
            *final(self) == old(self).spec_revoke_rook_origin(square),
    {
        if square.file == 0 && square.rank == 0 {
            self.white_queenside = false;
        } else if square.file == 7 && square.rank == 0 {
            self.white_kingside = false;
        } else if square.file == 0 && square.rank == 7 {
            self.black_queenside = false;
        } else if square.file == 7 && square.rank == 7 {
            self.black_kingside = false;
        }
    }

    /// The FEN castling field.
    pub fn to_fen(self) -> (r: String)
        ensures
            r@ == self.spec_fen(),
    {
        let mut fen = String::new();
        if self.white_kingside {
            push_char(&mut fen, 'K');
        }
        if self.white_queenside {
            push_char(&mut fen, 'Q');
        }
        if self.black_kingside {
            push_char(&mut fen, 'k');
        }
        if self.black_queenside {
            push_char(&mut fen, 'q');
        }
        proof {
            let a = if self.white_kingside { seq!['K'] } else { Seq::<char>::empty() };
            let b = if self.white_queenside { seq!['Q'] } else { Seq::<char>::empty() };
            let c = if self.black_kingside { seq!['k'] } else { Seq::<char>::empty() };
            let d = if self.black_queenside { seq!['q'] } else { Seq::<char>::empty() };
            assert(fen@ =~= a + b + c + d);
        }
        if !(self.white_kingside || self.white_queenside || self.black_kingside || self.black_queenside) {
            let mut none = String::new();
            push_char(&mut none, '-');
            proof {
                assert(none@ =~= seq!['-']);
            }
            none
        } else {
            fen
        }
    }
}

/// Taking rights away never adds one.
pub proof fn lemma_revocations_only_remove(rights: CastlingRights, side: Side, square: Square)
    ensures
        rights.spec_revoke_side(side).spec_within(rights),
        rights.spec_revoke_rook_origin(square).spec_within(rights),
        !rights.spec_revoke_side(side).spec_kingside(side),
        !rights.spec_revoke_side(side).spec_queenside(side),
{
}

} // verus!
