//! How an automated player picks its move: at random, at random with a bias toward forcing
//! moves, or from a script.
use vstd::prelude::*;

use rand::rngs::StdRng;

use crate::board::spec_piece_on;
use crate::game::GameState;
use crate::mv::Move;
use crate::pieces::PieceKind;
use crate::rules::{spec_abs_diff, Position};

verus! {

#[verifier::external_type_specification]
#[verifier::external_body]
pub struct ExStdRng(StdRng);

/// `StdRng::seed_from_u64` of the `rand` crate: a generator whose sequence the seed fixes.
/// Nothing is stated of the generator.
#[verifier::external_body]
fn seeded_rng(seed: u64) -> (r: StdRng) {
    <StdRng as rand::SeedableRng>::seed_from_u64(seed)
}

/// `IndexedRandom::choose` of the `rand` crate on a non-empty list of moves: the crate's source
/// draws an index below the length and returns that element, so the result is one of the
/// moves. Which one rests on the generator and is not stated.
#[verifier::external_body]
fn choose_move(rng: &mut StdRng, moves: &[Move]) -> (r: Move)
    requires
        moves@.len() > 0,
    ensures
        moves@.contains(r),
{
    *rand::seq::IndexedRandom::choose(moves, rng).unwrap()
}

/// `Rng::random_range(0..bound)` of the `rand` crate for a positive bound: a number below the
/// bound; which one rests on the generator and is not stated.
#[verifier::external_body]
fn roll_below(rng: &mut StdRng, bound: u32) -> (r: u32)
    requires
        bound > 0,
    ensures
        r < bound,
{
    rand::Rng::random_range(rng, 0..bound)
}

/// One answered request for a move: the position, the legal moves handed over, and the move
/// picked.
pub type Answer = (Position, Seq<Move>, Move);

/// A way of picking one of the legal moves of a game.
pub trait MoveStrategy {
    /// The requests answered so far, in order.
    spec fn spec_answers(&self) -> Seq<Answer>;

    fn select_move(&mut self, game: &GameState, legal_moves: &[Move]) -> (r: Move)
        requires
            legal_moves@.len() > 0,
        ensures
            legal_moves@.contains(r),
            final(self).spec_answers() == old(self).spec_answers().push((game@, legal_moves@, r)),
    ;
}

/// Picks uniformly among the legal moves.
pub struct RandomStrategy {
    rng: StdRng,
    answers: Ghost<Seq<Answer>>,
}

impl RandomStrategy {
    /// A random strategy whose choices the seed fixes.
    pub fn new(seed: u64) -> (r: RandomStrategy)
        ensures
            r.spec_answers() == Seq::<Answer>::empty(),
    {
        RandomStrategy { rng: seeded_rng(seed), answers: Ghost(Seq::empty()) }
    }
}

impl MoveStrategy for RandomStrategy {
    closed spec fn spec_answers(&self) -> Seq<Answer> {
        self.answers@
    }

    fn select_move(&mut self, game: &GameState, legal_moves: &[Move]) -> (r: Move) {
        let chosen = choose_move(&mut self.rng, legal_moves);
        self.answers = Ghost(self.answers@.push((game@, legal_moves@, chosen)));
        chosen
    }
}

/// Picks at random, weighting promotions, en-passant captures, captures and castling above
/// quiet moves.
pub struct WeightedStrategy {
    rng: StdRng,
    answers: Ghost<Seq<Answer>>,
}

/// The weight of a move: 5 for a promotion, 4 for an en-passant capture, 3 for a capture, 2 for
/// castling and 1 for any other move.
pub open spec fn spec_weight(pos: Position, m: Move) -> u32 {
    let mover = spec_piece_on(pos.board, m.from);
    let is_capture = spec_piece_on(pos.board, m.to) is Some;
    let is_en_passant = pos.en_passant_target == Some(m.to) && (mover matches Some(p) && p.kind == PieceKind::Pawn);
    let is_castling = (mover matches Some(p) && p.kind == PieceKind::King) && spec_abs_diff(m.from.file, m.to.file)
        == 2;
    if m.promotion is Some {
        5
    } else if is_en_passant {
        4
    } else if is_capture {
        3
    } else if is_castling {
        2
    } else {
        1
    }
}

/// The weights of a list of moves in a position, in the list's order.
pub open spec fn spec_weights(pos: Position, moves: Seq<Move>) -> Seq<u32> {
    moves.map_values(|m: Move| spec_weight(pos, m))
}

/// The index a roll picks: walking the weights, the first whose weight exceeds what is left of
/// the roll; the last index when the roll outlasts them all.
pub open spec fn spec_pick_from(weights: Seq<u32>, i: int, roll: int) -> int
    decreases weights.len() - i,
{
    if i >= weights.len() - 1 {
        weights.len() - 1
    } else if roll < weights[i] {
        i
    } else {
        spec_pick_from(weights, i + 1, roll - weights[i])
    }
}

/// The sum of the weights, stopping at the largest `u32`.
pub open spec fn spec_total(weights: Seq<u32>) -> int
    decreases weights.len(),
{
    if weights.len() == 0 {
        0
    } else {
        let t = spec_total(weights.drop_last()) + weights.last();
        if t > u32::MAX {
            u32::MAX as int
        } else {
            t
        }
    }
}

/// The move a roll picks among moves of the given weights.
pub fn pick_weighted(legal_moves: &[Move], weights: &Vec<u32>, roll: u32) -> (r: Move)
    requires
        legal_moves@.len() > 0,
        weights@.len() == legal_moves@.len(),
    ensures
        r == legal_moves@[spec_pick_from(weights@, 0, roll as int)],
{
    let n = weights.len();
    let mut left: u32 = roll;
    let mut i: usize = 0;
    while i + 1 < n
        invariant
            n == weights@.len(),
            n == legal_moves@.len(),
            n > 0,
            i < n,
            spec_pick_from(weights@, 0, roll as int) == spec_pick_from(weights@, i as int, left as int),
        decreases n - i,
    {
        if left < weights[i] {
            return legal_moves[i];
        }
        left = left - weights[i];
        i = i + 1;
    }
    legal_moves[n - 1]
}

impl WeightedStrategy {
    /// A weighted strategy whose choices the seed fixes.
    pub fn new(seed: u64) -> (r: WeightedStrategy)
        ensures
            r.spec_answers() == Seq::<Answer>::empty(),
    {
        WeightedStrategy { rng: seeded_rng(seed), answers: Ghost(Seq::empty()) }
    }

    /// The weight of `mv` in `game`.
    pub fn weight_for(game: &GameState, mv: &Move) -> (r: u32)
        ensures
            r == spec_weight(game@, *mv),
    {
        let is_capture = game.piece_at(mv.to()).is_some();
        let is_promotion = mv.promotion().is_some();
        let mover = game.piece_at(mv.from());
        let moves_pawn = match mover {
            Some(p) => p.kind == PieceKind::Pawn,
            None => false,
        };
        let moves_king = match mover {
            Some(p) => p.kind == PieceKind::King,
            None => false,
        };
        let is_en_passant = game.en_passant_target() == Some(mv.to()) && moves_pawn;
        let from_file = mv.from().file();
        let to_file = mv.to().file();
        let file_gap = if from_file >= to_file { from_file - to_file } else { to_file - from_file };
        let is_castling = moves_king && file_gap == 2;
        if is_promotion {
            5
        } else if is_en_passant {
            4
        } else if is_capture {
            3
        } else if is_castling {
            2
        } else {
            1
        }
    }
}

impl MoveStrategy for WeightedStrategy {
    closed spec fn spec_answers(&self) -> Seq<Answer> {
        self.answers@
    }

    /// The move is the one that some roll below the total weight picks among the legal moves
    /// weighted by `spec_weight`; which roll rests on the generator.
    fn select_move(&mut self, game: &GameState, legal_moves: &[Move]) -> (r: Move)
        ensures
            exists|roll: int|
                0 <= roll < spec_total(spec_weights(game@, legal_moves@)) && r == legal_moves@[#[trigger] spec_pick_from(
                    spec_weights(game@, legal_moves@),
                    0,
                    roll,
                )],
    {
        let mut weights: Vec<u32> = Vec::new();
        let mut total: u32 = 0;
        let mut i: usize = 0;
        while i < legal_moves.len()
            invariant
                i <= legal_moves@.len(),
                weights@.len() == i,
                weights@ == spec_weights(game@, legal_moves@.take(i as int)),
                forall|j: int| 0 <= j < i ==> #[trigger] weights@[j] >= 1,
                total as int == spec_total(weights@),
                i > 0 ==> total >= 1,
            decreases legal_moves@.len() - i,
        {
            let w = WeightedStrategy::weight_for(game, &legal_moves[i]);
            let ghost before = weights@;
            weights.push(w);
            proof {
                assert(weights@.drop_last() =~= before);
                assert(weights@ =~= spec_weights(game@, legal_moves@.take(i + 1)));
            }
            total = if total > u32::MAX - w { u32::MAX } else { total + w };
            i = i + 1;
        }
        proof {
            assert(legal_moves@.take(legal_moves@.len() as int) =~= legal_moves@);
        }
        let roll = roll_below(&mut self.rng, total);
        let chosen = pick_weighted(legal_moves, &weights, roll);
        proof {
            let k = spec_pick_from(weights@, 0, roll as int);
            lemma_pick_in_range(weights@, 0, roll as int);
            assert(legal_moves@[k] == chosen);
            assert(0 <= roll < spec_total(spec_weights(game@, legal_moves@)));
        }
        self.answers = Ghost(self.answers@.push((game@, legal_moves@, chosen)));
        chosen
    }
}

/// A roll always picks an index of the list.
proof fn lemma_pick_in_range(weights: Seq<u32>, i: int, roll: int)
    requires
        weights.len() > 0,
        0 <= i,
    ensures
        0 <= spec_pick_from(weights, i, roll) < weights.len(),
        i < weights.len() ==> i <= spec_pick_from(weights, i, roll),
    decreases weights.len() - i,
{
    if i < weights.len() - 1 && roll >= weights[i] {
        lemma_pick_in_range(weights, i + 1, roll - weights[i]);
    }
}

/// Plays the scripted moves in order, skipping those that are not legal when their turn comes,
/// then picks at random.
pub struct ScriptedStrategy {
    script: Vec<Move>,
    index: usize,
    fallback: RandomStrategy,
    answers: Ghost<Seq<Answer>>,
}

impl ScriptedStrategy {
    /// A strategy that plays `script`, then random moves fixed by the seed.
    pub fn new(script: Vec<Move>, fallback_seed: u64) -> (r: ScriptedStrategy)
        ensures
            r.spec_script() == script@,
            r.spec_index() == 0,
            r.spec_answers() == Seq::<Answer>::empty(),
    {
        ScriptedStrategy {
            script,
            index: 0,
            fallback: RandomStrategy::new(fallback_seed),
            answers: Ghost(Seq::empty()),
        }
    }

    pub closed spec fn spec_script(&self) -> Seq<Move> {
        self.script@
    }

    /// How many scripted moves were used or skipped so far.
    pub closed spec fn spec_index(&self) -> nat {
        self.index as nat
    }

    /// The next scripted move from position `i` that is legal, if any.
    pub open spec fn spec_next_scripted(script: Seq<Move>, i: int, legal: Seq<Move>) -> Option<int>
        decreases script.len() - i,
    {
        if i >= script.len() {
            None
        } else if legal.contains(script[i]) {
            Some(i)
        } else {
            Self::spec_next_scripted(script, i + 1, legal)
        }
    }
}

impl MoveStrategy for ScriptedStrategy {
    closed spec fn spec_answers(&self) -> Seq<Answer> {
        self.answers@
    }

    fn select_move(&mut self, game: &GameState, legal_moves: &[Move]) -> (r: Move)
        ensures
            final(self).spec_script() == old(self).spec_script(),
            match Self::spec_next_scripted(old(self).spec_script(), old(self).spec_index() as int, legal_moves@) {
                Some(k) => r == old(self).spec_script()[k] && final(self).spec_index() == k + 1,
                None => final(self).spec_index() >= old(self).spec_script().len() && final(self).spec_index()
                    >= old(self).spec_index(),
            },
    {
        let ghost start = self.index;
        while self.index < self.script.len()
            invariant
                self.script@ == old(self).script@,
                start == old(self).index,
                start <= self.index,
                self.answers@ == old(self).answers@,
                Self::spec_next_scripted(self.script@, start as int, legal_moves@) == Self::spec_next_scripted(
                    self.script@,
                    self.index as int,
                    legal_moves@,
                ),
            decreases self.script@.len() - self.index,
        {
            let scripted = self.script[self.index];
            self.index = self.index + 1;
            if slice_contains(legal_moves, scripted) {
                self.answers = Ghost(self.answers@.push((game@, legal_moves@, scripted)));
                return scripted;
            }
        }
        let chosen = self.fallback.select_move(game, legal_moves);
        self.answers = Ghost(self.answers@.push((game@, legal_moves@, chosen)));
        chosen
    }
}

fn slice_contains(moves: &[Move], candidate: Move) -> (r: bool)
    ensures
        r == moves@.contains(candidate),
{
    let mut i: usize = 0;
    while i < moves.len()
        invariant
            i <= moves@.len(),
            forall|j: int| 0 <= j < i ==> moves@[j] != candidate,
        decreases moves@.len() - i,
    {
        if moves[i] == candidate {
            return true;
        }
        i = i + 1;
    }
    false
}

} // verus!
