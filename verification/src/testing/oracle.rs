//! Plays whole games with a strategy per side, checking every move, and summarises them.
use vstd::prelude::*;

use super::checker::{InvariantChecker, spec_checkable, spec_views, spec_violations, Violation, ViolationKind};
use super::soundness::{law_sound_line_has_no_violations, lemma_start_sound, spec_sound};
use crate::game::spec_starting_position;
use super::strategy::{Answer, MoveStrategy};
use crate::game::play::{spec_legal_list, spec_play, spec_played};
use crate::game::GameState;
use crate::mv::{Move, MoveError};
use crate::pieces::{PieceKind, Side};
use crate::rules::{spec_fen, spec_has_legal_move, spec_is_legal, spec_status, Position};
use crate::status::{AutomaticDrawReason, DrawReason, GameOutcome, GameStatus, WinReason};
use crate::text::{push_char, push_decimal, push_text, spec_decimal};

verus! {

/// How a game ended.
#[derive(Debug, Clone, Copy, PartialEq, Eq, Structural)]
pub enum GameTermination {
    /// The game reached a finished status.
    Completed(GameStatus),
    /// The game reached the move limit while still going on.
    MoveLimitReached(u16),
}

/// The record of a played game.
#[derive(Debug, Clone)]
pub struct GameRecord {
    pub initial_fen: String,
    pub moves: Vec<Move>,
    pub final_fen: String,
    pub termination: GameTermination,
    pub violations: Vec<Violation>,
    pub move_count: u16,
}

/// The violations the checker reports along the moves played from `start`.
pub open spec fn spec_path_violations(start: Position, moves: Seq<Move>) -> Seq<(ViolationKind, Seq<char>)>
    decreases moves.len(),
{
    if moves.len() == 0 {
        Seq::empty()
    } else {
        match spec_played(start, moves.drop_last()) {
            Some(p) => match spec_play(p, moves.last()) {
                Ok(next) => spec_path_violations(start, moves.drop_last()) + spec_violations(p, moves.last(), next),
                Err(_) => Seq::empty(),
            },
            None => Seq::empty(),
        }
    }
}

/// How many of the first `n` moves of a line are Black's, when `first` moves first.
pub open spec fn spec_black_moves(first: Side, n: nat) -> nat {
    if first == Side::Black {
        (n + 1) / 2
    } else {
        n / 2
    }
}

/// The side to move after `n` moves of a line in which `first` moved first.
pub open spec fn spec_side_after(first: Side, n: nat) -> Side {
    if n % 2 == 0 {
        first
    } else {
        first.spec_opponent()
    }
}

/// One more move adds one Black move exactly when Black was to move, and hands the turn over.
pub proof fn lemma_black_moves_step(first: Side, n: nat)
    ensures
        spec_black_moves(first, n + 1) == spec_black_moves(first, n) + (if spec_side_after(first, n)
            == Side::Black {
            1nat
        } else {
            0nat
        }),
        spec_side_after(first, n + 1) == spec_side_after(first, n).spec_opponent(),
{
}

/// The requests for a move that `side` answered along the moves played from `start`: for each
/// of its turns, the position, all its legal moves, and the move played.
pub open spec fn spec_plies(start: Position, moves: Seq<Move>, side: Side) -> Seq<Answer>
    decreases moves.len(),
{
    if moves.len() == 0 {
        Seq::empty()
    } else {
        let earlier = spec_plies(start, moves.drop_last(), side);
        match spec_played(start, moves.drop_last()) {
            Some(p) => if p.side_to_move == side {
                earlier.push((p, spec_legal_list(p), moves.last()))
            } else {
                earlier
            },
            None => earlier,
        }
    }
}

/// One more accepted move extends the played line and its violations.
proof fn lemma_path_step(start: Position, moves: Seq<Move>, m: Move, p: Position, next: Position)
    requires
        spec_played(start, moves) == Some(p),
        spec_play(p, m) == Ok::<Position, MoveError>(next),
    ensures
        spec_played(start, moves.push(m)) == Some(next),
        spec_path_violations(start, moves.push(m)) == spec_path_violations(start, moves) + spec_violations(p, m, next),
{
    assert(moves.push(m).drop_last() =~= moves);
}

/// Plays games between two strategies, up to a limit of moves.
pub struct GameOracle {
    white: Box<dyn MoveStrategy>,
    black: Box<dyn MoveStrategy>,
    max_moves: u16,
}

impl GameOracle {
    /// An oracle with the two strategies and a limit of 500 moves.
    pub fn new(white: Box<dyn MoveStrategy>, black: Box<dyn MoveStrategy>) -> (r: GameOracle)
        ensures
            r.spec_max_moves() == 500,
    {
        GameOracle { white, black, max_moves: 500 }
    }

    pub closed spec fn spec_max_moves(&self) -> u16 {
        self.max_moves
    }

    /// The requests White's strategy has answered so far.
    pub closed spec fn spec_white_answers(&self) -> Seq<Answer> {
        self.white.spec_answers()
    }

    /// The requests Black's strategy has answered so far.
    pub closed spec fn spec_black_answers(&self) -> Seq<Answer> {
        self.black.spec_answers()
    }

    /// The oracle with another move limit.
    pub fn with_max_moves(self, max_moves: u16) -> (r: GameOracle)
        ensures
            r.spec_max_moves() == max_moves,
    {
        GameOracle { max_moves, ..self }
    }

    /// Plays a game from `initial` until it finishes or reaches the move limit, checking every
    /// move. From a sound position the record holds no violation as long as the fullmove number
    /// had room for every Black move played; from the starting position it always has.
    #[verifier::rlimit(40)]
    pub fn play_game(&mut self, initial: GameState) -> (r: GameRecord)
        requires
            !(spec_status(initial@) is Finished) ==> initial@.history.len() + old(self).spec_max_moves() + 1
                <= usize::MAX,
        ensures
            final(self).spec_max_moves() == old(self).spec_max_moves(),
            final(self).spec_white_answers() == old(self).spec_white_answers() + spec_plies(
                initial@,
                r.moves@,
                Side::White,
            ),
            final(self).spec_black_answers() == old(self).spec_black_answers() + spec_plies(
                initial@,
                r.moves@,
                Side::Black,
            ),
            r.initial_fen@ == spec_fen(initial@),
            r.moves@.len() == r.move_count,
            r.move_count <= old(self).spec_max_moves(),
            spec_played(initial@, r.moves@) matches Some(last) && {
                &&& r.final_fen@ == spec_fen(last)
                &&& match r.termination {
                    GameTermination::Completed(status) => status == spec_status(last) && status is Finished,
                    GameTermination::MoveLimitReached(limit) => limit == old(self).spec_max_moves() && r.move_count
                        == limit && !(spec_status(last) is Finished),
                }
            },
            spec_views(r.violations@) == spec_path_violations(initial@, r.moves@),
            spec_sound(initial@) && initial@.fullmove_number + spec_black_moves(initial@.side_to_move, r.moves@.len())
                <= u16::MAX ==> r.violations@.len() == 0,
            initial@ == spec_starting_position() ==> r.violations@.len() == 0,
    {
        proof {
            lemma_start_sound();
        }
        let initial_fen = initial.to_fen();
        let ghost start = initial@;
        let mut game = initial;
        let mut moves: Vec<Move> = Vec::new();
        let mut violations: Vec<Violation> = Vec::new();
        let mut move_count: u16 = 0;
        loop
            invariant
                self.max_moves == old(self).max_moves,
                self.white.spec_answers() == old(self).white.spec_answers() + spec_plies(start, moves@, Side::White),
                self.black.spec_answers() == old(self).black.spec_answers() + spec_plies(start, moves@, Side::Black),
                start == initial@,
                spec_sound(spec_starting_position()),
                initial_fen@ == spec_fen(start),
                !(spec_status(start) is Finished) ==> start.history.len() + self.max_moves + 1 <= usize::MAX,
                move_count > 0 ==> !(spec_status(start) is Finished),
                moves@.len() == move_count,
                move_count <= self.max_moves,
                spec_played(start, moves@) == Some(game@),
                game@.history.len() == start.history.len() + move_count,
                spec_views(violations@) == spec_path_violations(start, moves@),
            decreases self.max_moves - move_count,
        {
            proof {
                if move_count == 0 {
                    assert(moves@ =~= Seq::<Move>::empty());
                    assert(spec_views(violations@).len() == violations@.len());
                } else if spec_sound(start) && start.fullmove_number + spec_black_moves(
                    start.side_to_move,
                    move_count as nat,
                ) <= u16::MAX {
                    law_sound_line_has_no_violations(start, moves@);
                    assert(spec_views(violations@).len() == violations@.len());
                }
            }
            let status = game.status();
            if status.is_finished() {
                let final_fen = game.to_fen();
                return GameRecord {
                    initial_fen,
                    moves,
                    final_fen,
                    termination: GameTermination::Completed(status),
                    violations,
                    move_count,
                };
            }
            proof {
                if move_count == 0 {
                    assert(moves@ =~= Seq::<Move>::empty());
                    assert(game@ == start);
                }
            }
            if move_count >= self.max_moves {
                let final_fen = game.to_fen();
                return GameRecord {
                    initial_fen,
                    moves,
                    final_fen,
                    termination: GameTermination::MoveLimitReached(self.max_moves),
                    violations,
                    move_count,
                };
            }
            let legal_moves = game.legal_moves();
            if legal_moves.len() == 0 {
                proof {
                    if spec_has_legal_move(game@) {
                        let m = choose|m: Move| #[trigger] spec_is_legal(game@, m);
                        assert(legal_moves@.contains(m));
                    }
                    assert(false);
                }
                let final_fen = game.to_fen();
                return GameRecord {
                    initial_fen,
                    moves,
                    final_fen,
                    termination: GameTermination::Completed(status),
                    violations,
                    move_count,
                };
            }
            let chosen = match game.side_to_move() {
                Side::White => self.white.select_move(&game, legal_moves.as_slice()),
                Side::Black => self.black.select_move(&game, legal_moves.as_slice()),
            };
            assert(spec_is_legal(game@, chosen));
            let next = match game.apply_move(chosen) {
                Ok(next) => next,
                Err(_) => {
                    proof {
                        assert(false);
                    }
                    return GameRecord {
                        initial_fen,
                        moves,
                        final_fen: game.to_fen(),
                        termination: GameTermination::Completed(game.status()),
                        violations,
                        move_count,
                    };
                },
            };
            let ghost before_moves = moves@;
            let ghost before_game = game@;
            proof {
                assert(before_moves.push(chosen).drop_last() =~= before_moves);
                assert(spec_plies(start, before_moves.push(chosen), Side::White) =~= if game@.side_to_move
                    == Side::White {
                    spec_plies(start, before_moves, Side::White).push((game@, spec_legal_list(game@), chosen))
                } else {
                    spec_plies(start, before_moves, Side::White)
                });
                assert(spec_plies(start, before_moves.push(chosen), Side::Black) =~= if game@.side_to_move
                    == Side::Black {
                    spec_plies(start, before_moves, Side::Black).push((game@, spec_legal_list(game@), chosen))
                } else {
                    spec_plies(start, before_moves, Side::Black)
                });
                assert(game@.halfmove_clock < 150);
                lemma_path_step(start, before_moves, chosen, before_game, next@);
                crate::laws::law_halfmove_clock(game@, chosen, next@);
                crate::laws::law_history_records_position(game@, chosen, next@);
                crate::laws::lemma_accepted(game@, chosen, next@);
                assert(spec_checkable(game@, chosen));
            }
            let mut found = InvariantChecker::check(&game, &chosen, &next);
            let ghost before_violations = violations@;
            let ghost found_views = found@;
            violations.append(&mut found);
            proof {
                assert(spec_views(violations@) =~= spec_views(before_violations) + spec_views(found_views));
            }
            moves.push(chosen);
            game = next;
            move_count = move_count + 1;
        }
    }
}

// ---------------------------------------------------------------- reports

/// A move as written in a report.
#[derive(Debug, Clone, PartialEq, Eq)]
pub struct MoveRecord {
    pub from: String,
    pub to: String,
    pub promotion: Option<String>,
}

/// A violation as written in a report.
#[derive(Debug, Clone, PartialEq, Eq)]
pub struct ViolationRecord {
    pub move_number: u16,
    pub fen_before: String,
    pub attempted_move: String,
    pub violation: String,
}

/// The summary of a played game for the record of a test run.
#[derive(Debug, Clone, PartialEq, Eq)]
pub struct GameReport {
    pub seed: u64,
    pub initial_fen: String,
    pub moves: Vec<MoveRecord>,
    pub outcome: String,
    pub violations: Vec<ViolationRecord>,
    pub total_moves: u16,
    pub strategy: String,
    pub timestamp_utc: String,
}

pub open spec fn spec_bool_debug(b: bool) -> Seq<char> {
    if b {
        "true"@
    } else {
        "false"@
    }
}

/// The debug text of a status.
pub open spec fn spec_status_debug(status: GameStatus) -> Seq<char> {
    match status {
        GameStatus::Ongoing { in_check, draw_available } => "Ongoing { in_check: "@ + spec_bool_debug(in_check)
            + ", draw_available: DrawAvailability { threefold_repetition: "@ + spec_bool_debug(
            draw_available.threefold_repetition,
        ) + ", fifty_move_rule: "@ + spec_bool_debug(draw_available.fifty_move_rule) + " } }"@,
        GameStatus::Finished(GameOutcome::Win { winner, .. }) => "Finished(Win { winner: "@ + match winner {
            Side::White => "White"@,
            Side::Black => "Black"@,
        } + ", reason: Checkmate })"@,
        GameStatus::Finished(GameOutcome::Draw(DrawReason::Stalemate)) => "Finished(Draw(Stalemate))"@,
        GameStatus::Finished(GameOutcome::Draw(DrawReason::Automatic(AutomaticDrawReason::FivefoldRepetition))) => 
            "Finished(Draw(Automatic(FivefoldRepetition)))"@,
        GameStatus::Finished(GameOutcome::Draw(DrawReason::Automatic(AutomaticDrawReason::SeventyFiveMoveRule))) => 
            "Finished(Draw(Automatic(SeventyFiveMoveRule)))"@,
    }
}

fn bool_debug(b: bool) -> (r: &'static str)
    ensures
        r@ == spec_bool_debug(b),
{
    if b {
        "true"
    } else {
        "false"
    }
}

/// The debug text of a status, as `{:?}` writes it.
pub fn status_debug(status: GameStatus) -> (r: String)
    ensures
        r@ == spec_status_debug(status),
{
    match status {
        GameStatus::Ongoing { in_check, draw_available } => {
            let mut t = String::from_str("Ongoing { in_check: ");
            push_text(&mut t, bool_debug(in_check));
            push_text(&mut t, ", draw_available: DrawAvailability { threefold_repetition: ");
            push_text(&mut t, bool_debug(draw_available.threefold_repetition));
            push_text(&mut t, ", fifty_move_rule: ");
            push_text(&mut t, bool_debug(draw_available.fifty_move_rule));
            push_text(&mut t, " } }");
            t
        },
        GameStatus::Finished(GameOutcome::Win { winner, reason: WinReason::Checkmate }) => {
            let mut t = String::from_str("Finished(Win { winner: ");
            push_text(
                &mut t,
                match winner {
                    Side::White => "White",
                    Side::Black => "Black",
                },
            );
            push_text(&mut t, ", reason: Checkmate })");
            t
        },
        GameStatus::Finished(GameOutcome::Draw(DrawReason::Stalemate)) => String::from_str("Finished(Draw(Stalemate))"),
        GameStatus::Finished(GameOutcome::Draw(DrawReason::Automatic(AutomaticDrawReason::FivefoldRepetition))) => 
            String::from_str("Finished(Draw(Automatic(FivefoldRepetition)))"),
        GameStatus::Finished(GameOutcome::Draw(DrawReason::Automatic(AutomaticDrawReason::SeventyFiveMoveRule))) => 
            String::from_str("Finished(Draw(Automatic(SeventyFiveMoveRule)))"),
    }
}

/// The outcome line of a report.
pub open spec fn spec_outcome_text(t: GameTermination) -> Seq<char> {
    match t {
        GameTermination::Completed(status) => spec_status_debug(status),
        GameTermination::MoveLimitReached(limit) => "MoveLimitReached("@ + spec_decimal(limit as nat) + ")"@,
    }
}

impl GameReport {
    /// The report of a played game, for the given seed and strategy name.
    pub fn from_record(record: &GameRecord, seed: u64, strategy: &str) -> (r: GameReport)
        requires
            forall|i: int|
                0 <= i < record.moves@.len() ==> (#[trigger] record.moves@[i]).from.spec_nameable()
                    && record.moves@[i].to.spec_nameable(),
        ensures
            r.seed == seed,
            r.initial_fen@ == record.initial_fen@,
            r.outcome@ == spec_outcome_text(record.termination),
            r.moves@.len() == record.moves@.len(),
            forall|i: int|
                0 <= i < r.moves@.len() ==> {
                    let m = #[trigger] record.moves@[i];
                    &&& r.moves@[i].from@ == m.from.spec_algebraic()
                    &&& r.moves@[i].to@ == m.to.spec_algebraic()
                    &&& match m.promotion {
                        Some(k) => r.moves@[i].promotion matches Some(p) && p@ == seq![k.spec_fen_letter()],
                        None => r.moves@[i].promotion is None,
                    }
                },
            r.violations@.len() == record.violations@.len(),
            forall|i: int|
                0 <= i < r.violations@.len() ==> {
                    &&& (#[trigger] r.violations@[i]).move_number == if i <= u16::MAX {
                        i
                    } else {
                        u16::MAX as int
                    }
                    &&& r.violations@[i].fen_before@.len() == 0
                    &&& r.violations@[i].attempted_move@.len() == 0
                    &&& r.violations@[i].violation@ == record.violations@[i].description@
                },
            r.total_moves == record.move_count,
            r.strategy@ == strategy@,
            r.timestamp_utc@ == "test"@,
    {
        let outcome = match record.termination {
            GameTermination::Completed(status) => status_debug(status),
            GameTermination::MoveLimitReached(limit) => {
                let mut t = String::from_str("MoveLimitReached(");
                push_decimal(&mut t, limit as u64);
                push_text(&mut t, ")");
                t
            },
        };
        let mut moves: Vec<MoveRecord> = Vec::new();
        let mut i: usize = 0;
        while i < record.moves.len()
            invariant
                i <= record.moves@.len(),
                moves@.len() == i,
                forall|j: int|
                    0 <= j < record.moves@.len() ==> (#[trigger] record.moves@[j]).from.spec_nameable()
                        && record.moves@[j].to.spec_nameable(),
                forall|j: int|
                    0 <= j < i ==> {
                        let m = #[trigger] record.moves@[j];
                        &&& moves@[j].from@ == m.from.spec_algebraic()
                        &&& moves@[j].to@ == m.to.spec_algebraic()
                        &&& match m.promotion {
                            Some(k) => moves@[j].promotion matches Some(p) && p@ == seq![k.spec_fen_letter()],
                            None => moves@[j].promotion is None,
                        }
                    },
            decreases record.moves@.len() - i,
        {
            let m = record.moves[i];
            let promotion = match m.promotion() {
                Some(kind) => {
                    let mut letter = String::new();
                    push_char(&mut letter, kind.fen_letter());
                    Some(letter)
                },
                None => None,
            };
            moves.push(MoveRecord { from: m.from().to_algebraic(), to: m.to().to_algebraic(), promotion });
            i = i + 1;
        }
        let mut violations: Vec<ViolationRecord> = Vec::new();
        let mut k: usize = 0;
        while k < record.violations.len()
            invariant
                k <= record.violations@.len(),
                violations@.len() == k,
                forall|j: int|
                    0 <= j < k ==> {
                        &&& (#[trigger] violations@[j]).move_number == if j <= u16::MAX {
                            j
                        } else {
                            u16::MAX as int
                        }
                        &&& violations@[j].fen_before@.len() == 0
                        &&& violations@[j].attempted_move@.len() == 0
                        &&& violations@[j].violation@ == record.violations@[j].description@
                    },
            decreases record.violations@.len() - k,
        {
            let move_number: u16 = if k <= 65535 { k as u16 } else { 65535 };
            violations.push(
                ViolationRecord {
                    move_number,
                    fen_before: String::new(),
                    attempted_move: String::new(),
                    violation: record.violations[k].description.clone(),
                },
            );
            k = k + 1;
        }
        GameReport {
            seed,
            initial_fen: record.initial_fen.clone(),
            moves,
            outcome,
            violations,
            total_moves: record.move_count,
            strategy: strategy.to_owned(),
            timestamp_utc: String::from_str("test"),
        }
    }
}

/// The digits of `n`, padded with leading zeros to at least `width` characters.
pub open spec fn spec_zero_padded(n: nat, width: nat) -> Seq<char> {
    let digits = spec_decimal(n);
    if digits.len() < width {
        Seq::new((width - digits.len()) as nat, |i: int| '0') + digits
    } else {
        digits
    }
}

/// The name of the report file of the game numbered `game_index`: `game_` and the number with
/// at least four digits, then `.json`.
pub fn report_file_name(game_index: u64) -> (r: String)
    ensures
        r@ == "game_"@ + spec_zero_padded(game_index as nat, 4) + ".json"@,
{
    let mut digits = String::new();
    push_decimal(&mut digits, game_index);
    let len = digits.unicode_len();
    let mut name = String::from_str("game_");
    let ghost start = name@;
    let mut k: usize = len;
    while k < 4
        invariant
            len == spec_decimal(game_index as nat).len(),
            len <= k <= 4 || (k == len && len > 4),
            name@ == start + Seq::new((k - len) as nat, |i: int| '0'),
        decreases 4 - k,
    {
        push_char(&mut name, '0');
        proof {
            assert(name@ =~= start + Seq::new((k + 1 - len) as nat, |i: int| '0'));
        }
        k = k + 1;
    }
    push_text(&mut name, digits.as_str());
    push_text(&mut name, ".json");
    proof {
        if len < 4 {
            assert(k == 4);
        } else {
            assert(k == len);
            assert(Seq::new((k - len) as nat, |i: int| '0') =~= Seq::<char>::empty());
        }
        assert(name@ =~= "game_"@ + spec_zero_padded(game_index as nat, 4) + ".json"@);
    }
    name
}

} // verus!
