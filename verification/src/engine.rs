//! The boundary to a chess engine: requests, answers, and a scripted stand-in engine.
use vstd::prelude::*;

use crate::text::{is_whitespace, push_decimal, push_text, spec_decimal, spec_is_whitespace};

verus! {

/// Whether every character of `t` is white space (so `t` trims to nothing).
pub open spec fn spec_is_blank(t: Seq<char>) -> bool {
    forall|k: int| 0 <= k < t.len() ==> spec_is_whitespace(#[trigger] t[k])
}

/// Whether `t` trims to nothing.
pub fn is_blank(t: &str) -> (r: bool)
    ensures
        r == spec_is_blank(t@),
{
    let n = t.unicode_len();
    let mut i: usize = 0;
    while i < n
        invariant
            n == t@.len(),
            i <= n,
            forall|k: int| 0 <= k < i ==> spec_is_whitespace(#[trigger] t@[k]),
        decreases n - i,
    {
        if !is_whitespace(t.get_char(i)) {
            return false;
        }
        i = i + 1;
    }
    true
}

/// A request for the best move in a position, with the time the engine may think.
#[derive(Debug, Clone, PartialEq, Eq)]
pub struct EngineRequest {
    pub position_notation: String,
    pub movetime_millis: u64,
}

/// An engine's answer: the best move in UCI notation, if any, and what it reported.
#[derive(Debug, Clone, PartialEq, Eq)]
pub struct EngineResponse {
    pub bestmove_uci: Option<String>,
    pub info: String,
}

/// Why an engine could not answer.
#[derive(Debug, Clone, PartialEq, Eq)]
pub struct EngineError {
    message: String,
}

impl View for EngineError {
    type V = Seq<char>;

    closed spec fn view(&self) -> Seq<char> {
        self.message@
    }
}

impl EngineError {
    /// An error with the given message.
    pub fn new(message: &str) -> (r: EngineError)
        ensures
            r@ == message@,
    {
        EngineError { message: message.to_owned() }
    }

    /// The message of the error, as its display form.
    pub fn to_string(&self) -> (r: String)
        ensures
            r@ == self@,
    {
        self.message.clone()
    }
}

/// The refusal of a request whose position is blank.
pub open spec fn spec_blank_position_message() -> Seq<char> {
    "position_notation must not be empty"@
}

/// The refusal of a request without thinking time.
pub open spec fn spec_zero_movetime_message() -> Seq<char> {
    "movetime_millis must be greater than zero"@
}

impl EngineRequest {
    /// A request for the given position and thinking time.
    pub fn new(position_notation: &str, movetime_millis: u64) -> (r: EngineRequest)
        ensures
            r.position_notation@ == position_notation@,
            r.movetime_millis == movetime_millis,
    {
        EngineRequest { position_notation: position_notation.to_owned(), movetime_millis }
    }

    /// What is wrong with the request, if anything: a blank position comes first, then a zero
    /// thinking time.
    pub open spec fn spec_fault(&self) -> Option<Seq<char>> {
        if spec_is_blank(self.position_notation@) {
            Some(spec_blank_position_message())
        } else if self.movetime_millis == 0 {
            Some(spec_zero_movetime_message())
        } else {
            None
        }
    }

    /// Checks that the request names a position and leaves time to think.
    pub fn validate(&self) -> (r: Result<(), EngineError>)
        ensures
            match r {
                Ok(()) => self.spec_fault() is None,
                Err(e) => self.spec_fault() == Some(e@),
            },
    {
        if is_blank(self.position_notation.as_str()) {
            return Err(EngineError::new("position_notation must not be empty"));
        }
        if self.movetime_millis == 0 {
            return Err(EngineError::new("movetime_millis must be greater than zero"));
        }
        Ok(())
    }
}

impl EngineResponse {
    /// An answer naming a best move.
    pub fn bestmove(bestmove_uci: String, info: String) -> (r: EngineResponse)
        ensures
            r.bestmove_uci matches Some(m) && m@ == bestmove_uci@,
            r.info@ == info@,
    {
        EngineResponse { bestmove_uci: Some(bestmove_uci), info }
    }
}

/// Something that answers engine requests.
pub trait EngineController {
    /// The engine's name.
    fn name(&self) -> &str;

    /// Whether the engine can take requests.
    fn is_healthy(&self) -> bool;

    /// Asks the engine for the best move of a request.
    fn evaluate(&mut self, request: &EngineRequest) -> Result<EngineResponse, EngineError>;
}

/// A stand-in engine that answers with a scripted move, or fails as configured.
#[derive(Debug, Clone, PartialEq, Eq)]
pub struct MockEngineController {
    scripted_move: String,
    scripted_error: Option<String>,
    healthy: bool,
}

/// The configuration of a stand-in engine.
pub struct MockEngineView {
    pub scripted_move: Seq<char>,
    pub scripted_error: Option<Seq<char>>,
    pub healthy: bool,
}

impl View for MockEngineController {
    type V = MockEngineView;

    closed spec fn view(&self) -> MockEngineView {
        MockEngineView {
            scripted_move: self.scripted_move@,
            scripted_error: match self.scripted_error {
                Some(e) => Some(e@),
                None => None,
            },
            healthy: self.healthy,
        }
    }
}

/// The text the stand-in engine reports for a request.
pub open spec fn spec_mock_info(request: EngineRequest) -> Seq<char> {
    "mock evaluation for '"@ + request.position_notation@ + "' at "@ + spec_decimal(request.movetime_millis as nat)
        + " ms"@
}

impl MockEngineController {
    /// A healthy stand-in engine that answers `scripted_move`.
    pub fn new(scripted_move: &str) -> (r: MockEngineController)
        ensures
            r@ == (MockEngineView { scripted_move: scripted_move@, scripted_error: None, healthy: true }),
    {
        MockEngineController { scripted_move: scripted_move.to_owned(), scripted_error: None, healthy: true }
    }

    /// The stand-in engine that answers `e2e4`.
    pub fn default() -> (r: MockEngineController)
        ensures
            r@ == (MockEngineView { scripted_move: "e2e4"@, scripted_error: None, healthy: true }),
    {
        MockEngineController::new("e2e4")
    }

    /// The engine with its health set to `healthy`.
    pub fn with_health(self, healthy: bool) -> (r: MockEngineController)
        ensures
            r@ == (MockEngineView { healthy, ..self@ }),
    {
        MockEngineController { healthy, ..self }
    }

    /// The engine set to fail every valid request with `message`.
    pub fn with_failure(self, message: &str) -> (r: MockEngineController)
        ensures
            r@ == (MockEngineView { scripted_error: Some(message@), ..self@ }),
    {
        MockEngineController { scripted_error: Some(message.to_owned()), ..self }
    }

    /// The answer to a request: the request's own fault first, then ill health, then the
    /// scripted failure, and otherwise the scripted move.
    pub open spec fn spec_answer(view: MockEngineView, request: EngineRequest) -> Result<
        (Seq<char>, Seq<char>),
        Seq<char>,
    > {
        match request.spec_fault() {
            Some(fault) => Err(fault),
            None => if !view.healthy {
                Err("mock engine is unhealthy"@)
            } else {
                match view.scripted_error {
                    Some(message) => Err(message),
                    None => Ok((view.scripted_move, spec_mock_info(request))),
                }
            },
        }
    }
}

impl EngineController for MockEngineController {
    fn name(&self) -> (r: &str)
        ensures
            r@ == "mock-stockfish"@,
    {
        "mock-stockfish"
    }

    fn is_healthy(&self) -> (r: bool)
        ensures
            r == self@.healthy,
    {
        self.healthy
    }

    fn evaluate(&mut self, request: &EngineRequest) -> (r: Result<EngineResponse, EngineError>)
        ensures
            *final(self) == *old(self),
            match r {
                Ok(response) => MockEngineController::spec_answer(old(self)@, *request) matches Ok((mv, info))
                    && response.bestmove_uci matches Some(m) && m@ == mv && response.info@ == info,
                Err(e) => MockEngineController::spec_answer(old(self)@, *request) == Err::<
                    (Seq<char>, Seq<char>),
                    Seq<char>,
                >(e@),
            },
    {
        match request.validate() {
            Ok(()) => {},
            Err(e) => {
                return Err(e);
            },
        }
        if !self.healthy {
            return Err(EngineError::new("mock engine is unhealthy"));
        }
        match &self.scripted_error {
            Some(message) => {
                return Err(EngineError::new(message.as_str()));
            },
            None => {},
        }
        let mut info = String::from_str("mock evaluation for '");
        push_text(&mut info, request.position_notation.as_str());
        push_text(&mut info, "' at ");
        push_decimal(&mut info, request.movetime_millis);
        push_text(&mut info, " ms");
        Ok(EngineResponse::bestmove(self.scripted_move.clone(), info))
    }
}

} // verus!
