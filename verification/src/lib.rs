//! Chess rules, saved-session bookkeeping and shell state for a local chess game.
pub mod pieces;
pub mod square;
pub mod text;
pub mod board;
pub mod castling;
pub mod mv;
pub mod status;
pub mod rules;
pub mod game;
pub mod laws;
pub mod fen_roundtrip;
pub mod engine;
pub mod persistence;
pub mod shell;
pub mod testing;
