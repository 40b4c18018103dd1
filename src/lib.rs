//! Search and evaluation core of a UCI chess engine.
//!
//! The library never touches a board implementation directly: positions reach
//! it as plain snapshots (`position::Position`), and the search runs as a
//! state machine (`search::GiffiBot`) that tells its driver which move to make
//! or take back and learns from it what the resulting position looks like.
//!
//! Modules: `piece` (men, moves, values), `masks` (passed-pawn masks and
//! square geometry), `position` (the board snapshot), `value` (static
//! evaluation), `ordering` (move ordering), `search` (iterative deepening,
//! principal-variation search, zero-window probes and quiescence),
//! `transposition_table`, `uci` (command parsing) and `symmetry` (the
//! colour symmetry of the evaluation).
pub mod piece;
pub mod masks;
pub mod position;
pub mod value;
pub mod ordering;
pub mod transposition_table;
pub mod search;
pub mod uci;
pub mod symmetry;
