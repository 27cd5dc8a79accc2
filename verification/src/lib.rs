//! Wordle feedback, candidate filtering, game bookkeeping and solver
//! decisions, with their contracts proved by Verus.
//!
//! - `feedback`: evaluating a guess against a solution, pattern keys, and the
//!   consistency check that candidate filtering rests on.
//! - `wordlist`: the word list and filtering candidates by feedback.
//! - `game`: one game of Wordle.
//! - `solver`: the decisions of the solvers and of a game played by a solver.
//! - `features`: integer features of game states and words for the network.
//! - `render`: text forms of patterns.
//! - `history`: reading a game history from JSON text.
//! - `bench`: tallies of benchmark runs.

pub mod bench;
pub mod counts;
pub mod features;
pub mod feedback;
pub mod game;
pub mod history;
pub mod render;
pub mod solver;
pub mod text;
pub mod wordlist;
pub mod words;
