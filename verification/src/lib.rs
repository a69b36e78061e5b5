//! A solver for a puzzle of ten pieces of balls that are to fill a board of five rows and
//! ten columns, verified with Verus.
//!
//! `pieces` names the pieces, `shapes` says which balls each has, `board` holds the two
//! kinds of board and the placement data of the pieces, `solver` the search, and `puzzles`
//! two puzzles to start from.
pub mod board;
pub mod pieces;
pub mod puzzles;
pub mod shapes;
pub mod solver;

pub use solver::solve;
