//! A chess rules engine with a minimax opponent, verified with Verus.
//!
//! - [`pieces`]: the pieces and the geometry of their moves.
//! - [`board`]: the position and the relocation of pieces.
//! - [`legality`]: which moves are legal: occupancy, blocking, castling,
//!   en passant, and the safety of the mover's king.
//! - [`movegen`]: the list of all legal moves.
//! - [`play`]: playing a move, passing the turn, and the check, checkmate
//!   and stalemate flags.
//! - [`notation`]: squares and moves as text.
//! - [`fen`]: reading a position from its description.
//! - [`engine`]: the evaluation of positions and the search.
//! - [`gui`]: what a front end needs: the computer's move, and the course of
//!   a game between a player and the computer.
//! - [`render`]: what a renderer draws on each cell.
//! - [`laws`]: what holds of every position and every move.
//!
//! Contracts speak of a `Board` through spec functions on the board itself:
//! a board is plain data, and its own value is its model.

pub mod board;
pub mod engine;
pub mod fen;
pub mod gui;
pub mod laws;
pub mod legality;
pub mod movegen;
pub mod notation;
pub mod pieces;
pub mod play;
pub mod render;
