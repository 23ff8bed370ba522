//! The rules of a game of chess on an 8x8 board, for a program that shows
//! the board and lets two players move the pieces.
//!
//! The heart of the library is in [`pieces`]: given a piece, the pieces now
//! on the board and the turns played so far, it lists the squares the piece
//! may move to, and decides whether a move is valid. The moves are
//! pseudo-legal: nothing looks for check. [`laws`] proves what holds of
//! those lists in general.
//!
//! Around it stand the smaller rules of the game: [`setup`] has the starting
//! position, [`board`] the squares, the selection and the carrying out of a
//! move, [`history`] the record of turns, [`ui`] the lines of text, and
//! [`combust`] the particles of a burning piece.

pub mod board;
pub mod combust;
pub mod history;
pub mod laws;
pub mod pieces;
pub mod setup;
pub mod ui;
