//! Rules and turn handling for a two-player chess board.
//!
//! [`pieces`] decides whether a single piece may move to a square in a given
//! position. [`board`] keeps the pieces that are in play, each under a handle
//! of its own, and sets up the start of a game. [`game`] takes the picks of
//! squares that a player makes, arms a piece, moves it where the rules allow,
//! takes captured pieces off the board, passes the turn, and ends the game
//! when a king is captured. [`mirror`] shows that the rules treat both sides
//! alike.
//!
//! Castling, en passant, promotion, check and draws are not part of these
//! rules.

pub mod board;
pub mod game;
pub mod mirror;
pub mod pieces;
