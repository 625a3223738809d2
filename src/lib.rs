//! The position core of a chess engine: squares, bitboards, colors, pieces, castling
//! rights, packed moves, and a board with FEN import and export.

pub mod bitboard;
pub mod board;
pub mod castling_rights;
pub mod color;
pub mod fen_round_trip;
pub mod moves;
pub mod piece;
pub mod square;
pub mod text;
