//! Core of a chess engine: bitboard position, move generation, incremental
//! Zobrist hashing, static evaluation, transposition table and search.

pub mod bits;
pub mod utils;
pub mod zobrist;
pub mod position;
pub mod hashing;
pub mod undo;
pub mod board;
pub mod making;
pub mod attacks;
pub mod listing;
pub mod rules;
pub mod pawns;
pub mod soundness;
pub mod movegen;
pub mod fen;
pub mod notation;
pub mod start;
pub mod perft;
pub mod tables;
pub mod eval;
pub mod tt;
pub mod ordering;
pub mod text;
pub mod search;
pub mod negamax;
pub mod deepening;
pub mod writing;
pub mod messages;
pub mod laws;
pub mod placement_laws;
pub mod fen_laws;
pub mod tips;
pub mod auth;
pub mod gamesave;
pub mod sequences;
pub mod model;
