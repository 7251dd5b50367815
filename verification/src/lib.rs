//! A chess move-generation and position library with verified contracts.
use vstd::prelude::*;

pub mod bits;
pub mod text;
pub mod fold;
pub mod types;
pub mod square;
pub mod bitboard;
pub mod piece;
pub mod castle;
pub mod attacks;
pub mod zobrist;
pub mod moves;
pub mod position;
pub mod position_query;
pub mod position_attacks;
pub mod position_move;
pub mod position_legal;
pub mod move_list;
pub mod move_generator;
pub mod error;
pub mod fen;
pub mod builder;
pub mod position_fen;
pub mod perft;
pub mod position_status;
pub mod mini_board;
pub mod sub_board;
pub mod game;
pub mod board_builder;
pub mod laws;
pub mod fen_laws;
pub mod engine_properties;
pub mod polyglot;
pub mod move_gen;
pub mod fen_check;
pub mod timer;
pub mod go_command;
pub mod sort;
pub mod board;
pub mod uci;
pub mod polyglot_book;
pub mod polyglot_reader;
pub mod search;
pub mod search_value;
pub mod unique_moves;
pub mod command_text;
pub mod parse;

verus! {

} // verus!
