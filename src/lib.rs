//! Rules and state engine for a two-player, hot-seat trading card game table.

pub mod board_geometry;
pub mod chance;
pub mod display_constants;
pub mod input;
pub mod load_cards;
pub mod piles;
pub mod state;
pub mod text_lines;
pub mod theorems;
