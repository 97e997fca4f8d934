//! Lexivo: the game rules, puzzle state and text processing of a word
//! puzzle game, verified with Verus.

pub mod answer;
pub mod app;
pub mod changelog;
pub mod config;
pub mod hints;
pub mod navigation;
pub mod platform_feedback;
pub mod round;
pub mod scores;
pub mod text;
pub mod turn;
pub mod types;
pub mod utils;
pub mod updates;
