//! Play-resolution engine of a card-driven tabletop football game.
pub mod defs;
pub mod engine;
pub mod fac;
pub mod game;
pub mod kick_play;
pub mod lineup;
pub mod pass_play;
pub mod play;
pub mod players;
pub mod result_handler;
pub mod run_play;
pub mod standard_play;
pub mod stats;
pub mod text;
