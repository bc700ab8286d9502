//! Single-elimination, score-based tournaments: registration, match
//! reporting, bracket conclusion and one-time reward settlement.

pub mod account;
pub mod error;
pub mod player;
pub mod state;
pub mod game;
pub mod laws;
pub mod registry;
