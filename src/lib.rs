//! A chess rules engine: board storage, move generation, king-safety
//! filtering, game outcome detection and move execution.

pub mod app_states;
pub mod figures;
pub mod board;
pub mod movegen;
pub mod legality;
pub mod game;
pub mod laws;
