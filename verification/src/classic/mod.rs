//! A line-based server of the game: clients name
//! themselves as players, and the server keeps each client's player name and
//! the client of each player name in step.

pub mod laws;
pub mod model;
pub mod protocol;
pub mod requests;
pub mod state;
pub mod cli;
pub mod stats;
