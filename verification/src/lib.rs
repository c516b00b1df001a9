//! Networked Texas hold'em: the game protocol, the server core that answers
//! requests, the client key handling, and the server configuration.

pub mod model;
pub mod protocol;
pub mod primitives;
pub mod client;
pub mod server;
pub mod laws;
pub mod settings;
pub mod stats;
pub mod cli;
pub mod ui;
pub mod classic;

use vstd::prelude::*;

verus! {

/// The version of the game code. A client and a server only talk to each
/// other when their versions are exactly equal.
pub const GAME_VERSION: &'static str = "0.1.0";

} // verus!
