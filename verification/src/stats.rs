//! What the server program reports when it shuts down.

use vstd::prelude::*;

verus! {

/// Basic statistics of a server run.
#[derive(Copy, Clone, Debug, Eq, PartialEq, Structural)]
pub struct Stats {
    /// How many connections the server accepted.
    pub total_accepted_connections: usize,
}

} // verus!
