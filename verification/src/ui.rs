//! The messages of the web client's user interface.

use vstd::prelude::*;

verus! {

/// What a user can do in the web client.
#[derive(Debug, Copy, Clone, PartialEq, Eq, Structural)]
pub enum Msg {
    Click,
}

} // verus!
