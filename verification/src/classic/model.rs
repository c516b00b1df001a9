//! The data model of the line-based server.

use vstd::prelude::*;

verus! {

/// A player, known by name.
#[derive(Debug, Eq, PartialEq, Hash)]
pub struct Player {
    pub name: String,
}

impl Clone for Player {
    fn clone(&self) -> (res: Self)
        ensures
            res == *self,
    {
        Player { name: self.name.clone() }
    }
}

/// For simplicity, money is represented as discreet, indivisible units.
/// Two billion ought to be enough for anybody!
#[derive(Debug, Copy, Clone, Eq, PartialEq, Hash, Structural)]
pub struct Money(i32);

/// A room number.
#[derive(Debug, Copy, Clone, Eq, PartialEq, Hash, Structural)]
pub struct RoomId(pub u32);

} // verus!
