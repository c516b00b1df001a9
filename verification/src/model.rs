//! The data model of the game, shared by the client and the server.

use vstd::prelude::*;

verus! {

/// A player is a client who has joined a room.
#[derive(Debug, Eq, PartialEq, Ord, PartialOrd, Hash)]
pub struct Player {
    /// The player's unique name within the room they occupy.
    pub name: String,
}

impl Clone for Player {
    fn clone(&self) -> (res: Self)
        ensures
            res == *self,
    {
        Player { name: self.name.clone() }
    }
}

impl Player {
    /// Whether two players go by the same name.
    pub fn same_name(&self, other: &Player) -> (res: bool)
        ensures
            res == (self.name@ == other.name@),
    {
        self.name == other.name
    }
}

/// For simplicity, money is represented as discreet, indivisible units.
/// Two billion ought to be enough for anybody!
#[derive(Debug, Copy, Clone, Eq, PartialEq, Ord, PartialOrd, Hash, Structural)]
pub struct Money(i32);

/// A unique identifier for a room, which hosts a game of hold'em.
///
/// Again, two billion ought to be enough for anybody!
#[derive(Debug, Copy, Clone, Eq, PartialEq, Ord, PartialOrd, Hash, Structural)]
pub struct RoomId(pub u32);

/// Configuration to set up a room.
#[derive(Debug, Clone, Eq, PartialEq, Ord, PartialOrd, Hash)]
pub struct RoomConfig {
    /// The title of the room.
    pub name: String,
    /// The maximum number of players allowed in the room.
    pub max_players: u8,
    /// An optional keyphrase to authorize access to a room.
    pub keyphrase: Option<String>,
}

/// The version of the game code. Used to ensure that a client and server are
/// "speaking the same language," since messages are binary-encoded and no
/// attempts at forwards- or backwards- compatibility are made.
#[derive(Debug, Clone, Eq, PartialEq, Ord, PartialOrd, Hash)]
pub struct GameVersion(pub String);

/// The rank of a playing card, from the lowest to the highest.
#[derive(Debug, Copy, Clone, Eq, PartialEq, Ord, PartialOrd, Hash, Structural)]
pub enum Value {
    Two,
    Three,
    Four,
    Five,
    Six,
    Seven,
    Eight,
    Nine,
    Ten,
    Jack,
    Queen,
    King,
    Ace,
}

/// The suit of a playing card.
#[derive(Debug, Copy, Clone, Eq, PartialEq, Ord, PartialOrd, Hash, Structural)]
pub enum Suit {
    Spade,
    Club,
    Heart,
    Diamond,
}

/// A playing card of a standard deck.
#[derive(Debug, Copy, Clone, Eq, PartialEq, Ord, PartialOrd, Hash, Structural)]
pub struct Card {
    pub value: Value,
    pub suit: Suit,
}

/// The public state of the room.
///
/// This should only convey information that *any* player should have access
/// to. Thus, it doesn't contain the deck, nor player hands.
#[derive(Debug, Clone, Eq, PartialEq, Hash)]
pub struct PublicRoomState {
    /// The members of the room.
    pub members: Vec<PublicMemberState>,
    /// The pot of money for the current deal.
    pub pot: Money,
    /// The community cards which have been dealt.
    pub community: Vec<Card>,
}

/// The public state of a room member.
#[derive(Debug, Clone, Eq, PartialEq, Hash)]
pub struct PublicMemberState {
    /// The player themself.
    pub player: Player,
    /// How much money that player has.
    pub pile: Money,
    /// The player's status within the room.
    pub status: MemberStatus,
}

/// When a client first joins a room, they are spectating. Once they request to
/// sit in, they wait until the current deal, if any, completes. Then they
/// become seated and ready for the next deal.
#[derive(Debug, Clone, Copy, Eq, PartialEq, Hash, Structural)]
pub enum MemberStatus {
    Spectating,
    Waiting,
    Seated,
}

/// The length (in bytes) of an X25519 public key.
pub const ENDPOINT_ID_SIZE: usize = 32;

/// A cryptographically-unique identifier for a particular client: the bytes
/// of its X25519 public key.
#[derive(Debug, Copy, Clone, Eq, PartialEq, Ord, PartialOrd, Hash)]
pub struct EndpointId(pub [u8; ENDPOINT_ID_SIZE]);

impl EndpointId {
    /// Whether two endpoint identifiers hold the same bytes.
    pub fn same_as(&self, other: &EndpointId) -> (res: bool)
        ensures
            res == (*self == *other),
    {
        let mut i: usize = 0;
        while i < ENDPOINT_ID_SIZE
            invariant
                i <= ENDPOINT_ID_SIZE,
                forall|j: int| 0 <= j < i ==> self.0[j] == other.0[j],
            decreases ENDPOINT_ID_SIZE - i,
        {
            if self.0[i] != other.0[i] {
                return false;
            }
            i = i + 1;
        }
        proof {
            assert(self.0 =~= other.0);
        }
        true
    }
}

} // verus!
