//! The core business logic of the server.
//!
//! The core is decoupled from the transport: a client task registers with the
//! core under a session number (which the transport maps to the client's
//! response channel), and hands each request it receives to
//! `Context::execute`. The core answers with the messages to deliver: zero or
//! more unsolicited notifications to other clients, followed by the one
//! response to the request.

use std::collections::BTreeMap;

use vstd::prelude::*;
use vstd::std_specs::convert::FromSpecImpl;

use crate::model::{EndpointId, Player, RoomConfig, RoomId};
use crate::primitives::{authenticate_verify, spec_authenticate_verify};
use crate::primitives::{random_bytes, spec_x25519, x25519, BASEPOINT};
use crate::protocol::{
    AuthenticationRequest, AuthenticationResponse, CreateRoomRequest, CreateRoomResponse,
    IntroductionRequest, IntroductionResponse, JoinRoomRequest, JoinRoomResponse, LobbyRequest,
    LobbyResponse, PlayResponse, Request, Response, CHALLENGE_SIZE,
};

verus! {

/// A message for the transport to deliver: `response` goes to the client that
/// registered under `session`.
#[derive(Debug, Clone, PartialEq, Eq)]
pub struct Outgoing {
    pub session: u64,
    pub response: Response,
}

/// A member of a room: the player and the session of the client playing them.
#[derive(Debug)]
pub struct Member {
    pub player: Player,
    pub session: u64,
}

impl Clone for Member {
    fn clone(&self) -> (res: Self)
        ensures
            res == *self,
    {
        Member { player: self.player.clone(), session: self.session }
    }
}

/// The members, in order, but those playing through `session`.
pub open spec fn without_session(members: Seq<Member>, session: u64) -> Seq<Member>
    decreases members.len(),
{
    if members.len() == 0 {
        Seq::empty()
    } else {
        let rest = without_session(members.drop_last(), session);
        if members.last().session == session {
            rest
        } else {
            rest.push(members.last())
        }
    }
}

/// Each member left after removing those playing through `session` was a
/// member before and plays through another session; there are fewer of them
/// when someone played through `session`; and names that were unique stay
/// unique.
pub proof fn lemma_without_session(members: Seq<Member>, session: u64)
    ensures
        without_session(members, session).len() <= members.len(),
        forall|i: int|
            0 <= i < without_session(members, session).len() ==> members.contains(
                #[trigger] without_session(members, session)[i],
            ) && without_session(members, session)[i].session != session,
        (exists|k: int| 0 <= k < members.len() && #[trigger] members[k].session == session)
            ==> without_session(members, session).len() < members.len(),
        names_unique(members) ==> names_unique(without_session(members, session)),
    decreases members.len(),
{
    if members.len() > 0 {
        let dl = members.drop_last();
        let rest = without_session(dl, session);
        let ws = without_session(members, session);
        lemma_without_session(dl, session);
        assert forall|i: int| 0 <= i < ws.len() implies members.contains(#[trigger] ws[i])
            && ws[i].session != session by {
            if i < rest.len() {
                assert(ws[i] == rest[i]);
                assert(dl.contains(rest[i]));
                let k = choose|k: int| 0 <= k < dl.len() && dl[k] == rest[i];
                assert(members[k] == dl[k]);
            } else {
                assert(members[members.len() - 1] == members.last());
            }
        }
        if exists|k: int| 0 <= k < members.len() && #[trigger] members[k].session == session {
            let k = choose|k: int| 0 <= k < members.len() && #[trigger] members[k].session == session;
            if k < members.len() - 1 {
                assert(dl[k].session == session);
            }
        }
        if names_unique(members) {
            assert(names_unique(dl)) by {
                assert forall|i: int, j: int|
                    0 <= i < dl.len() && 0 <= j < dl.len() && i != j implies #[trigger] dl[i].player.name@
                        != #[trigger] dl[j].player.name@ by {
                    assert(dl[i] == members[i] && dl[j] == members[j]);
                }
            }
            if members.last().session != session {
                assert forall|i: int, j: int|
                    0 <= i < ws.len() && 0 <= j < ws.len() && i != j implies #[trigger] ws[i].player.name@
                        != #[trigger] ws[j].player.name@ by {
                    if i == rest.len() || j == rest.len() {
                        let o = if i == rest.len() { j } else { i };
                        assert(ws[o] == rest[o]);
                        assert(dl.contains(rest[o]));
                        let k = choose|k: int| 0 <= k < dl.len() && dl[k] == rest[o];
                        assert(members[k] == dl[k]);
                        assert(members[members.len() - 1] == members.last());
                    } else {
                        assert(ws[i] == rest[i] && ws[j] == rest[j]);
                    }
                }
            }
        }
    }
}

/// The notification that `player` joined a room, addressed to `session`.
pub open spec fn new_member_notice(session: u64, player: Player) -> Outgoing {
    Outgoing { session, response: Response::Play(PlayResponse::NewMember { player }) }
}

/// The notifications of the arrival of `player` to the members of a room, in
/// member order, skipping members with the player's own name.
pub open spec fn notices(members: Seq<Member>, player: Player) -> Seq<Outgoing>
    decreases members.len(),
{
    if members.len() == 0 {
        Seq::empty()
    } else {
        let rest = notices(members.drop_last(), player);
        if members.last().player.name@ == player.name@ {
            rest
        } else {
            rest.push(new_member_notice(members.last().session, player))
        }
    }
}

/// Whether some member goes by `name`.
pub open spec fn has_name(members: Seq<Member>, name: Seq<char>) -> bool {
    exists|i: int| 0 <= i < members.len() && #[trigger] members[i].player.name@ == name
}

/// No two members go by the same name.
pub open spec fn names_unique(members: Seq<Member>) -> bool {
    forall|i: int, j: int|
        0 <= i < members.len() && 0 <= j < members.len() && i != j ==> #[trigger] members[i].player.name@
            != #[trigger] members[j].player.name@
}

/// The abstract state of a room.
pub struct RoomView {
    pub room_id: RoomId,
    pub cfg: RoomConfig,
    pub members: Seq<Member>,
}

impl RoomView {
    /// The room holds as many members as it allows, or more.
    pub open spec fn is_full(self) -> bool {
        self.members.len() >= self.cfg.max_players
    }

    /// What holds of every room: its members' names are unique, and it never
    /// holds more members than it allows.
    pub open spec fn well_formed(self) -> bool {
        &&& names_unique(self.members)
        &&& self.members.len() <= self.cfg.max_players
    }
}

/// What a request of `player`, playing through `session`, to join `room`
/// does: the room afterwards, the answer, and the notifications to send.
pub open spec fn join_outcome(room: RoomView, session: u64, player: Player) -> (
    RoomView,
    JoinRoomResponse,
    Seq<Outgoing>,
) {
    if room.is_full() {
        (room, JoinRoomResponse::RoomFull, Seq::empty())
    } else if has_name(room.members, player.name@) {
        (room, JoinRoomResponse::NameInUse, Seq::empty())
    } else {
        let members = room.members.push(Member { player, session });
        (RoomView { members, ..room }, JoinRoomResponse::JoinedRoom, notices(members, player))
    }
}

/// Joining a well-formed room leaves it well formed, under its number.
pub proof fn lemma_join_keeps_well_formed(room: RoomView, session: u64, player: Player)
    requires
        room.well_formed(),
    ensures
        join_outcome(room, session, player).0.well_formed(),
        join_outcome(room, session, player).0.room_id == room.room_id,
{
    crate::laws::law_join_keeps_names_unique(room, session, player);
}

struct Room {
    room_id: RoomId,
    cfg: RoomConfig,
    members: Vec<Member>,
}

impl View for Room {
    type V = RoomView;

    closed spec fn view(&self) -> RoomView {
        RoomView { room_id: self.room_id, cfg: self.cfg, members: self.members@ }
    }
}

impl Room {
    fn new(room_id: RoomId, cfg: RoomConfig) -> (res: Room)
        ensures
            res@ == (RoomView { room_id, cfg, members: Seq::empty() }),
    {
        Room { room_id, cfg, members: Vec::new() }
    }

    /// Add `player` to the room, unless it is full or the name is taken.
    fn join(&mut self, session: u64, player: &Player) -> (res: (JoinRoomResponse, Vec<Outgoing>))
        ensures
            (final(self)@, res.0, res.1@) == join_outcome(old(self)@, session, *player),
    {
        if self.is_full() {
            (JoinRoomResponse::RoomFull, Vec::new())
        } else if self.contains_player(player) {
            (JoinRoomResponse::NameInUse, Vec::new())
        } else {
            let out = self.add_member(session, player);
            (JoinRoomResponse::JoinedRoom, out)
        }
    }

    fn is_full(&self) -> (res: bool)
        ensures
            res == self@.is_full(),
    {
        self.members.len() >= self.cfg.max_players as usize
    }

    fn contains_player(&self, p: &Player) -> (res: bool)
        ensures
            res == has_name(self.members@, p.name@),
    {
        let mut i: usize = 0;
        while i < self.members.len()
            invariant
                i <= self.members@.len(),
                forall|j: int| 0 <= j < i ==> self.members@[j].player.name@ != p.name@,
            decreases self.members@.len() - i,
        {
            if self.members[i].player.same_name(p) {
                assert(self.members@[i as int].player.name@ == p.name@);
                return true;
            }
            i = i + 1;
        }
        false
    }

    /// Add `player`, playing through `session`, to the members, and return
    /// the notifications of their arrival to the other members.
    fn add_member(&mut self, session: u64, player: &Player) -> (out: Vec<Outgoing>)
        ensures
            final(self)@ == (RoomView {
                members: old(self)@.members.push(Member { player: *player, session }),
                ..old(self)@
            }),
            out@ == notices(final(self)@.members, *player),
    {
        // add new member to collection
        self.members.push(Member { player: player.clone(), session });
        // tell other members of the new arrival, but not the new player,
        // since they get a response anyway.
        let mut out: Vec<Outgoing> = Vec::new();
        let mut i: usize = 0;
        while i < self.members.len()
            invariant
                i <= self.members@.len(),
                out@ == notices(self.members@.take(i as int), *player),
            decreases self.members@.len() - i,
        {
            assert(self.members@.take(i + 1).drop_last() =~= self.members@.take(i as int));
            if !self.members[i].player.same_name(player) {
                out.push(
                    Outgoing {
                        session: self.members[i].session,
                        response: Response::Play(PlayResponse::NewMember { player: player.clone() }),
                    },
                );
            }
            i = i + 1;
        }
        assert(self.members@.take(self.members@.len() as int) =~= self.members@);
        out
    }

    /// Remove the members playing through `session`.
    fn leave(&mut self, session: u64)
        ensures
            final(self)@ == (RoomView {
                members: without_session(old(self)@.members, session),
                ..old(self)@
            }),
    {
        let mut kept: Vec<Member> = Vec::new();
        let mut i: usize = 0;
        while i < self.members.len()
            invariant
                i <= self.members@.len(),
                kept@ == without_session(self.members@.take(i as int), session),
            decreases self.members@.len() - i,
        {
            assert(self.members@.take(i + 1).drop_last() =~= self.members@.take(i as int));
            if self.members[i].session != session {
                kept.push(self.members[i].clone());
            }
            i = i + 1;
        }
        assert(self.members@.take(self.members@.len() as int) =~= self.members@);
        self.members = kept;
    }
}


/// The abstract state of a client that the server has met.
pub struct ClientView {
    /// The secret shared with the client, derived at its first introduction.
    pub shared_secret: [u8; 32],
    /// The room that the client last took a seat in, if any.
    pub room_id: Option<RoomId>,
    /// The player that the client plays as in that room.
    pub player: Option<Player>,
}

/// The clients after the client `id` took a seat in the room `room_id` as
/// `player`; a client that the server has not met is not recorded.
pub open spec fn seat_client(
    clients: Map<EndpointId, ClientView>,
    id: EndpointId,
    room_id: RoomId,
    player: Player,
) -> Map<EndpointId, ClientView> {
    if clients.contains_key(id) {
        clients.insert(id, ClientView { room_id: Some(room_id), player: Some(player), ..clients[id] })
    } else {
        clients
    }
}

/// The seat that the server remembers for the client `id`: the room and the
/// player, if the client has taken one.
pub open spec fn seat_of(clients: Map<EndpointId, ClientView>, id: EndpointId) -> Option<
    (RoomId, Player),
> {
    if clients.contains_key(id) && clients[id].room_id is Some && clients[id].player is Some {
        Some((clients[id].room_id->0, clients[id].player->0))
    } else {
        None
    }
}

struct ClientStatus {
    room_id: Option<RoomId>,
    player: Option<Player>,
}

impl ClientStatus {
    fn new() -> (res: Self)
        ensures
            res.room_id is None,
            res.player is None,
    {
        Self { room_id: None, player: None }
    }
}

struct Client {
    shared_secret: [u8; 32],
    status: ClientStatus,
}

impl View for Client {
    type V = ClientView;

    closed spec fn view(&self) -> ClientView {
        ClientView {
            shared_secret: self.shared_secret,
            room_id: self.status.room_id,
            player: self.status.player,
        }
    }
}

impl Client {
    fn new(shared_secret: [u8; 32]) -> (res: Self)
        ensures
            res@ == (ClientView { shared_secret, room_id: None, player: None }),
    {
        Self { shared_secret, status: ClientStatus::new() }
    }
}

/// Eight bytes of `b`, from `i` on, as a 64-bit number, the first byte
/// lowest.
pub open spec fn word(b: [u8; 32], i: int) -> u64 {
    (b[i] as u64) | ((b[i + 1] as u64) << 8u64) | ((b[i + 2] as u64) << 16u64) | ((b[i + 3] as u64) << 24u64) | ((b[i + 4] as u64) << 32u64) | ((b[i + 5] as u64) << 40u64) | ((b[i + 6] as u64) << 48u64) | ((b[i + 7] as u64) << 56u64)
}

/// The key under which the server files the client `id`: its 32 bytes as
/// four 64-bit numbers.
pub open spec fn client_key(id: EndpointId) -> (u64, u64, u64, u64) {
    (word(id.0, 0), word(id.0, 8), word(id.0, 16), word(id.0, 24))
}

/// Eight bytes are what their 64-bit number holds.
proof fn lemma_word_injective(a0: u8, a1: u8, a2: u8, a3: u8, a4: u8, a5: u8, a6: u8, a7: u8, c0: u8, c1: u8, c2: u8, c3: u8, c4: u8, c5: u8, c6: u8, c7: u8)
    by (bit_vector)
    requires
        (a0 as u64) | ((a1 as u64) << 8u64) | ((a2 as u64) << 16u64) | ((a3 as u64) << 24u64) | ((a4 as u64) << 32u64) | ((a5 as u64) << 40u64) | ((a6 as u64) << 48u64) | ((a7 as u64) << 56u64) == (c0 as u64) | ((c1 as u64) << 8u64) | ((c2 as u64) << 16u64) | ((c3 as u64) << 24u64) | ((c4 as u64) << 32u64) | ((c5 as u64) << 40u64) | ((c6 as u64) << 48u64) | ((c7 as u64) << 56u64),
    ensures
        a0 == c0 && a1 == c1 && a2 == c2 && a3 == c3 && a4 == c4 && a5 == c5 && a6 == c6 && a7 == c7,
{
}

/// Two clients filed under one key are the same client.
proof fn lemma_client_key_injective(x: EndpointId, y: EndpointId)
    requires
        client_key(x) == client_key(y),
    ensures
        x == y,
{
    let (p, q) = (x.0, y.0);
    lemma_word_injective(p[0], p[1], p[2], p[3], p[4], p[5], p[6], p[7], q[0], q[1], q[2], q[3], q[4], q[5], q[6], q[7]);
    lemma_word_injective(p[8], p[9], p[10], p[11], p[12], p[13], p[14], p[15], q[8], q[9], q[10], q[11], q[12], q[13], q[14], q[15]);
    lemma_word_injective(p[16], p[17], p[18], p[19], p[20], p[21], p[22], p[23], q[16], q[17], q[18], q[19], q[20], q[21], q[22], q[23]);
    lemma_word_injective(p[24], p[25], p[26], p[27], p[28], p[29], p[30], p[31], q[24], q[25], q[26], q[27], q[28], q[29], q[30], q[31]);
    assert(p =~= q);
}

/// Eight bytes of `b`, from `i` on, as a 64-bit number.
fn word_at(b: &[u8; 32], i: usize) -> (res: u64)
    requires
        i + 8 <= 32,
    ensures
        res == word(*b, i as int),
{
    (b[i] as u64) | ((b[i + 1] as u64) << 8u64) | ((b[i + 2] as u64) << 16u64) | ((b[i + 3] as u64) << 24u64) | ((b[i + 4] as u64) << 32u64) | ((b[i + 5] as u64) << 40u64) | ((b[i + 6] as u64) << 48u64) | ((b[i + 7] as u64) << 56u64)
}

/// The key under which the server files the client `id`.
fn key_of(id: &EndpointId) -> (res: (u64, u64, u64, u64))
    ensures
        res == client_key(*id),
{
    (word_at(&id.0, 0), word_at(&id.0, 8), word_at(&id.0, 16), word_at(&id.0, 24))
}

enum ClientRegistration {
    NotRemembered { server_id: EndpointId },
    Remembered { challenge: [u8; CHALLENGE_SIZE], secret: [u8; 32] },
}

/// What the server does on the introduction of a client with the fresh
/// random bytes `fresh`: a client it has not met is recorded with the secret
/// derived from `fresh` and the client's public key; a client it has met is
/// challenged with `fresh`.
closed spec fn register_outcome(
    clients: Map<EndpointId, ClientView>,
    id: EndpointId,
    fresh: [u8; 32],
) -> (Map<EndpointId, ClientView>, ClientRegistration) {
    if clients.contains_key(id) {
        (clients, ClientRegistration::Remembered { challenge: fresh, secret: clients[id].shared_secret })
    } else {
        (
            clients.insert(id, ClientView { shared_secret: spec_x25519(fresh, id.0), room_id: None, player: None }),
            ClientRegistration::NotRemembered { server_id: EndpointId(spec_x25519(fresh, BASEPOINT)) },
        )
    }
}

/// The clients that the server has met, filed under their keys.
struct Clients {
    clients: BTreeMap<(u64, u64, u64, u64), Client>,
}

impl View for Clients {
    type V = Map<EndpointId, ClientView>;

    closed spec fn view(&self) -> Map<EndpointId, ClientView> {
        Map::new(
            |id: EndpointId| self.clients@.contains_key(client_key(id)),
            |id: EndpointId| self.clients@[client_key(id)]@,
        )
    }
}

impl Clients {
    fn new() -> (res: Self)
        ensures
            res@ == Map::<EndpointId, ClientView>::empty(),
    {
        let res = Clients { clients: BTreeMap::new() };
        assert(res@ =~= Map::<EndpointId, ClientView>::empty());
        res
    }

    /// File `client` under the key of `id`.
    fn insert(&mut self, id: &EndpointId, client: Client)
        ensures
            final(self)@ == old(self)@.insert(*id, client@),
    {
        broadcast use vstd::std_specs::btree::group_btree_axioms;
        broadcast use vstd::laws_cmp::group_laws_cmp;

        let ghost c = client@;
        let key = key_of(id);
        self.clients.insert(key, client);
        assert forall|x: EndpointId| #[trigger] self@.contains_key(x) == old(self)@.insert(*id, c).contains_key(x)
            && (self@.contains_key(x) ==> self@[x] == old(self)@.insert(*id, c)[x]) by {
            if client_key(x) == key {
                lemma_client_key_injective(x, *id);
            }
        }
        assert(self@ =~= old(self)@.insert(*id, c));
    }

    /// The client filed under the key of `id`, if any.
    fn get(&self, id: &EndpointId) -> (res: Option<&Client>)
        ensures
            match res {
                Some(c) => self@.contains_key(*id) && self@[*id] == c@,
                None => !self@.contains_key(*id),
            },
    {
        broadcast use vstd::std_specs::btree::group_btree_axioms;
        broadcast use vstd::laws_cmp::group_laws_cmp;

        let key = key_of(id);
        self.clients.get(&key)
    }

    /// Register the introduction of `client_id`, drawing fresh random bytes
    /// for the server's secret or the challenge.
    fn register(&mut self, client_id: &EndpointId) -> (res: ClientRegistration)
        ensures
            exists|fresh: [u8; 32]| (final(self)@, res) == register_outcome(old(self)@, *client_id, fresh),
    {
        let fresh = random_bytes();
        self.register_with(client_id, fresh)
    }

    /// Register the introduction of `client_id`, with `fresh` as the server's
    /// secret for a client not met before, or as the challenge for a client
    /// met before.
    fn register_with(&mut self, client_id: &EndpointId, fresh: [u8; 32]) -> (res: ClientRegistration)
        ensures
            (final(self)@, res) == register_outcome(old(self)@, *client_id, fresh),
    {
        match self.get(client_id) {
            // unrecognized client
            None => {
                // the server-side ephemeral secret and public key
                let server_id = EndpointId(x25519(fresh, BASEPOINT));
                // do the DH exchange with the client public key
                let shared_secret = x25519(fresh, client_id.0);
                // record the new client
                self.insert(client_id, Client::new(shared_secret));
                ClientRegistration::NotRemembered { server_id }
            },
            // recognized client: the random challenge
            Some(client) => {
                let secret = client.shared_secret;
                ClientRegistration::Remembered { challenge: fresh, secret }
            },
        }
    }

    /// Remember that the client `id` took a seat in the room `room_id` as
    /// `player`.
    fn seat(&mut self, id: &EndpointId, room_id: RoomId, player: &Player)
        ensures
            final(self)@ == seat_client(old(self)@, *id, room_id, *player),
    {
        match self.get(id) {
            Some(client) => {
                let shared_secret = client.shared_secret;
                let status = ClientStatus { room_id: Some(room_id), player: Some(player.clone()) };
                self.insert(id, Client { shared_secret, status });
            },
            None => {},
        }
    }

    /// The seat remembered for the client `id`.
    fn seat_of(&self, id: &EndpointId) -> (res: Option<(RoomId, Player)>)
        ensures
            res == seat_of(self@, *id),
    {
        match self.get(id) {
            Some(client) => match (&client.status.room_id, &client.status.player) {
                (Some(room_id), Some(player)) => Some((*room_id, player.clone())),
                _ => None,
            },
            None => None,
        }
    }
}

// The set of rooms available on the server, by room number.
struct Rooms {
    rooms: BTreeMap<u32, Room>,
}

impl View for Rooms {
    type V = Map<u32, RoomView>;

    closed spec fn view(&self) -> Map<u32, RoomView> {
        self.rooms@.map_values(|r: Room| r@)
    }
}

/// Every room is filed under its own number and is well formed.
pub open spec fn rooms_well_formed(rooms: Map<u32, RoomView>) -> bool {
    forall|k: u32|
        #[trigger] rooms.contains_key(k) ==> rooms[k].room_id.0 == k && rooms[k].well_formed()
}

impl Rooms {
    fn new() -> (res: Self)
        ensures
            res@ == Map::<u32, RoomView>::empty(),
    {
        let res = Rooms { rooms: BTreeMap::new() };
        assert(res@ =~= Map::<u32, RoomView>::empty());
        res
    }

    fn insert(&mut self, room_id: RoomId, room: Room)
        ensures
            final(self)@ == old(self)@.insert(room_id.0, room@),
    {
        broadcast use vstd::std_specs::btree::group_btree_axioms;
        broadcast use vstd::laws_cmp::group_laws_cmp;

        let ghost r = room@;
        self.rooms.insert(room_id.0, room);
        assert(self@ =~= old(self)@.insert(room_id.0, r));
    }

    fn remove(&mut self, room_id: RoomId) -> (res: Option<Room>)
        ensures
            final(self)@ == old(self)@.remove(room_id.0),
            match res {
                Some(room) => old(self)@.contains_key(room_id.0) && room@ == old(self)@[room_id.0],
                None => !old(self)@.contains_key(room_id.0),
            },
    {
        broadcast use vstd::std_specs::btree::group_btree_axioms;
        broadcast use vstd::laws_cmp::group_laws_cmp;

        let res = self.rooms.remove(&room_id.0);
        assert(self@ =~= old(self)@.remove(room_id.0));
        res
    }

    /// Have `player`, playing through `session`, join the room `room_id`, if
    /// there is such a room.
    fn join(&mut self, room_id: RoomId, session: u64, player: &Player) -> (res: Option<
        (JoinRoomResponse, Vec<Outgoing>),
    >)
        ensures
            match res {
                Some((response, out)) => old(self)@.contains_key(room_id.0) && {
                    let (room, r, o) = join_outcome(old(self)@[room_id.0], session, *player);
                    &&& final(self)@ == old(self)@.insert(room_id.0, room)
                    &&& response == r
                    &&& out@ == o
                },
                None => !old(self)@.contains_key(room_id.0) && final(self)@ == old(self)@,
            },
    {
        match self.remove(room_id) {
            Some(mut room) => {
                let (response, out) = room.join(session, player);
                self.insert(room_id, room);
                assert(self@ =~= old(self)@.insert(room_id.0, room@));
                Some((response, out))
            },
            None => {
                assert(self@ =~= old(self)@);
                None
            },
        }
    }

    /// Add `player`, playing through `session`, to the empty room `room_id`.
    fn add_first_member(&mut self, room_id: RoomId, session: u64, player: &Player) -> (out: Vec<
        Outgoing,
    >)
        requires
            old(self)@.contains_key(room_id.0),
        ensures
            final(self)@ == old(self)@.insert(
                room_id.0,
                RoomView {
                    members: old(self)@[room_id.0].members.push(Member { player: *player, session }),
                    ..old(self)@[room_id.0]
                },
            ),
            out@ == notices(final(self)@[room_id.0].members, *player),
    {
        let mut room = self.remove(room_id).unwrap();
        let out = room.add_member(session, player);
        self.insert(room_id, room);
        out
    }

    /// Remove the members playing through `session` from the room `room_id`,
    /// if there is such a room.
    fn leave(&mut self, room_id: RoomId, session: u64)
        ensures
            final(self)@ == leave_rooms(old(self)@, room_id, session),
    {
        match self.remove(room_id) {
            Some(mut room) => {
                room.leave(session);
                self.insert(room_id, room);
            },
            None => {
                assert(self@ =~= old(self)@);
            },
        }
    }
}

/// The rooms after the members playing through `session` left the room
/// `room_id`.
pub open spec fn leave_rooms(rooms: Map<u32, RoomView>, room_id: RoomId, session: u64) -> Map<
    u32,
    RoomView,
> {
    if rooms.contains_key(room_id.0) {
        rooms.insert(
            room_id.0,
            RoomView { members: without_session(rooms[room_id.0].members, session), ..rooms[room_id.0] },
        )
    } else {
        rooms
    }
}


/// Settings of the game server.
#[derive(Copy, Clone, Debug)]
pub struct Settings {
    pub max_players_cap: u8,
}

impl Default for Settings {
    fn default() -> (res: Self)
        ensures
            res.max_players_cap == 8,
    {
        Self { max_players_cap: 8 }
    }
}

/// The abstract state of the server core.
pub struct CoreView {
    pub settings: Settings,
    /// The number that the next room created gets.
    pub next_room_id: u32,
    /// The clients that the server has met, by endpoint identifier.
    pub clients: Map<EndpointId, ClientView>,
    /// The open rooms, by room number.
    pub rooms: Map<u32, RoomView>,
}

impl CoreView {
    /// What every state of the core keeps: each room is filed under its own
    /// number, its members' names are unique, and it never holds more members
    /// than it allows (when it allows at least one).
    pub open spec fn well_formed(self) -> bool {
        rooms_well_formed(self.rooms)
    }
}

/// The number after `n`; after the largest number, numbering starts again at
/// zero.
pub open spec fn next_number(n: u32) -> u32 {
    if n == u32::MAX {
        0
    } else {
        (n + 1) as u32
    }
}

/// The core of the game server: the clients it has met and the open rooms.
pub struct Core {
    settings: Settings,
    next_room_id: u32,
    clients: Clients,
    rooms: Rooms,
}

impl View for Core {
    type V = CoreView;

    closed spec fn view(&self) -> CoreView {
        CoreView {
            settings: self.settings,
            next_room_id: self.next_room_id,
            clients: self.clients@,
            rooms: self.rooms@,
        }
    }
}

impl Core {
    #[verifier::type_invariant]
    closed spec fn inv(self) -> bool {
        &&& self@.well_formed()
    }

    /// Create a new, empty server core.
    pub fn new(settings: Settings) -> (res: Self)
        ensures
            res@ == (CoreView {
                settings,
                next_room_id: 0,
                clients: Map::empty(),
                rooms: Map::empty(),
            }),
            res@.well_formed(),
    {
        Core { settings, next_room_id: 0, clients: Clients::new(), rooms: Rooms::new() }
    }

    /// Register a new client with the core, under the session by which the
    /// transport delivers its responses.
    ///
    /// The returned context provides the client-handling task the means to
    /// execute incoming requests.
    pub fn register(&self, session: u64) -> (res: Context)
        ensures
            res.session() == session,
            res.phase() == Phase::New(NewPhase),
    {
        Context::new(session)
    }

    /// Take the known clients out of the core, leaving none.
    fn take_clients(&mut self) -> (res: Clients)
        ensures
            res@ == old(self)@.clients,
            final(self)@ == (CoreView { clients: Map::empty(), ..old(self)@ }),
    {
        proof {
            use_type_invariant(&*self);
        }
        let mut clients = Clients::new();
        std::mem::swap(&mut clients, &mut self.clients);
        clients
    }

    /// Put the known clients back into the core.
    fn put_clients(&mut self, clients: Clients)
        ensures
            final(self)@ == (CoreView { clients: clients@, ..old(self)@ }),
    {
        proof {
            use_type_invariant(&*self);
        }
        self.clients = clients;
    }

    /// Take the rooms out of the core, leaving none.
    fn take_rooms(&mut self) -> (res: Rooms)
        ensures
            rooms_well_formed(res@),
            res@ == old(self)@.rooms,
            final(self)@ == (CoreView { rooms: Map::empty(), ..old(self)@ }),
    {
        proof {
            use_type_invariant(&*self);
        }
        let mut rooms = Rooms::new();
        std::mem::swap(&mut rooms, &mut self.rooms);
        rooms
    }

    /// Put the rooms back into the core.
    fn put_rooms(&mut self, rooms: Rooms)
        requires
            rooms_well_formed(rooms@),
        ensures
            final(self)@ == (CoreView { rooms: rooms@, ..old(self)@ }),
    {
        proof {
            use_type_invariant(&*self);
        }
        self.rooms = rooms;
    }

    /// Open a new, empty room under the next room number.
    fn new_room(&mut self, cfg: RoomConfig) -> (res: RoomId)
        ensures
            res.0 == old(self)@.next_room_id,
            final(self)@ == (CoreView {
                next_room_id: next_number(old(self)@.next_room_id),
                rooms: old(self)@.rooms.insert(
                    res.0,
                    RoomView { room_id: res, cfg, members: Seq::empty() },
                ),
                ..old(self)@
            }),
    {
        proof {
            use_type_invariant(&*self);
        }
        let room_id = RoomId(self.next_room_id);
        self.next_room_id = self.next_room_id.wrapping_add(1);
        let room = Room::new(room_id, cfg);
        let mut rooms = self.take_rooms();
        rooms.insert(room_id, room);
        proof {
            let m = rooms@;
            assert forall|k: u32| #[trigger] m.contains_key(k) implies m[k].room_id.0 == k
                && m[k].well_formed() by {
                if k != room_id.0 {
                    assert(old(self)@.rooms.contains_key(k));
                }
            }
        }
        self.put_rooms(rooms);
        room_id
    }
}

/// A client that has just connected and registered, but not yet introduced
/// themselves. The only valid request from such clients is an introduction.
#[derive(Copy, Clone, Debug)]
pub struct NewPhase;

/// A client that introduced themselves with a remembered client ID, until
/// they successfully authenticate.
#[derive(Copy, Clone, Debug)]
pub struct PendingPhase {
    pub client_id: EndpointId,
    /// The challenge that the client must authenticate.
    pub challenge: [u8; CHALLENGE_SIZE],
    /// The secret shared with the client, the key of the authentication.
    pub secret: [u8; 32],
}

/// A client that introduced themselves successfully (and authenticated, if
/// returning). They may only create or join rooms in which to play.
#[derive(Copy, Clone, Debug)]
pub struct ValidatedPhase {
    pub client_id: EndpointId,
}

/// A client that created or joined a room.
#[derive(Copy, Clone, Debug)]
pub struct PlayingPhase {
    pub client_id: EndpointId,
    pub room_id: RoomId,
}

/// The protocol phase of a client.
#[derive(Copy, Clone, Debug)]
pub enum Phase {
    New(NewPhase),
    Pending(PendingPhase),
    Validated(ValidatedPhase),
    Playing(PlayingPhase),
}

impl From<NewPhase> for Phase {
    fn from(p: NewPhase) -> (res: Self) {
        Phase::New(p)
    }
}

impl FromSpecImpl<NewPhase> for Phase {
    open spec fn obeys_from_spec() -> bool {
        true
    }

    open spec fn from_spec(p: NewPhase) -> Self {
        Phase::New(p)
    }
}

impl From<PendingPhase> for Phase {
    fn from(p: PendingPhase) -> (res: Self) {
        Phase::Pending(p)
    }
}

impl FromSpecImpl<PendingPhase> for Phase {
    open spec fn obeys_from_spec() -> bool {
        true
    }

    open spec fn from_spec(p: PendingPhase) -> Self {
        Phase::Pending(p)
    }
}

impl From<ValidatedPhase> for Phase {
    fn from(p: ValidatedPhase) -> (res: Self) {
        Phase::Validated(p)
    }
}

impl FromSpecImpl<ValidatedPhase> for Phase {
    open spec fn obeys_from_spec() -> bool {
        true
    }

    open spec fn from_spec(p: ValidatedPhase) -> Self {
        Phase::Validated(p)
    }
}

impl From<PlayingPhase> for Phase {
    fn from(p: PlayingPhase) -> (res: Self) {
        Phase::Playing(p)
    }
}

impl FromSpecImpl<PlayingPhase> for Phase {
    open spec fn obeys_from_spec() -> bool {
        true
    }

    open spec fn from_spec(p: PlayingPhase) -> Self {
        Phase::Playing(p)
    }
}

/// What an introduction does, where `fresh` are the random bytes the server
/// draws: an introduction with another game version is refused; a client the
/// server has met is challenged with `fresh`; a client it has not met is
/// recorded with the secret shared between the client's public key and the
/// server secret `fresh`, and is told the server's public key.
pub open spec fn intro_step(core: CoreView, intro: IntroductionRequest, fresh: [u8; 32]) -> (
    CoreView,
    Phase,
    IntroductionResponse,
) {
    let id = intro.client_id;
    if intro.version.0@ != crate::GAME_VERSION@ {
        (core, Phase::New(NewPhase), IntroductionResponse::MismatchedGameVersions)
    } else if core.clients.contains_key(id) {
        (
            core,
            Phase::Pending(
                PendingPhase {
                    client_id: id,
                    challenge: fresh,
                    secret: core.clients[id].shared_secret,
                },
            ),
            IntroductionResponse::YouSeemFamiliar { challenge: fresh },
        )
    } else {
        (
            CoreView {
                clients: core.clients.insert(
                    id,
                    ClientView { shared_secret: spec_x25519(fresh, id.0), room_id: None, player: None },
                ),
                ..core
            },
            Phase::Validated(ValidatedPhase { client_id: id }),
            IntroductionResponse::NiceToMeetYou {
                server_id: EndpointId(spec_x25519(fresh, BASEPOINT)),
            },
        )
    }
}

/// What an authentication, by the client registered under `session`, does:
/// a tag that does not authenticate the challenge under the shared secret
/// leaves the client pending, with the same challenge. One that does lets
/// the client resume where it left off: back in the room in which the server
/// remembers its seat, under the new session, with the other members told of
/// its arrival, when that room still takes it (it is there, not full, and
/// nobody else goes by the player's name). Otherwise the client is validated,
/// and nothing else changes.
pub open spec fn auth_step(core: CoreView, session: u64, p: PendingPhase, auth: AuthenticationRequest) -> (
    CoreView,
    Phase,
    AuthenticationResponse,
    Seq<Outgoing>,
) {
    let validated = (
        core,
        Phase::Validated(ValidatedPhase { client_id: p.client_id }),
        AuthenticationResponse::Valid,
        Seq::empty(),
    );
    if !spec_authenticate_verify(auth.tag@, p.secret@, p.challenge@) {
        (core, Phase::Pending(p), AuthenticationResponse::Invalid, Seq::empty())
    } else {
        match seat_of(core.clients, p.client_id) {
            Some((room_id, player)) => {
                if core.rooms.contains_key(room_id.0) {
                    let (room, response, out) = join_outcome(core.rooms[room_id.0], session, player);
                    if response == JoinRoomResponse::JoinedRoom {
                        (
                            CoreView { rooms: core.rooms.insert(room_id.0, room), ..core },
                            Phase::Playing(PlayingPhase { client_id: p.client_id, room_id }),
                            AuthenticationResponse::Resumed { room_id },
                            out,
                        )
                    } else {
                        validated
                    }
                } else {
                    validated
                }
            },
            None => validated,
        }
    }
}

/// What creating a room does: a room that allows no player is refused as
/// `Illegal`, and changes nothing; otherwise a room under the next room
/// number, whose one member is the creator, which nobody else is told of, and
/// in which the server remembers the creator's seat.
pub open spec fn create_step(
    core: CoreView,
    session: u64,
    v: ValidatedPhase,
    cr: CreateRoomRequest,
) -> (CoreView, Phase, Response, Seq<Outgoing>) {
    if cr.config.max_players == 0 {
        (core, Phase::Validated(v), Response::Illegal, Seq::empty())
    } else {
        let room_id = RoomId(core.next_room_id);
        let room = RoomView {
            room_id,
            cfg: cr.config,
            members: seq![Member { player: cr.player, session }],
        };
        (
            CoreView {
                next_room_id: next_number(core.next_room_id),
                clients: seat_client(core.clients, v.client_id, room_id, cr.player),
                rooms: core.rooms.insert(room_id.0, room),
                ..core
            },
            Phase::Playing(PlayingPhase { client_id: v.client_id, room_id }),
            Response::Lobby(LobbyResponse::CreateRoom(CreateRoomResponse { room_id })),
            Seq::empty(),
        )
    }
}

/// What joining a room does: `RoomNotFound` when there is no such room;
/// otherwise what `join_outcome` says, and a client that joined plays in the
/// room, where the server remembers its seat.
pub open spec fn join_step(core: CoreView, session: u64, v: ValidatedPhase, jr: JoinRoomRequest) -> (
    CoreView,
    Phase,
    JoinRoomResponse,
    Seq<Outgoing>,
) {
    let k: u32 = jr.room_id.0;
    if !core.rooms.contains_key(k) {
        (core, Phase::Validated(v), JoinRoomResponse::RoomNotFound, Seq::empty())
    } else {
        let (room, response, out) = join_outcome(core.rooms[k], session, jr.player);
        if response == JoinRoomResponse::JoinedRoom {
            (
                CoreView {
                    clients: seat_client(core.clients, v.client_id, jr.room_id, jr.player),
                    rooms: core.rooms.insert(k, room),
                    ..core
                },
                Phase::Playing(PlayingPhase { client_id: v.client_id, room_id: jr.room_id }),
                response,
                out,
            )
        } else {
            (CoreView { rooms: core.rooms.insert(k, room), ..core }, Phase::Validated(v), response, out)
        }
    }
}

/// The message that carries `response` to `session`.
pub open spec fn reply(session: u64, response: Response) -> Outgoing {
    Outgoing { session, response }
}

/// What one request of the client registered under `session`, in `phase`,
/// does, where `fresh` are the random bytes the server draws: the core and
/// the phase afterwards, and the messages to deliver. Each request gets
/// exactly one response, the last message; the ones before it are
/// notifications to other clients. A request that the phase does not allow
/// is answered `Illegal` and changes nothing.
pub open spec fn step(core: CoreView, phase: Phase, session: u64, req: Request, fresh: [u8; 32]) -> (
    CoreView,
    Phase,
    Seq<Outgoing>,
) {
    match (phase, req) {
        (Phase::New(_), Request::Introduction(intro)) => {
            let (c, p, r) = intro_step(core, intro, fresh);
            (c, p, seq![reply(session, Response::Introduction(r))])
        },
        (Phase::Pending(pp), Request::Authentication(auth)) => {
            let (c, p, r, out) = auth_step(core, session, pp, auth);
            (c, p, out.push(reply(session, Response::Authentication(r))))
        },
        (Phase::Validated(v), Request::Lobby(LobbyRequest::CreateRoom(cr))) => {
            let (c, p, r, out) = create_step(core, session, v, cr);
            (c, p, out.push(reply(session, r)))
        },
        (Phase::Validated(v), Request::Lobby(LobbyRequest::JoinRoom(jr))) => {
            let (c, p, r, out) = join_step(core, session, v, jr);
            (c, p, out.push(reply(session, Response::Lobby(LobbyResponse::JoinRoom(r)))))
        },
        _ => (core, phase, seq![reply(session, Response::Illegal)]),
    }
}

/// What the cleanup after the client registered under `session`, in
/// `phase`, disconnected does: a client playing in a room leaves it; the
/// server still remembers the client and its seat, so that it can resume.
pub open spec fn cleanup_step(core: CoreView, phase: Phase, session: u64) -> CoreView {
    match phase {
        Phase::Playing(pp) => CoreView { rooms: leave_rooms(core.rooms, pp.room_id, session), ..core },
        _ => core,
    }
}

// request handling

fn handle_intro(intro: IntroductionRequest, _p: NewPhase, core: &mut Core) -> (res: (
    Phase,
    IntroductionResponse,
))
    ensures
        exists|fresh: [u8; 32]| (final(core)@, res.0, res.1) == intro_step(old(core)@, intro, fresh),
{
    let version = crate::GAME_VERSION.to_owned();
    if !(intro.version.0 == version) {
        let res = (Phase::New(NewPhase), IntroductionResponse::MismatchedGameVersions);
        assert((core@, res.0, res.1) == intro_step(old(core)@, intro, BASEPOINT));
        return res;
    }
    let mut clients = core.take_clients();
    let client_reg = clients.register(&intro.client_id);
    let ghost fresh = choose|fresh: [u8; 32]|
        (clients@, client_reg) == register_outcome(old(core)@.clients, intro.client_id, fresh);
    core.put_clients(clients);
    let res = match client_reg {
        ClientRegistration::NotRemembered { server_id } => (
            Phase::Validated(ValidatedPhase { client_id: intro.client_id }),
            IntroductionResponse::NiceToMeetYou { server_id },
        ),
        ClientRegistration::Remembered { challenge, secret } => (
            Phase::Pending(PendingPhase { client_id: intro.client_id, challenge, secret }),
            IntroductionResponse::YouSeemFamiliar { challenge },
        ),
    };
    assert((core@, res.0, res.1) == intro_step(old(core)@, intro, fresh));
    res
}

fn handle_auth(auth: AuthenticationRequest, phase: PendingPhase, core: &mut Core, session: u64) -> (res: (
    Phase,
    AuthenticationResponse,
    Vec<Outgoing>,
))
    ensures
        (final(core)@, res.0, res.1, res.2@) == auth_step(old(core)@, session, phase, auth),
{
    let PendingPhase { client_id, challenge, secret } = phase;
    if !authenticate_verify(auth.tag.as_slice(), &secret, &challenge) {
        return (
            Phase::Pending(PendingPhase { client_id, challenge, secret }),
            AuthenticationResponse::Invalid,
            Vec::new(),
        );
    }
    let validated = (
        Phase::Validated(ValidatedPhase { client_id }),
        AuthenticationResponse::Valid,
        Vec::new(),
    );
    proof {
        use_type_invariant(&*core);
    }
    // resume from the seat the server remembers, if the room still takes it
    let seat = core.clients.seat_of(&client_id);
    match seat {
        Some((room_id, player)) => {
            let mut rooms = core.take_rooms();
            let joined = rooms.join(room_id, session, &player);
            match joined {
                Some((JoinRoomResponse::JoinedRoom, out)) => {
                    proof {
                        let m = rooms@;
                        lemma_join_keeps_well_formed(old(core)@.rooms[room_id.0], session, player);
                        assert forall|k: u32| #[trigger] m.contains_key(k) implies m[k].room_id.0 == k
                            && m[k].well_formed() by {
                            assert(old(core)@.rooms.contains_key(k));
                        }
                    }
                    core.put_rooms(rooms);
                    (
                        Phase::Playing(PlayingPhase { client_id, room_id }),
                        AuthenticationResponse::Resumed { room_id },
                        out,
                    )
                },
                _ => {
                    proof {
                        if old(core)@.rooms.contains_key(room_id.0) {
                            assert(rooms@ =~= old(core)@.rooms);
                        }
                    }
                    core.put_rooms(rooms);
                    validated
                },
            }
        },
        None => validated,
    }
}

fn handle_create_room(
    cr: CreateRoomRequest,
    phase: ValidatedPhase,
    core: &mut Core,
    session: u64,
) -> (res: (Phase, Response, Vec<Outgoing>))
    ensures
        (final(core)@, res.0, res.1, res.2@) == create_step(old(core)@, session, phase, cr),
{
    let ValidatedPhase { client_id } = phase;
    if cr.config.max_players == 0 {
        // a room that allows no player could never hold its creator
        return (Phase::Validated(phase), Response::Illegal, Vec::new());
    }
    let ghost cr0 = cr;
    // create the room
    let room_id = core.new_room(cr.config);
    // creator auto-joins the room.
    let mut rooms = core.take_rooms();
    let out = rooms.add_first_member(room_id, session, &cr.player);
    proof {
        let m = rooms@;
        assert(m[room_id.0].members =~= seq![Member { player: cr.player, session }]);
        assert forall|k: u32| #[trigger] m.contains_key(k) implies m[k].room_id.0 == k
            && m[k].well_formed() by {
            if k != room_id.0 {
                assert(old(core)@.rooms.contains_key(k));
            }
        }
        let ms = m[room_id.0].members;
        assert(ms.drop_last() =~= Seq::<Member>::empty());
        assert(notices(ms.drop_last(), cr.player) == Seq::<Outgoing>::empty());
        assert(ms.last().player == cr.player);
    }
    core.put_rooms(rooms);
    // the server remembers the creator's seat
    let mut clients = core.take_clients();
    clients.seat(&client_id, room_id, &cr.player);
    core.put_clients(clients);
    proof {
        let (c, p, r, o) = create_step(old(core)@, session, phase, cr0);
        assert(core@.rooms =~= c.rooms);
    }
    (
        Phase::Playing(PlayingPhase { client_id, room_id }),
        Response::Lobby(LobbyResponse::CreateRoom(CreateRoomResponse { room_id })),
        out,
    )
}

fn handle_join_room(
    jr: JoinRoomRequest,
    phase: ValidatedPhase,
    core: &mut Core,
    session: u64,
) -> (res: (Phase, JoinRoomResponse, Vec<Outgoing>))
    ensures
        (final(core)@, res.0, res.1, res.2@) == join_step(old(core)@, session, phase, jr),
{
    let ValidatedPhase { client_id } = phase;
    let mut rooms = core.take_rooms();
    let joined = rooms.join(jr.room_id, session, &jr.player);
    proof {
        let m = rooms@;
        if old(core)@.rooms.contains_key(jr.room_id.0) {
            lemma_join_keeps_well_formed(old(core)@.rooms[jr.room_id.0], session, jr.player);
        }
        assert forall|k: u32| #[trigger] m.contains_key(k) implies m[k].room_id.0 == k
            && m[k].well_formed() by {
            assert(old(core)@.rooms.contains_key(k));
        }
    }
    core.put_rooms(rooms);
    match joined {
        Some((response, out)) => {
            match response {
                JoinRoomResponse::JoinedRoom => {
                    // the server remembers the new member's seat
                    let mut clients = core.take_clients();
                    clients.seat(&client_id, jr.room_id, &jr.player);
                    core.put_clients(clients);
                    (Phase::Playing(PlayingPhase { client_id, room_id: jr.room_id }), response, out)
                },
                _ => (Phase::Validated(ValidatedPhase { client_id }), response, out),
            }
        },
        None => (Phase::Validated(ValidatedPhase { client_id }), JoinRoomResponse::RoomNotFound, Vec::new()),
    }
}

fn handle_lobby(
    l: LobbyRequest,
    phase: ValidatedPhase,
    core: &mut Core,
    session: u64,
) -> (res: (Phase, Response, Vec<Outgoing>))
    ensures
        match l {
            LobbyRequest::CreateRoom(cr) => {
                let (c, p, r, out) = create_step(old(core)@, session, phase, cr);
                final(core)@ == c && res.0 == p && res.1 == r && res.2@ == out
            },
            LobbyRequest::JoinRoom(jr) => {
                let (c, p, r, out) = join_step(old(core)@, session, phase, jr);
                final(core)@ == c && res.0 == p && res.1 == Response::Lobby(LobbyResponse::JoinRoom(r))
                    && res.2@ == out
            },
        },
{
    match l {
        LobbyRequest::CreateRoom(cr) => handle_create_room(cr, phase, core, session),
        LobbyRequest::JoinRoom(jr) => {
            let (phase, resp, out) = handle_join_room(jr, phase, core, session);
            (phase, Response::Lobby(LobbyResponse::JoinRoom(resp)), out)
        },
    }
}

impl Phase {
    // Main request handling function.
    fn handle(self, core: &mut Core, session: u64, req: Request) -> (res: (
        Phase,
        Response,
        Vec<Outgoing>,
    ))
        ensures
            exists|fresh: [u8; 32]|
                {
                    let (c, p, out) = #[trigger] step(old(core)@, self, session, req, fresh);
                    &&& final(core)@ == c
                    &&& res.0 == p
                    &&& res.2@.push(reply(session, res.1)) == out
                },
    {
        let ghost req0 = req;
        let res = match self {
            Phase::New(p) => match req {
                Request::Introduction(intro) => {
                    let (phase, resp) = handle_intro(intro, p, core);
                    (phase, Response::Introduction(resp), Vec::new())
                },
                _ => (Phase::New(p), Response::Illegal, Vec::new()),
            },
            Phase::Pending(p) => match req {
                Request::Authentication(auth) => {
                    let (phase, resp, out) = handle_auth(auth, p, core, session);
                    (phase, Response::Authentication(resp), out)
                },
                _ => (Phase::Pending(p), Response::Illegal, Vec::new()),
            },
            Phase::Validated(p) => match req {
                Request::Lobby(l) => handle_lobby(l, p, core, session),
                _ => (Phase::Validated(p), Response::Illegal, Vec::new()),
            },
            Phase::Playing(_) => (self, Response::Illegal, Vec::new()),
        };
        proof {
            let fresh = choose|fresh: [u8; 32]|
                #[trigger] intro_step(old(core)@, req0->Introduction_0, fresh) == (
                    core@,
                    res.0,
                    res.1->Introduction_0,
                );
            let (c, p, out) = step(old(core)@, self, session, req0, fresh);
            assert(res.2@.push(reply(session, res.1)) =~= out);
        }
        res
    }
}

/// Whether the core should be cleaned up after a client whose request loop
/// has ended: unless the loop was stopped, or the whole server is shutting
/// down, in which case the core is dropped as a whole.
pub fn cleanup_due(stopped: bool, server_stopping: bool) -> (res: bool)
    ensures
        res == !(stopped || server_stopping),
{
    !(stopped || server_stopping)
}

/// The handle by which a client task hands requests to the core.
pub struct Context {
    session: u64,
    phase: Phase,
}

impl Context {
    /// The session under which the client registered.
    pub closed spec fn session(&self) -> u64 {
        self.session
    }

    /// The protocol phase of the client.
    pub closed spec fn phase(&self) -> Phase {
        self.phase
    }

    /// The session under which the client registered.
    pub fn session_number(&self) -> (res: u64)
        ensures
            res == self.session(),
    {
        self.session
    }

    fn new(session: u64) -> (res: Self)
        ensures
            res.session() == session,
            res.phase() == Phase::New(NewPhase),
    {
        Context { session, phase: Phase::New(NewPhase) }
    }

    /// Hand a request to the core, and get back the messages to deliver:
    /// notifications to other clients, and last, the response to this
    /// client.
    pub fn execute(&mut self, core: &mut Core, req: Request) -> (out: Vec<Outgoing>)
        ensures
            final(self).session() == old(self).session(),
            exists|fresh: [u8; 32]|
                (final(core)@, final(self).phase(), out@) == #[trigger] step(
                    old(core)@,
                    old(self).phase(),
                    old(self).session(),
                    req,
                    fresh,
                ),
            final(core)@.well_formed(),
            // a client that introduces itself with this game version is
            // remembered afterwards
            old(self).phase() is New && req is Introduction && req->Introduction_0.version.0@
                == crate::GAME_VERSION@ ==> final(core)@.clients.contains_key(
                req->Introduction_0.client_id,
            ),
            // a remembered client that introduces itself is challenged
            old(self).phase() is New && req is Introduction && req->Introduction_0.version.0@
                == crate::GAME_VERSION@ && old(core)@.clients.contains_key(
                req->Introduction_0.client_id,
            ) ==> out@.last().response is Introduction
                && out@.last().response->Introduction_0 is YouSeemFamiliar,
    {
        let (response, mut out) = self.handle(core, req);
        out.push(Outgoing { session: self.session, response });
        proof {
            use_type_invariant(&*core);
        }
        out
    }

    /// Cleanup data for this client from the core, e.g. due to
    /// disconnection: the client leaves the room it plays in. The core still
    /// remembers the client and its seat, so that it can resume after
    /// authenticating on a new connection.
    pub fn cleanup(&mut self, core: &mut Core)
        ensures
            final(self).session() == old(self).session(),
            final(self).phase() == old(self).phase(),
            final(core)@ == cleanup_step(old(core)@, old(self).phase(), old(self).session()),
            final(core)@.well_formed(),
    {
        proof {
            use_type_invariant(&*core);
        }
        match self.phase {
            Phase::Playing(pp) => {
                let mut rooms = core.take_rooms();
                rooms.leave(pp.room_id, self.session);
                proof {
                    let m = rooms@;
                    let k = pp.room_id.0;
                    if old(core)@.rooms.contains_key(k) {
                        lemma_without_session(old(core)@.rooms[k].members, self.session);
                    }
                    assert forall|j: u32| #[trigger] m.contains_key(j) implies m[j].room_id.0 == j
                        && m[j].well_formed() by {
                        assert(old(core)@.rooms.contains_key(j));
                    }
                }
                core.put_rooms(rooms);
            },
            _ => {},
        }
        proof {
            use_type_invariant(&*core);
        }
    }

    // Top-level request-handling function.
    fn handle(&mut self, core: &mut Core, req: Request) -> (res: (Response, Vec<Outgoing>))
        ensures
            final(self).session() == old(self).session(),
            exists|fresh: [u8; 32]|
                {
                    let (c, p, out) = #[trigger] step(
                        old(core)@,
                        old(self).phase(),
                        old(self).session(),
                        req,
                        fresh,
                    );
                    &&& final(core)@ == c
                    &&& final(self).phase() == p
                    &&& res.1@.push(reply(old(self).session(), res.0)) == out
                },
    {
        let phase = self.phase;
        let ghost req0 = req;
        let (phase, response, out) = phase.handle(core, self.session, req);
        proof {
            let fresh = choose|fresh: [u8; 32]|
                {
                    let (c, p, o) = #[trigger] step(old(core)@, old(self).phase, self.session, req0, fresh);
                    &&& core@ == c
                    &&& phase == p
                    &&& out@.push(reply(self.session, response)) == o
                };
            let _ = step(old(core)@, old(self).phase(), old(self).session(), req0, fresh);
        }
        self.phase = phase;
        (response, out)
    }
}

} // verus!
