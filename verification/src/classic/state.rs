//! The state of the line-based server that its client tasks share: the
//! connected clients, and which client plays under which name.

use std::collections::{BTreeMap, HashMap};

use vstd::prelude::*;

use crate::classic::model::{Player, RoomId};
use crate::classic::protocol::Response;

verus! {

/// The network address of a client: an IPv4 or IPv6 socket address. The IP
/// address is held as a number (an IPv4 address in its low 32 bits); the
/// flow information and scope of an IPv6 address are zero for IPv4.
#[derive(Debug, Copy, Clone, PartialEq, Eq, Hash, Structural)]
pub struct Address {
    pub ip: u128,
    pub is_v6: bool,
    pub port: u16,
    pub flowinfo: u32,
    pub scope_id: u32,
}

/// The sender half for responses to a client: the number under which the
/// transport keeps the client's response channel.
pub type ResponseTx = u64;

/// A response for the transport to send on the channel `tx`.
#[derive(Debug, Copy, Clone, PartialEq, Eq, Structural)]
pub struct Delivery {
    pub tx: ResponseTx,
    pub response: Response,
}

/// A handle for each client connected to the server.
#[derive(Debug, Copy, Clone, PartialEq, Eq, Structural)]
pub struct Client {
    addr: Address,
    tx: ResponseTx,
}

impl Client {
    /// The client's address.
    pub closed spec fn addr(&self) -> Address {
        self.addr
    }

    /// The client's response channel.
    pub closed spec fn tx(&self) -> ResponseTx {
        self.tx
    }

    pub fn new(addr: Address, tx: ResponseTx) -> (res: Self)
        ensures
            res.addr() == addr,
            res.tx() == tx,
    {
        Client { addr, tx }
    }

    pub fn address(&self) -> (res: Address)
        ensures
            res == self.addr(),
    {
        self.addr
    }

    /// Send a response to the client: the delivery for the transport to make.
    pub fn send(&mut self, r: Response) -> (res: Delivery)
        ensures
            *final(self) == *old(self),
            res == (Delivery { tx: old(self).tx(), response: r }),
    {
        Delivery { tx: self.tx, response: r }
    }
}

/// The map that a list of (key, value) entries with distinct keys stands
/// for.
pub closed spec fn entry_map<K, V>(s: Seq<(K, V)>) -> Map<K, V> {
    Map::new(
        |k: K| exists|i: int| 0 <= i < s.len() && #[trigger] s[i].0 == k,
        |k: K| s[choose|i: int| 0 <= i < s.len() && #[trigger] s[i].0 == k].1,
    )
}

/// No two entries have the same key.
pub closed spec fn keys_unique<K, V>(s: Seq<(K, V)>) -> bool {
    forall|i: int, j: int| 0 <= i < s.len() && 0 <= j < s.len() && i != j ==> s[i].0 != s[j].0
}

proof fn lemma_entry_lookup<K, V>(s: Seq<(K, V)>, i: int)
    requires
        keys_unique(s),
        0 <= i < s.len(),
    ensures
        entry_map(s).contains_key(s[i].0),
        entry_map(s)[s[i].0] == s[i].1,
{
    assert(s[i].0 == s[i].0);
}

proof fn lemma_entry_absent<K, V>(s: Seq<(K, V)>, k: K)
    requires
        forall|i: int| 0 <= i < s.len() ==> s[i].0 != k,
    ensures
        !entry_map(s).contains_key(k),
{
}

/// Appending an entry for a key that has none adds it to the map.
proof fn lemma_entry_push<K, V>(s: Seq<(K, V)>, k: K, v: V)
    requires
        keys_unique(s),
        !entry_map(s).contains_key(k),
    ensures
        keys_unique(s.push((k, v))),
        entry_map(s.push((k, v))) == entry_map(s).insert(k, v),
{
    let t = s.push((k, v));
    assert forall|j: int| 0 <= j < s.len() implies s[j].0 != k by {
        if s[j].0 == k {
            lemma_entry_lookup(s, j);
        }
    }
    assert(keys_unique(t)) by {
        assert forall|x: int, y: int| 0 <= x < t.len() && 0 <= y < t.len() && x != y implies t[x].0 != t[y].0 by {
            if x < s.len() && y < s.len() {
                assert(s[x].0 != s[y].0);
            } else if x < s.len() {
                assert(s[x].0 != k);
            } else {
                assert(s[y].0 != k);
            }
        }
    }
    assert forall|c: K| #[trigger] entry_map(t).contains_key(c) == entry_map(s).insert(k, v).contains_key(c)
        && (entry_map(t).contains_key(c) ==> entry_map(t)[c] == entry_map(s).insert(k, v)[c]) by {
        if c == k {
            lemma_entry_lookup(t, s.len() as int);
        } else if entry_map(s).contains_key(c) {
            let j: int = choose|j: int| 0 <= j < s.len() && #[trigger] s[j].0 == c;
            lemma_entry_lookup(s, j);
            lemma_entry_lookup(t, j);
        } else {
            assert forall|j: int| 0 <= j < t.len() implies t[j].0 != c by {
                if j < s.len() {
                    assert(s[j].0 != c);
                }
            }
            lemma_entry_absent(t, c);
        }
    }
    assert(entry_map(t) =~= entry_map(s).insert(k, v));
}

/// Removing the entry at `i` removes its key from the map.
proof fn lemma_entry_remove<K, V>(s: Seq<(K, V)>, i: int)
    requires
        keys_unique(s),
        0 <= i < s.len(),
    ensures
        keys_unique(s.remove(i)),
        entry_map(s.remove(i)) == entry_map(s).remove(s[i].0),
{
    let a = s[i].0;
    let t = s.remove(i);
    assert forall|j: int| 0 <= j < t.len() implies #[trigger] t[j] == s[if j < i { j } else { j + 1 }] by {}
    assert(keys_unique(t)) by {
        assert forall|x: int, y: int| 0 <= x < t.len() && 0 <= y < t.len() && x != y implies t[x].0 != t[y].0 by {
            let bx: int = if x < i { x } else { x + 1 };
            let by_: int = if y < i { y } else { y + 1 };
            assert(t[x] == s[bx]);
            assert(t[y] == s[by_]);
        }
    }
    assert forall|k: K| #[trigger] entry_map(t).contains_key(k) == entry_map(s).remove(a).contains_key(k)
        && (entry_map(t).contains_key(k) ==> entry_map(t)[k] == entry_map(s).remove(a)[k]) by {
        if k != a && entry_map(s).contains_key(k) {
            let j: int = choose|j: int| 0 <= j < s.len() && #[trigger] s[j].0 == k;
            lemma_entry_lookup(s, j);
            let aj: int = if j < i { j } else { j - 1 };
            assert(t[aj] == s[j]);
            lemma_entry_lookup(t, aj);
        } else {
            assert forall|j: int| 0 <= j < t.len() implies t[j].0 != k by {
                let bj: int = if j < i { j } else { j + 1 };
                assert(t[j] == s[bj]);
            }
            lemma_entry_absent(t, k);
        }
    }
    assert(entry_map(t) =~= entry_map(s).remove(a));
}

/// The key under which an address is filed: its fields, as numbers.
pub open spec fn addr_key(a: Address) -> (u128, u8, u16, u32, u32) {
    (a.ip, if a.is_v6 { 1u8 } else { 0u8 }, a.port, a.flowinfo, a.scope_id)
}

/// The key under which the address `a` is filed.
fn key_of(a: Address) -> (res: (u128, u8, u16, u32, u32))
    ensures
        res == addr_key(a),
{
    (a.ip, if a.is_v6 { 1u8 } else { 0u8 }, a.port, a.flowinfo, a.scope_id)
}

// A map keyed by address, filed under the addresses' keys.
struct AddrTable<V> {
    entries: BTreeMap<(u128, u8, u16, u32, u32), V>,
}

impl<V> View for AddrTable<V> {
    type V = Map<Address, V>;

    closed spec fn view(&self) -> Map<Address, V> {
        Map::new(
            |a: Address| self.entries@.contains_key(addr_key(a)),
            |a: Address| self.entries@[addr_key(a)],
        )
    }
}

impl<V> AddrTable<V> {
    fn new() -> (res: Self)
        ensures
            res@ == Map::<Address, V>::empty(),
    {
        let res = AddrTable { entries: BTreeMap::new() };
        assert(res@ =~= Map::<Address, V>::empty());
        res
    }

    fn contains_key(&self, a: Address) -> (res: bool)
        ensures
            res == self@.contains_key(a),
    {
        broadcast use vstd::std_specs::btree::group_btree_axioms;
        broadcast use vstd::laws_cmp::group_laws_cmp;

        self.entries.contains_key(&key_of(a))
    }

    fn insert(&mut self, a: Address, v: V)
        ensures
            final(self)@ == old(self)@.insert(a, v),
    {
        broadcast use vstd::std_specs::btree::group_btree_axioms;
        broadcast use vstd::laws_cmp::group_laws_cmp;

        let ghost w = v;
        self.entries.insert(key_of(a), v);
        assert(self@ =~= old(self)@.insert(a, w));
    }

    fn remove(&mut self, a: Address) -> (res: Option<V>)
        ensures
            final(self)@ == old(self)@.remove(a),
            match res {
                Some(v) => old(self)@.contains_key(a) && v == old(self)@[a],
                None => !old(self)@.contains_key(a),
            },
    {
        broadcast use vstd::std_specs::btree::group_btree_axioms;
        broadcast use vstd::laws_cmp::group_laws_cmp;

        let res = self.entries.remove(&key_of(a));
        assert(self@ =~= old(self)@.remove(a));
        res
    }
}

/// The entries of a name table, keyed by the players' names.
pub closed spec fn by_name(s: Seq<(Player, Address)>) -> Seq<(Seq<char>, Address)> {
    s.map_values(|e: (Player, Address)| (e.0.name@, e.1))
}

// A map keyed by player name, held as a list of entries.
struct NameTable {
    entries: Vec<(Player, Address)>,
}

impl View for NameTable {
    type V = Map<Seq<char>, Address>;

    closed spec fn view(&self) -> Map<Seq<char>, Address> {
        entry_map(by_name(self.entries@))
    }
}

impl NameTable {
    closed spec fn wf(&self) -> bool {
        keys_unique(by_name(self.entries@))
    }

    fn new() -> (res: Self)
        ensures
            res.wf(),
            res@ == Map::<Seq<char>, Address>::empty(),
    {
        let res = NameTable { entries: Vec::new() };
        assert(res@ =~= Map::<Seq<char>, Address>::empty());
        res
    }

    fn find(&self, p: &Player) -> (res: Option<usize>)
        requires
            self.wf(),
        ensures
            match res {
                Some(i) => i < self.entries@.len() && self.entries@[i as int].0.name@ == p.name@
                    && self@.contains_key(p.name@) && self@[p.name@] == self.entries@[i as int].1,
                None => !self@.contains_key(p.name@),
            },
    {
        let ghost keyed = by_name(self.entries@);
        let mut i: usize = 0;
        while i < self.entries.len()
            invariant
                self.wf(),
                keyed == by_name(self.entries@),
                i <= self.entries@.len(),
                forall|j: int| 0 <= j < i ==> keyed[j].0 != p.name@,
            decreases self.entries@.len() - i,
        {
            if self.entries[i].0.name == p.name {
                proof {
                    lemma_entry_lookup(keyed, i as int);
                }
                return Some(i);
            }
            i = i + 1;
        }
        proof {
            lemma_entry_absent(keyed, p.name@);
        }
        None
    }

    fn contains_key(&self, p: &Player) -> (res: bool)
        requires
            self.wf(),
        ensures
            res == self@.contains_key(p.name@),
    {
        self.find(p).is_some()
    }

    /// Add an entry for a name that has none.
    fn insert_new(&mut self, p: Player, a: Address)
        requires
            old(self).wf(),
            !old(self)@.contains_key(p.name@),
        ensures
            final(self).wf(),
            final(self)@ == old(self)@.insert(p.name@, a),
    {
        let ghost before = self.entries@;
        proof {
            lemma_entry_push(by_name(before), p.name@, a);
        }
        self.entries.push((p, a));
        assert(by_name(self.entries@) =~= by_name(before).push((p.name@, a)));
    }

    fn remove(&mut self, p: &Player)
        requires
            old(self).wf(),
        ensures
            final(self).wf(),
            final(self)@ == old(self)@.remove(p.name@),
    {
        let ghost before = self.entries@;
        match self.find(p) {
            Some(i) => {
                proof {
                    lemma_entry_remove(by_name(before), i as int);
                }
                let _ = self.entries.remove(i);
                assert(by_name(self.entries@) =~= by_name(before).remove(i as int));
            },
            None => {
                assert(self@ =~= old(self)@.remove(p.name@));
            },
        }
    }
}


/// Why a client could not be registered as a player.
#[derive(Debug, Copy, Clone, PartialEq, Eq, Structural)]
pub enum Error {
    PlayerNameTaken,
    ClientAlreadyNamed,
}

/// A room of the line-based server.
pub struct Room {
    members: Vec<(Player, Client)>,
}

/// The abstract state shared by the client tasks.
pub struct SyncedView {
    /// Each connected client, by address.
    pub clients: Map<Address, Client>,
    /// The player that each named client plays as, by address.
    pub players: Map<Address, Player>,
    /// The client of each player name.
    pub r_players: Map<Seq<char>, Address>,
}

impl SyncedView {
    /// The two maps between clients and player names are inverse to each
    /// other: a named client's name leads back to it, and a name leads to a
    /// client that goes by it.
    pub open spec fn consistent(self) -> bool {
        &&& forall|a: Address| #[trigger]
            self.players.contains_key(a) ==> self.r_players.contains_key(self.players[a].name@)
                && self.r_players[self.players[a].name@] == a
        &&& forall|n: Seq<char>| #[trigger]
            self.r_players.contains_key(n) ==> self.players.contains_key(self.r_players[n])
                && self.players[self.r_players[n]].name@ == n
    }
}

/// What registering the client at `addr` as the player `p` does: a client
/// that already has a name is refused, then a name that another client
/// has; otherwise the client and the name are tied to each other.
pub open spec fn register_player_outcome(s: SyncedView, addr: Address, p: Player) -> (
    SyncedView,
    Result<(), Error>,
) {
    if s.players.contains_key(addr) {
        (s, Err(Error::ClientAlreadyNamed))
    } else if s.r_players.contains_key(p.name@) {
        (s, Err(Error::PlayerNameTaken))
    } else {
        (
            SyncedView {
                players: s.players.insert(addr, p),
                r_players: s.r_players.insert(p.name@, addr),
                ..s
            },
            Ok(()),
        )
    }
}

/// What cleaning up after the client at `addr` does: the client is no
/// longer among the connected clients, and its name, if any, is released.
pub open spec fn cleanup_outcome(s: SyncedView, addr: Address) -> SyncedView {
    let clients = s.clients.remove(addr);
    if s.players.contains_key(addr) {
        SyncedView {
            clients,
            players: s.players.remove(addr),
            r_players: s.r_players.remove(s.players[addr].name@),
        }
    } else {
        SyncedView { clients, ..s }
    }
}

/// Releasing the name of the client at `addr` keeps the maps between
/// clients and names inverse to each other.
pub proof fn lemma_release_keeps_consistent(s: SyncedView, addr: Address)
    requires
        s.consistent(),
    ensures
        cleanup_outcome(s, addr).consistent(),
{
    let t = cleanup_outcome(s, addr);
    assert forall|a: Address| #[trigger] t.players.contains_key(a) implies t.r_players.contains_key(
        t.players[a].name@,
    ) && t.r_players[t.players[a].name@] == a by {
        assert(s.players.contains_key(a));
        assert(s.r_players.contains_key(s.players[a].name@));
    }
    assert forall|m: Seq<char>| #[trigger] t.r_players.contains_key(m) implies t.players.contains_key(
        t.r_players[m],
    ) && t.players[t.r_players[m]].name@ == m by {
        assert(s.r_players.contains_key(m));
        assert(s.players.contains_key(s.r_players[m]));
    }
}

/// Tying the client at `addr` to the name of `p` keeps the maps between
/// clients and names inverse to each other.
pub proof fn lemma_register_keeps_consistent(s: SyncedView, addr: Address, p: Player)
    requires
        s.consistent(),
    ensures
        register_player_outcome(s, addr, p).0.consistent(),
{
    let t = register_player_outcome(s, addr, p).0;
    let n = p.name@;
    if register_player_outcome(s, addr, p).1 is Ok {
        assert forall|a: Address| #[trigger] t.players.contains_key(a) implies t.r_players.contains_key(
            t.players[a].name@,
        ) && t.r_players[t.players[a].name@] == a by {
            if a != addr {
                assert(s.players.contains_key(a));
                assert(s.r_players.contains_key(s.players[a].name@));
            }
        }
        assert forall|m: Seq<char>| #[trigger] t.r_players.contains_key(m) implies t.players.contains_key(
            t.r_players[m],
        ) && t.players[t.r_players[m]].name@ == m by {
            if m != n {
                assert(s.r_players.contains_key(m));
                assert(s.players.contains_key(s.r_players[m]));
            }
        }
    }
}

/// The mutex-synchronized state.
pub struct Synced {
    /// A collection of each connected client.
    clients: AddrTable<Client>,
    /// A mapping of each client to their player name.
    players: AddrTable<Player>,
    /// An inverse mapping of each player name to the respective client.
    r_players: NameTable,
    /// A collection of each open room.
    rooms: HashMap<RoomId, Room>,
}

impl View for Synced {
    type V = SyncedView;

    closed spec fn view(&self) -> SyncedView {
        SyncedView { clients: self.clients@, players: self.players@, r_players: self.r_players@ }
    }
}

impl Synced {
    /// The tables hold no two entries for one key, and the maps between
    /// clients and names are inverse to each other.
    #[verifier::type_invariant]
    closed spec fn inv(self) -> bool {
        &&& self.r_players.wf()
        &&& self@.consistent()
    }

    pub fn new() -> (res: Self)
        ensures
            res@.clients == Map::<Address, Client>::empty(),
            res@.players == Map::<Address, Player>::empty(),
            res@.r_players == Map::<Seq<char>, Address>::empty(),
    {
        let res = Synced {
            clients: AddrTable::new(),
            players: AddrTable::new(),
            r_players: NameTable::new(),
            rooms: HashMap::new(),
        };
        res
    }

    pub fn register_new_client(&mut self, addr: Address, tx: ResponseTx) -> (res: Client)
        ensures
            res.addr() == addr,
            res.tx() == tx,
            final(self)@ == (SyncedView { clients: old(self)@.clients.insert(addr, res), ..old(self)@ }),
    {
        proof {
            use_type_invariant(&*self);
        }
        let client = Client::new(addr, tx);
        let mut state = Synced::new();
        std::mem::swap(&mut state, self);
        let Synced { mut clients, players, r_players, rooms } = state;
        assert(players@ == old(self)@.players && r_players@ == old(self)@.r_players);
        clients.insert(addr, client);
        assert(SyncedView { clients: clients@, players: players@, r_players: r_players@ }.consistent());
        *self = Synced { clients, players, r_players, rooms };
        client
    }

    pub fn contains_player(&self, p: &Player) -> (res: bool)
        ensures
            res == self@.r_players.contains_key(p.name@),
    {
        proof {
            use_type_invariant(self);
        }
        self.r_players.contains_key(p)
    }

    pub fn register_player(&mut self, addr: Address, p: Player) -> (res: Result<(), Error>)
        ensures
            (final(self)@, res) == register_player_outcome(old(self)@, addr, p),
    {
        proof {
            use_type_invariant(&*self);
        }
        if self.players.contains_key(addr) {
            Err(Error::ClientAlreadyNamed)
        } else if self.r_players.contains_key(&p) {
            Err(Error::PlayerNameTaken)
        } else {
            proof {
                lemma_register_keeps_consistent(old(self)@, addr, p);
            }
            let mut state = Synced::new();
            std::mem::swap(&mut state, self);
            let Synced { clients, mut players, mut r_players, rooms } = state;
            players.insert(addr, p.clone());
            r_players.insert_new(p, addr);
            *self = Synced { clients, players, r_players, rooms };
            Ok(())
        }
    }

    /// Whether the client at `addr` is connected.
    pub fn is_connected(&self, addr: Address) -> (res: bool)
        ensures
            res == self@.clients.contains_key(addr),
    {
        proof {
            use_type_invariant(self);
        }
        self.clients.contains_key(addr)
    }

    pub fn already_named(&self, addr: Address) -> (res: bool)
        ensures
            res == self@.players.contains_key(addr),
    {
        proof {
            use_type_invariant(self);
        }
        self.players.contains_key(addr)
    }

    /// Forget the client at `addr`, which has disconnected, and release its
    /// name.
    pub fn cleanup_client(&mut self, addr: Address)
        ensures
            final(self)@ == cleanup_outcome(old(self)@, addr),
    {
        proof {
            use_type_invariant(&*self);
            lemma_release_keeps_consistent(old(self)@, addr);
        }
        let mut state = Synced::new();
        std::mem::swap(&mut state, self);
        let Synced { mut clients, mut players, mut r_players, rooms } = state;
        assert(players@ == old(self)@.players && r_players@ == old(self)@.r_players);
        let _ = clients.remove(addr);
        match players.remove(addr) {
            Some(p) => r_players.remove(&p),
            None => assert(players@ =~= old(self)@.players),
        }
        *self = Synced { clients, players, r_players, rooms };
    }
}

} // verus!
