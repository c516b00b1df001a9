//! Properties of the line-based server's shared state that span calls.

use vstd::prelude::*;

use crate::classic::model::Player;
use crate::classic::protocol::{IntroductionRequest, IntroductionResponse, Request, Response};
use crate::classic::requests::{handle_outcome, Phase};
use crate::classic::state::{
    cleanup_outcome, lemma_release_keeps_consistent, register_player_outcome, Address, Client, Delivery,
    Error, SyncedView,
};

verus! {

/// Cleaning up after a client undoes its connection and its registration
/// under a name: once a client that connected, and named itself, is cleaned
/// up, the shared state is as it was before it connected.
pub proof fn law_cleanup_undoes_registration(
    s: SyncedView,
    addr: Address,
    client: Client,
    p: Player,
)
    requires
        s.consistent(),
        !s.clients.contains_key(addr),
        !s.players.contains_key(addr),
        !s.r_players.contains_key(p.name@),
    ensures
        ({
            let connected = SyncedView { clients: s.clients.insert(addr, client), ..s };
            let (named, r) = register_player_outcome(connected, addr, p);
            &&& r == Ok::<(), Error>(())
            &&& cleanup_outcome(named, addr) == s
            &&& cleanup_outcome(connected, addr) == s
        }),
{
    let connected = SyncedView { clients: s.clients.insert(addr, client), ..s };
    let named = register_player_outcome(connected, addr, p).0;
    assert(connected.clients.remove(addr) =~= s.clients);
    assert(named.players.remove(addr) =~= s.players);
    assert(named.r_players.remove(p.name@) =~= s.r_players);
}

/// A name belongs to one client at a time: once a client registered under a
/// name, another client that asks for it is told it is taken, and the client
/// itself may not name itself again.
pub proof fn law_registration_is_exclusive(
    s: SyncedView,
    addr: Address,
    other: Address,
    p: Player,
    q: Player,
)
    requires
        register_player_outcome(s, addr, p).1 == Ok::<(), Error>(()),
        other != addr,
        !s.players.contains_key(other),
        q.name@ == p.name@,
    ensures
        register_player_outcome(register_player_outcome(s, addr, p).0, other, q).1 == Err::<
            (),
            Error,
        >(Error::PlayerNameTaken),
        register_player_outcome(register_player_outcome(s, addr, p).0, addr, q).1 == Err::<
            (),
            Error,
        >(Error::ClientAlreadyNamed),
{
}

/// Cleaning up after a client forgets it: afterwards it is no longer among
/// the connected clients, nobody holds the name it had, and the maps between
/// clients and names stay inverse to each other.
pub proof fn law_cleanup_frees_the_name(s: SyncedView, addr: Address)
    requires
        s.consistent(),
    ensures
        !cleanup_outcome(s, addr).clients.contains_key(addr),
        !cleanup_outcome(s, addr).players.contains_key(addr),
        s.players.contains_key(addr) ==> !cleanup_outcome(s, addr).r_players.contains_key(
            s.players[addr].name@,
        ),
        cleanup_outcome(s, addr).consistent(),
{
    lemma_release_keeps_consistent(s, addr);
}

/// A client that has not named itself may only introduce itself: any other
/// request is answered `Illegal` on its own channel, the client stays new,
/// and the shared state is as it was.
pub proof fn law_new_client_may_only_introduce(s: SyncedView, client: Client, req: Request)
    requires
        !(req is Introduction),
    ensures
        handle_outcome(s, Phase::NewClient, client, req) == (
            s,
            Phase::NewClient,
            Some(Delivery { tx: client.tx(), response: Response::Illegal }),
        ),
{
}

/// A new client that introduces itself under a name is told `Success`, and
/// becomes a registered player under that name, exactly when it has no name
/// yet and nobody else has the name; otherwise it stays new, the state is as
/// it was, and it is told the name is in use (when it is someone else's) or
/// that the request is illegal (when it already has a name). The answer goes
/// to the client's own channel.
pub proof fn law_introduction_names_the_client(s: SyncedView, client: Client, p: Player)
    ensures
        ({
            let req = Request::Introduction(IntroductionRequest { player: p });
            let (t, ph, d) = handle_outcome(s, Phase::NewClient, client, req);
            let free = !s.players.contains_key(client.addr()) && !s.r_players.contains_key(p.name@);
            &&& d is Some && d->0.tx == client.tx()
            &&& free ==> {
                &&& d->0.response == Response::Introduction(IntroductionResponse::Success)
                &&& ph == Phase::RegisteredPlayer
                &&& t.players == s.players.insert(client.addr(), p)
                &&& t.r_players == s.r_players.insert(p.name@, client.addr())
                &&& t.clients == s.clients
            }
            &&& !free ==> {
                &&& t == s
                &&& ph == Phase::NewClient
                &&& d->0.response == if s.players.contains_key(client.addr()) {
                    Response::Illegal
                } else {
                    Response::Introduction(IntroductionResponse::NameAlreadyInUse)
                }
            }
        }),
{
}

} // verus!
