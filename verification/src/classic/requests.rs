//! Request handling of the line-based server.

use vstd::prelude::*;

use crate::classic::protocol::{IntroductionRequest, IntroductionResponse, Request, Response};
use crate::classic::state::{
    register_player_outcome, Client, Delivery, Error, Synced, SyncedView,
};

verus! {

/// The protocol phase of a client of the line-based server.
#[derive(Debug, Copy, Clone, PartialEq, Eq, Structural)]
pub enum Phase {
    /// The client has not named itself yet; it may only introduce itself.
    NewClient,
    /// The client plays under a name.
    RegisteredPlayer,
    Playing,
}

/// What a request of `client` in `phase` does: the shared state and the
/// phase afterwards, and the response to send, if any. A new client that
/// introduces itself is registered under the name it gives: it is told
/// `Success` and becomes a registered player, or is told that the name is
/// in use, or that naming itself again is illegal. Any other request of a
/// new client is illegal. Requests in the later phases are not handled yet.
pub open spec fn handle_outcome(s: SyncedView, phase: Phase, client: Client, req: Request) -> (
    SyncedView,
    Phase,
    Option<Delivery>,
) {
    match phase {
        Phase::NewClient => match req {
            Request::Introduction(intro) => {
                let (s2, r) = register_player_outcome(s, client.addr(), intro.player);
                let (response, next) = match r {
                    Err(Error::PlayerNameTaken) => (
                        Response::Introduction(IntroductionResponse::NameAlreadyInUse),
                        Phase::NewClient,
                    ),
                    Err(Error::ClientAlreadyNamed) => (Response::Illegal, Phase::NewClient),
                    Ok(_) => (
                        Response::Introduction(IntroductionResponse::Success),
                        Phase::RegisteredPlayer,
                    ),
                };
                (s2, next, Some(Delivery { tx: client.tx(), response }))
            },
            _ => (s, Phase::NewClient, Some(Delivery { tx: client.tx(), response: Response::Illegal })),
        },
        Phase::RegisteredPlayer => (s, Phase::RegisteredPlayer, None),
        Phase::Playing => (s, Phase::Playing, None),
    }
}

impl Phase {
    /// Handle a request of `client`, and get back the next phase and the
    /// response to send, if any.
    pub fn handle(self, state: &mut Synced, client: &mut Client, req: Request) -> (res: (
        Phase,
        Option<Delivery>,
    ))
        ensures
            *final(client) == *old(client),
            (final(state)@, res.0, res.1) == handle_outcome(old(state)@, self, *old(client), req),
    {
        match self {
            Phase::NewClient => handle_new_client(state, client, req),
            Phase::RegisteredPlayer => handle_registered_player(state, client, req),
            Phase::Playing => handle_playing(state, client, req),
        }
    }
}

fn handle_new_client(state: &mut Synced, client: &mut Client, req: Request) -> (res: (
    Phase,
    Option<Delivery>,
))
    ensures
        *final(client) == *old(client),
        (final(state)@, res.0, res.1) == handle_outcome(
            old(state)@,
            Phase::NewClient,
            *old(client),
            req,
        ),
{
    match req {
        Request::Introduction(IntroductionRequest { player }) => {
            let (response, phase) = match state.register_player(client.address(), player) {
                Err(Error::PlayerNameTaken) => (
                    Response::Introduction(IntroductionResponse::NameAlreadyInUse),
                    Phase::NewClient,
                ),
                Err(Error::ClientAlreadyNamed) => (Response::Illegal, Phase::NewClient),
                Ok(_) => (Response::Introduction(IntroductionResponse::Success), Phase::RegisteredPlayer),
            };
            let delivery = client.send(response);
            (phase, Some(delivery))
        },
        _ => {
            let delivery = client.send(Response::Illegal);
            (Phase::NewClient, Some(delivery))
        },
    }
}

fn handle_registered_player(_state: &Synced, _client: &Client, _req: Request) -> (res: (
    Phase,
    Option<Delivery>,
))
    ensures
        res == (Phase::RegisteredPlayer, None::<Delivery>),
{
    (Phase::RegisteredPlayer, None)
}

fn handle_playing(_state: &Synced, _client: &Client, _req: Request) -> (res: (
    Phase,
    Option<Delivery>,
))
    ensures
        res == (Phase::Playing, None::<Delivery>),
{
    (Phase::Playing, None)
}

} // verus!
