use netholdem::classic::model::Player;
use netholdem::classic::protocol::{IntroductionRequest, IntroductionResponse, Request, Response};
use netholdem::classic::requests::Phase;
use netholdem::classic::state::{Address, Synced};
use netholdem::model::EndpointId;
use netholdem::protocol::{IntroductionResponse as GameIntroductionResponse, Response as GameResponse};
use netholdem::server::{Core, Settings};

const NUM_CLIENTS: usize = 1000;

#[test]
fn every_client_of_the_line_server_introduces_itself() {
    let mut state = Synced::new();
    let mut responses = Vec::with_capacity(NUM_CLIENTS);
    for id in 0..NUM_CLIENTS {
        let addr = Address { ip: 0x7f00_0001, is_v6: false, port: 10_000 + id as u16, flowinfo: 0, scope_id: 0 };
        let mut client = state.register_new_client(addr, id as u64);
        let req = Request::Introduction(IntroductionRequest { player: Player { name: format!("player{}", id) } });
        let (phase, delivery) = Phase::NewClient.handle(&mut state, &mut client, req);
        assert_eq!(phase, Phase::RegisteredPlayer);
        responses.push(delivery.unwrap());
    }
    for (id, d) in responses.iter().enumerate() {
        assert_eq!(d.tx, id as u64);
        assert_eq!(d.response, Response::Introduction(IntroductionResponse::Success));
    }
}

#[test]
fn every_client_of_the_game_server_is_welcomed() {
    let mut core = Core::new(Settings::default());
    let mut server_ids = Vec::with_capacity(NUM_CLIENTS);
    for id in 0..NUM_CLIENTS {
        let mut bytes = [0u8; 32];
        bytes[..8].copy_from_slice(&(id as u64).to_le_bytes());
        let mut ctx = core.register(id as u64);
        let out = ctx.execute(
            &mut core,
            netholdem::protocol::Request::Introduction(netholdem::protocol::IntroductionRequest::new(EndpointId(bytes))),
        );
        assert_eq!(out.len(), 1);
        assert_eq!(out[0].session, id as u64);
        match &out[0].response {
            GameResponse::Introduction(GameIntroductionResponse::NiceToMeetYou { server_id }) => server_ids.push(*server_id),
            other => panic!("unexpected response {:?}", other),
        }
    }
    // Each client gets a server key of its own.
    server_ids.sort();
    server_ids.dedup();
    assert_eq!(server_ids.len(), NUM_CLIENTS);
}
