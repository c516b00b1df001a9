use netholdem::client::NewClientKey;
use netholdem::model::{EndpointId, GameVersion, Player, RoomConfig, RoomId};
use netholdem::protocol::{
    AuthenticationRequest, AuthenticationResponse, CreateRoomRequest, CreateRoomResponse,
    IntroductionRequest, IntroductionResponse, JoinRoomRequest, JoinRoomResponse, LobbyRequest,
    LobbyResponse, PlayRequest, PlayResponse, Request, Response,
};
use netholdem::server::{Context, Core, Outgoing, Settings};

fn player(name: &str) -> Player {
    Player { name: name.to_string() }
}

fn room_config(max_players: u8) -> RoomConfig {
    RoomConfig { name: "table".to_string(), max_players, keyphrase: None }
}

fn intro(id: [u8; 32]) -> Request {
    Request::Introduction(IntroductionRequest::new(EndpointId(id)))
}

fn create(cfg: RoomConfig, name: &str) -> Request {
    Request::Lobby(LobbyRequest::CreateRoom(CreateRoomRequest { config: cfg, player: player(name) }))
}

fn join(room: u32, name: &str) -> Request {
    Request::Lobby(LobbyRequest::JoinRoom(JoinRoomRequest { room_id: RoomId(room), player: player(name) }))
}

fn only_response(out: &[Outgoing], session: u64) -> Response {
    assert_eq!(out.len(), 1);
    assert_eq!(out[0].session, session);
    out[0].response.clone()
}

/// A fresh client that introduces itself and is validated.
fn validated(core: &mut Core, session: u64, id_byte: u8) -> Context {
    let mut ctx = core.register(session);
    let key = NewClientKey::from_secret([id_byte; 32]);
    let id = EndpointId::from(&key);
    let out = ctx.execute(core, Request::Introduction(IntroductionRequest::new(id)));
    match only_response(&out, session) {
        Response::Introduction(IntroductionResponse::NiceToMeetYou { .. }) => {}
        other => panic!("unexpected response {:?}", other),
    }
    ctx
}

#[test]
fn new_client_is_welcomed_and_can_authenticate_when_returning() {
    let mut core = Core::new(Settings::default());
    let key = NewClientKey::from_secret([3u8; 32]);
    let id = EndpointId::from(&key);

    let mut first = core.register(1);
    let out = first.execute(&mut core, Request::Introduction(IntroductionRequest::new(id)));
    let server_id = match only_response(&out, 1) {
        Response::Introduction(IntroductionResponse::NiceToMeetYou { server_id }) => server_id,
        other => panic!("unexpected response {:?}", other),
    };
    // The client derives the shared secret from the server's identifier.
    let auth_key = key.exchange(&server_id);
    let shared = auth_key.secret_bytes();
    assert_eq!(EndpointId::from(&auth_key), id);

    // The same client comes back on another connection, and is challenged.
    let mut second = core.register(2);
    let out = second.execute(&mut core, Request::Introduction(IntroductionRequest::new(id)));
    let challenge = match only_response(&out, 2) {
        Response::Introduction(IntroductionResponse::YouSeemFamiliar { challenge }) => challenge,
        other => panic!("unexpected response {:?}", other),
    };

    // A wrong tag is refused, and the client stays pending.
    let out = second.execute(
        &mut core,
        Request::Authentication(AuthenticationRequest { tag: vec![0u8; 32] }),
    );
    assert_eq!(
        only_response(&out, 2),
        Response::Authentication(AuthenticationResponse::Invalid)
    );

    // The tag of the challenge under the shared secret is accepted.
    let sk = orion::auth::SecretKey::try_from(&shared[..]).unwrap();
    let tag = orion::auth::authenticate(&sk, &challenge).unwrap();
    let tag_bytes: &[u8] = tag.unprotected_as_ref();
    let out = second.execute(
        &mut core,
        Request::Authentication(AuthenticationRequest { tag: tag_bytes.to_vec() }),
    );
    assert_eq!(
        only_response(&out, 2),
        Response::Authentication(AuthenticationResponse::Valid)
    );

    // Once validated, the client may create a room.
    let out = second.execute(&mut core, create(room_config(4), "alice"));
    assert_eq!(
        only_response(&out, 2),
        Response::Lobby(LobbyResponse::CreateRoom(CreateRoomResponse { room_id: RoomId(0) }))
    );
}

#[test]
fn server_and_client_agree_on_the_shared_secret() {
    let mut core = Core::new(Settings::default());
    let key = NewClientKey::from_secret([9u8; 32]);
    let id = EndpointId::from(&key);
    let mut ctx = core.register(5);
    let out = ctx.execute(&mut core, Request::Introduction(IntroductionRequest::new(id)));
    let server_id = match only_response(&out, 5) {
        Response::Introduction(IntroductionResponse::NiceToMeetYou { server_id }) => server_id,
        other => panic!("unexpected response {:?}", other),
    };
    let shared = key.exchange(&server_id).secret_bytes();
    // The server's identifier is a public key of its own, not the client's.
    assert_ne!(server_id, id);
    // Authenticating on a new connection succeeds with the client's secret,
    // which shows that the server recorded the same shared secret.
    let mut again = core.register(6);
    let out = again.execute(&mut core, Request::Introduction(IntroductionRequest::new(id)));
    let challenge = match only_response(&out, 6) {
        Response::Introduction(IntroductionResponse::YouSeemFamiliar { challenge }) => challenge,
        other => panic!("unexpected response {:?}", other),
    };
    let sk = orion::auth::SecretKey::try_from(&shared[..]).unwrap();
    let tag = orion::auth::authenticate(&sk, &challenge).unwrap();
    let tag_bytes: &[u8] = tag.unprotected_as_ref();
    let out = again.execute(
        &mut core,
        Request::Authentication(AuthenticationRequest { tag: tag_bytes.to_vec() }),
    );
    assert_eq!(only_response(&out, 6), Response::Authentication(AuthenticationResponse::Valid));
}

#[test]
fn a_tag_of_the_wrong_length_is_invalid() {
    let mut core = Core::new(Settings::default());
    let _first = validated(&mut core, 1, 4);
    let key = NewClientKey::from_secret([4u8; 32]);
    let mut again = core.register(2);
    let out = again.execute(&mut core, Request::Introduction(IntroductionRequest::new(EndpointId::from(&key))));
    match only_response(&out, 2) {
        Response::Introduction(IntroductionResponse::YouSeemFamiliar { .. }) => {}
        other => panic!("unexpected response {:?}", other),
    }
    let out = again.execute(&mut core, Request::Authentication(AuthenticationRequest { tag: vec![1, 2, 3] }));
    assert_eq!(only_response(&out, 2), Response::Authentication(AuthenticationResponse::Invalid));
    // Still pending: a lobby request is illegal.
    let out = again.execute(&mut core, create(room_config(2), "bob"));
    assert_eq!(only_response(&out, 2), Response::Illegal);
}

#[test]
fn mismatched_version_is_refused_and_changes_nothing() {
    let mut core = Core::new(Settings::default());
    let mut ctx = core.register(7);
    let req = Request::Introduction(IntroductionRequest {
        version: GameVersion("0.0.0-other".to_string()),
        client_id: EndpointId([1u8; 32]),
    });
    let out = ctx.execute(&mut core, req);
    assert_eq!(
        only_response(&out, 7),
        Response::Introduction(IntroductionResponse::MismatchedGameVersions)
    );
    // The client is still new: the same client id is then met for the first time.
    let out = ctx.execute(&mut core, intro([1u8; 32]));
    match only_response(&out, 7) {
        Response::Introduction(IntroductionResponse::NiceToMeetYou { .. }) => {}
        other => panic!("unexpected response {:?}", other),
    }
}

#[test]
fn requests_out_of_phase_are_illegal() {
    let mut core = Core::new(Settings::default());
    let mut ctx = core.register(1);
    // A new client may only introduce itself.
    let out = ctx.execute(&mut core, create(room_config(2), "alice"));
    assert_eq!(only_response(&out, 1), Response::Illegal);
    let out = ctx.execute(&mut core, Request::Play(PlayRequest::SitIn));
    assert_eq!(only_response(&out, 1), Response::Illegal);
    let out = ctx.execute(&mut core, Request::Authentication(AuthenticationRequest { tag: vec![] }));
    assert_eq!(only_response(&out, 1), Response::Illegal);
    // Nothing changed: no room was created.
    let mut other = validated(&mut core, 2, 8);
    let out = other.execute(&mut core, join(0, "bob"));
    assert_eq!(
        only_response(&out, 2),
        Response::Lobby(LobbyResponse::JoinRoom(JoinRoomResponse::RoomNotFound))
    );
    // A validated client may not introduce itself again.
    let out = other.execute(&mut core, intro([8u8; 32]));
    assert_eq!(only_response(&out, 2), Response::Illegal);
}

#[test]
fn playing_clients_get_illegal_for_everything() {
    let mut core = Core::new(Settings::default());
    let mut ctx = validated(&mut core, 1, 1);
    let out = ctx.execute(&mut core, create(room_config(3), "alice"));
    assert_eq!(
        only_response(&out, 1),
        Response::Lobby(LobbyResponse::CreateRoom(CreateRoomResponse { room_id: RoomId(0) }))
    );
    for req in [create(room_config(3), "x"), join(0, "y"), Request::Play(PlayRequest::SitOut), intro([1u8; 32])] {
        let out = ctx.execute(&mut core, req);
        assert_eq!(only_response(&out, 1), Response::Illegal);
    }
}

#[test]
fn rooms_are_numbered_in_order() {
    let mut core = Core::new(Settings::default());
    for i in 0..3u8 {
        let mut ctx = validated(&mut core, i as u64, i);
        let out = ctx.execute(&mut core, create(room_config(2), "p"));
        assert_eq!(
            only_response(&out, i as u64),
            Response::Lobby(LobbyResponse::CreateRoom(CreateRoomResponse { room_id: RoomId(i as u32) }))
        );
    }
}

#[test]
fn joining_announces_the_new_member_to_the_others() {
    let mut core = Core::new(Settings::default());
    let mut alice = validated(&mut core, 10, 1);
    let out = alice.execute(&mut core, create(room_config(3), "alice"));
    assert_eq!(out.len(), 1);
    let mut bob = validated(&mut core, 11, 2);
    let out = bob.execute(&mut core, join(0, "bob"));
    assert_eq!(
        out,
        vec![
            Outgoing {
                session: 10,
                response: Response::Play(PlayResponse::NewMember { player: player("bob") }),
            },
            Outgoing {
                session: 11,
                response: Response::Lobby(LobbyResponse::JoinRoom(JoinRoomResponse::JoinedRoom)),
            },
        ]
    );
    let mut carol = validated(&mut core, 12, 3);
    let out = carol.execute(&mut core, join(0, "carol"));
    let sessions: Vec<u64> = out.iter().map(|o| o.session).collect();
    assert_eq!(sessions, vec![10, 11, 12]);
    assert_eq!(out[0].response, Response::Play(PlayResponse::NewMember { player: player("carol") }));
    assert_eq!(out[1].response, Response::Play(PlayResponse::NewMember { player: player("carol") }));
    assert_eq!(out[2].response, Response::Lobby(LobbyResponse::JoinRoom(JoinRoomResponse::JoinedRoom)));
}

#[test]
fn a_name_in_use_is_refused_and_the_client_may_try_again() {
    let mut core = Core::new(Settings::default());
    let mut alice = validated(&mut core, 1, 1);
    alice.execute(&mut core, create(room_config(4), "alice"));
    let mut other = validated(&mut core, 2, 2);
    let out = other.execute(&mut core, join(0, "alice"));
    assert_eq!(
        only_response(&out, 2),
        Response::Lobby(LobbyResponse::JoinRoom(JoinRoomResponse::NameInUse))
    );
    let out = other.execute(&mut core, join(0, "alice2"));
    assert_eq!(out.last().unwrap().response, Response::Lobby(LobbyResponse::JoinRoom(JoinRoomResponse::JoinedRoom)));
}

#[test]
fn a_full_room_is_refused() {
    let mut core = Core::new(Settings::default());
    let mut alice = validated(&mut core, 1, 1);
    alice.execute(&mut core, create(room_config(2), "alice"));
    let mut bob = validated(&mut core, 2, 2);
    let out = bob.execute(&mut core, join(0, "bob"));
    assert_eq!(out.last().unwrap().response, Response::Lobby(LobbyResponse::JoinRoom(JoinRoomResponse::JoinedRoom)));
    let mut carol = validated(&mut core, 3, 3);
    let out = carol.execute(&mut core, join(0, "carol"));
    assert_eq!(
        only_response(&out, 3),
        Response::Lobby(LobbyResponse::JoinRoom(JoinRoomResponse::RoomFull))
    );
    // A refused client is still in the lobby and may create a room.
    let out = carol.execute(&mut core, create(room_config(2), "carol"));
    assert_eq!(
        only_response(&out, 3),
        Response::Lobby(LobbyResponse::CreateRoom(CreateRoomResponse { room_id: RoomId(1) }))
    );
}

#[test]
fn a_room_for_no_players_is_refused() {
    // A room that allows no players could never hold its creator: the request
    // is illegal, takes no room number, and the client stays in the lobby.
    let mut core = Core::new(Settings::default());
    let mut alice = validated(&mut core, 1, 1);
    let out = alice.execute(&mut core, create(room_config(0), "alice"));
    assert_eq!(only_response(&out, 1), Response::Illegal);
    let out = alice.execute(&mut core, create(room_config(1), "alice"));
    assert_eq!(
        only_response(&out, 1),
        Response::Lobby(LobbyResponse::CreateRoom(CreateRoomResponse { room_id: RoomId(0) }))
    );
    // The room for one player is full with its creator.
    let mut bob = validated(&mut core, 2, 2);
    let out = bob.execute(&mut core, join(0, "bob"));
    assert_eq!(
        only_response(&out, 2),
        Response::Lobby(LobbyResponse::JoinRoom(JoinRoomResponse::RoomFull))
    );
}

#[test]
fn cleanup_leaves_the_room() {
    let mut core = Core::new(Settings::default());
    let mut alice = validated(&mut core, 1, 1);
    alice.execute(&mut core, create(room_config(2), "alice"));
    let mut bob = validated(&mut core, 2, 2);
    bob.execute(&mut core, join(0, "bob"));
    let mut carol = validated(&mut core, 3, 3);
    let out = carol.execute(&mut core, join(0, "carol"));
    assert_eq!(
        only_response(&out, 3),
        Response::Lobby(LobbyResponse::JoinRoom(JoinRoomResponse::RoomFull))
    );
    // Alice disconnects: she leaves the room, which now takes Carol, and
    // only Bob is told of Carol's arrival.
    alice.cleanup(&mut core);
    let out = carol.execute(&mut core, join(0, "carol"));
    assert_eq!(
        out,
        vec![
            Outgoing { session: 2, response: Response::Play(PlayResponse::NewMember { player: player("carol") }) },
            Outgoing { session: 3, response: Response::Lobby(LobbyResponse::JoinRoom(JoinRoomResponse::JoinedRoom)) },
        ]
    );
    // Once Bob leaves too, there is room again, and Alice's name is free:
    // Dave takes it, and only Carol is told.
    bob.cleanup(&mut core);
    let mut dave = validated(&mut core, 4, 4);
    let out = dave.execute(&mut core, join(0, "alice"));
    assert_eq!(
        out,
        vec![
            Outgoing { session: 3, response: Response::Play(PlayResponse::NewMember { player: player("alice") }) },
            Outgoing { session: 4, response: Response::Lobby(LobbyResponse::JoinRoom(JoinRoomResponse::JoinedRoom)) },
        ]
    );
}

#[test]
fn cleanup_of_a_client_not_playing_changes_nothing() {
    let mut core = Core::new(Settings::default());
    let mut ctx = core.register(1);
    ctx.cleanup(&mut core);
    let out = ctx.execute(&mut core, intro([5u8; 32]));
    match only_response(&out, 1) {
        Response::Introduction(IntroductionResponse::NiceToMeetYou { .. }) => {}
        other => panic!("unexpected response {:?}", other),
    }
}

/// Introduce the client of `key` on `session`, expecting a challenge, and
/// answer the challenge with the tag under `shared`.
fn reauthenticate(core: &mut Core, session: u64, id: EndpointId, shared: &[u8; 32]) -> (Context, Vec<Outgoing>) {
    let mut ctx = core.register(session);
    let out = ctx.execute(core, Request::Introduction(IntroductionRequest::new(id)));
    let challenge = match only_response(&out, session) {
        Response::Introduction(IntroductionResponse::YouSeemFamiliar { challenge }) => challenge,
        other => panic!("unexpected response {:?}", other),
    };
    let sk = orion::auth::SecretKey::try_from(&shared[..]).unwrap();
    let tag = orion::auth::authenticate(&sk, &challenge).unwrap();
    let tag_bytes: &[u8] = tag.unprotected_as_ref();
    let out = ctx.execute(core, Request::Authentication(AuthenticationRequest { tag: tag_bytes.to_vec() }));
    (ctx, out)
}

/// The client whose key has the secret `secret` introduces itself for the
/// first time on `session`; returns its context, its ID and the shared
/// secret.
fn first_introduction(core: &mut Core, session: u64, secret: [u8; 32]) -> (Context, EndpointId, [u8; 32]) {
    let key = NewClientKey::from_secret(secret);
    let id = EndpointId::from(&key);
    let mut ctx = core.register(session);
    let out = ctx.execute(core, Request::Introduction(IntroductionRequest::new(id)));
    let server_id = match only_response(&out, session) {
        Response::Introduction(IntroductionResponse::NiceToMeetYou { server_id }) => server_id,
        other => panic!("unexpected response {:?}", other),
    };
    let auth_key = key.exchange(&server_id);
    (ctx, id, auth_key.secret_bytes())
}

#[test]
fn a_returning_player_resumes_in_its_room() {
    let mut core = Core::new(Settings::default());
    let (mut alice, id, shared) = first_introduction(&mut core, 1, [21u8; 32]);
    alice.execute(&mut core, create(room_config(3), "alice"));
    let mut bob = validated(&mut core, 2, 2);
    bob.execute(&mut core, join(0, "bob"));

    // Alice's connection drops; she reconnects under session 5.
    alice.cleanup(&mut core);
    let (mut alice, out) = reauthenticate(&mut core, 5, id, &shared);
    assert_eq!(
        out,
        vec![
            Outgoing { session: 2, response: Response::Play(PlayResponse::NewMember { player: player("alice") }) },
            Outgoing {
                session: 5,
                response: Response::Authentication(AuthenticationResponse::Resumed { room_id: RoomId(0) }),
            },
        ]
    );
    // She plays in the room again: lobby requests are illegal for her, and
    // her name is taken there.
    let out = alice.execute(&mut core, create(room_config(2), "alice"));
    assert_eq!(only_response(&out, 5), Response::Illegal);
    let mut carol = validated(&mut core, 3, 3);
    let out = carol.execute(&mut core, join(0, "alice"));
    assert_eq!(
        only_response(&out, 3),
        Response::Lobby(LobbyResponse::JoinRoom(JoinRoomResponse::NameInUse))
    );
}

#[test]
fn a_returning_player_whose_name_was_taken_is_only_validated() {
    let mut core = Core::new(Settings::default());
    let (mut alice, id, shared) = first_introduction(&mut core, 1, [22u8; 32]);
    alice.execute(&mut core, create(room_config(3), "alice"));
    alice.cleanup(&mut core);
    // Someone else joins under her name while she is away.
    let mut other = validated(&mut core, 2, 2);
    other.execute(&mut core, join(0, "alice"));
    let (mut alice, out) = reauthenticate(&mut core, 3, id, &shared);
    assert_eq!(only_response(&out, 3), Response::Authentication(AuthenticationResponse::Valid));
    // She is in the lobby, and may create a room.
    let out = alice.execute(&mut core, create(room_config(2), "alice"));
    assert_eq!(
        only_response(&out, 3),
        Response::Lobby(LobbyResponse::CreateRoom(CreateRoomResponse { room_id: RoomId(1) }))
    );
}

#[test]
fn cleanup_is_due_unless_stopped() {
    assert!(netholdem::server::cleanup_due(false, false));
    assert!(!netholdem::server::cleanup_due(true, false));
    assert!(!netholdem::server::cleanup_due(false, true));
    assert!(!netholdem::server::cleanup_due(true, true));
}
