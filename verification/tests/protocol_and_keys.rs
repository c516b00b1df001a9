use netholdem::client::NewClientKey;
use netholdem::model::{EndpointId, Player, RoomConfig, RoomId, ENDPOINT_ID_SIZE};
use netholdem::primitives::BASEPOINT;
use x25519_dalek::x25519;
use netholdem::protocol::{
    AuthenticationRequest, AuthenticationResponse, CreateRoomRequest, CreateRoomResponse,
    IntroductionRequest, IntroductionResponse, JoinRoomRequest, JoinRoomResponse, LobbyRequest,
    LobbyResponse, PlayRequest, PlayResponse, Request, Response, CHALLENGE_SIZE,
};
use netholdem::GAME_VERSION;

#[test]
fn introduction_carries_this_version() {
    let req = IntroductionRequest::new(EndpointId([2u8; ENDPOINT_ID_SIZE]));
    assert_eq!(req.version.0, GAME_VERSION);
    assert_eq!(req.client_id, EndpointId([2u8; 32]));
}

#[test]
fn inner_messages_convert_to_outer_ones() {
    let intro = IntroductionRequest::new(EndpointId([0u8; 32]));
    assert_eq!(Request::from(intro.clone()), Request::Introduction(intro));
    let auth = AuthenticationRequest { tag: vec![1, 2] };
    assert_eq!(Request::from(auth.clone()), Request::Authentication(auth));
    let cr = CreateRoomRequest {
        config: RoomConfig { name: "t".to_string(), max_players: 2, keyphrase: Some("k".to_string()) },
        player: Player { name: "p".to_string() },
    };
    assert_eq!(LobbyRequest::from(cr.clone()), LobbyRequest::CreateRoom(cr.clone()));
    assert_eq!(Request::from(LobbyRequest::from(cr.clone())), Request::Lobby(LobbyRequest::CreateRoom(cr)));
    let jr = JoinRoomRequest { room_id: RoomId(3), player: Player { name: "q".to_string() } };
    assert_eq!(LobbyRequest::from(jr.clone()), LobbyRequest::JoinRoom(jr));
    assert_eq!(Request::from(PlayRequest::SitIn), Request::Play(PlayRequest::SitIn));

    assert_eq!(
        Response::from(IntroductionResponse::MismatchedGameVersions),
        Response::Introduction(IntroductionResponse::MismatchedGameVersions)
    );
    assert_eq!(
        Response::from(AuthenticationResponse::Valid),
        Response::Authentication(AuthenticationResponse::Valid)
    );
    let crr = CreateRoomResponse { room_id: RoomId(7) };
    assert_eq!(LobbyResponse::from(crr), LobbyResponse::CreateRoom(crr));
    assert_eq!(LobbyResponse::from(JoinRoomResponse::RoomFull), LobbyResponse::JoinRoom(JoinRoomResponse::RoomFull));
    assert_eq!(
        Response::from(LobbyResponse::JoinRoom(JoinRoomResponse::NameInUse)),
        Response::Lobby(LobbyResponse::JoinRoom(JoinRoomResponse::NameInUse))
    );
    assert_eq!(Response::from(PlayResponse::SatIn), Response::Play(PlayResponse::SatIn));
    assert_eq!(CHALLENGE_SIZE, 32);
}

#[test]
fn client_key_identifies_by_its_public_key() {
    let secret = [11u8; 32];
    let key = NewClientKey::from_secret(secret);
    let id = EndpointId::from(&key);
    assert_eq!(id.0, x25519_dalek::x25519(secret, x25519_dalek::X25519_BASEPOINT_BYTES));
    assert_ne!(id.0, secret);
    // The same secret gives the same identifier.
    assert_eq!(EndpointId::from(&NewClientKey::from_secret(secret)), id);
}

#[test]
fn both_sides_of_an_exchange_agree() {
    let client = NewClientKey::from_secret([21u8; 32]);
    let server_secret = [42u8; 32];
    let server_public = x25519(server_secret, BASEPOINT);
    let client_public = EndpointId::from(&client);
    let auth = client.exchange(&EndpointId(server_public));
    assert_eq!(auth.secret_bytes(), x25519(server_secret, client_public.0));
    assert_eq!(EndpointId::from(&auth), client_public);
}

#[test]
fn basepoint_is_the_crates() {
    assert_eq!(BASEPOINT, x25519_dalek::X25519_BASEPOINT_BYTES);
}

#[test]
fn random_keys_differ() {
    let k1 = NewClientKey::new();
    let k2 = NewClientKey::new();
    assert_ne!(EndpointId::from(&k1), EndpointId::from(&k2));
}

#[test]
fn endpoint_ids_compare_by_bytes() {
    let a = EndpointId([1u8; 32]);
    let mut bytes = [1u8; 32];
    assert!(a.same_as(&EndpointId(bytes)));
    bytes[31] = 2;
    assert!(!a.same_as(&EndpointId(bytes)));
}

#[test]
fn players_compare_by_name() {
    let a = Player { name: "ann".to_string() };
    assert!(a.same_name(&a.clone()));
    assert!(!a.same_name(&Player { name: "bea".to_string() }));
}
