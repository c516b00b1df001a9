//! The messages exchanged between a client and the server.
//!
//! Every request sent by a client results in one, and only one, response.
//! The server also sends unsolicited responses, to update clients of relevant
//! changes to the game state.

use vstd::prelude::*;
use vstd::std_specs::convert::FromSpecImpl;

use crate::model::{EndpointId, GameVersion, Player, RoomConfig, RoomId};

verus! {

/// Every possible kind of request that a client may send.
#[derive(Debug, Clone, PartialEq, Eq)]
pub enum Request {
    Introduction(IntroductionRequest),
    Authentication(AuthenticationRequest),
    Lobby(LobbyRequest),
    Play(PlayRequest),
}

/// Every possible kind of response that a server may send.
#[derive(Debug, Clone, PartialEq, Eq)]
pub enum Response {
    Illegal,
    Introduction(IntroductionResponse),
    Authentication(AuthenticationResponse),
    Lobby(LobbyResponse),
    Play(PlayResponse),
}

/// Formal introduction of a client to the server.
///
/// After a connection has been successfully established, the client will send
/// this request. This serves two purposes: first, verify that the client uses
/// a compatible version of the game code; and second, establish a unique ID
/// for the client, which can be used in subsequent connections to authenticate
/// the client.
#[derive(Debug, Clone, PartialEq, Eq)]
pub struct IntroductionRequest {
    /// The version of the game code running on the client.
    ///
    /// If this does not match the server's version exactly, it replies with
    /// `MismatchedGameVersions`.
    pub version: GameVersion,
    /// A unique ID for the client.
    ///
    /// If the server does not recognize the ID, it replies with
    /// `NiceToMeetYou`. If the server does recognize the ID, it replies with
    /// `YouSeemFamiliar`, and the client must then make an
    /// `AuthenticationRequest`.
    pub client_id: EndpointId,
}

impl IntroductionRequest {
    /// An introduction of the client `client_id`, running this version of the
    /// game code.
    pub fn new(client_id: EndpointId) -> (res: Self)
        ensures
            res.version.0@ == crate::GAME_VERSION@,
            res.client_id == client_id,
    {
        IntroductionRequest { version: GameVersion(crate::GAME_VERSION.to_owned()), client_id }
    }
}

/// Completion of a formal introduction of a client to the server.
#[derive(Debug, Clone, PartialEq, Eq)]
pub enum IntroductionResponse {
    /// The server does not recognize the client endpoint ID from the request,
    /// so treats the client as a new, never-before-met one, and replies with
    /// its own endpoint ID, so that the client can derive the same shared
    /// secret.
    NiceToMeetYou { server_id: EndpointId },
    /// The server recognizes the client endpoint ID, and challenges the client
    /// to verify it possesses the shared secret derived during the first
    /// introduction.
    YouSeemFamiliar { challenge: [u8; CHALLENGE_SIZE] },
    /// The introduction request specified an incompatible game version.
    MismatchedGameVersions,
}

/// The length of the challenge data issued from the server.
pub const CHALLENGE_SIZE: usize = 32;

#[derive(Debug, Clone, PartialEq, Eq)]
pub struct AuthenticationRequest {
    pub tag: Vec<u8>,
}

/// The outcome of an authentication.
#[derive(Debug, Clone, Copy, PartialEq, Eq, Structural)]
pub enum AuthenticationResponse {
    /// The client proved it holds the shared secret, and may create or join
    /// a room.
    Valid,
    /// The tag does not authenticate the challenge; the client may try again.
    Invalid,
    /// The client proved it holds the shared secret, and is back in the room
    /// in which the server remembers its seat, as the same player.
    Resumed { room_id: RoomId },
}

#[derive(Debug, Clone, PartialEq, Eq)]
pub enum LobbyRequest {
    /// Create a new room and have the client automatically join it.
    CreateRoom(CreateRoomRequest),
    JoinRoom(JoinRoomRequest),
}

#[derive(Debug, Clone, PartialEq, Eq)]
pub enum LobbyResponse {
    CreateRoom(CreateRoomResponse),
    JoinRoom(JoinRoomResponse),
}

#[derive(Debug, Clone, PartialEq, Eq)]
pub struct CreateRoomRequest {
    /// The configuration settings for the new room.
    pub config: RoomConfig,
    /// The player that this client plays as within the new room.
    pub player: Player,
}

#[derive(Debug, Clone, Copy, PartialEq, Eq, Structural)]
pub struct CreateRoomResponse {
    pub room_id: RoomId,
}

#[derive(Debug, Clone, PartialEq, Eq)]
pub struct JoinRoomRequest {
    pub room_id: RoomId,
    pub player: Player,
}

#[derive(Debug, Clone, Copy, PartialEq, Eq, Structural)]
pub enum JoinRoomResponse {
    JoinedRoom,
    RoomNotFound,
    RoomFull,
    NameInUse,
}

#[derive(Debug, Clone, Copy, PartialEq, Eq, Structural)]
pub enum PlayRequest {
    SitIn,
    SitOut,
}

#[derive(Debug, Clone, PartialEq, Eq)]
pub enum PlayResponse {
    SatIn,
    AlreadySatIn,
    SatOut,
    AlreadySatOut,
    NewMember { player: Player },
}

impl From<IntroductionRequest> for Request {
    fn from(r: IntroductionRequest) -> (res: Self) {
        Request::Introduction(r)
    }
}

impl FromSpecImpl<IntroductionRequest> for Request {
    open spec fn obeys_from_spec() -> bool {
        true
    }

    open spec fn from_spec(r: IntroductionRequest) -> Self {
        Request::Introduction(r)
    }
}

impl From<IntroductionResponse> for Response {
    fn from(r: IntroductionResponse) -> (res: Self) {
        Response::Introduction(r)
    }
}

impl FromSpecImpl<IntroductionResponse> for Response {
    open spec fn obeys_from_spec() -> bool {
        true
    }

    open spec fn from_spec(r: IntroductionResponse) -> Self {
        Response::Introduction(r)
    }
}

impl From<AuthenticationRequest> for Request {
    fn from(r: AuthenticationRequest) -> (res: Self) {
        Request::Authentication(r)
    }
}

impl FromSpecImpl<AuthenticationRequest> for Request {
    open spec fn obeys_from_spec() -> bool {
        true
    }

    open spec fn from_spec(r: AuthenticationRequest) -> Self {
        Request::Authentication(r)
    }
}

impl From<AuthenticationResponse> for Response {
    fn from(r: AuthenticationResponse) -> (res: Self) {
        Response::Authentication(r)
    }
}

impl FromSpecImpl<AuthenticationResponse> for Response {
    open spec fn obeys_from_spec() -> bool {
        true
    }

    open spec fn from_spec(r: AuthenticationResponse) -> Self {
        Response::Authentication(r)
    }
}

impl From<LobbyRequest> for Request {
    fn from(r: LobbyRequest) -> (res: Self) {
        Request::Lobby(r)
    }
}

impl FromSpecImpl<LobbyRequest> for Request {
    open spec fn obeys_from_spec() -> bool {
        true
    }

    open spec fn from_spec(r: LobbyRequest) -> Self {
        Request::Lobby(r)
    }
}

impl From<LobbyResponse> for Response {
    fn from(r: LobbyResponse) -> (res: Self) {
        Response::Lobby(r)
    }
}

impl FromSpecImpl<LobbyResponse> for Response {
    open spec fn obeys_from_spec() -> bool {
        true
    }

    open spec fn from_spec(r: LobbyResponse) -> Self {
        Response::Lobby(r)
    }
}

impl From<CreateRoomRequest> for LobbyRequest {
    fn from(r: CreateRoomRequest) -> (res: Self) {
        LobbyRequest::CreateRoom(r)
    }
}

impl FromSpecImpl<CreateRoomRequest> for LobbyRequest {
    open spec fn obeys_from_spec() -> bool {
        true
    }

    open spec fn from_spec(r: CreateRoomRequest) -> Self {
        LobbyRequest::CreateRoom(r)
    }
}

impl From<CreateRoomResponse> for LobbyResponse {
    fn from(r: CreateRoomResponse) -> (res: Self) {
        LobbyResponse::CreateRoom(r)
    }
}

impl FromSpecImpl<CreateRoomResponse> for LobbyResponse {
    open spec fn obeys_from_spec() -> bool {
        true
    }

    open spec fn from_spec(r: CreateRoomResponse) -> Self {
        LobbyResponse::CreateRoom(r)
    }
}

impl From<JoinRoomRequest> for LobbyRequest {
    fn from(r: JoinRoomRequest) -> (res: Self) {
        LobbyRequest::JoinRoom(r)
    }
}

impl FromSpecImpl<JoinRoomRequest> for LobbyRequest {
    open spec fn obeys_from_spec() -> bool {
        true
    }

    open spec fn from_spec(r: JoinRoomRequest) -> Self {
        LobbyRequest::JoinRoom(r)
    }
}

impl From<JoinRoomResponse> for LobbyResponse {
    fn from(r: JoinRoomResponse) -> (res: Self) {
        LobbyResponse::JoinRoom(r)
    }
}

impl FromSpecImpl<JoinRoomResponse> for LobbyResponse {
    open spec fn obeys_from_spec() -> bool {
        true
    }

    open spec fn from_spec(r: JoinRoomResponse) -> Self {
        LobbyResponse::JoinRoom(r)
    }
}

impl From<PlayRequest> for Request {
    fn from(r: PlayRequest) -> (res: Self) {
        Request::Play(r)
    }
}

impl FromSpecImpl<PlayRequest> for Request {
    open spec fn obeys_from_spec() -> bool {
        true
    }

    open spec fn from_spec(r: PlayRequest) -> Self {
        Request::Play(r)
    }
}

impl From<PlayResponse> for Response {
    fn from(r: PlayResponse) -> (res: Self) {
        Response::Play(r)
    }
}

impl FromSpecImpl<PlayResponse> for Response {
    open spec fn obeys_from_spec() -> bool {
        true
    }

    open spec fn from_spec(r: PlayResponse) -> Self {
        Response::Play(r)
    }
}
} // verus!
