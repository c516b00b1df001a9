//! The messages of the line-based server.

use vstd::prelude::*;

use crate::classic::model::{Player, RoomId};

verus! {

#[derive(Debug, Clone, PartialEq, Eq)]
pub enum Request {
    Introduction(IntroductionRequest),
    JoinRoom(JoinRoomRequest),
    SitIn(SitInRequest),
    SitOut(SitOutRequest),
}

#[derive(Debug, Clone, Copy, PartialEq, Eq, Structural)]
pub enum Response {
    Illegal,
    Introduction(IntroductionResponse),
    JoinRoom(JoinRoomResponse),
    SitIn(SitInResponse),
    SitOut(SitOutResponse),
}

#[derive(Debug, Clone, PartialEq, Eq)]
pub struct IntroductionRequest {
    pub player: Player,
}

#[derive(Debug, Clone, Copy, PartialEq, Eq, Structural)]
pub enum IntroductionResponse {
    Success,
    NameAlreadyInUse,
}

#[derive(Debug, Clone, Copy, PartialEq, Eq, Structural)]
pub struct JoinRoomRequest {
    pub room_id: RoomId,
}

#[derive(Debug, Clone, Copy, PartialEq, Eq, Structural)]
pub enum JoinRoomResponse {
    Success,
    RoomFull,
}

#[derive(Debug, Clone, Copy, PartialEq, Eq, Structural)]
pub struct SitInRequest;

#[derive(Debug, Clone, Copy, PartialEq, Eq, Structural)]
pub enum SitInResponse {
    Success,
    AlreadySatIn,
}

#[derive(Debug, Clone, Copy, PartialEq, Eq, Structural)]
pub struct SitOutRequest;

#[derive(Debug, Clone, Copy, PartialEq, Eq, Structural)]
pub enum SitOutResponse {
    Success,
    AlreadySatOut,
}

} // verus!
