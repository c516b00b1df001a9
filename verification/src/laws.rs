//! Properties of the server core that span its requests.

use vstd::prelude::*;

use crate::client::NewClientKey;
use crate::model::{EndpointId, Player, RoomId};
use crate::primitives::{spec_authenticate_verify, spec_x25519, BASEPOINT};
use crate::protocol::{
    AuthenticationRequest, AuthenticationResponse, IntroductionRequest, IntroductionResponse,
    JoinRoomRequest, JoinRoomResponse, LobbyRequest, LobbyResponse, PlayResponse, Request, Response,
};
use crate::server::{
    cleanup_step, has_name, intro_step, join_outcome, lemma_join_keeps_well_formed,
    lemma_without_session, names_unique, new_member_notice, notices, reply, seat_of, step,
    without_session, CoreView, Member, NewPhase, PendingPhase, Phase, PlayingPhase, RoomView,
    ValidatedPhase,
};

verus! {

/// Every notification of an arrival announces that arrival.
pub proof fn lemma_notices_announce(members: Seq<Member>, player: crate::model::Player)
    ensures
        forall|i: int|
            0 <= i < notices(members, player).len() ==> #[trigger] notices(members, player)[i].response
                == Response::Play(PlayResponse::NewMember { player }),
    decreases members.len(),
{
    if members.len() > 0 {
        lemma_notices_announce(members.drop_last(), player);
    }
}

/// When nobody in the room goes by the new player's name, every member
/// before them, in order, is told of their arrival, and the new player is
/// not.
pub proof fn lemma_notices_reach_everyone_else(
    members: Seq<Member>,
    player: crate::model::Player,
    session: u64,
)
    requires
        !has_name(members, player.name@),
    ensures
        notices(members.push(Member { player, session }), player) == members.map_values(
            |m: Member| new_member_notice(m.session, player),
        ),
    decreases members.len(),
{
    let with_new = members.push(Member { player, session });
    assert(with_new.drop_last() =~= members);
    if members.len() > 0 {
        lemma_notices_reach_everyone_else(members.drop_last(), player, members.last().session);
        let shorter = members.drop_last().push(Member { player, session: members.last().session });
        assert(shorter.drop_last() =~= members.drop_last());
        assert(notices(members.drop_last(), player) == notices(shorter, player));
        assert(members.last().player.name@ != player.name@) by {
            assert(members[members.len() - 1].player.name@ != player.name@);
        }
        assert(notices(members, player) =~= members.map_values(
            |m: Member| new_member_notice(m.session, player),
        )) by {
            assert(members.drop_last().map_values(|m: Member| new_member_notice(m.session, player)).push(
                new_member_notice(members.last().session, player),
            ) =~= members.map_values(|m: Member| new_member_notice(m.session, player)));
        }
    } else {
        assert(notices(members, player) =~= Seq::empty());
        assert(members.map_values(|m: Member| new_member_notice(m.session, player)) =~= Seq::empty());
    }
}

/// Every notification of an arrival goes to a member of the room who goes by
/// another name than the new player.
pub proof fn lemma_notices_reach_members(members: Seq<Member>, player: Player)
    ensures
        forall|i: int|
            0 <= i < notices(members, player).len() ==> exists|j: int|
                0 <= j < members.len() && #[trigger] members[j].session == (
                #[trigger] notices(members, player)[i]).session && members[j].player.name@
                    != player.name@,
    decreases members.len(),
{
    if members.len() > 0 {
        let dl = members.drop_last();
        lemma_notices_reach_members(dl, player);
        let n = notices(members, player);
        assert forall|i: int| 0 <= i < n.len() implies exists|j: int|
            0 <= j < members.len() && #[trigger] members[j].session == (#[trigger] n[i]).session
                && members[j].player.name@ != player.name@ by {
            if i < notices(dl, player).len() {
                assert(n[i] == notices(dl, player)[i]);
                let j = choose|j: int|
                    0 <= j < dl.len() && #[trigger] dl[j].session == (#[trigger] notices(
                        dl,
                        player,
                    )[i]).session && dl[j].player.name@ != player.name@;
                assert(members[j] == dl[j]);
            } else {
                let j = members.len() - 1;
                assert(members[j] == members.last());
            }
        }
    }
}

/// Nobody in any room plays through `session`.
pub open spec fn plays_in_no_room(core: CoreView, session: u64) -> bool {
    forall|k: u32, i: int|
        core.rooms.contains_key(k) && 0 <= i < core.rooms[k].members.len()
            ==> #[trigger] core.rooms[k].members[i].session != session
}

/// Every request gets exactly one response: the last message, addressed to
/// the client that sent the request. Every message before it announces a new
/// member of a room; it goes to another member of that room, and so, when
/// the requesting client plays in no room yet, to another client.
pub proof fn law_one_response_per_request(
    core: CoreView,
    phase: Phase,
    session: u64,
    req: Request,
    fresh: [u8; 32],
)
    ensures
        ({
            let out = step(core, phase, session, req, fresh).2;
            &&& out.len() >= 1
            &&& out.last().session == session
            &&& forall|i: int|
                0 <= i < out.len() - 1 ==> (#[trigger] out[i].response) is Play && out[i].response->Play_0 is NewMember
            &&& plays_in_no_room(core, session) ==> forall|i: int|
                0 <= i < out.len() - 1 ==> (#[trigger] out[i]).session != session
        }),
{
    match (phase, req) {
        (Phase::Validated(v), Request::Lobby(LobbyRequest::JoinRoom(jr))) => {
            if core.rooms.contains_key(jr.room_id.0) {
                lemma_one_room_notices(core, jr.room_id.0, session, jr.player);
            }
        },
        (Phase::Pending(pp), Request::Authentication(auth)) => {
            if let Some((room_id, player)) = seat_of(core.clients, pp.client_id) {
                if core.rooms.contains_key(room_id.0) {
                    lemma_one_room_notices(core, room_id.0, session, player);
                }
            }
        },
        _ => {},
    }
}

/// The notifications of `player` joining the room `k` through `session`
/// announce the arrival, and, when nobody in any room plays through
/// `session`, go to other sessions.
proof fn lemma_one_room_notices(core: CoreView, k: u32, session: u64, player: Player)
    requires
        core.rooms.contains_key(k),
    ensures
        ({
            let o = join_outcome(core.rooms[k], session, player).2;
            &&& forall|i: int|
                0 <= i < o.len() ==> (#[trigger] o[i]).response == Response::Play(
                    PlayResponse::NewMember { player },
                )
            &&& plays_in_no_room(core, session) ==> forall|i: int|
                0 <= i < o.len() ==> (#[trigger] o[i]).session != session
        }),
{
    let room = core.rooms[k];
    let members = room.members.push(Member { player, session });
    lemma_notices_announce(members, player);
    lemma_notices_reach_members(members, player);
    let o = join_outcome(room, session, player).2;
    if plays_in_no_room(core, session) {
        assert forall|i: int| 0 <= i < o.len() implies (#[trigger] o[i]).session != session by {
            if !room.is_full() && !has_name(room.members, player.name@) {
                let j = choose|j: int|
                    0 <= j < members.len() && #[trigger] members[j].session == (#[trigger] notices(
                        members,
                        player,
                    )[i]).session && members[j].player.name@ != player.name@;
                assert(j < room.members.len());
                assert(members[j] == room.members[j]);
                assert(core.rooms[k].members[j].session != session);
            }
        }
    }
}

/// Whether a client in `phase` may make the request `req`: an introduction
/// while new, an authentication while pending, a lobby request once
/// validated, and nothing while playing.
pub open spec fn allowed(phase: Phase, req: Request) -> bool {
    match (phase, req) {
        (Phase::New(_), Request::Introduction(_)) => true,
        (Phase::Pending(_), Request::Authentication(_)) => true,
        (Phase::Validated(_), Request::Lobby(_)) => true,
        _ => false,
    }
}

/// A request that the client's phase does not allow is answered `Illegal`,
/// and changes neither the core nor the phase.
pub proof fn law_disallowed_request_is_illegal(
    core: CoreView,
    phase: Phase,
    session: u64,
    req: Request,
    fresh: [u8; 32],
)
    requires
        !allowed(phase, req),
    ensures
        step(core, phase, session, req, fresh) == (core, phase, seq![reply(session, Response::Illegal)]),
{
}

/// When a client joins a room, every member already in it, and nobody else,
/// is told of the new arrival, before the client gets its response.
pub proof fn law_join_announces_to_the_others(room: RoomView, session: u64, player: crate::model::Player)
    requires
        room.well_formed(),
        !room.is_full(),
        !has_name(room.members, player.name@),
    ensures
        join_outcome(room, session, player).2 == room.members.map_values(
            |m: Member| new_member_notice(m.session, player),
        ),
{
    lemma_notices_reach_everyone_else(room.members, player, session);
}

/// The server and a new client derive the same shared secret: a client that
/// introduces itself with the public key of a well-formed key is told the
/// server's public key `spec_x25519(fresh, BASEPOINT)`, and the server
/// records `spec_x25519(fresh, public key)`, which is what
/// `NewClientKey::exchange` yields for that server key.
pub proof fn law_introduction_shares_secret(
    core: CoreView,
    key: NewClientKey,
    intro: IntroductionRequest,
    fresh: [u8; 32],
)
    requires
        key.well_formed(),
        intro.client_id == EndpointId(key.public_key()),
        intro.version.0@ == crate::GAME_VERSION@,
        !core.clients.contains_key(intro.client_id),
    ensures
        ({
            let (c, p, r) = intro_step(core, intro, fresh);
            &&& r == IntroductionResponse::NiceToMeetYou {
                server_id: EndpointId(spec_x25519(fresh, BASEPOINT)),
            }
            &&& c.clients.contains_key(intro.client_id)
            &&& c.clients[intro.client_id].shared_secret == spec_x25519(fresh, key.public_key())
            &&& p == Phase::Validated(crate::server::ValidatedPhase { client_id: intro.client_id })
        }),
{
}

/// A client that the server has met is challenged on its next
/// introduction, and must authenticate with the secret the server recorded
/// for it; its record is left as it was.
pub proof fn law_returning_client_is_challenged(
    core: CoreView,
    intro: IntroductionRequest,
    fresh: [u8; 32],
)
    requires
        intro.version.0@ == crate::GAME_VERSION@,
        core.clients.contains_key(intro.client_id),
    ensures
        ({
            let (c, p, r) = intro_step(core, intro, fresh);
            &&& c == core
            &&& r == IntroductionResponse::YouSeemFamiliar { challenge: fresh }
            &&& p matches Phase::Pending(pp) && pp.challenge == fresh
                && pp.secret == core.clients[intro.client_id].shared_secret
        }),
{
}


/// The server remembers every client it has met: no request, and no
/// cleanup after a disconnection, makes it forget a client or change the
/// secret it shares with one; a cleanup leaves its record as it was.
pub proof fn law_clients_are_remembered(
    core: CoreView,
    phase: Phase,
    session: u64,
    req: Request,
    fresh: [u8; 32],
    id: EndpointId,
)
    requires
        core.clients.contains_key(id),
    ensures
        step(core, phase, session, req, fresh).0.clients.contains_key(id),
        step(core, phase, session, req, fresh).0.clients[id].shared_secret
            == core.clients[id].shared_secret,
        cleanup_step(core, phase, session).clients == core.clients,
{
}

/// Rooms are numbered in order: a request either leaves the next room number
/// as it is, or (when it creates a room) moves it on by one, from the largest
/// number back to zero.
pub proof fn law_room_numbers_advance_by_one(
    core: CoreView,
    phase: Phase,
    session: u64,
    req: Request,
    fresh: [u8; 32],
)
    ensures
        ({
            let next = step(core, phase, session, req, fresh).0.next_room_id;
            next == core.next_room_id || next == crate::server::next_number(core.next_room_id)
        }),
{
}

/// Whether `response` answers a request of the kind of `req`.
pub open spec fn answers_kind(req: Request, response: Response) -> bool {
    match (req, response) {
        (Request::Introduction(_), Response::Introduction(_)) => true,
        (Request::Authentication(_), Response::Authentication(_)) => true,
        (Request::Lobby(_), Response::Lobby(_)) => true,
        _ => false,
    }
}

/// The phases a client moves through: a new client stays new (on a refused
/// introduction), is validated, or is pending; a pending client stays
/// pending, is validated, or resumes playing; a validated client stays
/// validated or plays; a playing client stays where it is. The response is
/// `Illegal` or answers the request's kind.
pub proof fn law_phase_transitions(
    core: CoreView,
    phase: Phase,
    session: u64,
    req: Request,
    fresh: [u8; 32],
)
    ensures
        ({
            let (c, p, out) = step(core, phase, session, req, fresh);
            &&& out.last().response is Illegal || answers_kind(req, out.last().response)
            &&& match phase {
                Phase::New(_) => p is New || p is Validated || p is Pending,
                Phase::Pending(_) => p is Pending || p is Validated || p is Playing,
                Phase::Validated(_) => p is Validated || p is Playing,
                Phase::Playing(_) => p == phase,
            }
        }),
{
}

/// Once a client has introduced itself with this game version, the server
/// remembers its ID: the next introduction with that ID, from any session,
/// is challenged, never met as new.
pub proof fn law_introduced_client_is_challenged_next(
    core: CoreView,
    first: u64,
    second: u64,
    intro: IntroductionRequest,
    fresh1: [u8; 32],
    fresh2: [u8; 32],
)
    requires
        intro.version.0@ == crate::GAME_VERSION@,
    ensures
        ({
            let (c1, p1, out1) = step(core, Phase::New(NewPhase), first, Request::Introduction(intro), fresh1);
            let (c2, p2, out2) = step(c1, Phase::New(NewPhase), second, Request::Introduction(intro), fresh2);
            &&& out2 == seq![
                reply(
                    second,
                    Response::Introduction(IntroductionResponse::YouSeemFamiliar { challenge: fresh2 }),
                ),
            ]
            &&& p2 is Pending
        }),
{
}

/// A player's name is unique within the room they occupy: joining a room
/// whose members go by distinct names leaves their names distinct, whatever
/// the answer.
pub proof fn law_join_keeps_names_unique(room: RoomView, session: u64, player: Player)
    requires
        names_unique(room.members),
    ensures
        names_unique(join_outcome(room, session, player).0.members),
{
    let members = room.members.push(Member { player, session });
    if !room.is_full() && !has_name(room.members, player.name@) {
        assert forall|i: int, j: int|
            0 <= i < members.len() && 0 <= j < members.len() && i != j implies #[trigger] members[i].player.name@
                != #[trigger] members[j].player.name@ by {
            if i == room.members.len() {
                assert(room.members[j].player.name@ == members[j].player.name@);
            } else if j == room.members.len() {
                assert(room.members[i].player.name@ == members[i].player.name@);
            }
        }
    }
}

/// No request and no cleanup lets a room hold more members than it allows,
/// or two members with one name: every state the core reaches is well
/// formed.
pub proof fn law_rooms_stay_well_formed(
    core: CoreView,
    phase: Phase,
    session: u64,
    req: Request,
    fresh: [u8; 32],
)
    requires
        core.well_formed(),
    ensures
        step(core, phase, session, req, fresh).0.well_formed(),
        cleanup_step(core, phase, session).well_formed(),
{
    let c = step(core, phase, session, req, fresh).0;
    match (phase, req) {
        (Phase::Validated(v), Request::Lobby(LobbyRequest::JoinRoom(jr))) => {
            if core.rooms.contains_key(jr.room_id.0) {
                lemma_join_keeps_well_formed(core.rooms[jr.room_id.0], session, jr.player);
            }
            assert forall|k: u32| #[trigger] c.rooms.contains_key(k) implies c.rooms[k].room_id.0 == k
                && c.rooms[k].well_formed() by {
                assert(core.rooms.contains_key(k));
            }
        },
        (Phase::Pending(pp), Request::Authentication(auth)) => {
            if let Some((room_id, player)) = seat_of(core.clients, pp.client_id) {
                if core.rooms.contains_key(room_id.0) {
                    lemma_join_keeps_well_formed(core.rooms[room_id.0], session, player);
                }
            }
            assert forall|k: u32| #[trigger] c.rooms.contains_key(k) implies c.rooms[k].room_id.0 == k
                && c.rooms[k].well_formed() by {
                assert(core.rooms.contains_key(k));
            }
        },
        (Phase::Validated(v), Request::Lobby(LobbyRequest::CreateRoom(cr))) => {
            assert forall|k: u32| #[trigger] c.rooms.contains_key(k) implies c.rooms[k].room_id.0 == k
                && c.rooms[k].well_formed() by {
                if k != core.next_room_id && cr.config.max_players != 0 {
                    assert(core.rooms.contains_key(k));
                }
            }
        },
        _ => {},
    }
    if let Phase::Playing(pp) = phase {
        let c2 = cleanup_step(core, phase, session);
        if core.rooms.contains_key(pp.room_id.0) {
            lemma_without_session(core.rooms[pp.room_id.0].members, session);
        }
        assert forall|k: u32| #[trigger] c2.rooms.contains_key(k) implies c2.rooms[k].room_id.0 == k
            && c2.rooms[k].well_formed() by {
            assert(core.rooms.contains_key(k));
        }
    }
}

/// After the cleanup of a client that played in a room, nobody in that room
/// plays through the client's session any more; the other rooms are as
/// they were.
pub proof fn law_cleanup_leaves_the_room(core: CoreView, pp: PlayingPhase, session: u64)
    requires
        core.rooms.contains_key(pp.room_id.0),
    ensures
        ({
            let c = cleanup_step(core, Phase::Playing(pp), session);
            &&& c.rooms.dom() == core.rooms.dom()
            &&& forall|i: int|
                0 <= i < c.rooms[pp.room_id.0].members.len() ==> (
                #[trigger] c.rooms[pp.room_id.0].members[i]).session != session
            &&& forall|k: u32| #[trigger] core.rooms.contains_key(k) && k != pp.room_id.0 ==> c.rooms[k] == core.rooms[k]
        }),
{
    lemma_without_session(core.rooms[pp.room_id.0].members, session);
    assert(cleanup_step(core, Phase::Playing(pp), session).rooms.dom() =~= core.rooms.dom());
}

/// A client that played in a room, lost its connection and was cleaned up,
/// then reconnects under a new session, introduces itself with the same ID
/// and authenticates the challenge, resumes where it left off: the server
/// answers `Resumed` with the room, and the client plays in that room again,
/// as the same player, through its new session.
pub proof fn law_reconnected_player_resumes(
    core: CoreView,
    room_id: RoomId,
    player: Player,
    old_session: u64,
    new_session: u64,
    intro: IntroductionRequest,
    fresh: [u8; 32],
    auth: AuthenticationRequest,
    fresh2: [u8; 32],
)
    requires
        core.well_formed(),
        intro.version.0@ == crate::GAME_VERSION@,
        seat_of(core.clients, intro.client_id) == Some((room_id, player)),
        core.rooms.contains_key(room_id.0),
        core.rooms[room_id.0].members.contains(Member { player, session: old_session }),
        spec_authenticate_verify(auth.tag@, core.clients[intro.client_id].shared_secret@, fresh@),
    ensures
        ({
            let id = intro.client_id;
            let c1 = cleanup_step(core, Phase::Playing(PlayingPhase { client_id: id, room_id }), old_session);
            let (c2, p2, out2) = step(c1, Phase::New(NewPhase), new_session, Request::Introduction(intro), fresh);
            let (c3, p3, out3) = step(c2, p2, new_session, Request::Authentication(auth), fresh2);
            &&& p2 is Pending
            &&& p3 == Phase::Playing(PlayingPhase { client_id: id, room_id })
            &&& out3.last() == reply(
                new_session,
                Response::Authentication(AuthenticationResponse::Resumed { room_id }),
            )
            &&& c3.rooms[room_id.0].members.contains(Member { player, session: new_session })
        }),
{
    let members = core.rooms[room_id.0].members;
    let room = core.rooms[room_id.0];
    let left = without_session(members, old_session);
    lemma_without_session(members, old_session);
    let j = choose|j: int| 0 <= j < members.len() && members[j] == Member { player, session: old_session };
    assert(members[j].session == old_session);
    assert(left.len() < room.cfg.max_players);
    assert(!has_name(left, player.name@)) by {
        if has_name(left, player.name@) {
            let i = choose|i: int| 0 <= i < left.len() && #[trigger] left[i].player.name@ == player.name@;
            assert(members.contains(left[i]));
            let k = choose|k: int| 0 <= k < members.len() && members[k] == left[i];
            assert(members[k].session != old_session);
            assert(k != j);
            assert(members[k].player.name@ == members[j].player.name@);
        }
    }
    let left_room = RoomView { members: left, ..room };
    let joined = left.push(Member { player, session: new_session });
    assert(joined[left.len() as int] == Member { player, session: new_session });
}

/// An introduction whose version is not exactly this game's version is
/// refused: the answer is `MismatchedGameVersions`, the client stays new, and
/// the server records nothing.
pub proof fn law_mismatched_version_is_refused(
    core: CoreView,
    session: u64,
    intro: IntroductionRequest,
    fresh: [u8; 32],
)
    requires
        intro.version.0@ != crate::GAME_VERSION@,
    ensures
        step(core, Phase::New(NewPhase), session, Request::Introduction(intro), fresh) == (
            core,
            Phase::New(NewPhase),
            seq![
                reply(
                    session,
                    Response::Introduction(IntroductionResponse::MismatchedGameVersions),
                ),
            ],
        ),
{
}

/// Asking to join a room that does not exist is answered `RoomNotFound`, and
/// changes nothing: the client stays in the lobby, and the core is as it was.
pub proof fn law_missing_room_is_not_found(
    core: CoreView,
    v: ValidatedPhase,
    session: u64,
    jr: JoinRoomRequest,
    fresh: [u8; 32],
)
    requires
        !core.rooms.contains_key(jr.room_id.0),
    ensures
        step(core, Phase::Validated(v), session, Request::Lobby(LobbyRequest::JoinRoom(jr)), fresh) == (
            core,
            Phase::Validated(v),
            seq![reply(session, Response::Lobby(LobbyResponse::JoinRoom(JoinRoomResponse::RoomNotFound)))],
        ),
{
}

/// Taking the members playing through `session` out keeps every other
/// member, in order: it is the filter of the members by session.
pub proof fn lemma_without_session_is_filter(members: Seq<Member>, session: u64)
    ensures
        without_session(members, session) == members.filter(|m: Member| m.session != session),
    decreases members.len(),
{
    reveal(Seq::filter);
    if members.len() > 0 {
        lemma_without_session_is_filter(members.drop_last(), session);
    }
}

/// The cleanup after a client that plays in a room keeps, in order, every
/// member of that room who plays through another session, and drops only
/// those playing through the client's; the other rooms, the clients and the
/// room numbers stay as they were.
pub proof fn law_cleanup_drops_only_the_leaver(core: CoreView, pp: PlayingPhase, session: u64)
    requires
        core.rooms.contains_key(pp.room_id.0),
    ensures
        ({
            let c = cleanup_step(core, Phase::Playing(pp), session);
            let k = pp.room_id.0;
            &&& c.rooms[k].members == core.rooms[k].members.filter(|m: Member| m.session != session)
            &&& c.rooms[k].cfg == core.rooms[k].cfg
            &&& c.rooms[k].room_id == core.rooms[k].room_id
            &&& c.rooms.dom() == core.rooms.dom()
            &&& forall|j: u32| #[trigger] core.rooms.contains_key(j) && j != k ==> c.rooms[j] == core.rooms[j]
            &&& c.clients == core.clients
            &&& c.next_room_id == core.next_room_id
        }),
{
    lemma_without_session_is_filter(core.rooms[pp.room_id.0].members, session);
    assert(cleanup_step(core, Phase::Playing(pp), session).rooms.dom() =~= core.rooms.dom());
}

/// A tag that authenticates the challenge under the shared secret is always
/// accepted: the client is validated, or resumes playing in its remembered
/// room, never refused. When it does not resume, the answer is `Valid`, the
/// client is validated under its ID, and the core is as it was. A tag that
/// does not authenticate the challenge is refused as `Invalid`, and changes
/// nothing.
pub proof fn law_correct_tag_is_accepted(
    core: CoreView,
    p: PendingPhase,
    session: u64,
    auth: AuthenticationRequest,
    fresh: [u8; 32],
)
    ensures
        ({
            let (c, ph, out) = step(core, Phase::Pending(p), session, Request::Authentication(auth), fresh);
            let r = out.last().response;
            &&& spec_authenticate_verify(auth.tag@, p.secret@, p.challenge@) ==> {
                &&& r != Response::Authentication(AuthenticationResponse::Invalid)
                &&& r == Response::Authentication(AuthenticationResponse::Valid) || (r is Authentication
                    && r->Authentication_0 is Resumed)
                &&& ph is Validated || ph is Playing
                &&& r == Response::Authentication(AuthenticationResponse::Valid) ==> ph
                    == Phase::Validated(ValidatedPhase { client_id: p.client_id }) && c == core
                    && out.len() == 1
            }
            &&& !spec_authenticate_verify(auth.tag@, p.secret@, p.challenge@) ==> (c, ph, out) == (
                core,
                Phase::Pending(p),
                seq![reply(session, Response::Authentication(AuthenticationResponse::Invalid))],
            )
        }),
{
}

/// Joining an existing room: a room that holds as many members as it
/// allows answers `RoomFull`, then a room where someone goes by the player's
/// name answers `NameInUse`; both leave the client in the lobby and the core
/// as it was. Otherwise the player is added last to the room, the client
/// plays in it, every member already there is told, in order, and the
/// client gets `JoinedRoom`.
pub proof fn law_join_room(
    core: CoreView,
    v: ValidatedPhase,
    session: u64,
    jr: JoinRoomRequest,
    fresh: [u8; 32],
)
    requires
        core.rooms.contains_key(jr.room_id.0),
    ensures
        ({
            let k = jr.room_id.0;
            let room = core.rooms[k];
            let (c, ph, out) = step(core, Phase::Validated(v), session, Request::Lobby(LobbyRequest::JoinRoom(jr)), fresh);
            let answer = |r: JoinRoomResponse| reply(session, Response::Lobby(LobbyResponse::JoinRoom(r)));
            let taken = exists|i: int|
                0 <= i < room.members.len() && #[trigger] room.members[i].player.name@ == jr.player.name@;
            &&& room.members.len() >= room.cfg.max_players ==> (c, ph, out) == (
                core,
                Phase::Validated(v),
                seq![answer(JoinRoomResponse::RoomFull)],
            )
            &&& room.members.len() < room.cfg.max_players && taken ==> (c, ph, out) == (
                core,
                Phase::Validated(v),
                seq![answer(JoinRoomResponse::NameInUse)],
            )
            &&& room.members.len() < room.cfg.max_players && !taken ==> {
                &&& ph == Phase::Playing(PlayingPhase { client_id: v.client_id, room_id: jr.room_id })
                &&& c.rooms[k].members == room.members.push(Member { player: jr.player, session })
                &&& c.rooms[k].cfg == room.cfg
                &&& out == room.members.map_values(|m: Member| new_member_notice(m.session, jr.player)).push(
                    answer(JoinRoomResponse::JoinedRoom),
                )
                &&& forall|j: u32| #[trigger] core.rooms.contains_key(j) && j != k ==> c.rooms[j] == core.rooms[j]
            }
        }),
{
    let k = jr.room_id.0;
    let room = core.rooms[k];
    if room.is_full() || has_name(room.members, jr.player.name@) {
        assert(core.rooms.insert(k, room) =~= core.rooms);
    } else {
        lemma_notices_reach_everyone_else(room.members, jr.player, session);
    }
}

/// Creating a room: a room that allows no player is refused as `Illegal`,
/// and changes nothing. Otherwise the room gets the next room number, its
/// configuration is the one asked for, its one member is the creator playing
/// through `session`, the client plays in it, the next number moves on, the
/// other rooms stay as they were, and the one message is the answer with the
/// room's number.
pub proof fn law_create_room(
    core: CoreView,
    v: ValidatedPhase,
    session: u64,
    cr: crate::protocol::CreateRoomRequest,
    fresh: [u8; 32],
)
    ensures
        ({
            let (c, ph, out) = step(core, Phase::Validated(v), session, Request::Lobby(LobbyRequest::CreateRoom(cr)), fresh);
            let id = RoomId(core.next_room_id);
            &&& cr.config.max_players == 0 ==> (c, ph, out) == (
                core,
                Phase::Validated(v),
                seq![reply(session, Response::Illegal)],
            )
            &&& cr.config.max_players > 0 ==> {
                &&& out == seq![
                    reply(
                        session,
                        Response::Lobby(
                            LobbyResponse::CreateRoom(crate::protocol::CreateRoomResponse { room_id: id }),
                        ),
                    ),
                ]
                &&& ph == Phase::Playing(PlayingPhase { client_id: v.client_id, room_id: id })
                &&& c.rooms.contains_key(id.0)
                &&& c.rooms[id.0].room_id == id
                &&& c.rooms[id.0].cfg == cr.config
                &&& c.rooms[id.0].members == seq![Member { player: cr.player, session }]
                &&& c.next_room_id == crate::server::next_number(core.next_room_id)
                &&& forall|j: u32| #[trigger] core.rooms.contains_key(j) && j != id.0 ==> c.rooms[j] == core.rooms[j]
            }
        }),
{
}

/// The cleanup after a client that does not play in a room changes nothing.
pub proof fn law_cleanup_outside_a_room_changes_nothing(core: CoreView, phase: Phase, session: u64)
    requires
        !(phase is Playing),
    ensures
        cleanup_step(core, phase, session) == core,
{
}

/// An introduction with this game version: a client the server has not met
/// is told the server's public key for the drawn secret, recorded with the
/// secret shared between that secret and its ID and with no seat, and
/// validated; a client it has met is challenged with the drawn bytes, stays
/// pending with its recorded secret, and nothing changes. No other client's
/// record changes, and the one message is the answer.
pub proof fn law_introduction(core: CoreView, session: u64, intro: IntroductionRequest, fresh: [u8; 32])
    requires
        intro.version.0@ == crate::GAME_VERSION@,
    ensures
        ({
            let id = intro.client_id;
            let (c, ph, out) = step(core, Phase::New(NewPhase), session, Request::Introduction(intro), fresh);
            &&& !core.clients.contains_key(id) ==> {
                &&& out == seq![
                    reply(
                        session,
                        Response::Introduction(
                            IntroductionResponse::NiceToMeetYou {
                                server_id: EndpointId(spec_x25519(fresh, BASEPOINT)),
                            },
                        ),
                    ),
                ]
                &&& c.clients == core.clients.insert(
                    id,
                    crate::server::ClientView {
                        shared_secret: spec_x25519(fresh, id.0),
                        room_id: None,
                        player: None,
                    },
                )
                &&& c.rooms == core.rooms
                &&& ph == Phase::Validated(ValidatedPhase { client_id: id })
            }
            &&& core.clients.contains_key(id) ==> {
                &&& out == seq![
                    reply(
                        session,
                        Response::Introduction(IntroductionResponse::YouSeemFamiliar { challenge: fresh }),
                    ),
                ]
                &&& c == core
                &&& ph == Phase::Pending(
                    PendingPhase {
                        client_id: id,
                        challenge: fresh,
                        secret: core.clients[id].shared_secret,
                    },
                )
            }
        }),
{
}

} // verus!
