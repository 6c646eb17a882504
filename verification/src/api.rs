//! The bodies of the HTTP endpoints, and how each endpoint turns a room's
//! answer into a response or an error.

use vstd::prelude::*;
use crate::actor::{player_token, player_token_of};
use crate::commands::{RoundResultSnapshot, RoundStateSnapshot};
use crate::config::GameConfig;
use crate::errors::AppError;
use crate::ids::{spec_decode, PlayerId, RoomCode, RoomId};
use crate::image::Image;
use crate::registry::RoomRegistry;

verus! {

/// Answer to `POST /api/solo/start`.
pub struct SoloStartResponse {
    pub room_code: RoomCode,
    pub player_id: PlayerId,
    pub player_token: String,
    pub total_rounds: u8,
    pub round_duration_secs: u64,
    pub images: Vec<Image>,
    pub deadline_unix_ms: u64,
}

/// Answer to `POST /api/solo/guess`.
pub struct SoloGuessResponse {
    pub score: u32,
    pub status: &'static str,
}

/// Query of `GET /api/solo/round`.
pub struct SoloRoundQuery {
    pub room_code: String,
}

/// Query of `GET /api/solo/round/result`.
pub struct SoloRoundResultQuery {
    pub room_code: String,
    pub player_id: u64,
}

/// Answer to `POST /api/rooms`.
pub struct CreateRoomResponse {
    pub room_id: RoomId,
    pub room_code: RoomCode,
    pub join_code: String,
    pub host_token: String,
}

/// Answer to `GET /api/rooms/:code`.
pub struct RoomInfoResponse {
    pub room_code: RoomCode,
    pub active: bool,
}

/// Body of `POST /api/rooms/:code/join`.
pub struct JoinRoomRequest {
    pub name: String,
    pub join_code: String,
}

/// Answer to `POST /api/rooms/:code/join`.
pub struct JoinRoomResponse {
    pub player_id: PlayerId,
    pub player_token: String,
}

/// Body of `POST /api/rooms/:code/start`.
pub struct HostStartRequest {
    pub host_token: String,
}

/// Answer to `POST /api/rooms/:code/start`.
pub struct HostStartResponse {
    pub round: u8,
    pub total_rounds: u8,
    pub images: Vec<Image>,
    pub deadline_unix_ms: u64,
}

/// Answer to `GET /api/health`.
pub struct HealthResponse {
    pub status: &'static str,
    pub active_rooms: usize,
    pub pool_size: usize,
}

/// Query of `GET /api/ws`.
pub struct WsQuery {
    pub room_code: String,
    pub player_id: u64,
}

/// The solo start answer: the room and player, the player's token, the
/// game's length and the first round as the room reported it.
pub fn solo_start_response(
    room_code: RoomCode,
    player_id: PlayerId,
    config: &GameConfig,
    round: RoundStateSnapshot,
) -> (r: SoloStartResponse)
    ensures
        r.room_code == room_code,
        r.player_id == player_id,
        r.player_token@ == player_token_of(player_id.0),
        r.total_rounds == config.total_rounds,
        r.round_duration_secs == config.round_duration_secs,
        r.images == round.images,
        r.deadline_unix_ms == round.deadline_unix_ms,
{
    SoloStartResponse {
        room_code,
        player_id,
        player_token: player_token(player_id),
        total_rounds: config.total_rounds,
        round_duration_secs: config.round_duration_secs,
        images: round.images,
        deadline_unix_ms: round.deadline_unix_ms,
    }
}

/// The solo guess answer: the score with status `success`, or the room's
/// refusal as a bad request.
pub fn solo_guess_response(reply: Result<u32, String>) -> (r: Result<SoloGuessResponse, AppError>)
    ensures
        match reply {
            Ok(score) => r matches Ok(resp) && resp.score == score && resp.status@ == "success"@,
            Err(e) => r == Err::<SoloGuessResponse, AppError>(AppError::BadRequest(e)),
        },
{
    match reply {
        Ok(score) => Ok(SoloGuessResponse { score, status: "success" }),
        Err(e) => Err(AppError::BadRequest(e)),
    }
}

/// The current round, or `no active round` as not found.
pub fn round_state_response(snapshot: Option<RoundStateSnapshot>) -> (r: Result<RoundStateSnapshot, AppError>)
    ensures
        match snapshot {
            Some(s) => r == Ok::<RoundStateSnapshot, AppError>(s),
            None => r matches Err(AppError::NotFound(m)) && m@ == "no active round"@,
        },
{
    match snapshot {
        Some(s) => Ok(s),
        None => Err(AppError::NotFound(String::from_str("no active round"))),
    }
}

/// A player's round result, or `no round result available` as not found.
pub fn round_result_response<C, D>(snapshot: Option<RoundResultSnapshot<C, D>>) -> (r: Result<RoundResultSnapshot<C, D>, AppError>)
    ensures
        match snapshot {
            Some(s) => r == Ok::<RoundResultSnapshot<C, D>, AppError>(s),
            None => r matches Err(AppError::NotFound(m)) && m@ == "no round result available"@,
        },
{
    match snapshot {
        Some(s) => Ok(s),
        None => Err(AppError::NotFound(String::from_str("no round result available"))),
    }
}

/// Whether a room with this code is live.
pub open spec fn code_is_live<S>(registry: RoomRegistry<S>, code: Seq<char>) -> bool {
    match spec_decode(code) {
        Some(k) => registry.codes().contains_key(k),
        None => false,
    }
}

/// The status of a room: active when a live room has this code, else
/// `room not found`.
pub fn room_info<S>(registry: &RoomRegistry<S>, code: RoomCode) -> (r: Result<RoomInfoResponse, AppError>)
    ensures
        code_is_live(*registry, code.0@) ==> r == Ok::<RoomInfoResponse, AppError>(RoomInfoResponse { room_code: code, active: true }),
        !code_is_live(*registry, code.0@) ==> (r matches Err(AppError::NotFound(m)) && m@ == "room not found"@),
{
    match registry.get_id_by_code(&code) {
        Some(_) => Ok(RoomInfoResponse { room_code: code, active: true }),
        None => Err(AppError::NotFound(String::from_str("room not found"))),
    }
}

/// The join answer: the new player's id and token, or the room's refusal as
/// a bad request.
pub fn join_room_response(player_id: PlayerId, reply: Result<(), String>) -> (r: Result<JoinRoomResponse, AppError>)
    ensures
        match reply {
            Ok(_) => r matches Ok(resp) && resp.player_id == player_id
                && resp.player_token@ == player_token_of(player_id.0),
            Err(e) => r == Err::<JoinRoomResponse, AppError>(AppError::BadRequest(e)),
        },
{
    match reply {
        Ok(_) => Ok(JoinRoomResponse { player_id, player_token: player_token(player_id) }),
        Err(e) => Err(AppError::BadRequest(e)),
    }
}

/// The host start answer: the started round, or the room's refusal as
/// unauthorized.
pub fn host_start_response(reply: Result<RoundStateSnapshot, String>) -> (r: Result<HostStartResponse, AppError>)
    ensures
        match reply {
            Ok(s) => r == Ok::<HostStartResponse, AppError>(HostStartResponse {
                round: s.round_number,
                total_rounds: s.total_rounds,
                images: s.images,
                deadline_unix_ms: s.deadline_unix_ms,
            }),
            Err(e) => r == Err::<HostStartResponse, AppError>(AppError::Unauthorized(e)),
        },
{
    match reply {
        Ok(s) => Ok(HostStartResponse {
            round: s.round_number,
            total_rounds: s.total_rounds,
            images: s.images,
            deadline_unix_ms: s.deadline_unix_ms,
        }),
        Err(e) => Err(AppError::Unauthorized(e)),
    }
}

/// The health answer: status `ok` with the number of live rooms and of
/// prepared rounds.
pub fn health_response(active_rooms: usize, pool_size: usize) -> (r: HealthResponse)
    ensures
        r.status@ == "ok"@,
        r.active_rooms == active_rooms,
        r.pool_size == pool_size,
{
    HealthResponse { status: "ok", active_rooms, pool_size }
}

} // verus!
