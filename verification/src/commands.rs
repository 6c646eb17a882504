//! What a room is asked to do, and the snapshots it answers with.

use vstd::prelude::*;
use crate::coordinates::ItemId;
use crate::events::PlayerStanding;
use crate::ids::PlayerId;
use crate::image::Image;

verus! {

/// The active round as shown to a player.
#[derive(Debug, PartialEq)]
pub struct RoundStateSnapshot {
    pub round_number: u8,
    pub total_rounds: u8,
    pub images: Vec<Image>,
    pub deadline_unix_ms: u64,
}

/// One player's view of the last finished round.
#[derive(Debug, PartialEq)]
pub struct RoundResultSnapshot<C, D> {
    pub round: u8,
    pub score: u32,
    pub distance_meters: D,
    pub actual_location: C,
    pub item_id: ItemId,
    pub leaderboard: Vec<PlayerStanding>,
    pub game_finished: bool,
    pub final_standings: Option<Vec<PlayerStanding>>,
}

/// A request to a room (the reply channels stay with the caller).
pub enum RoomInput<C> {
    Join { player_id: PlayerId, name: String, join_code: Option<String> },
    Leave { player_id: PlayerId },
    Ready { player_id: PlayerId },
    Guess { player_id: PlayerId, seq: u64, coordinate: C },
    Ping { player_id: PlayerId },
    GetRoundState,
    GetRoundResult { player_id: PlayerId },
    HostStart { host_token: String },
}

} // verus!
