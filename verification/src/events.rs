//! Events a room broadcasts to its connected players.

use vstd::prelude::*;
use crate::coordinates::ItemId;
use crate::ids::PlayerId;
use crate::image::Image;

verus! {

/// A player's name and cumulative score.
#[derive(Debug, PartialEq)]
pub struct PlayerStanding {
    pub player_id: PlayerId,
    pub name: String,
    pub score: u32,
}

impl Clone for PlayerStanding {
    fn clone(&self) -> (r: Self)
        ensures
            r == *self,
    {
        PlayerStanding { player_id: self.player_id, name: self.name.clone(), score: self.score }
    }
}

/// A copy of a list of standings, element for element.
pub fn clone_standings(v: &Vec<PlayerStanding>) -> (r: Vec<PlayerStanding>)
    ensures
        r@ == v@,
{
    let mut r: Vec<PlayerStanding> = Vec::new();
    let mut i: usize = 0;
    while i < v.len()
        invariant
            0 <= i <= v@.len(),
            r@ == v@.take(i as int),
        decreases v@.len() - i,
    {
        r.push(v[i].clone());
        assert(v@.take(i + 1) =~= v@.take(i as int).push(v@[i as int]));
        i = i + 1;
    }
    assert(v@.take(v@.len() as int) =~= v@);
    r
}

/// One player's result for a round; `D` is the distance (in meters) between
/// the guess and the answer.
#[derive(Debug, PartialEq)]
pub struct RoundScore<D> {
    pub player_id: PlayerId,
    pub score: u32,
    pub distance_meters: D,
}

impl<D: Copy> Clone for RoundScore<D> {
    fn clone(&self) -> (r: Self)
        ensures
            r == *self,
    {
        RoundScore { player_id: self.player_id, score: self.score, distance_meters: self.distance_meters }
    }
}

/// Outgoing events; `C` is the coordinate type, `D` the distance type.
#[derive(Debug, PartialEq)]
pub enum RoomEvent<C, D> {
    PlayerJoined { player_id: PlayerId, name: String },
    PlayerLeft { player_id: PlayerId },
    PlayerReady { player_id: PlayerId },
    RoundStarted { round: u8, total_rounds: u8, images: Vec<Image>, deadline_unix_ms: u64 },
    GuessAck { player_id: PlayerId, seq: u64 },
    RoundEnded { round: u8, scores: Vec<RoundScore<D>>, actual_location: C, item_id: ItemId },
    Leaderboard { standings: Vec<PlayerStanding> },
    GameFinished { final_standings: Vec<PlayerStanding> },
    Error { code: String, message: String },
}

} // verus!
