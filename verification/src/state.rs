//! The state of one room, owned by the task that runs the room.

use vstd::prelude::*;
use std::collections::{HashMap, HashSet};
use crate::config::GameConfig;
use crate::coordinates::{ItemId, Location};
use crate::events::{PlayerStanding, RoundScore};
use crate::ids::{room_code_of, PlayerId, RoomCode, RoomId};
use crate::image::Image;
use crate::rules::{GameStatus, RoundNumber};

verus! {

broadcast use vstd::std_specs::hash::group_hash_axioms;

/// State of an individual player in a room.
#[derive(Debug)]
pub struct PlayerState {
    pub id: PlayerId,
    pub name: String,
    pub token: String,
    pub cumulative_score: u32,
    pub is_host: bool,
}

/// State of an active round; guesses are keyed by the player id number.
#[derive(Debug)]
pub struct RoundState<C> {
    pub round_number: u8,
    pub location: Location<C>,
    pub images: Vec<Image>,
    pub deadline_unix_ms: u64,
    pub guesses: HashMap<u64, C>,
}

/// The outcome of the last finished round.
#[derive(Debug)]
pub struct RoundResult<C, D> {
    pub round: u8,
    pub scores: Vec<RoundScore<D>>,
    pub actual_location: C,
    pub item_id: ItemId,
    pub leaderboard: Vec<PlayerStanding>,
    pub game_finished: bool,
    pub final_standings: Option<Vec<PlayerStanding>>,
}

/// Inner state of a room. Players are kept in the order they joined.
#[derive(Debug)]
pub struct RoomState<C, D> {
    pub id: RoomId,
    pub code: RoomCode,
    pub join_code: String,
    pub host_token: String,
    pub status: GameStatus,
    pub players: Vec<PlayerState>,
    pub ready_players: HashSet<u64>,
    pub current_round: Option<RoundState<C>>,
    pub last_round_result: Option<RoundResult<C, D>>,
    pub config: GameConfig,
}

/// No player id occurs twice.
pub open spec fn ids_unique(p: Seq<PlayerState>) -> bool {
    forall|i: int, j: int| 0 <= i < j < p.len() ==> (#[trigger] p[i]).id != (#[trigger] p[j]).id
}

/// Whether a player with id number `id` is in the list.
pub open spec fn has_player(p: Seq<PlayerState>, id: u64) -> bool {
    exists|i: int| 0 <= i < p.len() && (#[trigger] p[i]).id.0 == id
}

/// The position of the player with id number `id`, if present.
pub open spec fn player_index(p: Seq<PlayerState>, id: u64) -> Option<int> {
    if has_player(p, id) {
        Some(choose|i: int| 0 <= i < p.len() && (#[trigger] p[i]).id.0 == id)
    } else {
        None
    }
}

/// With unique ids, a player found at `i` is the one `player_index` names.
pub proof fn lemma_player_index_unique(p: Seq<PlayerState>, id: u64, i: int)
    requires
        ids_unique(p),
        0 <= i < p.len(),
        p[i].id.0 == id,
    ensures
        player_index(p, id) == Some(i),
{
    let j = choose|j: int| 0 <= j < p.len() && (#[trigger] p[j]).id.0 == id;
    assert(p[j].id.0 == id);
    if i < j {
        assert(p[i].id != p[j].id);
    } else if j < i {
        assert(p[j].id != p[i].id);
    }
}

/// The player list after adding `p`: an existing player with the same id
/// is replaced in place, otherwise `p` goes at the end.
pub open spec fn players_after_add(players: Seq<PlayerState>, p: PlayerState) -> Seq<PlayerState> {
    match player_index(players, p.id.0) {
        Some(i) => players.update(i, p),
        None => players.push(p),
    }
}

/// The player list after removing the player with id number `id`, if present.
pub open spec fn players_after_remove(players: Seq<PlayerState>, id: u64) -> Seq<PlayerState> {
    match player_index(players, id) {
        Some(i) => players.remove(i),
        None => players,
    }
}

/// The set of id numbers of the players.
pub open spec fn id_set(players: Seq<PlayerState>) -> Set<u64> {
    Set::new(|x: u64| has_player(players, x))
}

/// All players of the list are in the set.
pub open spec fn all_in(p: Seq<PlayerState>, ids: Set<u64>) -> bool {
    forall|i: int| 0 <= i < p.len() ==> ids.contains((#[trigger] p[i]).id.0)
}

/// Searches the players for `id`.
pub fn find_player(players: &Vec<PlayerState>, id: u64) -> (r: Option<usize>)
    requires
        ids_unique(players@),
    ensures
        match r {
            Some(i) => player_index(players@, id) == Some(i as int),
            None => player_index(players@, id) is None,
        },
{
    let mut i: usize = 0;
    while i < players.len()
        invariant
            ids_unique(players@),
            0 <= i <= players@.len(),
            forall|k: int| 0 <= k < i ==> (#[trigger] players@[k]).id.0 != id,
        decreases players@.len() - i,
    {
        if players[i].id.0 == id {
            proof {
                lemma_player_index_unique(players@, id, i as int);
            }
            return Some(i);
        }
        i = i + 1;
    }
    None
}

impl<C: Copy, D: Copy> RoomState<C, D> {
    /// The well-formedness the room keeps: player ids are unique, and an
    /// active round is the round the status says the room is in.
    pub open spec fn wf(&self) -> bool {
        &&& ids_unique(self.players@)
        &&& (self.current_round matches Some(r) ==> self.status == GameStatus::InRound(RoundNumber(r.round_number)))
    }

    /// A fresh room in the lobby with no players.
    pub fn new(id: RoomId, join_code: String, host_token: String, config: GameConfig) -> (s: Self)
        ensures
            s.wf(),
            s.id == id,
            s.code.0@ == room_code_of(id.0),
            s.join_code == join_code,
            s.host_token == host_token,
            s.status == GameStatus::Lobby,
            s.players@.len() == 0,
            s.ready_players@.is_empty(),
            s.current_round is None,
            s.last_round_result is None,
            s.config == config,
    {
        let code = id.to_room_code();
        RoomState {
            id,
            code,
            join_code,
            host_token,
            status: GameStatus::Lobby,
            players: Vec::new(),
            ready_players: HashSet::new(),
            current_round: None,
            last_round_result: None,
            config,
        }
    }

    /// Adds a player (a player already present under `id` is replaced in place).
    pub fn add_player(&mut self, id: PlayerId, name: String, token: String, is_host: bool)
        requires
            old(self).wf(),
        ensures
            final(self).wf(),
            final(self).players@ == players_after_add(
                old(self).players@,
                PlayerState { id, name, token, cumulative_score: 0, is_host },
            ),
            final(self).id == old(self).id,
            final(self).code == old(self).code,
            final(self).join_code == old(self).join_code,
            final(self).host_token == old(self).host_token,
            final(self).status == old(self).status,
            final(self).ready_players == old(self).ready_players,
            final(self).current_round == old(self).current_round,
            final(self).last_round_result == old(self).last_round_result,
            final(self).config == old(self).config,
    {
        let ghost p = PlayerState { id, name, token, cumulative_score: 0, is_host };
        let player = PlayerState { id, name, token, cumulative_score: 0, is_host };
        match find_player(&self.players, id.0) {
            Some(i) => {
                self.players.set(i, player);
                assert forall|a: int, b: int| 0 <= a < b < self.players@.len() implies
                    (#[trigger] self.players@[a]).id != (#[trigger] self.players@[b]).id by {
                    assert(old(self).players@[a].id != old(self).players@[b].id);
                }
            },
            None => {
                self.players.push(player);
                assert forall|a: int, b: int| 0 <= a < b < self.players@.len() implies
                    (#[trigger] self.players@[a]).id != (#[trigger] self.players@[b]).id by {
                    if b == self.players@.len() - 1 {
                        assert(!has_player(old(self).players@, id.0));
                        assert(old(self).players@[a].id.0 != id.0);
                    } else {
                        assert(old(self).players@[a].id != old(self).players@[b].id);
                    }
                }
            },
        }
    }

    /// Removes a player and their ready mark.
    pub fn remove_player(&mut self, id: &PlayerId)
        requires
            old(self).wf(),
        ensures
            final(self).wf(),
            final(self).players@ == players_after_remove(old(self).players@, id.0),
            final(self).ready_players@ == old(self).ready_players@.remove(id.0),
            final(self).id == old(self).id,
            final(self).code == old(self).code,
            final(self).join_code == old(self).join_code,
            final(self).host_token == old(self).host_token,
            final(self).status == old(self).status,
            final(self).current_round == old(self).current_round,
            final(self).last_round_result == old(self).last_round_result,
            final(self).config == old(self).config,
    {
        match find_player(&self.players, id.0) {
            Some(i) => {
                self.players.remove(i);
                assert forall|a: int, b: int| 0 <= a < b < self.players@.len() implies
                    (#[trigger] self.players@[a]).id != (#[trigger] self.players@[b]).id by {
                    let a2 = if a < i { a } else { a + 1 };
                    let b2 = if b < i { b } else { b + 1 };
                    assert(self.players@[a] == old(self).players@[a2]);
                    assert(self.players@[b] == old(self).players@[b2]);
                    assert(old(self).players@[a2].id != old(self).players@[b2].id);
                }
            },
            None => {},
        }
        self.ready_players.remove(&id.0);
    }

    /// Whether every current player has marked themselves ready (and there is one).
    pub fn all_players_ready(&self) -> (b: bool)
        ensures
            b == (self.players@.len() > 0 && all_in(self.players@, self.ready_players@)),
    {
        if self.players.len() == 0 {
            return false;
        }
        let mut i: usize = 0;
        while i < self.players.len()
            invariant
                0 <= i <= self.players@.len(),
                forall|k: int| 0 <= k < i ==> self.ready_players@.contains((#[trigger] self.players@[k]).id.0),
            decreases self.players@.len() - i,
        {
            if !self.ready_players.contains(&self.players[i].id.0) {
                return false;
            }
            i = i + 1;
        }
        true
    }

    /// Records a player's guess for the active round; the first guess wins.
    pub fn record_guess(&mut self, player_id: PlayerId, coord: C) -> (r: Result<(), &'static str>)
        ensures
            match old(self).current_round {
                None => r matches Err(e) && e@ == "no_active_round"@ && *final(self) == *old(self),
                Some(round) => if round.guesses@.contains_key(player_id.0) {
                    r matches Err(e) && e@ == "already_guessed"@ && *final(self) == *old(self)
                } else {
                    {
                        &&& r is Ok
                        &&& final(self).current_round matches Some(nr)
                        &&& nr.guesses@ == round.guesses@.insert(player_id.0, coord)
                        &&& nr.round_number == round.round_number
                        &&& nr.location == round.location
                        &&& nr.images == round.images
                        &&& nr.deadline_unix_ms == round.deadline_unix_ms
                        &&& final(self).players == old(self).players
                        &&& final(self).status == old(self).status
                        &&& final(self).ready_players == old(self).ready_players
                        &&& final(self).last_round_result == old(self).last_round_result
                        &&& final(self).config == old(self).config
                        &&& final(self).id == old(self).id
                        &&& final(self).code == old(self).code
                        &&& final(self).join_code == old(self).join_code
                        &&& final(self).host_token == old(self).host_token
                    }
                },
            },
    {
        match self.current_round.as_mut() {
            None => Err("no_active_round"),
            Some(round) => {
                if round.guesses.contains_key(&player_id.0) {
                    return Err("already_guessed");
                }
                round.guesses.insert(player_id.0, coord);
                Ok(())
            },
        }
    }

    /// Whether every current player has guessed in the active round (and there is one).
    pub fn all_players_guessed(&self) -> (b: bool)
        ensures
            b == match self.current_round {
                Some(round) => self.players@.len() > 0 && all_in(self.players@, round.guesses@.dom()),
                None => false,
            },
    {
        match &self.current_round {
            None => false,
            Some(round) => {
                if self.players.len() == 0 {
                    return false;
                }
                let mut i: usize = 0;
                while i < self.players.len()
                    invariant
                        self.current_round == Some(*round),
                        0 <= i <= self.players@.len(),
                        forall|k: int| 0 <= k < i ==> round.guesses@.contains_key((#[trigger] self.players@[k]).id.0),
                    decreases self.players@.len() - i,
                {
                    if !round.guesses.contains_key(&self.players[i].id.0) {
                        assert(!round.guesses@.dom().contains(self.players@[i as int].id.0));
                        return false;
                    }
                    i = i + 1;
                }
                true
            },
        }
    }
}

} // verus!
