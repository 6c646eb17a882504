//! The decisions of a room: what each request does to the room state, which
//! events go out, what the requester is told, and what the room does next.
//! The task that runs a room performs the sends, timers and fetches.

use vstd::prelude::*;
use crate::commands::{RoomInput, RoundResultSnapshot, RoundStateSnapshot};
use std::collections::HashMap;
use crate::events::{PlayerStanding, RoomEvent, RoundScore};
use crate::pool::PreparedRound;
use crate::ranking::{sort_desc, stable_sort_desc, strip_keys};
use crate::rules::{spec_transition, transition, RoomConfig, RoundEvent, RoundNumber};
use crate::ids::PlayerId;
use crate::rules::GameStatus;
use crate::state::{all_in, has_player, id_set, ids_unique, lemma_player_index_unique, player_index, players_after_add, players_after_remove, PlayerState, RoomState, RoundResult, RoundState};
use crate::text::{append_str, decimal, eq_ignore_ascii_case, eq_ignore_ascii_case_spec, u64_to_decimal};

verus! {

broadcast use vstd::std_specs::hash::group_hash_axioms;

/// A message for connected players.
pub enum Outbound<C, D> {
    /// To every connected player.
    Broadcast(RoomEvent<C, D>),
    /// To one player.
    SendTo(PlayerId, RoomEvent<C, D>),
    /// Forget a player's connection.
    DropSink(PlayerId),
}

/// What the requester is told.
pub enum Reply<C, D> {
    /// No answer (a waiting requester sees its channel closed).
    Nothing,
    Joined(Result<(), String>),
    /// The guess was recorded; the answer is the guess's score.
    GuessAccepted,
    GuessRejected(String),
    RoundState(Option<RoundStateSnapshot>),
    RoundResult(Option<RoundResultSnapshot<C, D>>),
    /// Answer with `start_reply` once the round has been started.
    AfterRoundStart,
    StartRejected(String),
}

/// What the room does after a request.
#[derive(Debug, Clone, Copy, PartialEq, Eq, Structural)]
pub enum FollowUp {
    Continue,
    /// Start the next round (`begin_next_round`, then `install_round`).
    StartRound,
    /// End the active round (`take_round_for_scoring`, then `finish_round`).
    EndRound,
    /// Shut the room down.
    Stop,
}

/// Everything a request leads to.
pub struct Outcome<C, D> {
    pub outbound: Vec<Outbound<C, D>>,
    pub reply: Reply<C, D>,
    pub follow_up: FollowUp,
}

/// The token handed to a player: `p_tok_` and the id in decimal.
pub open spec fn player_token_of(id: u64) -> Seq<char> {
    "p_tok_"@ + decimal(id as nat)
}

/// The player token for `id`.
pub fn player_token(id: PlayerId) -> (s: String)
    ensures
        s@ == player_token_of(id.0),
{
    let mut s = String::from_str("p_tok_");
    let d = u64_to_decimal(id.0);
    append_str(&mut s, d.as_str());
    s
}

/// `o` sends an error event with the given code and message to `pid`.
pub open spec fn is_error_to<C, D>(o: Outbound<C, D>, pid: PlayerId, code: Seq<char>, message: Seq<char>) -> bool {
    o matches Outbound::SendTo(p, RoomEvent::Error { code: c, message: m }) && p == pid && c@ == code && m@ == message
}

/// A string equal to the literal.
fn owned(s: &str) -> (r: String)
    ensures
        r@ == s@,
{
    String::from_str(s)
}

/// Everything but the players is as it was.
pub open spec fn same_but_players<C, D>(a: RoomState<C, D>, b: RoomState<C, D>) -> bool {
    &&& a.id == b.id
    &&& a.code == b.code
    &&& a.join_code == b.join_code
    &&& a.host_token == b.host_token
    &&& a.status == b.status
    &&& a.ready_players == b.ready_players
    &&& a.current_round == b.current_round
    &&& a.last_round_result == b.last_round_result
    &&& a.config == b.config
}

/// Everything but the ready marks is as it was.
pub open spec fn same_but_ready<C, D>(a: RoomState<C, D>, b: RoomState<C, D>) -> bool {
    &&& a.id == b.id
    &&& a.code == b.code
    &&& a.join_code == b.join_code
    &&& a.host_token == b.host_token
    &&& a.status == b.status
    &&& a.players == b.players
    &&& a.current_round == b.current_round
    &&& a.last_round_result == b.last_round_result
    &&& a.config == b.config
}

/// A join is refused when a join code is given that does not match the
/// room's, ignoring ASCII case. Solo joins give no code.
pub open spec fn join_refused<C, D>(s: RoomState<C, D>, join_code: Option<String>) -> bool {
    join_code matches Some(c) && !eq_ignore_ascii_case_spec(c@, s.join_code@)
}

/// Whether a ready mark starts the game: the room is in the lobby and every
/// player (at least one) is ready.
pub open spec fn ready_starts<C, D>(before: RoomState<C, D>, after: RoomState<C, D>) -> bool {
    before.status == GameStatus::Lobby && after.players@.len() > 0 && all_in(after.players@, after.ready_players@)
}

impl<C: Copy, D: Copy> RoomState<C, D> {
    /// A player joins. A wrong join code is answered with an error and
    /// changes nothing; otherwise the player is added (the first player is
    /// the host) and everyone is told.
    pub fn on_join(&mut self, player_id: PlayerId, name: String, join_code: Option<String>) -> (o: Outcome<C, D>)
        requires
            old(self).wf(),
        ensures
            final(self).wf(),
            join_spec(*old(self), *final(self), o, player_id, name, join_code),
    {
        if let Some(provided) = join_code {
            if !eq_ignore_ascii_case(provided.as_str(), self.join_code.as_str()) {
                let mut outbound: Vec<Outbound<C, D>> = Vec::new();
                outbound.push(
                    Outbound::SendTo(
                        player_id,
                        RoomEvent::Error { code: owned("join_error"), message: owned("invalid_join_code") },
                    ),
                );
                return Outcome {
                    outbound,
                    reply: Reply::Joined(Err(owned("invalid_join_code"))),
                    follow_up: FollowUp::Continue,
                };
            }
        }
        let token = player_token(player_id);
        let ghost tok = token;
        let is_host = self.players.len() == 0;
        let event_name = name.clone();
        self.add_player(player_id, name, token, is_host);
        proof {
            let p = PlayerState { id: player_id, name: event_name, token: tok, cumulative_score: 0, is_host };
            lemma_added_player_found(old(self).players@, p);
        }
        let mut outbound: Vec<Outbound<C, D>> = Vec::new();
        outbound.push(Outbound::Broadcast(RoomEvent::PlayerJoined { player_id, name: event_name }));
        Outcome { outbound, reply: Reply::Joined(Ok(())), follow_up: FollowUp::Continue }
    }

    /// A player leaves; the room shuts down when the last player is gone.
    pub fn on_leave(&mut self, player_id: PlayerId) -> (o: Outcome<C, D>)
        requires
            old(self).wf(),
        ensures
            final(self).wf(),
            leave_spec(*old(self), *final(self), o, player_id),
    {
        self.remove_player(&player_id);
        let mut outbound: Vec<Outbound<C, D>> = Vec::new();
        outbound.push(Outbound::DropSink(player_id));
        outbound.push(Outbound::Broadcast(RoomEvent::PlayerLeft { player_id }));
        let follow_up = if self.players.len() == 0 { FollowUp::Stop } else { FollowUp::Continue };
        assert(outbound@ =~= seq![
            Outbound::DropSink(player_id),
            Outbound::Broadcast(RoomEvent::<C, D>::PlayerLeft { player_id }),
        ]);
        Outcome { outbound, reply: Reply::Nothing, follow_up }
    }

    /// A player marks themselves ready; in the lobby, once everyone is ready
    /// the first round starts.
    pub fn on_ready(&mut self, player_id: PlayerId) -> (o: Outcome<C, D>)
        requires
            old(self).wf(),
        ensures
            final(self).wf(),
            ready_spec(*old(self), *final(self), o, player_id),
    {
        self.ready_players.insert(player_id.0);
        let mut outbound: Vec<Outbound<C, D>> = Vec::new();
        outbound.push(Outbound::Broadcast(RoomEvent::PlayerReady { player_id }));
        if self.status == GameStatus::Lobby && self.all_players_ready() {
            Outcome { outbound, reply: Reply::AfterRoundStart, follow_up: FollowUp::StartRound }
        } else {
            Outcome { outbound, reply: Reply::Nothing, follow_up: FollowUp::Continue }
        }
    }

    /// The host force-starts the game: with the right host token (ignoring
    /// ASCII case) and while in the lobby, every player is marked ready and
    /// the first round starts.
    pub fn on_host_start(&mut self, host_token: String) -> (o: Outcome<C, D>)
        requires
            old(self).wf(),
        ensures
            final(self).wf(),
            host_start_spec(*old(self), *final(self), o, host_token),
    {
        if !eq_ignore_ascii_case(host_token.as_str(), self.host_token.as_str()) {
            return Outcome {
                outbound: Vec::new(),
                reply: Reply::StartRejected(owned("invalid_host_token")),
                follow_up: FollowUp::Continue,
            };
        }
        if self.status != GameStatus::Lobby {
            return Outcome {
                outbound: Vec::new(),
                reply: Reply::StartRejected(owned("game_already_started")),
                follow_up: FollowUp::Continue,
            };
        }
        let ghost before = self.ready_players@;
        let mut outbound: Vec<Outbound<C, D>> = Vec::new();
        let mut i: usize = 0;
        while i < self.players.len()
            invariant
                0 <= i <= self.players@.len(),
                self.wf(),
                same_but_ready(*old(self), *self),
                self.ready_players@ == before.union(id_set(self.players@.take(i as int))),
                outbound@ == self.players@.take(i as int).map_values(
                    |p: PlayerState| Outbound::Broadcast(RoomEvent::<C, D>::PlayerReady { player_id: p.id }),
                ),
            decreases self.players@.len() - i,
        {
            let pid = self.players[i].id;
            self.ready_players.insert(pid.0);
            outbound.push(Outbound::Broadcast(RoomEvent::PlayerReady { player_id: pid }));
            proof {
                let t = self.players@.take(i + 1);
                assert(t =~= self.players@.take(i as int).push(self.players@[i as int]));
                assert(id_set(t) =~= id_set(self.players@.take(i as int)).insert(pid.0)) by {
                    assert forall|x: u64| id_set(t).contains(x) == id_set(self.players@.take(i as int)).insert(pid.0).contains(x) by {
                        if has_player(t, x) {
                            let k = choose|k: int| 0 <= k < t.len() && (#[trigger] t[k]).id.0 == x;
                            if k < i {
                                assert(self.players@.take(i as int)[k] == t[k]);
                            }
                        }
                        if x == pid.0 {
                            assert(t[i as int].id.0 == x);
                        } else if has_player(self.players@.take(i as int), x) {
                            let k = choose|k: int| 0 <= k < i && (#[trigger] self.players@.take(i as int)[k]).id.0 == x;
                            assert(t[k] == self.players@.take(i as int)[k]);
                        }
                    }
                }
                assert(outbound@ =~= t.map_values(
                    |p: PlayerState| Outbound::Broadcast(RoomEvent::<C, D>::PlayerReady { player_id: p.id }),
                ));
            }
            i = i + 1;
        }
        assert(self.players@.take(self.players@.len() as int) =~= self.players@);
        Outcome { outbound, reply: Reply::AfterRoundStart, follow_up: FollowUp::StartRound }
    }
}

/// What the request does (see the method of the same name).
pub open spec fn join_spec<C, D>(pre: RoomState<C, D>, post: RoomState<C, D>, o: Outcome<C, D>, player_id: PlayerId, name: String, join_code: Option<String>) -> bool {
    &&& (o.follow_up == FollowUp::Continue)
    &&& (join_refused(pre, join_code) ==> {
        &&& post == pre
        &&& o.reply matches Reply::Joined(Err(e)) && e@ == "invalid_join_code"@
        &&& o.outbound@.len() == 1
        &&& is_error_to(o.outbound@[0], player_id, "join_error"@, "invalid_join_code"@)
    })
    &&& (!join_refused(pre, join_code) ==> {
        &&& post.players@ == players_after_add(
            pre.players@,
            PlayerState {
                id: player_id,
                name,
                token: post.players@[player_index(post.players@, player_id.0)->0].token,
                cumulative_score: 0,
                is_host: pre.players@.len() == 0,
            },
        )
        &&& post.players@[player_index(post.players@, player_id.0)->0].token@
            == player_token_of(player_id.0)
        &&& same_but_players(pre, post)
        &&& o.reply matches Reply::Joined(Ok(()))
        &&& o.outbound@ == seq![Outbound::<C, D>::Broadcast(RoomEvent::PlayerJoined { player_id, name })]
    })
}

/// What the request does (see the method of the same name).
pub open spec fn leave_spec<C, D>(pre: RoomState<C, D>, post: RoomState<C, D>, o: Outcome<C, D>, player_id: PlayerId) -> bool {
    &&& (post.players@ == players_after_remove(pre.players@, player_id.0))
    &&& (post.ready_players@ == pre.ready_players@.remove(player_id.0))
    &&& (post.id == pre.id)
    &&& (post.code == pre.code)
    &&& (post.join_code == pre.join_code)
    &&& (post.host_token == pre.host_token)
    &&& (post.status == pre.status)
    &&& (post.current_round == pre.current_round)
    &&& (post.last_round_result == pre.last_round_result)
    &&& (post.config == pre.config)
    &&& (o.outbound@ == seq![
        Outbound::DropSink(player_id),
        Outbound::Broadcast(RoomEvent::<C, D>::PlayerLeft { player_id }),
    ])
    &&& (o.reply matches Reply::Nothing)
    &&& (o.follow_up == if post.players@.len() == 0 { FollowUp::Stop } else { FollowUp::Continue })
}

/// What the request does (see the method of the same name).
pub open spec fn ready_spec<C, D>(pre: RoomState<C, D>, post: RoomState<C, D>, o: Outcome<C, D>, player_id: PlayerId) -> bool {
    &&& (post.ready_players@ == pre.ready_players@.insert(player_id.0))
    &&& (same_but_ready(pre, post))
    &&& (o.outbound@ == seq![Outbound::Broadcast(RoomEvent::<C, D>::PlayerReady { player_id })])
    &&& (ready_starts(pre, post) ==> o.follow_up == FollowUp::StartRound && o.reply is AfterRoundStart)
    &&& (!ready_starts(pre, post) ==> o.follow_up == FollowUp::Continue && o.reply is Nothing)
}

/// What the request does (see the method of the same name).
pub open spec fn host_start_spec<C, D>(pre: RoomState<C, D>, post: RoomState<C, D>, o: Outcome<C, D>, host_token: String) -> bool {
    &&& (!eq_ignore_ascii_case_spec(host_token@, pre.host_token@) ==> {
        &&& post == pre
        &&& o.reply matches Reply::StartRejected(e) && e@ == "invalid_host_token"@
        &&& o.outbound@.len() == 0
        &&& o.follow_up == FollowUp::Continue
    })
    &&& (eq_ignore_ascii_case_spec(host_token@, pre.host_token@) && pre.status != GameStatus::Lobby ==> {
        &&& post == pre
        &&& o.reply matches Reply::StartRejected(e) && e@ == "game_already_started"@
        &&& o.outbound@.len() == 0
        &&& o.follow_up == FollowUp::Continue
    })
    &&& (eq_ignore_ascii_case_spec(host_token@, pre.host_token@) && pre.status == GameStatus::Lobby ==> {
        &&& post.ready_players@ == pre.ready_players@.union(id_set(pre.players@))
        &&& same_but_ready(pre, post)
        &&& o.outbound@ == pre.players@.map_values(
            |p: PlayerState| Outbound::Broadcast(RoomEvent::<C, D>::PlayerReady { player_id: p.id }),
        )
        &&& o.reply is AfterRoundStart
        &&& o.follow_up == FollowUp::StartRound
    })
}

/// What the request does (see the method of the same name).
pub open spec fn guess_spec<C, D>(pre: RoomState<C, D>, post: RoomState<C, D>, o: Outcome<C, D>, player_id: PlayerId, seq: u64, coordinate: C) -> bool {
    &&& (guess_refusal(pre, player_id) matches Some(why) ==> {
        &&& post == pre
        &&& o.reply matches Reply::GuessRejected(e) && e@ == why
        &&& o.outbound@.len() == 1
        &&& is_error_to(o.outbound@[0], player_id, why, why)
        &&& o.follow_up == FollowUp::Continue
    })
    &&& (guess_refusal(pre, player_id) is None ==> {
        &&& guess_recorded(pre, post, player_id, coordinate)
        &&& o.reply is GuessAccepted
        &&& o.outbound@ == seq![Outbound::Broadcast(RoomEvent::<C, D>::GuessAck { player_id, seq })]
        &&& o.follow_up == if everyone_guessed(post) { FollowUp::EndRound } else { FollowUp::Continue }
    })
}

/// The guess is recorded: the active round gains `coord` for the player and
/// nothing else changes.
pub open spec fn guess_recorded<C, D>(before: RoomState<C, D>, after: RoomState<C, D>, pid: PlayerId, coord: C) -> bool {
    &&& before.current_round matches Some(round)
    &&& !round.guesses@.contains_key(pid.0)
    &&& after.current_round matches Some(nr)
    &&& nr.guesses@ == round.guesses@.insert(pid.0, coord)
    &&& nr.round_number == round.round_number
    &&& nr.location == round.location
    &&& nr.images == round.images
    &&& nr.deadline_unix_ms == round.deadline_unix_ms
    &&& after.players == before.players
    &&& after.status == before.status
    &&& after.ready_players == before.ready_players
    &&& after.last_round_result == before.last_round_result
    &&& after.config == before.config
    &&& after.id == before.id
    &&& after.code == before.code
    &&& after.join_code == before.join_code
    &&& after.host_token == before.host_token
}

/// Why a guess is refused, if it is: no round is active, or the player has
/// already guessed in it (the first guess wins).
pub open spec fn guess_refusal<C, D>(s: RoomState<C, D>, pid: PlayerId) -> Option<Seq<char>> {
    match s.current_round {
        None => Some("no_active_round"@),
        Some(round) => if round.guesses@.contains_key(pid.0) { Some("already_guessed"@) } else { None },
    }
}

/// Whether every player (at least one) has guessed in the active round.
pub open spec fn everyone_guessed<C, D>(s: RoomState<C, D>) -> bool {
    match s.current_round {
        Some(round) => s.players@.len() > 0 && all_in(s.players@, round.guesses@.dom()),
        None => false,
    }
}

/// `snap` shows round `r` of a game of `total_rounds` rounds.
pub open spec fn snapshot_of<C>(snap: RoundStateSnapshot, r: RoundState<C>, total_rounds: u8) -> bool {
    &&& snap.round_number == r.round_number
    &&& snap.total_rounds == total_rounds
    &&& snap.images@ == r.images@
    &&& snap.deadline_unix_ms == r.deadline_unix_ms
}

/// The contents of an optional list.
pub open spec fn opt_view<T>(o: Option<Vec<T>>) -> Option<Seq<T>> {
    match o {
        Some(v) => Some(v@),
        None => None,
    }
}

/// The first score entry of the player, if any.
pub open spec fn first_score_index<D>(scores: Seq<crate::events::RoundScore<D>>, pid: PlayerId) -> Option<int> {
    if exists|i: int| 0 <= i < scores.len() && (#[trigger] scores[i]).player_id == pid {
        Some(choose|i: int|
            0 <= i < scores.len() && (#[trigger] scores[i]).player_id == pid
            && forall|j: int| 0 <= j < i ==> (#[trigger] scores[j]).player_id != pid)
    } else {
        None
    }
}

/// `snap` is the view of finished round `rr` through its `i`-th score entry.
pub open spec fn result_snapshot_of<C, D>(snap: RoundResultSnapshot<C, D>, rr: RoundResult<C, D>, i: int) -> bool {
    &&& snap.round == rr.round
    &&& snap.score == rr.scores@[i].score
    &&& snap.distance_meters == rr.scores@[i].distance_meters
    &&& snap.actual_location == rr.actual_location
    &&& snap.item_id == rr.item_id
    &&& snap.leaderboard@ == rr.leaderboard@
    &&& snap.game_finished == rr.game_finished
    &&& opt_view(snap.final_standings) == opt_view(rr.final_standings)
}

/// What a player asking for the last round's result gets: nothing unless a
/// round has finished and the player has a score entry in it, else the view
/// through the player's first entry.
pub open spec fn round_result_answer<C, D>(r: Option<RoundResultSnapshot<C, D>>, s: RoomState<C, D>, pid: PlayerId) -> bool {
    match s.last_round_result {
        None => r is None,
        Some(rr) => match first_score_index(rr.scores@, pid) {
            None => r is None,
            Some(i) => r matches Some(snap) && result_snapshot_of(snap, rr, i),
        },
    }
}

/// A copy of an optional list of standings.
fn clone_opt_standings(v: &Option<Vec<PlayerStanding>>) -> (r: Option<Vec<PlayerStanding>>)
    ensures
        opt_view(r) == opt_view(*v),
{
    match v {
        None => None,
        Some(l) => Some(crate::events::clone_standings(l)),
    }
}

impl<C: Copy, D: Copy> RoomState<C, D> {
    /// A player guesses. The first guess of a player in the active round is
    /// recorded and acknowledged to everyone; when then every player has
    /// guessed, the round ends. Any other guess is refused with an error
    /// whose code is the reason (`no_active_round` or `already_guessed`).
    pub fn on_guess(&mut self, player_id: PlayerId, seq: u64, coordinate: C) -> (o: Outcome<C, D>)
        requires
            old(self).wf(),
        ensures
            final(self).wf(),
            guess_spec(*old(self), *final(self), o, player_id, seq, coordinate),
    {
        match self.record_guess(player_id, coordinate) {
            Ok(()) => {
                let mut outbound: Vec<Outbound<C, D>> = Vec::new();
                outbound.push(Outbound::Broadcast(RoomEvent::GuessAck { player_id, seq }));
                let follow_up = if self.all_players_guessed() { FollowUp::EndRound } else { FollowUp::Continue };
                Outcome { outbound, reply: Reply::GuessAccepted, follow_up }
            },
            Err(why) => {
                let mut outbound: Vec<Outbound<C, D>> = Vec::new();
                outbound.push(
                    Outbound::SendTo(player_id, RoomEvent::Error { code: owned(why), message: owned(why) }),
                );
                Outcome { outbound, reply: Reply::GuessRejected(owned(why)), follow_up: FollowUp::Continue }
            },
        }
    }

    /// The active round as shown to players, if a round is active.
    pub fn round_state_snapshot(&self) -> (r: Option<RoundStateSnapshot>)
        ensures
            match self.current_round {
                Some(round) => r matches Some(snap) && snapshot_of(snap, round, self.config.total_rounds),
                None => r is None,
            },
    {
        match &self.current_round {
            None => None,
            Some(round) => {
                let images = crate::image::clone_images(&round.images);
                Some(RoundStateSnapshot {
                    round_number: round.round_number,
                    total_rounds: self.config.total_rounds,
                    images,
                    deadline_unix_ms: round.deadline_unix_ms,
                })
            },
        }
    }

    /// The answer to the requester of a game start, once the round has been
    /// started: the round's snapshot, or an error if no round is active.
    pub fn start_reply(&self) -> (r: Result<RoundStateSnapshot, String>)
        ensures
            match self.current_round {
                Some(round) => r matches Ok(snap) && snapshot_of(snap, round, self.config.total_rounds),
                None => r matches Err(e) && e@ == "round not started"@,
            },
    {
        match self.round_state_snapshot() {
            Some(snap) => Ok(snap),
            None => Err(owned("round not started")),
        }
    }

    /// The last finished round as seen by `player_id`, if the player took part.
    pub fn round_result_for(&self, player_id: PlayerId) -> (r: Option<RoundResultSnapshot<C, D>>)
        ensures
            round_result_answer(r, *self, player_id),
    {
        match &self.last_round_result {
            None => None,
            Some(rr) => {
                let mut i: usize = 0;
                while i < rr.scores.len()
                    invariant
                        self.last_round_result == Some(*rr),
                        0 <= i <= rr.scores@.len(),
                        forall|j: int| 0 <= j < i ==> (#[trigger] rr.scores@[j]).player_id != player_id,
                    decreases rr.scores@.len() - i,
                {
                    if rr.scores[i].player_id == player_id {
                        let ghost k = choose|k: int|
                            0 <= k < rr.scores@.len() && (#[trigger] rr.scores@[k]).player_id == player_id
                            && forall|j: int| 0 <= j < k ==> (#[trigger] rr.scores@[j]).player_id != player_id;
                        assert(0 <= (i as int) < rr.scores@.len() && rr.scores@[i as int].player_id == player_id
                            && forall|j: int| 0 <= j < i ==> (#[trigger] rr.scores@[j]).player_id != player_id);
                        assert(k == i) by {
                            if k < i {
                                assert(rr.scores@[k].player_id != player_id);
                            } else if k > i {
                                assert(rr.scores@[i as int].player_id != player_id);
                            }
                        }
                        let leaderboard = crate::events::clone_standings(&rr.leaderboard);
                        return Some(RoundResultSnapshot {
                            round: rr.round,
                            score: rr.scores[i].score,
                            distance_meters: rr.scores[i].distance_meters,
                            actual_location: rr.actual_location,
                            item_id: rr.item_id.clone(),
                            leaderboard,
                            game_finished: rr.game_finished,
                            final_standings: clone_opt_standings(&rr.final_standings),
                        });
                    }
                    i = i + 1;
                }
                None
            },
        }
    }
}

/// The guess recorded for player id `id`, if any.
pub open spec fn lookup<C>(m: Map<u64, C>, id: u64) -> Option<C> {
    if m.contains_key(id) { Some(m[id]) } else { None }
}

/// The players after a round: each one's round score added to their total.
pub open spec fn players_scored<D>(players: Seq<PlayerState>, scored: Seq<(u32, D)>) -> Seq<PlayerState> {
    Seq::new(players.len(), |i: int| PlayerState {
        id: players[i].id,
        name: players[i].name,
        token: players[i].token,
        cumulative_score: (players[i].cumulative_score + scored[i].0) as u32,
        is_host: players[i].is_host,
    })
}

/// The round's score entries, in player order.
pub open spec fn round_scores<D>(players: Seq<PlayerState>, scored: Seq<(u32, D)>) -> Seq<RoundScore<D>> {
    Seq::new(players.len(), |i: int| RoundScore {
        player_id: players[i].id,
        score: scored[i].0,
        distance_meters: scored[i].1,
    })
}

/// A player's standing, keyed by their total score.
pub open spec fn keyed_standing(p: PlayerState) -> (u64, PlayerStanding) {
    (p.cumulative_score as u64, PlayerStanding { player_id: p.id, name: p.name, score: p.cumulative_score })
}

/// The leaderboard: players by total score, highest first; equal totals
/// keep the players' order.
pub open spec fn standings_of(players: Seq<PlayerState>) -> Seq<PlayerStanding> {
    sort_desc(players.map_values(|p: PlayerState| keyed_standing(p))).map_values(|x: (u64, PlayerStanding)| x.1)
}

/// The status after a round ends.
pub open spec fn status_after_round<C, D>(s: RoomState<C, D>) -> GameStatus {
    spec_transition(s.status, RoundEvent::RoundEnded, RoomConfig { total_rounds: s.config.total_rounds })
}

/// The deadline of a round started at `now_ms` (milliseconds).
pub open spec fn deadline_of(now_ms: u64, round_duration_secs: u64) -> int {
    now_ms + round_duration_secs * 1000
}

impl<C: Copy, D: Copy> RoomState<C, D> {
    /// Moves the room towards the next round: from the lobby to round 1;
    /// otherwise the status is kept (ending a round already advanced it).
    /// Returns the round to start, if the room is in a round.
    pub fn begin_next_round(&mut self) -> (r: Option<u8>)
        requires
            old(self).wf(),
        ensures
            final(self).wf(),
            final(self).status == if old(self).status == GameStatus::Lobby {
                spec_transition(GameStatus::Lobby, RoundEvent::AllPlayersReady, RoomConfig { total_rounds: old(self).config.total_rounds })
            } else {
                old(self).status
            },
            r == match final(self).status {
                GameStatus::InRound(RoundNumber(n)) => Some(n),
                _ => None::<u8>,
            },
            final(self).players == old(self).players,
            final(self).ready_players == old(self).ready_players,
            final(self).current_round == old(self).current_round,
            final(self).last_round_result == old(self).last_round_result,
            final(self).config == old(self).config,
            final(self).id == old(self).id,
            final(self).code == old(self).code,
            final(self).join_code == old(self).join_code,
            final(self).host_token == old(self).host_token,
    {
        if self.status == GameStatus::Lobby {
            self.status = transition(
                self.status,
                RoundEvent::AllPlayersReady,
                RoomConfig { total_rounds: self.config.total_rounds },
            );
        }
        match self.status {
            GameStatus::InRound(RoundNumber(n)) => Some(n),
            _ => None,
        }
    }

    /// Installs a fetched round as the active round, with a deadline
    /// `round_duration_secs` after `now_ms`, and announces it.
    pub fn install_round(&mut self, round_number: u8, prepared: PreparedRound<C>, now_ms: u64) -> (o: Outbound<C, D>)
        requires
            old(self).wf(),
            old(self).status == GameStatus::InRound(RoundNumber(round_number)),
            deadline_of(now_ms, old(self).config.round_duration_secs) <= u64::MAX,
        ensures
            final(self).wf(),
            final(self).current_round matches Some(r) && {
                &&& r.round_number == round_number
                &&& r.location == prepared.location
                &&& r.images == prepared.images
                &&& r.deadline_unix_ms == deadline_of(now_ms, old(self).config.round_duration_secs)
                &&& r.guesses@ == Map::<u64, C>::empty()
            },
            o matches Outbound::Broadcast(RoomEvent::RoundStarted { round, total_rounds, images, deadline_unix_ms }) && {
                &&& round == round_number
                &&& total_rounds == old(self).config.total_rounds
                &&& images@ == prepared.images@
                &&& deadline_unix_ms == deadline_of(now_ms, old(self).config.round_duration_secs)
            },
            final(self).players == old(self).players,
            final(self).status == old(self).status,
            final(self).ready_players == old(self).ready_players,
            final(self).last_round_result == old(self).last_round_result,
            final(self).config == old(self).config,
            final(self).id == old(self).id,
            final(self).code == old(self).code,
            final(self).join_code == old(self).join_code,
            final(self).host_token == old(self).host_token,
    {
        let deadline_unix_ms = now_ms + self.config.round_duration_secs * 1000;
        let images = crate::image::clone_images(&prepared.images);
        self.current_round = Some(RoundState {
            round_number,
            location: prepared.location,
            images: prepared.images,
            deadline_unix_ms,
            guesses: HashMap::new(),
        });
        Outbound::Broadcast(RoomEvent::RoundStarted {
            round: round_number,
            total_rounds: self.config.total_rounds,
            images,
            deadline_unix_ms,
        })
    }

    /// Whether the active round's deadline has passed at `now_ms`.
    pub fn round_expired(&self, now_ms: u64) -> (b: bool)
        ensures
            b == (self.current_round matches Some(r) && now_ms >= r.deadline_unix_ms),
    {
        match &self.current_round {
            Some(r) => now_ms >= r.deadline_unix_ms,
            None => false,
        }
    }

    /// Takes the active round out for scoring, with each player's guess (in
    /// player order).
    pub fn take_round_for_scoring(&mut self) -> (r: Option<(RoundState<C>, Vec<Option<C>>)>)
        requires
            old(self).wf(),
        ensures
            final(self).wf(),
            match old(self).current_round {
                None => r is None && *final(self) == *old(self),
                Some(round) => r matches Some(taken) && {
                    &&& taken.0 == round
                    &&& old(self).status == GameStatus::InRound(RoundNumber(round.round_number))
                    &&& taken.1@ == old(self).players@.map_values(|p: PlayerState| lookup(round.guesses@, p.id.0))
                    &&& final(self).current_round is None
                    &&& final(self).players == old(self).players
                    &&& final(self).status == old(self).status
                    &&& final(self).ready_players == old(self).ready_players
                    &&& final(self).last_round_result == old(self).last_round_result
                    &&& final(self).config == old(self).config
                    &&& final(self).id == old(self).id
                    &&& final(self).code == old(self).code
                    &&& final(self).join_code == old(self).join_code
                    &&& final(self).host_token == old(self).host_token
                },
            },
    {
        let round = match self.current_round.take() {
            Some(r) => r,
            None => {
                return None;
            },
        };
        let mut guesses: Vec<Option<C>> = Vec::new();
        let mut i: usize = 0;
        while i < self.players.len()
            invariant
                0 <= i <= self.players@.len(),
                guesses@ == self.players@.take(i as int).map_values(|p: PlayerState| lookup(round.guesses@, p.id.0)),
            decreases self.players@.len() - i,
        {
            let g = match round.guesses.get(&self.players[i].id.0) {
                Some(c) => Some(*c),
                None => None,
            };
            guesses.push(g);
            assert(self.players@.take(i + 1).map_values(|p: PlayerState| lookup(round.guesses@, p.id.0))
                =~= self.players@.take(i as int).map_values(|p: PlayerState| lookup(round.guesses@, p.id.0)).push(g));
            i = i + 1;
        }
        assert(self.players@.take(self.players@.len() as int) =~= self.players@);
        Some((round, guesses))
    }

    /// Scores a finished round. `scored[i]` is the score and distance of
    /// the `i`-th player. Totals grow by the round's scores; the round's
    /// scores, the leaderboard and (after the last round) the final
    /// standings are announced; the result is kept for later questions; and
    /// the next round starts, or, once the game is over, the room shuts down
    /// (after the final events are sent). `round` is the round taken out by
    /// `take_round_for_scoring`, the one the status names.
    pub fn finish_round(&mut self, round: RoundState<C>, scored: Vec<(u32, D)>) -> (r: (Vec<Outbound<C, D>>, FollowUp))
        requires
            old(self).wf(),
            old(self).current_round is None,
            old(self).status == GameStatus::InRound(RoundNumber(round.round_number)),
            scored@.len() == old(self).players@.len(),
            forall|i: int| 0 <= i < scored@.len() ==>
                (#[trigger] old(self).players@[i]).cumulative_score + scored@[i].0 <= u32::MAX,
        ensures
            final(self).wf(),
            final(self).players@ == players_scored(old(self).players@, scored@),
            final(self).status == status_after_round(*old(self)),
            forall|i: int| 0 <= i < old(self).players@.len() ==> {
                &&& (#[trigger] final(self).players@[i]).id == old(self).players@[i].id
                &&& final(self).players@[i].cumulative_score == old(self).players@[i].cumulative_score + scored@[i].0
            },
            final(self).last_round_result matches Some(rr) && rr.scores@.len() == old(self).players@.len()
                && forall|i: int| 0 <= i < old(self).players@.len() ==> {
                    &&& (#[trigger] rr.scores@[i]).player_id == old(self).players@[i].id
                    &&& rr.scores@[i].score == scored@[i].0
                    &&& rr.scores@[i].distance_meters == scored@[i].1
                },
            ({
                let scores = round_scores(old(self).players@, scored@);
                let standings = standings_of(final(self).players@);
                let finished = final(self).status == GameStatus::Finished;
                &&& final(self).last_round_result matches Some(rr) && {
                    &&& rr.round == round.round_number
                    &&& rr.scores@ == scores
                    &&& rr.actual_location == round.location.coordinate
                    &&& rr.item_id == round.location.item_id
                    &&& rr.leaderboard@ == standings
                    &&& rr.game_finished == finished
                    &&& opt_view(rr.final_standings) == if finished { Some(standings) } else { None }
                }
                &&& r.0@.len() == if finished { 3int } else { 2int }
                &&& r.0@[0] matches Outbound::Broadcast(RoomEvent::RoundEnded { round: rn, scores: sc, actual_location, item_id }) && {
                    &&& rn == round.round_number
                    &&& sc@ == scores
                    &&& actual_location == round.location.coordinate
                    &&& item_id == round.location.item_id
                }
                &&& r.0@[1] matches Outbound::Broadcast(RoomEvent::Leaderboard { standings: st }) && st@ == standings
                &&& finished ==> (r.0@[2] matches Outbound::Broadcast(RoomEvent::GameFinished { final_standings: fs }) && fs@ == standings)
                &&& r.1 == if finished { FollowUp::Stop } else { FollowUp::StartRound }
            }),
            final(self).ready_players == old(self).ready_players,
            final(self).current_round == old(self).current_round,
            final(self).config == old(self).config,
            final(self).id == old(self).id,
            final(self).code == old(self).code,
            final(self).join_code == old(self).join_code,
            final(self).host_token == old(self).host_token,
    {
        let ghost before = self.players@;
        let mut round_scores_vec: Vec<RoundScore<D>> = Vec::new();
        let mut i: usize = 0;
        while i < self.players.len()
            invariant
                self.wf(),
                ids_unique(before),
                self.players@.len() == before.len(),
                scored@.len() == before.len(),
                0 <= i <= before.len(),
                forall|k: int| 0 <= k < scored@.len() ==> (#[trigger] before[k]).cumulative_score + scored@[k].0 <= u32::MAX,
                forall|k: int| 0 <= k < i ==> #[trigger] self.players@[k] == players_scored(before, scored@)[k],
                forall|k: int| i <= k < before.len() ==> #[trigger] self.players@[k] == before[k],
                round_scores_vec@ == round_scores(before, scored@).take(i as int),
                self.ready_players == old(self).ready_players,
                self.current_round == old(self).current_round,
                self.last_round_result == old(self).last_round_result,
                self.status == old(self).status,
                self.config == old(self).config,
                self.id == old(self).id,
                self.code == old(self).code,
                self.join_code == old(self).join_code,
                self.host_token == old(self).host_token,
            decreases before.len() - i,
        {
            let (score, distance) = scored[i];
            let mut p = self.players.remove(i);
            p.cumulative_score = p.cumulative_score + score;
            let pid = p.id;
            self.players.insert(i, p);
            round_scores_vec.push(RoundScore { player_id: pid, score, distance_meters: distance });
            proof {
                assert forall|a: int, b: int| 0 <= a < b < self.players@.len() implies
                    (#[trigger] self.players@[a]).id != (#[trigger] self.players@[b]).id by {
                    assert(before[a].id != before[b].id);
                }
                assert(round_scores_vec@ =~= round_scores(before, scored@).take(i + 1));
            }
            i = i + 1;
        }
        assert(self.players@ =~= players_scored(before, scored@));
        assert(round_scores_vec@ =~= round_scores(before, scored@));

        let mut keyed: Vec<(u64, PlayerStanding)> = Vec::new();
        let mut j: usize = 0;
        while j < self.players.len()
            invariant
                0 <= j <= self.players@.len(),
                keyed@ == self.players@.take(j as int).map_values(|p: PlayerState| keyed_standing(p)),
            decreases self.players@.len() - j,
        {
            let p = &self.players[j];
            let entry = (p.cumulative_score as u64, PlayerStanding { player_id: p.id, name: p.name.clone(), score: p.cumulative_score });
            keyed.push(entry);
            assert(self.players@.take(j + 1).map_values(|p: PlayerState| keyed_standing(p))
                =~= self.players@.take(j as int).map_values(|p: PlayerState| keyed_standing(p)).push(entry));
            j = j + 1;
        }
        assert(self.players@.take(self.players@.len() as int) =~= self.players@);
        let standings = strip_keys(stable_sort_desc(keyed));

        let mut outbound: Vec<Outbound<C, D>> = Vec::new();
        let scores_for_event = clone_round_scores(&round_scores_vec);
        outbound.push(Outbound::Broadcast(RoomEvent::RoundEnded {
            round: round.round_number,
            scores: scores_for_event,
            actual_location: round.location.coordinate,
            item_id: round.location.item_id.clone(),
        }));
        outbound.push(Outbound::Broadcast(RoomEvent::Leaderboard { standings: crate::events::clone_standings(&standings) }));

        self.status = transition(
            self.status,
            RoundEvent::RoundEnded,
            RoomConfig { total_rounds: self.config.total_rounds },
        );
        let finished = self.status == GameStatus::Finished;
        let final_standings = if finished { Some(crate::events::clone_standings(&standings)) } else { None };
        if finished {
            outbound.push(Outbound::Broadcast(RoomEvent::GameFinished { final_standings: crate::events::clone_standings(&standings) }));
        }
        self.last_round_result = Some(RoundResult {
            round: round.round_number,
            scores: round_scores_vec,
            actual_location: round.location.coordinate,
            item_id: round.location.item_id,
            leaderboard: standings,
            game_finished: finished,
            final_standings,
        });
        let follow_up = if finished { FollowUp::Stop } else { FollowUp::StartRound };
        (outbound, follow_up)
    }
}

/// A round's score entries carry the points of that round, not totals:
/// entry `i` is player `i`'s, with exactly the score and distance given for
/// the round; adding them to the totals grows each total by exactly that
/// score.
pub proof fn lemma_round_entries_are_round_points<D>(players: Seq<PlayerState>, scored: Seq<(u32, D)>)
    requires
        scored.len() == players.len(),
    ensures
        round_scores(players, scored).len() == players.len(),
        forall|i: int| 0 <= i < players.len() ==> {
            &&& (#[trigger] round_scores(players, scored)[i]).player_id == players[i].id
            &&& round_scores(players, scored)[i].score == scored[i].0
            &&& round_scores(players, scored)[i].distance_meters == scored[i].1
        },
        forall|i: int| 0 <= i < players.len() && players[i].cumulative_score + scored[i].0 <= u32::MAX ==>
            (#[trigger] players_scored(players, scored)[i]).cumulative_score - players[i].cumulative_score == scored[i].0,
{
}

/// A player's score and distance for a round: their own result where they
/// guessed, and 0 points at `missing_distance` where they did not.
pub open spec fn result_or_missed<D>(r: Option<(u32, D)>, missing_distance: D) -> (u32, D) {
    match r {
        Some(x) => x,
        None => (0u32, missing_distance),
    }
}

/// The scores and distances of the players for a round, in player order
/// (`results[i]` is the `i`-th player's result, `None` if they did not
/// guess): what `finish_round` takes.
pub fn round_results<D: Copy>(results: &Vec<Option<(u32, D)>>, missing_distance: D) -> (r: Vec<(u32, D)>)
    ensures
        r@.len() == results@.len(),
        forall|i: int| 0 <= i < results@.len() ==> #[trigger] r@[i] == result_or_missed(results@[i], missing_distance),
{
    let mut r: Vec<(u32, D)> = Vec::new();
    let mut i: usize = 0;
    while i < results.len()
        invariant
            0 <= i <= results@.len(),
            r@.len() == i,
            forall|k: int| 0 <= k < i ==> #[trigger] r@[k] == result_or_missed(results@[k], missing_distance),
        decreases results@.len() - i,
    {
        let x = match results[i] {
            Some(x) => x,
            None => (0u32, missing_distance),
        };
        r.push(x);
        i = i + 1;
    }
    r
}

/// A copy of a list of round scores.
fn clone_round_scores<D: Copy>(v: &Vec<RoundScore<D>>) -> (r: Vec<RoundScore<D>>)
    ensures
        r@ == v@,
{
    let mut r: Vec<RoundScore<D>> = Vec::new();
    let mut i: usize = 0;
    while i < v.len()
        invariant
            0 <= i <= v@.len(),
            r@ == v@.take(i as int),
        decreases v@.len() - i,
    {
        let s = RoundScore { player_id: v[i].player_id, score: v[i].score, distance_meters: v[i].distance_meters };
        r.push(s);
        assert(v@.take(i + 1) =~= v@.take(i as int).push(v@[i as int]));
        i = i + 1;
    }
    assert(v@.take(v@.len() as int) =~= v@);
    r
}

/// A timer of the room going off.
#[derive(Debug, Clone, Copy, PartialEq, Eq, Structural)]
pub enum RoomTimer {
    /// The lobby deadline, counted from the room's creation, has passed.
    Lobby,
    /// No request has come in for the inactivity timeout.
    Inactivity,
    /// The periodic round check, at time `now_ms` (milliseconds since the
    /// Unix epoch).
    Round { now_ms: u64 },
}

impl<C: Copy, D: Copy> RoomState<C, D> {
    /// What the room does when a timer goes off: a room still in the lobby
    /// at the lobby deadline shuts down; an idle room shuts down; the
    /// active round ends once its deadline has passed.
    pub fn on_timer(&self, t: RoomTimer) -> (f: FollowUp)
        ensures
            t is Lobby ==> f == if self.status == GameStatus::Lobby { FollowUp::Stop } else { FollowUp::Continue },
            t is Inactivity ==> f == FollowUp::Stop,
            t matches RoomTimer::Round { now_ms } ==> f == if (self.current_round matches Some(r)
                && now_ms >= r.deadline_unix_ms) {
                FollowUp::EndRound
            } else {
                FollowUp::Continue
            },
    {
        match t {
            RoomTimer::Lobby => {
                if self.status == GameStatus::Lobby { FollowUp::Stop } else { FollowUp::Continue }
            },
            RoomTimer::Inactivity => FollowUp::Stop,
            RoomTimer::Round { now_ms } => {
                if self.round_expired(now_ms) { FollowUp::EndRound } else { FollowUp::Continue }
            },
        }
    }
}

/// The answer to a request for the active round: its snapshot, if any.
pub open spec fn round_state_answer<C, D>(r: Option<RoundStateSnapshot>, s: RoomState<C, D>) -> bool {
    match s.current_round {
        Some(round) => r matches Some(snap) && snapshot_of(snap, round, s.config.total_rounds),
        None => r is None,
    }
}

/// A request that changes nothing and sends nothing.
pub open spec fn quiet<C, D>(pre: RoomState<C, D>, post: RoomState<C, D>, o: Outcome<C, D>) -> bool {
    &&& post == pre
    &&& o.outbound@.len() == 0
    &&& o.follow_up == FollowUp::Continue
}

impl<C: Copy, D: Copy> RoomState<C, D> {
    /// Processes one request to the room.
    pub fn handle_command(&mut self, input: RoomInput<C>) -> (o: Outcome<C, D>)
        requires
            old(self).wf(),
        ensures
            final(self).wf(),
            match input {
                RoomInput::Join { player_id, name, join_code } =>
                    join_spec(*old(self), *final(self), o, player_id, name, join_code),
                RoomInput::Leave { player_id } => leave_spec(*old(self), *final(self), o, player_id),
                RoomInput::Ready { player_id } => ready_spec(*old(self), *final(self), o, player_id),
                RoomInput::Guess { player_id, seq, coordinate } =>
                    guess_spec(*old(self), *final(self), o, player_id, seq, coordinate),
                RoomInput::Ping { .. } => quiet(*old(self), *final(self), o) && o.reply is Nothing,
                RoomInput::GetRoundState => quiet(*old(self), *final(self), o)
                    && (o.reply matches Reply::RoundState(r) && round_state_answer(r, *old(self))),
                RoomInput::GetRoundResult { player_id } => quiet(*old(self), *final(self), o)
                    && (o.reply matches Reply::RoundResult(r) && round_result_answer(r, *old(self), player_id)),
                RoomInput::HostStart { host_token } => host_start_spec(*old(self), *final(self), o, host_token),
            },
    {
        match input {
            RoomInput::Join { player_id, name, join_code } => self.on_join(player_id, name, join_code),
            RoomInput::Leave { player_id } => self.on_leave(player_id),
            RoomInput::Ready { player_id } => self.on_ready(player_id),
            RoomInput::Guess { player_id, seq, coordinate } => self.on_guess(player_id, seq, coordinate),
            RoomInput::Ping { .. } => Outcome { outbound: Vec::new(), reply: Reply::Nothing, follow_up: FollowUp::Continue },
            RoomInput::GetRoundState => {
                let r = self.round_state_snapshot();
                Outcome { outbound: Vec::new(), reply: Reply::RoundState(r), follow_up: FollowUp::Continue }
            },
            RoomInput::GetRoundResult { player_id } => {
                let r = self.round_result_for(player_id);
                Outcome { outbound: Vec::new(), reply: Reply::RoundResult(r), follow_up: FollowUp::Continue }
            },
            RoomInput::HostStart { host_token } => self.on_host_start(host_token),
        }
    }
}

/// After adding `p`, the player with its id is found and is `p`.
proof fn lemma_added_player_found(players: Seq<PlayerState>, p: PlayerState)
    requires
        ids_unique(players),
    ensures
        ids_unique(players_after_add(players, p)),
        player_index(players_after_add(players, p), p.id.0) is Some,
        players_after_add(players, p)[player_index(players_after_add(players, p), p.id.0)->0] == p,
{
    let q = players_after_add(players, p);
    match player_index(players, p.id.0) {
        Some(i) => {
            assert(q[i] == p);
            assert forall|a: int, b: int| 0 <= a < b < q.len() implies (#[trigger] q[a]).id != (#[trigger] q[b]).id by {
                assert(players[a].id != players[b].id);
            }
            lemma_player_index_unique(q, p.id.0, i);
        },
        None => {
            let i = players.len() as int;
            assert(q[i] == p);
            assert forall|a: int, b: int| 0 <= a < b < q.len() implies (#[trigger] q[a]).id != (#[trigger] q[b]).id by {
                if b == i {
                    assert(players[a].id.0 != p.id.0);
                } else {
                    assert(players[a].id != players[b].id);
                }
            }
            lemma_player_index_unique(q, p.id.0, i);
        },
    }
}

/// First guess wins: once a player's guess has been accepted in a round, the
/// same player's next guess is refused with `already_guessed`, an error goes
/// to that player, the room does not change, and the first coordinate stays.
pub proof fn lemma_first_guess_wins<C, D>(
    s0: RoomState<C, D>,
    s1: RoomState<C, D>,
    s2: RoomState<C, D>,
    o1: Outcome<C, D>,
    o2: Outcome<C, D>,
    pid: PlayerId,
    seq1: u64,
    c1: C,
    seq2: u64,
    c2: C,
)
    requires
        guess_spec(s0, s1, o1, pid, seq1, c1),
        guess_spec(s1, s2, o2, pid, seq2, c2),
        o1.reply is GuessAccepted,
    ensures
        s2 == s1,
        o2.reply matches Reply::GuessRejected(e) && e@ == "already_guessed"@,
        o2.outbound@.len() == 1,
        is_error_to(o2.outbound@[0], pid, "already_guessed"@, "already_guessed"@),
        s2.current_round matches Some(r) && r.guesses@.contains_key(pid.0) && r.guesses@[pid.0] == c1,
{
    assert(guess_refusal(s0, pid) is None);
    assert(guess_refusal(s1, pid) == Some("already_guessed"@));
}

/// The leaderboard ranks the players by total score, highest first, and
/// holds every player's standing, each entry being one player's standing.
pub proof fn lemma_leaderboard_ranked(players: Seq<PlayerState>)
    ensures
        standings_of(players).len() == players.len(),
        forall|i: int, j: int| 0 <= i < j < players.len() ==>
            (#[trigger] standings_of(players)[i]).score >= (#[trigger] standings_of(players)[j]).score,
        forall|i: int| 0 <= i < players.len() ==>
            standings_of(players).contains((#[trigger] keyed_standing(players[i])).1),
        forall|j: int| 0 <= j < players.len() ==> exists|i: int|
            0 <= i < players.len() && (#[trigger] standings_of(players)[j]) == keyed_standing(players[i]).1,
{
    let keyed = players.map_values(|p: PlayerState| keyed_standing(p));
    let sorted = sort_desc(keyed);
    crate::ranking::lemma_sort_desc_props(keyed);
    keyed.to_multiset_ensures();
    sorted.to_multiset_ensures();
    let st = standings_of(players);
    assert forall|k: int| 0 <= k < sorted.len() implies (#[trigger] sorted[k]).0 == sorted[k].1.score by {
        assert(sorted.contains(sorted[k]));
        assert(sorted.to_multiset().count(sorted[k]) > 0);
        assert(keyed.to_multiset().count(sorted[k]) > 0);
        assert(keyed.contains(sorted[k]));
        let m = choose|m: int| 0 <= m < keyed.len() && keyed[m] == sorted[k];
        assert(keyed[m] == keyed_standing(players[m]));
    }
    assert forall|i: int, j: int| 0 <= i < j < players.len() implies
        (#[trigger] st[i]).score >= (#[trigger] st[j]).score by {
        assert(sorted[i].0 >= sorted[j].0);
        assert(sorted[i].0 == sorted[i].1.score);
        assert(sorted[j].0 == sorted[j].1.score);
    }
    assert forall|i: int| 0 <= i < players.len() implies
        st.contains((#[trigger] keyed_standing(players[i])).1) by {
        assert(keyed[i] == keyed_standing(players[i]));
        assert(keyed.contains(keyed[i]));
        assert(keyed.to_multiset().count(keyed[i]) > 0);
        assert(sorted.to_multiset().count(keyed[i]) > 0);
        assert(sorted.contains(keyed[i]));
        let j = choose|j: int| 0 <= j < sorted.len() && sorted[j] == keyed[i];
        assert(st[j] == keyed_standing(players[i]).1);
    }
    assert forall|j: int| 0 <= j < players.len() implies exists|i: int|
        0 <= i < players.len() && (#[trigger] st[j]) == keyed_standing(players[i]).1 by {
        assert(sorted.contains(sorted[j]));
        assert(sorted.to_multiset().count(sorted[j]) > 0);
        assert(keyed.to_multiset().count(sorted[j]) > 0);
        assert(keyed.contains(sorted[j]));
        let i = choose|i: int| 0 <= i < keyed.len() && keyed[i] == sorted[j];
        assert(st[j] == keyed_standing(players[i]).1);
    }
}

/// Totals never go down: scoring a round adds each player's round score to
/// their total and keeps every player, in order.
pub proof fn lemma_totals_never_decrease<D>(players: Seq<PlayerState>, scored: Seq<(u32, D)>)
    requires
        scored.len() == players.len(),
    ensures
        players_scored(players, scored).len() == players.len(),
        forall|i: int| 0 <= i < players.len() ==> {
            &&& (#[trigger] players_scored(players, scored)[i]).id == players[i].id
            &&& (players[i].cumulative_score + scored[i].0 <= u32::MAX ==>
                players_scored(players, scored)[i].cumulative_score == players[i].cumulative_score + scored[i].0)
            &&& (players[i].cumulative_score + scored[i].0 <= u32::MAX ==>
                players_scored(players, scored)[i].cumulative_score >= players[i].cumulative_score)
        },
{
}

} // verus!
