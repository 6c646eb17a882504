//! The pure room state machine: lobby, numbered rounds, finished.

use vstd::prelude::*;

verus! {

/// Round numbers are 1-indexed to match what is shown to players.
#[derive(Debug, Clone, Copy, PartialEq, Eq, Structural)]
pub struct RoundNumber(pub u8);

/// Room-wide game phase.
#[derive(Debug, Clone, Copy, PartialEq, Eq, Structural)]
pub enum GameStatus {
    Lobby,
    InRound(RoundNumber),
    Finished,
}

/// Per-room rule parameters.
#[derive(Debug, Clone, Copy, PartialEq, Eq, Structural)]
pub struct RoomConfig {
    pub total_rounds: u8,
}

impl Default for RoomConfig {
    fn default() -> (c: Self)
        ensures
            c.total_rounds == 5,
    {
        RoomConfig { total_rounds: 5 }
    }
}

/// Events that can drive a state transition.
#[derive(Debug, Clone, Copy, PartialEq, Eq, Structural)]
pub enum RoundEvent {
    AllPlayersReady,
    RoundEnded,
}

/// The state that `transition` moves to: the first round on readiness in
/// the lobby, the next round (or the end of the game after the last one) when
/// a round ends, and no change for any other pair.
pub open spec fn spec_transition(current: GameStatus, event: RoundEvent, config: RoomConfig) -> GameStatus {
    match (current, event) {
        (GameStatus::Lobby, RoundEvent::AllPlayersReady) => GameStatus::InRound(RoundNumber(1)),
        (GameStatus::InRound(RoundNumber(n)), RoundEvent::RoundEnded) => {
            if n >= config.total_rounds {
                GameStatus::Finished
            } else {
                GameStatus::InRound(RoundNumber((n + 1) as u8))
            }
        },
        (state, _) => state,
    }
}

/// Pure state transition. Unexpected (state, event) pairs are no-ops.
pub fn transition(current: GameStatus, event: RoundEvent, config: RoomConfig) -> (next: GameStatus)
    ensures
        next == spec_transition(current, event, config),
{
    match (current, event) {
        (GameStatus::Lobby, RoundEvent::AllPlayersReady) => GameStatus::InRound(RoundNumber(1)),
        (GameStatus::InRound(RoundNumber(n)), RoundEvent::RoundEnded) => {
            if n >= config.total_rounds {
                GameStatus::Finished
            } else {
                GameStatus::InRound(RoundNumber(n + 1))
            }
        },
        (state, _) => state,
    }
}

/// Whether the game is over.
pub fn is_terminal(status: GameStatus) -> (b: bool)
    ensures
        b == (status is Finished),
{
    matches!(status, GameStatus::Finished)
}

/// The status after a game readies in the lobby and then sees `k` round ends.
pub open spec fn status_after_rounds(k: nat, config: RoomConfig) -> GameStatus
    decreases k,
{
    if k == 0 {
        spec_transition(GameStatus::Lobby, RoundEvent::AllPlayersReady, config)
    } else {
        spec_transition(status_after_rounds((k - 1) as nat, config), RoundEvent::RoundEnded, config)
    }
}

/// Readying a lobby and then ending `k` rounds gives round `k + 1` while
/// `k` is below the game length, and the finished state from then on
/// (a game of zero rounds finishes after its first round).
pub proof fn lemma_game_progression(k: nat, config: RoomConfig)
    ensures
        (k < config.total_rounds) ==> status_after_rounds(k, config) == GameStatus::InRound(RoundNumber((k + 1) as u8)),
        (k >= config.total_rounds && k >= 1) ==> status_after_rounds(k, config) == GameStatus::Finished,
    decreases k,
{
    if k > 0 {
        lemma_game_progression((k - 1) as nat, config);
    }
}

/// The finished state absorbs every event.
pub proof fn lemma_finished_absorbs(event: RoundEvent, config: RoomConfig)
    ensures
        spec_transition(GameStatus::Finished, event, config) == GameStatus::Finished,
{
}

/// Round numbers never decrease and never exceed the game length once a
/// game is under way.
pub proof fn lemma_round_bounded(current: GameStatus, event: RoundEvent, config: RoomConfig)
    requires
        current matches GameStatus::InRound(RoundNumber(n)) ==> 1 <= n <= config.total_rounds,
        config.total_rounds >= 1,
    ensures
        spec_transition(current, event, config) matches GameStatus::InRound(RoundNumber(m)) ==>
            1 <= m <= config.total_rounds
            && (current matches GameStatus::InRound(RoundNumber(n)) ==> n <= m),
{
}

} // verus!
