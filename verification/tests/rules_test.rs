use guesser_backend::rules::{is_terminal, transition, GameStatus, RoomConfig, RoundEvent, RoundNumber};

#[test]
fn lobby_to_round_one_on_ready() {
    let config = RoomConfig::default();
    let next = transition(GameStatus::Lobby, RoundEvent::AllPlayersReady, config);
    assert_eq!(next, GameStatus::InRound(RoundNumber(1)));
}

#[test]
fn advances_through_all_rounds_then_finishes() {
    let config = RoomConfig { total_rounds: 3 };
    let mut status = GameStatus::Lobby;
    status = transition(status, RoundEvent::AllPlayersReady, config);
    assert_eq!(status, GameStatus::InRound(RoundNumber(1)));

    status = transition(status, RoundEvent::RoundEnded, config);
    assert_eq!(status, GameStatus::InRound(RoundNumber(2)));

    status = transition(status, RoundEvent::RoundEnded, config);
    assert_eq!(status, GameStatus::InRound(RoundNumber(3)));

    status = transition(status, RoundEvent::RoundEnded, config);
    assert_eq!(status, GameStatus::Finished);
    assert!(is_terminal(status));
}

#[test]
fn ready_event_ignored_once_already_in_round() {
    let config = RoomConfig::default();
    let status = GameStatus::InRound(RoundNumber(2));
    let next = transition(status, RoundEvent::AllPlayersReady, config);
    assert_eq!(next, status, "unexpected event should be a no-op, not a panic");
}

#[test]
fn round_ended_ignored_while_in_lobby() {
    let config = RoomConfig::default();
    let next = transition(GameStatus::Lobby, RoundEvent::RoundEnded, config);
    assert_eq!(next, GameStatus::Lobby);
}

#[test]
fn finished_is_terminal_and_absorbs_further_events() {
    let config = RoomConfig::default();
    let status = GameStatus::Finished;
    assert_eq!(transition(status, RoundEvent::RoundEnded, config), status);
    assert_eq!(transition(status, RoundEvent::AllPlayersReady, config), status);
}

#[test]
fn single_round_game_finishes_immediately_after_round_one() {
    let config = RoomConfig { total_rounds: 1 };
    let mut status = transition(GameStatus::Lobby, RoundEvent::AllPlayersReady, config);
    assert_eq!(status, GameStatus::InRound(RoundNumber(1)));
    status = transition(status, RoundEvent::RoundEnded, config);
    assert_eq!(status, GameStatus::Finished);
}

#[test]
fn default_game_lasts_exactly_five_rounds() {
    let config = RoomConfig::default();
    let mut status = transition(GameStatus::Lobby, RoundEvent::AllPlayersReady, config);
    let mut rounds_played = 1;
    while !is_terminal(status) {
        status = transition(status, RoundEvent::RoundEnded, config);
        if !is_terminal(status) {
            rounds_played += 1;
        }
    }
    assert_eq!(rounds_played, 5);
}

#[test]
fn only_finished_is_terminal() {
    assert!(!is_terminal(GameStatus::Lobby));
    assert!(!is_terminal(GameStatus::InRound(RoundNumber(3))));
    assert!(is_terminal(GameStatus::Finished));
}

#[test]
fn round_past_total_finishes() {
    let config = RoomConfig { total_rounds: 2 };
    let next = transition(GameStatus::InRound(RoundNumber(7)), RoundEvent::RoundEnded, config);
    assert_eq!(next, GameStatus::Finished);
}
