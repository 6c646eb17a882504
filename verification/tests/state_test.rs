use guesser_backend::config::GameConfig;
use guesser_backend::coordinates::{ItemId, Location};
use guesser_backend::ids::{PlayerId, PlayerIdCounter, RoomId};
use guesser_backend::rules::GameStatus;
use guesser_backend::state::{RoomState, RoundState};
use std::collections::HashMap;

/// A point on the map, as the server holds it.
#[derive(Debug, Clone, Copy, PartialEq)]
struct Coordinate {
    latitude: f64,
    longitude: f64,
}

fn new_state() -> RoomState<Coordinate, f64> {
    let id = RoomId::new();
    RoomState::new(id, "SECRET".to_string(), "HOST".to_string(), GameConfig::default())
}

#[test]
fn room_state_initialization() {
    let state = new_state();
    assert_eq!(state.status, GameStatus::Lobby);
    assert!(state.players.is_empty());
}

#[test]
fn all_players_ready_check() {
    let mut state = new_state();
    let mut counter = PlayerIdCounter::new();

    let p1 = PlayerId::new(&mut counter);
    let p2 = PlayerId::new(&mut counter);
    state.add_player(p1, "Alice".to_string(), "tok1".to_string(), true);
    state.add_player(p2, "Bob".to_string(), "tok2".to_string(), false);

    assert!(!state.all_players_ready());

    state.ready_players.insert(p1.0);
    assert!(!state.all_players_ready());

    state.ready_players.insert(p2.0);
    assert!(state.all_players_ready());
}

#[test]
fn record_guess_idempotency() {
    let mut state = new_state();
    let mut counter = PlayerIdCounter::new();
    let p1 = PlayerId::new(&mut counter);
    state.add_player(p1, "Alice".to_string(), "tok1".to_string(), true);

    let loc = Location {
        item_id: ItemId("Q1".to_string()),
        coordinate: Coordinate { latitude: 0.0, longitude: 0.0 },
    };

    state.current_round = Some(RoundState {
        round_number: 1,
        location: loc,
        images: vec![],
        deadline_unix_ms: 0,
        guesses: HashMap::new(),
    });

    let guess = Coordinate { latitude: 10.0, longitude: 10.0 };
    assert!(state.record_guess(p1, guess).is_ok());
    // Duplicate guess must be rejected
    assert_eq!(state.record_guess(p1, guess), Err("already_guessed"));
}

#[test]
fn first_guess_is_kept_after_duplicate() {
    let mut state = new_state();
    let p1 = PlayerId(7);
    state.add_player(p1, "Alice".to_string(), "tok1".to_string(), true);
    state.current_round = Some(RoundState {
        round_number: 1,
        location: Location { item_id: ItemId("Q1".to_string()), coordinate: Coordinate { latitude: 0.0, longitude: 0.0 } },
        images: vec![],
        deadline_unix_ms: 0,
        guesses: HashMap::new(),
    });
    let first = Coordinate { latitude: 1.0, longitude: 2.0 };
    let second = Coordinate { latitude: 3.0, longitude: 4.0 };
    assert!(state.record_guess(p1, first).is_ok());
    assert!(state.record_guess(p1, second).is_err());
    assert_eq!(state.current_round.as_ref().unwrap().guesses.get(&7), Some(&first));
}

#[test]
fn guess_without_round_is_rejected() {
    let mut state = new_state();
    let guess = Coordinate { latitude: 1.0, longitude: 1.0 };
    assert_eq!(state.record_guess(PlayerId(1), guess), Err("no_active_round"));
}

#[test]
fn all_players_guessed_needs_every_player() {
    let mut state = new_state();
    assert!(!state.all_players_guessed());
    state.add_player(PlayerId(1), "Alice".to_string(), "t1".to_string(), true);
    state.add_player(PlayerId(2), "Bob".to_string(), "t2".to_string(), false);
    state.current_round = Some(RoundState {
        round_number: 1,
        location: Location { item_id: ItemId("Q1".to_string()), coordinate: Coordinate { latitude: 0.0, longitude: 0.0 } },
        images: vec![],
        deadline_unix_ms: 0,
        guesses: HashMap::new(),
    });
    let c = Coordinate { latitude: 5.0, longitude: 5.0 };
    state.record_guess(PlayerId(1), c).unwrap();
    assert!(!state.all_players_guessed());
    state.record_guess(PlayerId(2), c).unwrap();
    assert!(state.all_players_guessed());
}

#[test]
fn empty_room_is_never_all_ready() {
    let state = new_state();
    assert!(!state.all_players_ready());
}

#[test]
fn adding_same_player_twice_replaces_in_place() {
    let mut state = new_state();
    state.add_player(PlayerId(1), "Alice".to_string(), "t1".to_string(), true);
    state.add_player(PlayerId(2), "Bob".to_string(), "t2".to_string(), false);
    state.add_player(PlayerId(1), "Alicia".to_string(), "t3".to_string(), false);
    assert_eq!(state.players.len(), 2);
    assert_eq!(state.players[0].name, "Alicia");
    assert_eq!(state.players[1].name, "Bob");
}

#[test]
fn removing_player_clears_ready_mark() {
    let mut state = new_state();
    state.add_player(PlayerId(1), "Alice".to_string(), "t1".to_string(), true);
    state.ready_players.insert(1);
    state.remove_player(&PlayerId(1));
    assert!(state.players.is_empty());
    assert!(!state.ready_players.contains(&1));
}

#[test]
fn room_code_follows_room_id() {
    let state: RoomState<Coordinate, f64> =
        RoomState::new(RoomId(0), "J".to_string(), "H".to_string(), GameConfig::default());
    assert_eq!(state.code.0, "AAAAAA");
}
