use guesser_backend::api::{
    health_response, host_start_response, join_room_response, room_info, round_result_response,
    round_state_response, solo_guess_response, solo_start_response,
};
use guesser_backend::commands::{RoundResultSnapshot, RoundStateSnapshot};
use guesser_backend::config::GameConfig;
use guesser_backend::coordinates::ItemId;
use guesser_backend::errors::AppError;
use guesser_backend::ids::{PlayerId, RoomCode, RoomId};
use guesser_backend::registry::RoomRegistry;

fn snapshot() -> RoundStateSnapshot {
    RoundStateSnapshot { round_number: 2, total_rounds: 5, images: vec![], deadline_unix_ms: 1234 }
}

#[test]
fn solo_start_answer_carries_token_and_round() {
    let r = solo_start_response(RoomCode("AAAAAB".to_string()), PlayerId(17), &GameConfig::default(), snapshot());
    assert_eq!(r.room_code.0, "AAAAAB");
    assert_eq!(r.player_id, PlayerId(17));
    assert_eq!(r.player_token, "p_tok_17");
    assert_eq!(r.total_rounds, 5);
    assert_eq!(r.round_duration_secs, 60);
    assert_eq!(r.deadline_unix_ms, 1234);
}

#[test]
fn solo_guess_answer() {
    let ok = solo_guess_response(Ok(4321)).ok().unwrap();
    assert_eq!(ok.score, 4321);
    assert_eq!(ok.status, "success");
    match solo_guess_response(Err("already_guessed".to_string())) {
        Err(AppError::BadRequest(m)) => assert_eq!(m, "already_guessed"),
        _ => panic!("a refused guess is a bad request"),
    }
}

#[test]
fn missing_round_is_not_found() {
    match round_state_response(None) {
        Err(e) => {
            assert_eq!(e.status_code(), 404);
            assert_eq!(e.message(), "no active round");
        },
        Ok(_) => panic!("no round should be not found"),
    }
    assert_eq!(round_state_response(Some(snapshot())).ok().unwrap(), snapshot());
}

#[test]
fn missing_result_is_not_found() {
    match round_result_response::<(f64, f64), f64>(None) {
        Err(AppError::NotFound(m)) => assert_eq!(m, "no round result available"),
        _ => panic!("no result should be not found"),
    }
    let snap = RoundResultSnapshot {
        round: 1,
        score: 10,
        distance_meters: 2.5,
        actual_location: (1.0, 2.0),
        item_id: ItemId("Q1".to_string()),
        leaderboard: vec![],
        game_finished: false,
        final_standings: None,
    };
    assert_eq!(round_result_response(Some(snap)).ok().unwrap().score, 10);
}

#[test]
fn room_info_for_live_and_unknown_rooms() {
    let mut registry: RoomRegistry<()> = RoomRegistry::new();
    let id = RoomId(99);
    registry.register(id, ());
    let live = room_info(&registry, id.to_room_code()).ok().unwrap();
    assert!(live.active);
    assert_eq!(live.room_code, id.to_room_code());
    match room_info(&registry, RoomCode("ZZZZZZ".to_string())) {
        Err(AppError::NotFound(m)) => assert_eq!(m, "room not found"),
        _ => panic!("unknown room should be not found"),
    }
}

#[test]
fn join_answer() {
    let ok = join_room_response(PlayerId(5), Ok(())).ok().unwrap();
    assert_eq!(ok.player_id, PlayerId(5));
    assert_eq!(ok.player_token, "p_tok_5");
    match join_room_response(PlayerId(5), Err("invalid_join_code".to_string())) {
        Err(e) => {
            assert_eq!(e.status_code(), 400);
            assert_eq!(e.code(), "bad_request");
            assert_eq!(e.message(), "invalid_join_code");
        },
        Ok(_) => panic!("wrong join code must be refused"),
    }
}

#[test]
fn host_start_answer() {
    let ok = host_start_response(Ok(snapshot())).ok().unwrap();
    assert_eq!(ok.round, 2);
    assert_eq!(ok.total_rounds, 5);
    assert_eq!(ok.deadline_unix_ms, 1234);
    match host_start_response(Err("invalid_host_token".to_string())) {
        Err(e) => {
            assert_eq!(e.status_code(), 401);
            assert_eq!(e.code(), "unauthorized");
        },
        Ok(_) => panic!("wrong host token must be refused"),
    }
}

#[test]
fn health_answer() {
    let h = health_response(3, 250);
    assert_eq!(h.status, "ok");
    assert_eq!(h.active_rooms, 3);
    assert_eq!(h.pool_size, 250);
}
