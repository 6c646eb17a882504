use guesser_backend::actor::{round_results, FollowUp, Outbound, Reply, RoomTimer};
use guesser_backend::commands::RoomInput;
use guesser_backend::config::GameConfig;
use guesser_backend::coordinates::{ItemId, Location};
use guesser_backend::events::RoomEvent;
use guesser_backend::ids::{PlayerId, RoomId};
use guesser_backend::manager::pad_images;
use guesser_backend::pool::PreparedRound;
use guesser_backend::rules::{GameStatus, RoundNumber};
use guesser_backend::state::RoomState;

#[derive(Debug, Clone, Copy, PartialEq)]
struct Coordinate {
    latitude: f64,
    longitude: f64,
}

type Room = RoomState<Coordinate, f64>;

fn room_with_rounds(total_rounds: u8) -> Room {
    let mut config = GameConfig::default();
    config.total_rounds = total_rounds;
    RoomState::new(RoomId(77), "1234".to_string(), "host_tok_9".to_string(), config)
}

fn join(room: &mut Room, id: u64, name: &str) {
    let o = room.handle_command(RoomInput::Join {
        player_id: PlayerId(id),
        name: name.to_string(),
        join_code: Some("1234".to_string()),
    });
    assert!(matches!(o.reply, Reply::Joined(Ok(()))));
}

fn prepared(item: &str) -> PreparedRound<Coordinate> {
    PreparedRound {
        location: Location { item_id: ItemId(item.to_string()), coordinate: Coordinate { latitude: 51.5, longitude: -0.1 } },
        images: pad_images(Vec::new(), 3, "scene-52-0"),
    }
}

fn start_round(room: &mut Room, now_ms: u64) -> u8 {
    let n = room.begin_next_round().expect("room should be in a round");
    let announcement = room.install_round(n, prepared("Q42"), now_ms);
    assert!(matches!(announcement, Outbound::Broadcast(RoomEvent::RoundStarted { .. })));
    n
}

#[test]
fn join_and_leave_lifecycle() {
    let mut room = room_with_rounds(5);
    let o = room.handle_command(RoomInput::Join { player_id: PlayerId(1), name: "Alice".to_string(), join_code: None });
    assert!(matches!(o.reply, Reply::Joined(Ok(()))));
    assert_eq!(o.follow_up, FollowUp::Continue);
    assert!(matches!(&o.outbound[0], Outbound::Broadcast(RoomEvent::PlayerJoined { player_id: PlayerId(1), name }) if name == "Alice"));
    assert_eq!(room.players.len(), 1);
    assert!(room.players[0].is_host);
    assert_eq!(room.players[0].token, "p_tok_1");

    let o = room.handle_command(RoomInput::Leave { player_id: PlayerId(1) });
    assert!(room.players.is_empty());
    assert_eq!(o.follow_up, FollowUp::Stop, "room should shut down when last player leaves");
    assert!(matches!(o.outbound[0], Outbound::DropSink(PlayerId(1))));
}

#[test]
fn wrong_join_code_changes_nothing() {
    let mut room = room_with_rounds(5);
    let o = room.handle_command(RoomInput::Join {
        player_id: PlayerId(3),
        name: "Eve".to_string(),
        join_code: Some("9999".to_string()),
    });
    assert!(matches!(&o.reply, Reply::Joined(Err(e)) if e == "invalid_join_code"));
    assert!(matches!(&o.outbound[0], Outbound::SendTo(PlayerId(3), RoomEvent::Error { code, message })
        if code == "join_error" && message == "invalid_join_code"));
    assert!(room.players.is_empty());
}

#[test]
fn second_player_is_not_host() {
    let mut room = room_with_rounds(5);
    join(&mut room, 1, "Alice");
    join(&mut room, 2, "Bob");
    assert!(room.players[0].is_host);
    assert!(!room.players[1].is_host);
}

#[test]
fn ready_from_everyone_starts_round_one() {
    let mut room = room_with_rounds(5);
    join(&mut room, 1, "Alice");
    join(&mut room, 2, "Bob");
    let o = room.handle_command(RoomInput::Ready { player_id: PlayerId(1) });
    assert_eq!(o.follow_up, FollowUp::Continue);
    let o = room.handle_command(RoomInput::Ready { player_id: PlayerId(2) });
    assert_eq!(o.follow_up, FollowUp::StartRound);
    assert!(matches!(o.reply, Reply::AfterRoundStart));

    let n = start_round(&mut room, 1_000);
    assert_eq!(n, 1);
    assert_eq!(room.status, GameStatus::InRound(RoundNumber(1)));
    let snapshot = room.start_reply().unwrap();
    assert_eq!(snapshot.round_number, 1);
    assert_eq!(snapshot.total_rounds, 5);
    assert_eq!(snapshot.images.len(), 3);
    assert_eq!(snapshot.deadline_unix_ms, 1_000 + 60 * 1000);
}

#[test]
fn duplicate_guess_is_refused_with_already_guessed() {
    let mut room = room_with_rounds(5);
    join(&mut room, 1, "Alice");
    join(&mut room, 2, "Bob");
    room.handle_command(RoomInput::Ready { player_id: PlayerId(1) });
    room.handle_command(RoomInput::Ready { player_id: PlayerId(2) });
    start_round(&mut room, 0);

    let first = Coordinate { latitude: 1.0, longitude: 1.0 };
    let o = room.handle_command(RoomInput::Guess { player_id: PlayerId(1), seq: 1, coordinate: first });
    assert!(matches!(o.reply, Reply::GuessAccepted));
    assert!(matches!(o.outbound[0], Outbound::Broadcast(RoomEvent::GuessAck { player_id: PlayerId(1), seq: 1 })));
    assert_eq!(o.follow_up, FollowUp::Continue);

    let o = room.handle_command(RoomInput::Guess {
        player_id: PlayerId(1),
        seq: 2,
        coordinate: Coordinate { latitude: 9.0, longitude: 9.0 },
    });
    assert!(matches!(&o.reply, Reply::GuessRejected(e) if e == "already_guessed"));
    assert!(matches!(&o.outbound[0], Outbound::SendTo(PlayerId(1), RoomEvent::Error { code, message })
        if code == "already_guessed" && message == "already_guessed"));
    assert_eq!(o.outbound.len(), 1);
    assert_eq!(room.current_round.as_ref().unwrap().guesses.get(&1), Some(&first));

    let o = room.handle_command(RoomInput::Guess { player_id: PlayerId(2), seq: 1, coordinate: first });
    assert_eq!(o.follow_up, FollowUp::EndRound);
}

#[test]
fn guess_before_any_round_is_refused() {
    let mut room = room_with_rounds(5);
    join(&mut room, 1, "Alice");
    let o = room.handle_command(RoomInput::Guess {
        player_id: PlayerId(1),
        seq: 1,
        coordinate: Coordinate { latitude: 0.0, longitude: 0.0 },
    });
    assert!(matches!(&o.reply, Reply::GuessRejected(e) if e == "no_active_round"));
}

#[test]
fn scoring_ranks_players_and_finishes_last_round() {
    let mut room = room_with_rounds(1);
    join(&mut room, 1, "Alice");
    join(&mut room, 2, "Bob");
    room.handle_command(RoomInput::Ready { player_id: PlayerId(1) });
    room.handle_command(RoomInput::Ready { player_id: PlayerId(2) });
    start_round(&mut room, 0);
    let c = Coordinate { latitude: 51.5, longitude: -0.1 };
    room.handle_command(RoomInput::Guess { player_id: PlayerId(2), seq: 1, coordinate: c });

    let (round, guesses) = room.take_round_for_scoring().unwrap();
    assert_eq!(guesses, vec![None, Some(c)]);
    let (outbound, follow_up) = room.finish_round(round, vec![(0, 0.0), (5000, 0.0)]);

    assert_eq!(room.status, GameStatus::Finished);
    assert_eq!(follow_up, FollowUp::Stop, "the room shuts down after the last round");
    assert_eq!(outbound.len(), 3);
    match &outbound[1] {
        Outbound::Broadcast(RoomEvent::Leaderboard { standings }) => {
            assert_eq!(standings[0].player_id, PlayerId(2));
            assert_eq!(standings[0].score, 5000);
            assert_eq!(standings[1].player_id, PlayerId(1));
        },
        _ => panic!("second event should be the leaderboard"),
    }
    assert!(matches!(outbound[2], Outbound::Broadcast(RoomEvent::GameFinished { .. })));

    let result = room.round_result_for(PlayerId(2)).unwrap();
    assert_eq!(result.score, 5000);
    assert_eq!(result.item_id.0, "Q42");
    assert!(result.game_finished);
    assert_eq!(result.final_standings.unwrap().len(), 2);
    assert!(room.round_result_for(PlayerId(3)).is_none());
}

#[test]
fn equal_totals_keep_join_order() {
    let mut room = room_with_rounds(3);
    join(&mut room, 1, "Alice");
    join(&mut room, 2, "Bob");
    join(&mut room, 3, "Carol");
    room.handle_command(RoomInput::Ready { player_id: PlayerId(1) });
    room.handle_command(RoomInput::Ready { player_id: PlayerId(2) });
    room.handle_command(RoomInput::Ready { player_id: PlayerId(3) });
    start_round(&mut room, 0);
    let (round, _) = room.take_round_for_scoring().unwrap();
    let (_, follow_up) = room.finish_round(round, vec![(10, 1.0), (20, 1.0), (10, 1.0)]);
    assert_eq!(follow_up, FollowUp::StartRound);
    assert_eq!(room.status, GameStatus::InRound(RoundNumber(2)));
    let lb = &room.last_round_result.as_ref().unwrap().leaderboard;
    let order: Vec<u64> = lb.iter().map(|s| s.player_id.0).collect();
    assert_eq!(order, vec![2, 1, 3]);
}

#[test]
fn totals_accumulate_over_rounds() {
    let mut room = room_with_rounds(3);
    join(&mut room, 1, "Alice");
    room.handle_command(RoomInput::Ready { player_id: PlayerId(1) });
    start_round(&mut room, 0);
    let (round, _) = room.take_round_for_scoring().unwrap();
    room.finish_round(round, vec![(100, 0.0)]);
    let n = start_round(&mut room, 0);
    assert_eq!(n, 2);
    let (round, _) = room.take_round_for_scoring().unwrap();
    room.finish_round(round, vec![(250, 0.0)]);
    assert_eq!(room.players[0].cumulative_score, 350);
}

#[test]
fn host_start_needs_the_host_token() {
    let mut room = room_with_rounds(5);
    join(&mut room, 1, "Alice");
    let o = room.handle_command(RoomInput::HostStart { host_token: "wrong_token".to_string() });
    assert!(matches!(&o.reply, Reply::StartRejected(e) if e == "invalid_host_token"));
    assert!(room.ready_players.is_empty());

    let o = room.handle_command(RoomInput::HostStart { host_token: "HOST_TOK_9".to_string() });
    assert!(matches!(o.reply, Reply::AfterRoundStart));
    assert_eq!(o.follow_up, FollowUp::StartRound);
    assert!(room.ready_players.contains(&1));

    start_round(&mut room, 0);
    let o = room.handle_command(RoomInput::HostStart { host_token: "host_tok_9".to_string() });
    assert!(matches!(&o.reply, Reply::StartRejected(e) if e == "game_already_started"));
}

#[test]
fn round_state_query_shows_active_round() {
    let mut room = room_with_rounds(5);
    let o = room.handle_command(RoomInput::GetRoundState);
    assert!(matches!(o.reply, Reply::RoundState(None)));
    join(&mut room, 1, "Alice");
    room.handle_command(RoomInput::Ready { player_id: PlayerId(1) });
    start_round(&mut room, 5);
    let o = room.handle_command(RoomInput::GetRoundState);
    match o.reply {
        Reply::RoundState(Some(s)) => {
            assert_eq!(s.round_number, 1);
            assert_eq!(s.deadline_unix_ms, 60_005);
        },
        _ => panic!("expected the active round"),
    }
    assert!(room.round_expired(60_005));
    assert!(!room.round_expired(60_004));
}

#[test]
fn ping_changes_nothing() {
    let mut room = room_with_rounds(5);
    let o = room.handle_command(RoomInput::Ping { player_id: PlayerId(1) });
    assert!(o.outbound.is_empty());
    assert!(matches!(o.reply, Reply::Nothing));
    assert_eq!(o.follow_up, FollowUp::Continue);
}

#[test]
fn timers_decide_the_room_lifecycle() {
    let mut room = room_with_rounds(5);
    assert_eq!(room.on_timer(RoomTimer::Lobby), FollowUp::Stop);
    assert_eq!(room.on_timer(RoomTimer::Inactivity), FollowUp::Stop);
    assert_eq!(room.on_timer(RoomTimer::Round { now_ms: 1_000_000 }), FollowUp::Continue);
    join(&mut room, 1, "Alice");
    room.handle_command(RoomInput::Ready { player_id: PlayerId(1) });
    start_round(&mut room, 0);
    assert_eq!(room.on_timer(RoomTimer::Lobby), FollowUp::Continue);
    assert_eq!(room.on_timer(RoomTimer::Round { now_ms: 59_999 }), FollowUp::Continue);
    assert_eq!(room.on_timer(RoomTimer::Round { now_ms: 60_000 }), FollowUp::EndRound);
    assert_eq!(room.on_timer(RoomTimer::Inactivity), FollowUp::Stop);
}

#[test]
fn players_without_a_guess_score_nothing() {
    let results = vec![Some((4000u32, 12.5)), None, Some((0u32, 9_000_000.0))];
    assert_eq!(round_results(&results, 20_000_000.0), vec![(4000, 12.5), (0, 20_000_000.0), (0, 9_000_000.0)]);
}
