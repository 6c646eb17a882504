use guesser_backend::config::{GameConfig, ServerConfig};

#[test]
fn defaults_are_sane() {
    let game = GameConfig::default();
    let server = ServerConfig::default();
    assert_eq!(game.total_rounds, 5);
    assert_eq!(game.max_score, 5000);
    assert_eq!(server.port, 3000);
}

#[test]
fn default_game_settings() {
    let c = GameConfig::default();
    assert_eq!(c.round_duration_secs, 60);
    assert_eq!(c.images_per_round, 21);
    assert_eq!(c.pool_target_size, 1000);
    assert_eq!(c.pool_refill_threshold, 300);
    assert_eq!(c.pool_batch_size, 200);
    assert_eq!(c.image_cache_ttl_secs, 86_400);
    assert_eq!(c.inactivity_timeout_secs, 300);
    assert_eq!(c.lobby_timeout_secs, 120);
}

#[test]
fn default_server_listens_everywhere() {
    assert_eq!(ServerConfig::default().host, "0.0.0.0");
}
