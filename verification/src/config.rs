//! Tunable game parameters and server settings.

use vstd::prelude::*;

verus! {

/// Tunable game parameters (the scoring decay constant, a real number,
/// is held next to this by the server).
#[derive(Debug, Clone, Copy)]
pub struct GameConfig {
    /// Number of rounds per game.
    pub total_rounds: u8,
    /// Duration of each round in seconds.
    pub round_duration_secs: u64,
    /// Maximum points awarded for a perfect guess.
    pub max_score: u32,
    /// Target number of pre-fetched locations in the pool.
    pub pool_target_size: usize,
    /// Trigger a refill when the pool drops below this threshold.
    pub pool_refill_threshold: usize,
    /// Number of locations to fetch per Wikidata batch.
    pub pool_batch_size: usize,
    /// Number of images shown per round (a fixed 7-column grid).
    pub images_per_round: usize,
    /// Base TTL for cached image sets (seconds); jitter is added on top.
    pub image_cache_ttl_secs: u64,
    /// Destroy a room after this many seconds of inactivity.
    pub inactivity_timeout_secs: u64,
    /// Destroy a lobby if no player readies within this many seconds.
    pub lobby_timeout_secs: u64,
}

impl Default for GameConfig {
    fn default() -> (c: Self)
        ensures
            c.total_rounds == 5,
            c.round_duration_secs == 60,
            c.max_score == 5000,
            c.pool_target_size == 1000,
            c.pool_refill_threshold == 300,
            c.pool_batch_size == 200,
            c.images_per_round == 21,
            c.image_cache_ttl_secs == 86400,
            c.inactivity_timeout_secs == 300,
            c.lobby_timeout_secs == 120,
    {
        GameConfig {
            total_rounds: 5,
            round_duration_secs: 60,
            max_score: 5000,
            pool_target_size: 1000,
            pool_refill_threshold: 300,
            pool_batch_size: 200,
            images_per_round: 21,
            image_cache_ttl_secs: 24 * 60 * 60,
            inactivity_timeout_secs: 300,
            lobby_timeout_secs: 120,
        }
    }
}

/// Server network configuration.
#[derive(Debug)]
pub struct ServerConfig {
    pub host: String,
    pub port: u16,
}

impl Default for ServerConfig {
    fn default() -> (c: Self)
        ensures
            c.host@ == "0.0.0.0"@,
            c.port == 3000,
    {
        ServerConfig { host: String::from_str("0.0.0.0"), port: 3000 }
    }
}

impl Clone for ServerConfig {
    fn clone(&self) -> (r: Self)
        ensures
            r == *self,
    {
        ServerConfig { host: self.host.clone(), port: self.port }
    }
}

} // verus!
