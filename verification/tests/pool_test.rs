use guesser_backend::coordinates::{ItemId, Location};
use guesser_backend::pool::{LocationPool, PreparedRound};

#[derive(Debug, Clone, Copy, PartialEq)]
struct Coordinate {
    latitude: f64,
    longitude: f64,
}

fn test_round(id: &str) -> PreparedRound<Coordinate> {
    PreparedRound {
        location: Location {
            item_id: ItemId(id.to_string()),
            coordinate: Coordinate { latitude: 0.0, longitude: 0.0 },
        },
        images: vec![],
    }
}

#[test]
fn pop_from_empty_pool_returns_none() {
    let mut pool: LocationPool<Coordinate> = LocationPool::new();
    assert!(pool.pop().is_none());
    assert!(pool.is_empty());
}

#[test]
fn push_and_pop_fifo_order() {
    let mut pool = LocationPool::new();
    pool.push_batch(vec![test_round("Q1"), test_round("Q2"), test_round("Q3")]);
    assert_eq!(pool.len(), 3);

    assert_eq!(pool.pop().unwrap().location.item_id.0, "Q1");
    assert_eq!(pool.pop().unwrap().location.item_id.0, "Q2");
    assert_eq!(pool.pop().unwrap().location.item_id.0, "Q3");
    assert!(pool.pop().is_none());
}

#[test]
fn multiple_batches_append() {
    let mut pool = LocationPool::new();
    pool.push_batch(vec![test_round("Q1")]);
    pool.push_batch(vec![test_round("Q2")]);
    assert_eq!(pool.len(), 2);
    assert_eq!(pool.pop().unwrap().location.item_id.0, "Q1");
    assert_eq!(pool.pop().unwrap().location.item_id.0, "Q2");
}

#[test]
fn empty_batch_changes_nothing() {
    let mut pool = LocationPool::new();
    pool.push_batch(vec![test_round("Q1")]);
    pool.push_batch(Vec::new());
    assert_eq!(pool.len(), 1);
    assert!(!pool.is_empty());
}
