use guesser_backend::cache::ImageCache;
use guesser_backend::coordinates::ItemId;
use guesser_backend::image::Image;

fn test_image() -> Image {
    Image {
        url: "https://example.com/img.jpg".to_string(),
        thumb_url: "https://example.com/img_thumb.jpg".to_string(),
        width: 800,
        height: 600,
    }
}

#[test]
fn cache_miss_returns_none() {
    let mut cache = ImageCache::new(3600, 0);
    assert!(cache.get(&ItemId("Q42".to_string())).is_none());
}

#[test]
fn cache_hit_returns_images() {
    let mut cache = ImageCache::new(3600, 0);
    let id = ItemId("Q42".to_string());
    cache.insert(&id, vec![test_image()]);

    let result = cache.get(&id).unwrap();
    assert_eq!(result.len(), 1);
    assert_eq!(result[0].url, "https://example.com/img.jpg");
}

#[test]
fn expired_entry_returns_none() {
    // TTL = 0 seconds, jitter = 0 → expires immediately.
    let mut cache = ImageCache::new(0, 0);
    let id = ItemId("Q42".to_string());
    cache.insert(&id, vec![test_image()]);

    // Should be expired by now.
    assert!(cache.get(&id).is_none());
}

#[test]
fn empty_image_set_is_cacheable() {
    // A location with no images is a valid cache entry (not a miss).
    let mut cache = ImageCache::new(3600, 0);
    let id = ItemId("Q99".to_string());
    cache.insert(&id, vec![]);

    let result = cache.get(&id).unwrap();
    assert!(result.is_empty());
}

#[test]
fn entry_lives_until_its_expiry() {
    let mut cache = ImageCache::new(10, 0);
    let id = ItemId("Q1".to_string());
    cache.insert_at(&id, vec![test_image()], 1_000, 0);
    assert_eq!(cache.get_at(&id, 10_999).unwrap().len(), 1);
    assert!(cache.get_at(&id, 11_000).is_none());
    // The expired entry was evicted.
    assert_eq!(cache.len(), 0);
}

#[test]
fn jitter_offset_shifts_expiry() {
    // base 100 s, jitter 20 s: offset 0 gives 80 s, offset 39 gives 119 s.
    let mut cache = ImageCache::new(100, 20);
    let early = ItemId("Q1".to_string());
    let late = ItemId("Q2".to_string());
    cache.insert_at(&early, vec![], 0, 0);
    cache.insert_at(&late, vec![], 0, 39);
    assert!(cache.get_at(&early, 79_999).is_some());
    assert!(cache.get_at(&early, 80_000).is_none());
    assert!(cache.get_at(&late, 118_999).is_some());
    assert!(cache.get_at(&late, 119_000).is_none());
}

#[test]
fn insert_replaces_previous_entry() {
    let mut cache = ImageCache::new(3600, 0);
    let id = ItemId("Q5".to_string());
    cache.insert(&id, vec![]);
    cache.insert(&id, vec![test_image(), test_image()]);
    assert_eq!(cache.len(), 1);
    assert_eq!(cache.get(&id).unwrap().len(), 2);
}

#[test]
fn jittered_entries_are_readable_right_away() {
    let mut cache = ImageCache::new(86_400, 7_200);
    let id = ItemId("Q6".to_string());
    cache.insert(&id, vec![test_image()]);
    assert!(cache.get(&id).is_some());
}
