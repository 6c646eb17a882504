use guesser_backend::cache::ImageCache;
use guesser_backend::coordinates::{ItemId, Location};
use guesser_backend::image::Image;
use guesser_backend::manager::{
    emergency_round, fallback_image, images_after_fetch, needs_refill, next_location_step, next_refill_backoff,
    pad_images, NextLocation, MAX_POOL_WAITS,
};
use guesser_backend::pool::{LocationPool, PreparedRound};

/// The label the server writes on fallbacks for the coordinate (10, 20).
const LABEL: &str = "scene-10-20";

#[test]
fn pad_images_truncates_when_over_count() {
    let images = (0..25)
        .map(|_| Image {
            url: "https://example.com/x.jpg".into(),
            thumb_url: "https://example.com/x_thumb.jpg".into(),
            width: 100,
            height: 100,
        })
        .collect::<Vec<_>>();

    let padded = pad_images(images, 21, LABEL);
    assert_eq!(padded.len(), 21);
}

#[test]
fn pad_images_appends_distinct_fallbacks_to_reach_count() {
    let images = Vec::new();

    let padded = pad_images(images, 21, LABEL);
    assert_eq!(padded.len(), 21);
    // Fallback tiles must be distinct (not identical copies of one SVG).
    let unique_urls: std::collections::HashSet<_> = padded.iter().map(|img| img.url.clone()).collect();
    assert_eq!(unique_urls.len(), 21, "fallbacks should be distinct per tile");
}

#[test]
fn pad_images_keeps_partial_commons_results() {
    let images = (0..7)
        .map(|_| Image {
            url: "https://example.com/real.jpg".into(),
            thumb_url: "https://example.com/real_thumb.jpg".into(),
            width: 800,
            height: 600,
        })
        .collect::<Vec<_>>();

    let padded = pad_images(images, 21, LABEL);
    assert_eq!(padded.len(), 21);
    let fallbacks = padded.iter().filter(|img| img.url.contains("data:image/svg"));
    assert_eq!(fallbacks.count(), 14);
}

#[test]
fn fallback_is_a_percent_encoded_svg_data_url() {
    let img = fallback_image(LABEL, 0);
    assert_eq!(img.width, 800);
    assert_eq!(img.height, 600);
    assert_eq!(img.url, img.thumb_url);
    let prefix = "data:image/svg+xml;charset=UTF-8,";
    assert!(img.url.starts_with(prefix));
    let encoded = &img.url[prefix.len()..];
    assert!(encoded.starts_with("%3Csvg%20xmlns%3D%27http%3A%2F%2Fwww%2Ew3%2Eorg%2F2000%2Fsvg%27"));
    // Seed 0: circle at x = 100, first colour.
    assert!(encoded.contains("cx%3D%27100%27"));
    assert!(encoded.contains("fill%3D%27%2338bdf8%27"));
    assert!(encoded.contains("scene%2D10%2D20"));
    assert!(encoded.chars().all(|c| c.is_ascii_alphanumeric() || c == '%'));
}

#[test]
fn fallback_seed_moves_circle_and_colour() {
    let img = fallback_image(LABEL, 7);
    // 100 + (7 * 97) % 600 = 179, colour 7 % 5 = 2.
    assert!(img.url.contains("cx%3D%27179%27"));
    assert!(img.url.contains("%23fbbf24"));
}

#[test]
fn fallback_label_non_ascii_is_utf8_encoded() {
    let img = fallback_image("é", 0);
    assert!(img.url.contains("%C3%A9"));
}

#[test]
fn pad_to_zero_is_empty() {
    assert!(pad_images(vec![fallback_image(LABEL, 1)], 0, LABEL).is_empty());
}

fn round(id: &str) -> PreparedRound<(i32, i32)> {
    PreparedRound { location: Location { item_id: ItemId(id.to_string()), coordinate: (0, 0) }, images: vec![] }
}

#[test]
fn next_location_takes_from_pool_or_waits() {
    let mut pool: LocationPool<(i32, i32)> = LocationPool::new();
    assert!(matches!(next_location_step(&mut pool, 0), NextLocation::Wait));
    assert!(matches!(next_location_step(&mut pool, MAX_POOL_WAITS - 1), NextLocation::Wait));
    assert!(matches!(next_location_step(&mut pool, MAX_POOL_WAITS), NextLocation::Emergency));
    pool.push_batch(vec![round("Q1")]);
    match next_location_step(&mut pool, 5) {
        NextLocation::Ready(pr) => assert_eq!(pr.location.item_id.0, "Q1"),
        _ => panic!("a pooled round should be handed out"),
    }
    assert!(pool.is_empty());
}

#[test]
fn emergency_round_is_full_grid_of_fallbacks() {
    let r = emergency_round((0, 0), 21, "scene-0-0");
    assert_eq!(r.location.item_id.0, "Q_EMERGENCY");
    assert_eq!(r.location.coordinate, (0, 0));
    assert_eq!(r.images.len(), 21);
    assert!(r.images.iter().all(|i| i.url.starts_with("data:image/svg")));
}

#[test]
fn refill_policy() {
    assert!(needs_refill(299, 300));
    assert!(!needs_refill(300, 300));
    assert_eq!(next_refill_backoff(5), 10);
    assert_eq!(next_refill_backoff(30), 60);
    assert_eq!(next_refill_backoff(60), 60);
}

#[test]
fn failed_fetch_gives_fallbacks_and_is_not_cached() {
    let mut cache = ImageCache::new(3600, 0);
    let id = ItemId("Q42".to_string());
    let images = images_after_fetch(&mut cache, &id, None, 21, LABEL);
    assert_eq!(images.len(), 21);
    assert_eq!(cache.len(), 0);
}

#[test]
fn successful_fetch_is_padded_and_cached() {
    let mut cache = ImageCache::new(3600, 0);
    let id = ItemId("Q42".to_string());
    let real = Image { url: "https://example.com/a.jpg".into(), thumb_url: "t".into(), width: 1, height: 2 };
    let images = images_after_fetch(&mut cache, &id, Some(vec![real.clone()]), 4, LABEL);
    assert_eq!(images.len(), 4);
    assert_eq!(images[0], real);
    let cached = cache.get(&id).unwrap();
    assert_eq!(cached, images);
}

#[test]
fn empty_answer_is_cached_too() {
    let mut cache = ImageCache::new(3600, 0);
    let id = ItemId("Q7".to_string());
    let images = images_after_fetch(&mut cache, &id, Some(vec![]), 3, LABEL);
    assert_eq!(images.len(), 3);
    assert_eq!(cache.len(), 1);
}

#[test]
fn fallbacks_repeat_every_six_hundred_tiles() {
    assert_eq!(fallback_image(LABEL, 0).url, fallback_image(LABEL, 600).url);
    assert_ne!(fallback_image(LABEL, 0).url, fallback_image(LABEL, 599).url);
    assert_eq!(fallback_image(LABEL, 5).url, fallback_image(LABEL, 605).url);
}
