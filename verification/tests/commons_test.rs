use guesser_backend::commons::{
    excluded_categories, geo_relevance_score, geo_terms, has_excluded_category, mentions_space_imagery,
    next_retry_step, rank_candidate, select_images, space_terms, ImageInfo, PageInfo, RetryStep,
};
use guesser_backend::image::Image;

#[test]
fn geo_relevance_counts_matching_terms() {
    // Simulate the scoring logic in isolation.
    let text = "beautiful mountain landscape with a river valley";
    let score: usize = geo_terms().iter().filter(|t| text.contains(*t)).count();
    // Matches: mountain, landscape, river, valley, and cape (substring of landscape) = 5
    assert_eq!(score, 5);
    assert_eq!(geo_relevance_score(text), 5);
}

#[test]
fn space_terms_detected() {
    let text = "landsat satellite image of earth";
    assert!(space_terms().iter().any(|t| text.contains(t)));
    assert!(mentions_space_imagery(text));
}

#[test]
fn new_satellite_terms_detected() {
    for text in [
        "nasa modis image of the atlantic",
        "weather satellite composite",
        "earth from orbit captured yesterday",
    ] {
        assert!(space_terms().iter().any(|t| text.contains(t)), "expected {text} to be excluded");
        assert!(mentions_space_imagery(text), "expected {text} to be excluded");
    }
}

#[test]
fn excluded_categories_detected() {
    let cats = "portraits of people in france";
    assert!(excluded_categories().iter().any(|kw| cats.contains(kw)));
    assert!(has_excluded_category(cats));
}

#[test]
fn clean_text_passes_filters() {
    let text = "a photograph of a quiet village street";
    assert!(!space_terms().iter().any(|t| text.contains(t)));
    assert!(!excluded_categories().iter().any(|kw| text.contains(kw)));
    assert!(!mentions_space_imagery(text));
    assert!(!has_excluded_category(text));
}

fn page(title: &str, url: &str, media: &str, categories: &str, description: &str) -> PageInfo {
    PageInfo {
        title: Some(title.to_string()),
        image: Some(ImageInfo {
            url: Some(url.to_string()),
            thumb_url: None,
            width: Some(640),
            height: None,
            media_type: Some(media.to_string()),
            categories: Some(categories.to_string()),
            description: Some(description.to_string()),
        }),
    }
}

#[test]
fn selection_ranks_by_landscape_words_and_drops_unwanted() {
    let pages = vec![
        page("File:Street.jpg", "u1", "BITMAP", "Streets", "a street"),
        page("File:Valley.jpg", "u2", "BITMAP", "Mountain valleys", "A river in the Valley"),
        page("File:Logo.png", "u3", "BITMAP", "Logos of companies", "mountain river lake"),
        page("File:Sat.jpg", "u4", "BITMAP", "Landsat", "mountain lake"),
        page("File:Map.svg", "u5", "DRAWING", "", "mountain lake river"),
        page("File:Lake.jpg", "u6", "BITMAP", "", "lake"),
    ];
    let chosen = select_images(&pages, 10);
    let urls: Vec<&str> = chosen.iter().map(|i| i.url.as_str()).collect();
    assert_eq!(urls, vec!["u2", "u6", "u1"]);
    // Missing thumbnail falls back to the URL, missing height to 0.
    assert_eq!(chosen[0].thumb_url, "u2");
    assert_eq!(chosen[0].width, 640);
    assert_eq!(chosen[0].height, 0);
}

#[test]
fn selection_keeps_at_most_limit() {
    let pages = vec![
        page("a", "u1", "BITMAP", "", "lake"),
        page("b", "u2", "BITMAP", "", "lake river"),
        page("c", "u3", "BITMAP", "", ""),
    ];
    let chosen = select_images(&pages, 2);
    let urls: Vec<&str> = chosen.iter().map(|i| i.url.as_str()).collect();
    assert_eq!(urls, vec!["u2", "u1"]);
    assert!(select_images(&pages, 0).is_empty());
}

#[test]
fn page_without_image_info_is_skipped() {
    let pages = vec![PageInfo { title: Some("x".to_string()), image: None }];
    assert!(select_images(&pages, 5).is_empty());
}

#[test]
fn success_is_accepted() {
    assert!(matches!(next_retry_step(Some(200), 0, 500), RetryStep::Accept));
    assert!(matches!(next_retry_step(Some(204), 3, 500), RetryStep::Accept));
}

#[test]
fn rate_limit_and_server_errors_are_retried_with_doubling_backoff() {
    match next_retry_step(Some(429), 0, 500) {
        RetryStep::Retry { attempt, wait_ms, backoff_ms } => {
            assert_eq!(attempt, 1);
            assert_eq!(wait_ms, 500);
            assert_eq!(backoff_ms, 1000);
        },
        _ => panic!("429 should be retried"),
    }
    assert!(matches!(next_retry_step(Some(503), 2, 2000), RetryStep::Retry { attempt: 3, wait_ms: 2000, backoff_ms: 4000 }));
    assert!(matches!(next_retry_step(None, 1, 1000), RetryStep::Retry { attempt: 2, .. }));
}

#[test]
fn client_errors_fail_at_once() {
    assert!(matches!(next_retry_step(Some(404), 0, 500), RetryStep::Fail));
    assert!(matches!(next_retry_step(Some(301), 0, 500), RetryStep::Fail));
}

#[test]
fn retries_stop_after_three() {
    assert!(matches!(next_retry_step(Some(500), 3, 4000), RetryStep::Fail));
    assert!(matches!(next_retry_step(None, 3, 4000), RetryStep::Fail));
}

#[test]
fn backoff_saturates() {
    assert!(matches!(next_retry_step(None, 0, u64::MAX), RetryStep::Retry { backoff_ms: u64::MAX, .. }));
}

fn image(url: &str) -> Image {
    Image { url: url.to_string(), thumb_url: url.to_string(), width: 1, height: 1 }
}

#[test]
fn rank_counts_landscape_words() {
    let r = rank_candidate(image("a"), "hills", "a lake below a glacier in the hills");
    assert_eq!(r, Some((3, image("a"))));
}

#[test]
fn rank_drops_flags_and_orbital_views() {
    assert_eq!(rank_candidate(image("a"), "flag of peru", "mountain"), None);
    assert_eq!(rank_candidate(image("a"), "", "mountain seen from orbit"), None);
    assert_eq!(rank_candidate(image("a"), "", "street"), Some((0, image("a"))));
}
