//! Choosing photographs among the Commons images near a location: drop
//! non-photographs, portraits, logos, flags and satellite imagery, then rank
//! by how many landscape words the metadata mentions.

use vstd::prelude::*;
use crate::image::Image;
use crate::ranking::{sort_desc, stable_sort_desc, strip_keys};
use crate::text::{append_str, occurs_in, str_contains, str_equal};

verus! {

/// Words whose presence in metadata suggests geographic/landscape content.
pub open spec fn geo_terms_spec() -> Seq<Seq<char>> {
    seq![
        "landscape"@,
        "panorama"@,
        "aerial"@,
        "mountain"@,
        "river"@,
        "lake"@,
        "coast"@,
        "valley"@,
        "forest"@,
        "desert"@,
        "glacier"@,
        "waterfall"@,
        "canyon"@,
        "plain"@,
        "island"@,
        "bay"@,
        "cape"@,
        "beach"@,
        "cliff"@,
        "hill"@,
        "volcano"@,
        "geography"@,
        "natural"@,
        "scenery"@,
        "terrain"@,
        "vegetation"@,
        "wetland"@,
        "estuary"@,
    ]
}

/// Words whose presence in metadata suggests geographic/landscape content.
pub fn geo_terms() -> (v: Vec<&'static str>)
    ensures
        v@.map_values(|t: &str| t@) == geo_terms_spec(),
{
    let v = vec![
        "landscape",
        "panorama",
        "aerial",
        "mountain",
        "river",
        "lake",
        "coast",
        "valley",
        "forest",
        "desert",
        "glacier",
        "waterfall",
        "canyon",
        "plain",
        "island",
        "bay",
        "cape",
        "beach",
        "cliff",
        "hill",
        "volcano",
        "geography",
        "natural",
        "scenery",
        "terrain",
        "vegetation",
        "wetland",
        "estuary",
    ];
    assert(v@.map_values(|t: &str| t@) =~= geo_terms_spec());
    v
}
/// Phrases identifying satellite/orbital imagery, which is excluded outright.
pub open spec fn space_terms_spec() -> Seq<Seq<char>> {
    seq![
        "satellite image"@,
        "satellite view"@,
        "satellite photo"@,
        "satellite picture"@,
        "from space"@,
        "seen from orbit"@,
        "landsat"@,
        "sentinel-2"@,
        "copernicus"@,
        "earth observatory"@,
        "international space station"@,
        "space station"@,
        "astronaut photograph"@,
        "spot image"@,
        "worldview-"@,
        "weather satellite"@,
        "earth from orbit"@,
        "modis"@,
        "nasa"@,
    ]
}

/// Phrases identifying satellite/orbital imagery, which is excluded outright.
pub fn space_terms() -> (v: Vec<&'static str>)
    ensures
        v@.map_values(|t: &str| t@) == space_terms_spec(),
{
    let v = vec![
        "satellite image",
        "satellite view",
        "satellite photo",
        "satellite picture",
        "from space",
        "seen from orbit",
        "landsat",
        "sentinel-2",
        "copernicus",
        "earth observatory",
        "international space station",
        "space station",
        "astronaut photograph",
        "spot image",
        "worldview-",
        "weather satellite",
        "earth from orbit",
        "modis",
        "nasa",
    ];
    assert(v@.map_values(|t: &str| t@) =~= space_terms_spec());
    v
}
/// Category words that indicate non-geographic content.
pub open spec fn excluded_categories_spec() -> Seq<Seq<char>> {
    seq![
        "portrait"@,
        "logo"@,
        "coat of arms"@,
        "flag of"@,
    ]
}

/// Category words that indicate non-geographic content.
pub fn excluded_categories() -> (v: Vec<&'static str>)
    ensures
        v@.map_values(|t: &str| t@) == excluded_categories_spec(),
{
    let v = vec![
        "portrait",
        "logo",
        "coat of arms",
        "flag of",
    ];
    assert(v@.map_values(|t: &str| t@) =~= excluded_categories_spec());
    v
}

/// How many of the terms occur in the text.
pub open spec fn count_occurring(terms: Seq<Seq<char>>, text: Seq<char>) -> nat
    decreases terms.len(),
{
    if terms.len() == 0 {
        0
    } else {
        count_occurring(terms.drop_last(), text) + if occurs_in(terms.last(), text) { 1nat } else { 0nat }
    }
}

/// Whether one of the terms occurs in the text.
pub open spec fn any_occurs(terms: Seq<Seq<char>>, text: Seq<char>) -> bool {
    exists|i: int| 0 <= i < terms.len() && occurs_in(#[trigger] terms[i], text)
}

fn count_terms(terms: &Vec<&'static str>, text: &str) -> (n: usize)
    ensures
        n == count_occurring(terms@.map_values(|t: &str| t@), text@),
{
    let ghost all = terms@.map_values(|t: &str| t@);
    let mut n: usize = 0;
    let mut i: usize = 0;
    while i < terms.len()
        invariant
            all == terms@.map_values(|t: &str| t@),
            0 <= i <= terms@.len(),
            n == count_occurring(all.take(i as int), text@),
            n <= i,
        decreases terms@.len() - i,
    {
        assert(all.take(i + 1).drop_last() =~= all.take(i as int));
        if str_contains(text, terms[i]) {
            n = n + 1;
        }
        i = i + 1;
    }
    assert(all.take(terms@.len() as int) =~= all);
    n
}

fn any_term(terms: &Vec<&'static str>, text: &str) -> (b: bool)
    ensures
        b == any_occurs(terms@.map_values(|t: &str| t@), text@),
{
    let ghost all = terms@.map_values(|t: &str| t@);
    let mut i: usize = 0;
    while i < terms.len()
        invariant
            all == terms@.map_values(|t: &str| t@),
            0 <= i <= terms@.len(),
            forall|k: int| 0 <= k < i ==> !occurs_in(#[trigger] all[k], text@),
        decreases terms@.len() - i,
    {
        if str_contains(text, terms[i]) {
            assert(occurs_in(all[i as int], text@));
            return true;
        }
        i = i + 1;
    }
    false
}

/// The number of landscape words in (lower-cased) text.
pub fn geo_relevance_score(text: &str) -> (n: usize)
    ensures
        n == count_occurring(geo_terms_spec(), text@),
{
    count_terms(&geo_terms(), text)
}

/// Whether (lower-cased) text mentions satellite or orbital imagery.
pub fn mentions_space_imagery(text: &str) -> (b: bool)
    ensures
        b == any_occurs(space_terms_spec(), text@),
{
    any_term(&space_terms(), text)
}

/// Whether (lower-cased) categories mark a portrait, logo, coat of arms or flag.
pub fn has_excluded_category(categories: &str) -> (b: bool)
    ensures
        b == any_occurs(excluded_categories_spec(), categories@),
{
    any_term(&excluded_categories(), categories)
}

/// The Unicode lower-case form of a text (`str::to_lowercase`).
pub uninterp spec fn lowercase(s: Seq<char>) -> Seq<char>;

/// Lower-cases a text.
///
/// Trusted: calls `str::to_lowercase`, whose result depends on the text
/// alone; the contract names that result and says nothing more of it.
#[verifier::external_body]
fn to_lowercase(s: &str) -> (r: String)
    ensures
        r@ == lowercase(s@),
{
    s.to_lowercase()
}

/// The first image description of one Commons file page, as returned by
/// the API (every field may be missing).
pub struct ImageInfo {
    pub url: Option<String>,
    pub thumb_url: Option<String>,
    pub width: Option<u32>,
    pub height: Option<u32>,
    pub media_type: Option<String>,
    pub categories: Option<String>,
    pub description: Option<String>,
}

/// One Commons file page near the location.
pub struct PageInfo {
    pub title: Option<String>,
    pub image: Option<ImageInfo>,
}

/// The text of an optional string, empty when missing.
pub open spec fn text_or_empty(s: Option<String>) -> Seq<char> {
    match s {
        Some(t) => t@,
        None => Seq::empty(),
    }
}

/// The ranked candidate an image makes, given its lower-cased categories
/// and its lower-cased search text (title, description and categories
/// joined by spaces): none if the categories mark a portrait, logo, coat of
/// arms or flag, or the text mentions satellite imagery; otherwise the
/// image, ranked by the number of landscape words in the text.
pub open spec fn ranked_candidate(image: Image, lower_categories: Seq<char>, lower_search: Seq<char>) -> Option<(u64, Image)> {
    if any_occurs(excluded_categories_spec(), lower_categories) {
        None
    } else if any_occurs(space_terms_spec(), lower_search) {
        None
    } else {
        Some((count_occurring(geo_terms_spec(), lower_search) as u64, image))
    }
}

/// The ranked candidate a page yields, if it passes the filters: it must be
/// a bitmap with a URL, and pass `ranked_candidate` on its lower-cased
/// categories and lower-cased title, description and categories. A missing
/// thumbnail falls back to the full URL, a missing size to 0.
pub open spec fn candidate_of(page: PageInfo) -> Option<(u64, Image)> {
    match page.image {
        None => None,
        Some(info) => {
            if !(info.media_type matches Some(m) && m@ == "BITMAP"@) {
                None
            } else if info.url is None {
                None
            } else {
                let url = info.url->0;
                let image = Image {
                    url,
                    thumb_url: match info.thumb_url { Some(t) => t, None => url },
                    width: match info.width { Some(w) => w, None => 0 },
                    height: match info.height { Some(h) => h, None => 0 },
                };
                let search = lowercase(
                    text_or_empty(page.title) + " "@ + text_or_empty(info.description) + " "@ + text_or_empty(info.categories),
                );
                ranked_candidate(image, lowercase(text_or_empty(info.categories)), search)
            }
        },
    }
}

/// Ranks an image by its lower-cased metadata (see `ranked_candidate`).
pub fn rank_candidate(image: Image, lower_categories: &str, lower_search: &str) -> (r: Option<(u64, Image)>)
    ensures
        r == ranked_candidate(image, lower_categories@, lower_search@),
{
    if has_excluded_category(lower_categories) {
        return None;
    }
    if mentions_space_imagery(lower_search) {
        return None;
    }
    let geo = geo_relevance_score(lower_search);
    Some((geo as u64, image))
}

/// The candidates of the pages, in page order.
pub open spec fn candidates_of(pages: Seq<PageInfo>) -> Seq<(u64, Image)>
    decreases pages.len(),
{
    if pages.len() == 0 {
        Seq::empty()
    } else {
        let rest = candidates_of(pages.drop_last());
        match candidate_of(pages.last()) {
            Some(c) => rest.push(c),
            None => rest,
        }
    }
}

/// At most the first `n` entries.
pub open spec fn at_most<T>(s: Seq<T>, n: nat) -> Seq<T> {
    if n < s.len() { s.take(n as int) } else { s }
}

/// The images chosen from the pages: candidates ranked by landscape words
/// (most first, ties in page order), at most `limit` of them.
pub open spec fn selected_images(pages: Seq<PageInfo>, limit: nat) -> Seq<Image> {
    at_most(sort_desc(candidates_of(pages)), limit).map_values(|c: (u64, Image)| c.1)
}

fn text_of(s: &Option<String>) -> (r: String)
    ensures
        r@ == text_or_empty(*s),
{
    match s {
        Some(t) => t.clone(),
        None => String::new(),
    }
}

/// The candidate a page yields.
pub fn page_candidate(page: &PageInfo) -> (r: Option<(u64, Image)>)
    ensures
        r == candidate_of(*page),
{
    let info = match &page.image {
        Some(i) => i,
        None => {
            return None;
        },
    };
    let is_bitmap = match &info.media_type {
        Some(m) => str_equal(m.as_str(), "BITMAP"),
        None => false,
    };
    if !is_bitmap {
        return None;
    }
    let url = match &info.url {
        Some(u) => u.clone(),
        None => {
            return None;
        },
    };
    let thumb_url = match &info.thumb_url {
        Some(t) => t.clone(),
        None => url.clone(),
    };
    let width = match info.width {
        Some(w) => w,
        None => 0,
    };
    let height = match info.height {
        Some(h) => h,
        None => 0,
    };
    let categories = text_of(&info.categories);
    let description = text_of(&info.description);
    let title = text_of(&page.title);
    let lower_cats = to_lowercase(categories.as_str());
    let mut joined = title;
    append_str(&mut joined, " ");
    append_str(&mut joined, description.as_str());
    append_str(&mut joined, " ");
    append_str(&mut joined, categories.as_str());
    let search = to_lowercase(joined.as_str());
    rank_candidate(Image { url, thumb_url, width, height }, lower_cats.as_str(), search.as_str())
}

/// Filters and ranks the pages near a location and keeps the best `limit` images.
pub fn select_images(pages: &Vec<PageInfo>, limit: usize) -> (r: Vec<Image>)
    ensures
        r@ == selected_images(pages@, limit as nat),
{
    let mut candidates: Vec<(u64, Image)> = Vec::new();
    let mut i: usize = 0;
    while i < pages.len()
        invariant
            0 <= i <= pages@.len(),
            candidates@ == candidates_of(pages@.take(i as int)),
        decreases pages@.len() - i,
    {
        assert(pages@.take(i + 1).drop_last() =~= pages@.take(i as int));
        match page_candidate(&pages[i]) {
            Some(c) => candidates.push(c),
            None => {},
        }
        i = i + 1;
    }
    assert(pages@.take(pages@.len() as int) =~= pages@);
    let mut ranked = stable_sort_desc(candidates);
    if limit < ranked.len() {
        ranked.truncate(limit);
    }
    strip_keys(ranked)
}

/// How many times a failed Commons request is tried again.
pub const MAX_RETRIES: usize = 3;

/// The wait before the first retry, in milliseconds.
pub const FIRST_BACKOFF_MS: u64 = 500;

/// What to do after one Commons request came back.
pub enum RetryStep {
    /// The answer succeeded: read its body.
    Accept,
    /// Give up and report the failure.
    Fail,
    /// Wait `wait_ms`, then try again as attempt `attempt`, with `backoff_ms`
    /// as the wait after that.
    Retry { attempt: usize, wait_ms: u64, backoff_ms: u64 },
}

/// Whether an HTTP status is worth trying again: rate limiting (429) or a
/// server error (5xx).
pub open spec fn is_retryable(status: u16) -> bool {
    status == 429 || (500 <= status && status <= 599)
}

/// The retry policy: a 2xx answer is accepted; a transport failure (`None`),
/// a 429 or a 5xx is retried with doubled (saturating) backoff until
/// `MAX_RETRIES` retries have been made; any other status fails at once.
pub open spec fn retry_spec(outcome: Option<u16>, attempt: usize, backoff_ms: u64) -> RetryStep {
    let retryable = match outcome {
        Some(status) => is_retryable(status),
        None => true,
    };
    if outcome matches Some(status) && 200 <= status && status <= 299 {
        RetryStep::Accept
    } else if !retryable || attempt >= MAX_RETRIES {
        RetryStep::Fail
    } else {
        RetryStep::Retry {
            attempt: (attempt + 1) as usize,
            wait_ms: backoff_ms,
            backoff_ms: if 2 * backoff_ms <= u64::MAX { (2 * backoff_ms) as u64 } else { u64::MAX },
        }
    }
}

/// Decides the next step after attempt number `attempt` (counted from 0)
/// came back with `outcome`: the HTTP status, or `None` when the request
/// could not be sent.
pub fn next_retry_step(outcome: Option<u16>, attempt: usize, backoff_ms: u64) -> (r: RetryStep)
    ensures
        r == retry_spec(outcome, attempt, backoff_ms),
{
    let retryable = match outcome {
        Some(status) => {
            if 200 <= status && status <= 299 {
                return RetryStep::Accept;
            }
            status == 429 || (500 <= status && status <= 599)
        },
        None => true,
    };
    if !retryable || attempt >= MAX_RETRIES {
        RetryStep::Fail
    } else {
        RetryStep::Retry {
            attempt: attempt + 1,
            wait_ms: backoff_ms,
            backoff_ms: if backoff_ms <= u64::MAX / 2 { 2 * backoff_ms } else { u64::MAX },
        }
    }
}

/// Retrying ends: a retry is only ever granted below `MAX_RETRIES`, and it
/// moves the attempt count up by one, so a loop that starts at attempt 0
/// and follows `next_retry_step` makes at most `MAX_RETRIES` retries.
pub proof fn lemma_retries_bounded(outcome: Option<u16>, attempt: usize, backoff_ms: u64)
    ensures
        retry_spec(outcome, attempt, backoff_ms) matches RetryStep::Retry { attempt: next, .. }
            ==> attempt < MAX_RETRIES && next == attempt + 1,
        attempt >= MAX_RETRIES ==> !(retry_spec(outcome, attempt, backoff_ms) is Retry),
{
}

/// Which answers are retried: a 2xx status is accepted whatever the
/// attempt; rate limiting (429), every server error (500 to 599) and a
/// request that could not be sent are retried while fewer than
/// `MAX_RETRIES` retries have been made, each retry waiting the current
/// backoff and doubling it (saturating); every other status, and any
/// failure after the last retry, fails.
pub proof fn lemma_retry_policy(outcome: Option<u16>, attempt: usize, backoff_ms: u64)
    ensures
        (outcome matches Some(s) && 200 <= s <= 299) ==> retry_spec(outcome, attempt, backoff_ms) == RetryStep::Accept,
        ((outcome matches Some(s) && (s == 429 || 500 <= s <= 599)) || outcome is None) && attempt < 3 ==>
            retry_spec(outcome, attempt, backoff_ms) == (RetryStep::Retry {
                attempt: (attempt + 1) as usize,
                wait_ms: backoff_ms,
                backoff_ms: if backoff_ms <= u64::MAX / 2 { (2 * backoff_ms) as u64 } else { u64::MAX },
            }),
        ((outcome matches Some(s) && (s == 429 || 500 <= s <= 599)) || outcome is None) && attempt >= 3 ==>
            retry_spec(outcome, attempt, backoff_ms) == RetryStep::Fail,
        (outcome matches Some(s) && !(200 <= s <= 299) && s != 429 && !(500 <= s <= 599)) ==>
            retry_spec(outcome, attempt, backoff_ms) == RetryStep::Fail,
{
}

/// The landscape words occurring in a text.
pub open spec fn landscape_words_in(text: Seq<char>) -> Seq<Seq<char>> {
    geo_terms_spec().filter(|t: Seq<char>| occurs_in(t, text))
}

/// Counting the terms that occur is the number of terms kept by a filter on
/// occurrence.
proof fn lemma_count_is_filter(terms: Seq<Seq<char>>, text: Seq<char>)
    ensures
        count_occurring(terms, text) == terms.filter(|t: Seq<char>| occurs_in(t, text)).len(),
    decreases terms.len(),
{
    reveal(Seq::filter);
    if terms.len() > 0 {
        lemma_count_is_filter(terms.drop_last(), text);
    }
}

/// What a Commons page yields, in terms of its fields: a page with an image
/// description is kept exactly when it is a bitmap with a URL, none of the
/// excluded category words occurs in its lower-cased categories, and no
/// satellite-imagery term occurs in its lower-cased title, description and
/// categories (joined by single spaces); a kept page is ranked by the
/// number of landscape words occurring in that same text. A page without an
/// image description yields nothing.
pub proof fn lemma_candidate_reads_title_description_categories(page: PageInfo)
    ensures
        page.image is None ==> candidate_of(page) is None,
        page.image matches Some(info) ==> ({
            let text = lowercase(
                text_or_empty(page.title) + " "@ + text_or_empty(info.description) + " "@ + text_or_empty(info.categories),
            );
            let cats = lowercase(text_or_empty(info.categories));
            let kept = (info.media_type matches Some(m) && m@ == "BITMAP"@) && info.url is Some
                && (forall|k: int| 0 <= k < excluded_categories_spec().len() ==> !occurs_in(#[trigger] excluded_categories_spec()[k], cats))
                && (forall|k: int| 0 <= k < space_terms_spec().len() ==> !occurs_in(#[trigger] space_terms_spec()[k], text));
            &&& (candidate_of(page) is Some <==> kept)
            &&& (candidate_of(page) matches Some(c) ==> c.0 == landscape_words_in(text).len() && c.1.url == info.url->0)
        }),
{
    match page.image {
        None => {},
        Some(info) => {
            let text = lowercase(
                text_or_empty(page.title) + " "@ + text_or_empty(info.description) + " "@ + text_or_empty(info.categories),
            );
            lemma_count_is_filter(geo_terms_spec(), text);
            assert(count_occurring(geo_terms_spec(), text) <= geo_terms_spec().len()) by {
                reveal(Seq::filter);
                geo_terms_spec().filter_lemma(|t: Seq<char>| occurs_in(t, text));
            }
        },
    }
}

/// The selection keeps the best candidates: it holds `limit` images (all
/// candidates if there are fewer), best first; it is a ranking of every
/// candidate, cut after `limit`, so no candidate left out is more relevant
/// than one kept.
pub proof fn lemma_selection_keeps_best(pages: Seq<PageInfo>, limit: nat)
    ensures
        selected_images(pages, limit).len()
            == if limit < candidates_of(pages).len() { limit } else { candidates_of(pages).len() },
        sort_desc(candidates_of(pages)).to_multiset() == candidates_of(pages).to_multiset(),
        forall|i: int| 0 <= i < selected_images(pages, limit).len() ==>
            #[trigger] selected_images(pages, limit)[i] == sort_desc(candidates_of(pages))[i].1,
        forall|i: int, j: int| 0 <= i < j < candidates_of(pages).len() ==>
            (#[trigger] sort_desc(candidates_of(pages))[i]).0 >= (#[trigger] sort_desc(candidates_of(pages))[j]).0,
{
    crate::ranking::lemma_sort_desc_props(candidates_of(pages));
}

} // verus!
