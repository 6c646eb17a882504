//! The image cache: images per Wikidata item, each entry expiring after a
//! base time-to-live plus or minus a random jitter (so that entries filled
//! together do not all expire together).

use vstd::prelude::*;
use dashmap::DashMap;
use std::time::{Duration, Instant};
use crate::coordinates::ItemId;
use crate::image::{clone_images, Image};

verus! {

#[verifier::external_type_specification]
#[verifier::external_body]
#[verifier::reject_recursive_types(K)]
#[verifier::reject_recursive_types(V)]
#[verifier::reject_recursive_types(S)]
pub struct ExDashMap<K, V, S>(DashMap<K, V, S>);

#[verifier::external_type_specification]
#[verifier::external_body]
pub struct ExInstant(Instant);

/// Cached images and when they expire (milliseconds since the cache was made).
pub struct CachedEntry {
    pub images: Vec<Image>,
    pub expires_at_ms: u128,
}

/// What the cache's concurrent map holds: per item id text, the images and
/// their expiry.
pub uninterp spec fn cache_contents(m: DashMap<String, CachedEntry>) -> Map<Seq<char>, (Seq<Image>, u128)>;

/// An empty concurrent map.
///
/// Trusted: calls `DashMap::new`, which makes an empty map.
#[verifier::external_body]
fn map_new() -> (m: DashMap<String, CachedEntry>)
    ensures
        cache_contents(m).is_empty(),
{
    DashMap::new()
}

/// Looks an entry up and copies it out.
///
/// Trusted: calls `DashMap::get`, which finds the entry whose key equals
/// `key` (string equality) if there is one; the entry is copied out and the
/// map's read guard released before returning.
#[verifier::external_body]
fn map_get(m: &DashMap<String, CachedEntry>, key: &str) -> (r: Option<CachedEntry>)
    ensures
        match r {
            Some(e) => cache_contents(*m).contains_key(key@) && cache_contents(*m)[key@] == (e.images@, e.expires_at_ms),
            None => !cache_contents(*m).contains_key(key@),
        },
{
    match m.get(key) {
        Some(e) => Some(CachedEntry { images: e.images.clone(), expires_at_ms: e.expires_at_ms }),
        None => None,
    }
}

/// Inserts or replaces an entry.
///
/// Trusted: calls `DashMap::insert`, which maps `key` to `value`, replacing
/// any previous value for an equal key.
#[verifier::external_body]
fn map_insert(m: &mut DashMap<String, CachedEntry>, key: String, value: CachedEntry)
    ensures
        cache_contents(*final(m)) == cache_contents(*old(m)).insert(key@, (value.images@, value.expires_at_ms)),
{
    m.insert(key, value);
}

/// Removes an entry if present.
///
/// Trusted: calls `DashMap::remove`, which removes the entry whose key
/// equals `key`, if any.
#[verifier::external_body]
fn map_remove(m: &mut DashMap<String, CachedEntry>, key: &str)
    ensures
        cache_contents(*final(m)) == cache_contents(*old(m)).remove(key@),
{
    m.remove(key);
}

/// The number of entries.
///
/// Trusted: calls `DashMap::len`, which sums the entries of all shards.
#[verifier::external_body]
fn map_len(m: &DashMap<String, CachedEntry>) -> (n: usize)
    ensures
        n == cache_contents(*m).len(),
{
    m.len()
}

/// The current instant.
///
/// Trusted: calls `Instant::now`. Nothing is stated: it is the clock.
#[verifier::external_body]
fn instant_now() -> Instant {
    Instant::now()
}

/// The time elapsed since `origin`.
///
/// Trusted: calls `Instant::elapsed`. Nothing is stated: it is the clock.
#[verifier::external_body]
fn elapsed_since(origin: &Instant) -> Duration {
    origin.elapsed()
}

/// A duration in whole milliseconds.
///
/// Trusted: calls `Duration::as_millis`. Only the range is stated (a
/// `Duration` holds at most `u64::MAX` seconds and a fraction of a second);
/// the value is not named, as Verus sees nothing inside a `Duration`.
#[verifier::external_body]
fn duration_millis(d: &Duration) -> (r: u128)
    ensures
        r <= 18446744073709551615999u128,
{
    d.as_millis()
}

/// A random number below `n`.
///
/// Trusted: calls `rand::rng().random_range(0..n)`, which (for a non-empty
/// range) returns a value in the range; the value itself is random.
#[verifier::external_body]
pub(crate) fn random_below(n: u64) -> (r: u64)
    requires
        n > 0,
    ensures
        r < n,
{
    rand::RngExt::random_range(&mut rand::rng(), 0..n)
}

/// Thread-safe image cache with jittered TTL.
pub struct ImageCache {
    entries: DashMap<String, CachedEntry>,
    base_ttl_secs: u64,
    jitter_secs: u64,
    origin: Instant,
    /// The latest clock reading taken (milliseconds since `origin`).
    last_ms: u128,
}

/// Whether the TTL settings can never make the expiry computation fail:
/// the jitter is at most the base TTL, and base plus twice the jitter fits.
pub open spec fn ttl_settings_ok(base_ttl_secs: u64, jitter_secs: u64) -> bool {
    &&& jitter_secs <= base_ttl_secs
    &&& jitter_secs == 0 || (2 * jitter_secs <= u64::MAX && base_ttl_secs + 2 * jitter_secs - 1 <= u64::MAX)
}

/// The expiry of an entry written at `now_ms` with random offset `offset`
/// (in `0..2*jitter`): TTL `base + offset - jitter` seconds.
pub open spec fn expiry(now_ms: u128, base_ttl_secs: u64, jitter_secs: u64, offset: u64) -> int {
    now_ms + (base_ttl_secs + offset - jitter_secs) * 1000
}

/// The offsets the jitter can draw.
pub open spec fn offset_ok(jitter_secs: u64, offset: u64) -> bool {
    if jitter_secs == 0 { offset == 0 } else { offset < 2 * jitter_secs }
}

/// What a lookup at `now_ms` does: a missing entry gives nothing; an
/// expired one (`now_ms >= expiry`) is evicted and gives nothing; a live one
/// gives its images and stays.
pub open spec fn lookup_outcome(
    before: Map<Seq<char>, (Seq<Image>, u128)>,
    after: Map<Seq<char>, (Seq<Image>, u128)>,
    key: Seq<char>,
    now_ms: u128,
    r: Option<Vec<Image>>,
) -> bool {
    if !before.contains_key(key) {
        r is None && after == before
    } else if now_ms >= before[key].1 {
        r is None && after == before.remove(key)
    } else {
        r matches Some(imgs) && imgs@ == before[key].0 && after == before
    }
}

impl ImageCache {
    /// The entries, by item id text.
    pub closed spec fn contents(&self) -> Map<Seq<char>, (Seq<Image>, u128)> {
        cache_contents(self.entries)
    }

    pub closed spec fn base_ttl(&self) -> u64 {
        self.base_ttl_secs
    }

    pub closed spec fn jitter(&self) -> u64 {
        self.jitter_secs
    }

    /// The cache's clock: the latest reading taken, in milliseconds since
    /// the cache was made. Readings never go back.
    pub closed spec fn clock(&self) -> u128 {
        self.last_ms
    }

    /// Inserting can never fail: the TTL settings are in range; and the
    /// cache holds finitely many entries.
    pub open spec fn wf(&self) -> bool {
        &&& ttl_settings_ok(self.base_ttl(), self.jitter())
        &&& self.contents().dom().finite()
        &&& self.clock() <= 18446744073709551615999u128
    }

    /// An empty cache with base TTL `base_ttl_secs` and jitter of at most
    /// `jitter_secs` either way. Entries can be inserted only when
    /// `ttl_settings_ok` holds of the two (see `wf`).
    pub fn new(base_ttl_secs: u64, jitter_secs: u64) -> (c: Self)
        ensures
            c.contents().is_empty(),
            c.base_ttl() == base_ttl_secs,
            c.jitter() == jitter_secs,
            c.clock() == 0,
    {
        ImageCache { entries: map_new(), base_ttl_secs, jitter_secs, origin: instant_now(), last_ms: 0 }
    }

    /// Reads the clock: the time since the cache was made, never earlier
    /// than the previous reading.
    fn read_clock(&mut self) -> (now: u128)
        ensures
            now >= old(self).clock(),
            now <= 18446744073709551615999u128 || now == old(self).clock(),
            final(self).clock() == now,
            final(self).contents() == old(self).contents(),
            final(self).base_ttl() == old(self).base_ttl(),
            final(self).jitter() == old(self).jitter(),
    {
        let t = duration_millis(&elapsed_since(&self.origin));
        let now = if t > self.last_ms { t } else { self.last_ms };
        self.last_ms = now;
        now
    }

    /// Looks up `item_id` at time `now_ms`, evicting the entry if it has expired.
    pub fn get_at(&mut self, item_id: &ItemId, now_ms: u128) -> (r: Option<Vec<Image>>)
        ensures
            lookup_outcome(old(self).contents(), final(self).contents(), item_id.0@, now_ms, r),
            final(self).base_ttl() == old(self).base_ttl(),
            old(self).wf() ==> final(self).wf(),
            final(self).jitter() == old(self).jitter(),
            final(self).clock() == old(self).clock(),
    {
        let entry = match map_get(&self.entries, item_id.0.as_str()) {
            Some(e) => e,
            None => {
                return None;
            },
        };
        if now_ms >= entry.expires_at_ms {
            map_remove(&mut self.entries, item_id.0.as_str());
            return None;
        }
        Some(entry.images)
    }

    /// Looks up cached images for an item at the current time (a clock
    /// reading no earlier than any before). Returns `None` on a miss or when
    /// the entry has expired (expired entries are evicted).
    pub fn get(&mut self, item_id: &ItemId) -> (r: Option<Vec<Image>>)
        ensures
            looked_up(*old(self), *final(self), item_id.0@, r),
            old(self).wf() ==> final(self).wf(),
    {
        let now_ms = self.read_clock();
        self.get_at(item_id, now_ms)
    }

    /// Stores images for an item written at `now_ms` with jitter offset `offset`.
    pub fn insert_at(&mut self, item_id: &ItemId, images: Vec<Image>, now_ms: u128, offset: u64)
        requires
            old(self).wf(),
            offset_ok(old(self).jitter(), offset),
            now_ms <= 18446744073709551615999u128,
        ensures
            final(self).wf(),
            final(self).contents() == old(self).contents().insert(
                item_id.0@,
                (images@, expiry(now_ms, old(self).base_ttl(), old(self).jitter(), offset) as u128),
            ),
            final(self).base_ttl() == old(self).base_ttl(),
            final(self).jitter() == old(self).jitter(),
            final(self).clock() == old(self).clock(),
    {
        let ttl_secs: u128 = (self.base_ttl_secs as u128) + (offset as u128) - (self.jitter_secs as u128);
        let expires_at_ms: u128 = now_ms + ttl_secs * 1000;
        map_insert(&mut self.entries, item_id.0.clone(), CachedEntry { images, expires_at_ms });
    }

    /// Stores images for an item with a jittered TTL: expiry is
    /// `base ± jitter` seconds from now (a clock reading no earlier than any
    /// before).
    pub fn insert(&mut self, item_id: &ItemId, images: Vec<Image>)
        requires
            old(self).wf(),
        ensures
            final(self).wf(),
            inserted(*old(self), *final(self), item_id.0@, images@),
    {
        let offset = if self.jitter_secs == 0 { 0 } else { random_below(self.jitter_secs * 2) };
        let now_ms = self.read_clock();
        self.insert_at(item_id, images, now_ms, offset);
    }

    /// Number of entries currently in the cache (expired ones included).
    pub fn len(&self) -> (n: usize)
        ensures
            n == self.contents().len(),
    {
        map_len(&self.entries)
    }
}

/// What `get` does: it reads the clock (no earlier than before) and looks
/// the key up at that time.
pub open spec fn looked_up(before: ImageCache, after: ImageCache, key: Seq<char>, r: Option<Vec<Image>>) -> bool {
    &&& after.clock() >= before.clock()
    &&& lookup_outcome(before.contents(), after.contents(), key, after.clock(), r)
    &&& after.base_ttl() == before.base_ttl()
    &&& after.jitter() == before.jitter()
}

/// What `insert` does: it reads the clock (no earlier than before) and
/// stores the images to expire a jittered TTL after that reading.
pub open spec fn inserted(before: ImageCache, after: ImageCache, key: Seq<char>, images: Seq<Image>) -> bool {
    &&& after.clock() >= before.clock()
    &&& after.clock() <= 18446744073709551615999u128
    &&& exists|offset: u64| offset_ok(before.jitter(), offset) && after.contents() == before.contents().insert(
        key,
        (images, expiry(after.clock() as u128, before.base_ttl(), before.jitter(), offset) as u128),
    )
    &&& after.base_ttl() == before.base_ttl()
    &&& after.jitter() == before.jitter()
}

/// An insert lives for its TTL from the moment of the insert: a `get` of
/// the same key right after an `insert` gives the inserted images back as
/// long as less than `base - jitter` seconds have passed on the cache's
/// clock (so at once, whenever the base TTL exceeds the jitter), however
/// long the cache has been up.
pub proof fn lemma_insert_then_get(
    c0: ImageCache,
    c1: ImageCache,
    c2: ImageCache,
    key: Seq<char>,
    images: Seq<Image>,
    r: Option<Vec<Image>>,
)
    requires
        c0.wf(),
        inserted(c0, c1, key, images),
        looked_up(c1, c2, key, r),
    ensures
        c2.clock() < c1.clock() + (c0.base_ttl() - c0.jitter()) * 1000 ==> (r matches Some(v) && v@ == images),
        c2.clock() == c1.clock() && c0.base_ttl() > c0.jitter() ==> (r matches Some(v) && v@ == images),
{
    let offset = choose|offset: u64| offset_ok(c0.jitter(), offset) && c1.contents() == c0.contents().insert(
        key,
        (images, expiry(c1.clock() as u128, c0.base_ttl(), c0.jitter(), offset) as u128),
    );
    let e = expiry(c1.clock() as u128, c0.base_ttl(), c0.jitter(), offset);
    assert(c1.clock() + (c0.base_ttl() - c0.jitter()) * 1000 <= e);
    assert(c0.base_ttl() + offset - c0.jitter() <= u64::MAX);
    assert(e <= 18446744073709551615999u128 + 18446744073709551615u128 * 1000);
    assert(e as u128 == e);
    assert(c1.contents()[key] == (images, e as u128));
    if c0.base_ttl() > c0.jitter() {
        assert((c0.base_ttl() - c0.jitter()) * 1000 >= 1000);
    }
}

/// An entry read back before its expiry gives the images that were written;
/// an entry read back at or after its expiry is gone.
pub proof fn lemma_read_after_write(
    before: Map<Seq<char>, (Seq<Image>, u128)>,
    key: Seq<char>,
    images: Seq<Image>,
    expires_at_ms: u128,
    now_ms: u128,
    after: Map<Seq<char>, (Seq<Image>, u128)>,
    r: Option<Vec<Image>>,
)
    requires
        lookup_outcome(before.insert(key, (images, expires_at_ms)), after, key, now_ms, r),
    ensures
        now_ms < expires_at_ms ==> (r matches Some(v) && v@ == images),
        now_ms >= expires_at_ms ==> r is None && !after.contains_key(key),
{
}

/// The jitter keeps every expiry within `jitter` seconds of the base TTL.
pub proof fn lemma_expiry_window(now_ms: u128, base_ttl_secs: u64, jitter_secs: u64, offset: u64)
    requires
        ttl_settings_ok(base_ttl_secs, jitter_secs),
        offset_ok(jitter_secs, offset),
    ensures
        now_ms + (base_ttl_secs - jitter_secs) * 1000 <= expiry(now_ms, base_ttl_secs, jitter_secs, offset),
        expiry(now_ms, base_ttl_secs, jitter_secs, offset) <= now_ms + (base_ttl_secs + jitter_secs) * 1000,
{
}

} // verus!
