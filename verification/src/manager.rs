//! Decisions of the resource manager: padding image grids with generated
//! artwork, falling back when the pool runs dry, and what a Commons fetch
//! leaves in the cache. The fetches themselves are made by the server.

use vstd::prelude::*;
use crate::image::Image;
use crate::text::{append_str, decimal, u64_to_decimal};

verus! {

/// The upper-case hexadecimal digit for `d < 16`.
pub open spec fn hex_upper(d: nat) -> char {
    if d < 10 { ((d + 48) as u32) as char } else { ((d + 55) as u32) as char }
}

/// ASCII letters and digits.
pub open spec fn is_ascii_alnum(b: u8) -> bool {
    (48 <= b <= 57) || (65 <= b <= 90) || (97 <= b <= 122)
}

/// One byte under the NON_ALPHANUMERIC set: letters and digits stay, every
/// other byte becomes `%` and two upper-case hex digits.
pub open spec fn encode_byte(b: u8) -> Seq<char> {
    if is_ascii_alnum(b) {
        seq![(b as u32) as char]
    } else {
        seq!['%', hex_upper((b / 16) as nat), hex_upper((b % 16) as nat)]
    }
}

/// Percent-encoding of a byte string with the NON_ALPHANUMERIC set.
pub open spec fn percent_encoded(bytes: Seq<u8>) -> Seq<char>
    decreases bytes.len(),
{
    if bytes.len() == 0 {
        Seq::empty()
    } else {
        percent_encoded(bytes.drop_last()) + encode_byte(bytes.last())
    }
}

/// Percent-encodes the UTF-8 bytes of a text.
///
/// Trusted: calls `percent_encoding::utf8_percent_encode` with
/// `NON_ALPHANUMERIC` and collects the pieces. As the crate's source shows,
/// every byte outside `[A-Za-z0-9]` (all non-ASCII bytes included) becomes
/// `%XX` in upper-case hex and every other byte is kept; the contract states
/// exactly that.
#[verifier::external_body]
fn percent_encode_non_alphanumeric(s: &str) -> (r: String)
    ensures
        r@ == percent_encoded(vstd::utf8::encode_utf8(s@)),
{
    percent_encoding::utf8_percent_encode(s, percent_encoding::NON_ALPHANUMERIC).to_string()
}

/// The colour of fallback number `seed`.
pub open spec fn hue(seed: nat) -> Seq<char> {
    let k = seed % 5;
    if k == 0 { "#38bdf8"@ } else if k == 1 { "#34d399"@ } else if k == 2 { "#fbbf24"@ } else if k == 3 { "#f472b6"@ } else { "#a78bfa"@ }
}

/// The horizontal position of the circle of fallback number `seed`.
pub open spec fn circle_x(seed: nat) -> nat {
    100 + (seed * 97) % 600
}

/// The SVG drawing of fallback number `seed` with the given label.
pub open spec fn fallback_svg(label: Seq<char>, seed: nat) -> Seq<char> {
    "<svg xmlns='http://www.w3.org/2000/svg' width='800' height='600'><rect width='100%' height='100%' fill='#0f172a'/><rect x='20' y='20' width='760' height='560' rx='24' fill='#1e293b'/><circle cx='"@
        + decimal(circle_x(seed))
        + "' cy='260' r='120' fill='"@
        + hue(seed)
        + "' opacity='0.4'/><path d='M180 440C260 330, 540 330, 620 440' stroke='#facc15' stroke-width='12' fill='none'/><text x='400' y='290' font-family='Arial, sans-serif' font-size='34' text-anchor='middle' fill='#f8fafc'>"@
        + label
        + "</text></svg>"@
}

/// The data URL of fallback number `seed`.
pub open spec fn fallback_url(label: Seq<char>, seed: nat) -> Seq<char> {
    "data:image/svg+xml;charset=UTF-8,"@ + percent_encoded(vstd::utf8::encode_utf8(fallback_svg(label, seed)))
}

/// `img` is fallback number `seed`: an 800x600 generated drawing.
pub open spec fn is_fallback(img: Image, label: Seq<char>, seed: nat) -> bool {
    &&& img.url@ == fallback_url(label, seed)
    &&& img.thumb_url@ == fallback_url(label, seed)
    &&& img.width == 800
    &&& img.height == 600
}

fn hue_str(seed: usize) -> (s: &'static str)
    ensures
        s@ == hue(seed as nat),
{
    let k = seed % 5;
    if k == 0 { "#38bdf8" } else if k == 1 { "#34d399" } else if k == 2 { "#fbbf24" } else if k == 3 { "#f472b6" } else { "#a78bfa" }
}

/// A generated fallback image. `seed` varies the artwork; `label` is the
/// text written on it (the location, rounded to whole degrees).
pub fn fallback_image(label: &str, seed: usize) -> (img: Image)
    requires
        seed * 97 <= usize::MAX,
    ensures
        is_fallback(img, label@, seed as nat),
{
    let cx: usize = 100 + (seed * 97) % 600;
    let mut svg = String::from_str(
        "<svg xmlns='http://www.w3.org/2000/svg' width='800' height='600'><rect width='100%' height='100%' fill='#0f172a'/><rect x='20' y='20' width='760' height='560' rx='24' fill='#1e293b'/><circle cx='",
    );
    let cx_text = u64_to_decimal(cx as u64);
    append_str(&mut svg, cx_text.as_str());
    append_str(&mut svg, "' cy='260' r='120' fill='");
    append_str(&mut svg, hue_str(seed));
    append_str(
        &mut svg,
        "' opacity='0.4'/><path d='M180 440C260 330, 540 330, 620 440' stroke='#facc15' stroke-width='12' fill='none'/><text x='400' y='290' font-family='Arial, sans-serif' font-size='34' text-anchor='middle' fill='#f8fafc'>",
    );
    append_str(&mut svg, label);
    append_str(&mut svg, "</text></svg>");
    let encoded = percent_encode_non_alphanumeric(svg.as_str());
    let mut data_url = String::from_str("data:image/svg+xml;charset=UTF-8,");
    append_str(&mut data_url, encoded.as_str());
    Image { url: data_url.clone(), thumb_url: data_url, width: 800, height: 600 }
}

/// A grid of exactly `count` images: the first `count` of `images`, then
/// fallbacks numbered by their position until the grid is full.
pub open spec fn padded(images: Seq<Image>, count: nat, label: Seq<char>, out: Seq<Image>) -> bool {
    &&& out.len() == count
    &&& forall|i: int| 0 <= i < count && i < images.len() ==> out[i] == images[i]
    &&& forall|i: int| images.len() <= i < count ==> is_fallback(#[trigger] out[i], label, i as nat)
}

/// Normalizes a set of images to exactly `count` entries: truncates when
/// there are too many, appends distinct generated fallbacks when too few.
pub fn pad_images(images: Vec<Image>, count: usize, label: &str) -> (r: Vec<Image>)
    requires
        count * 97 <= usize::MAX,
    ensures
        padded(images@, count as nat, label@, r@),
{
    let ghost orig = images@;
    let mut images = images;
    if images.len() > count {
        images.truncate(count);
    }
    while images.len() < count
        invariant
            count * 97 <= usize::MAX,
            images@.len() <= count,
            forall|i: int| 0 <= i < count && i < orig.len() ==> images@[i] == orig[i],
            orig.len() < count ==> images@.len() >= orig.len(),
            orig.len() >= count ==> images@.len() == count,
            forall|i: int| orig.len() <= i < images@.len() ==> is_fallback(#[trigger] images@[i], label@, i as nat),
        decreases count - images@.len(),
    {
        let seed = images.len();
        let fallback = fallback_image(label, seed);
        images.push(fallback);
    }
    images
}

/// What the server does when it needs a round.
pub enum NextLocation<C> {
    /// The pool had one.
    Ready(crate::pool::PreparedRound<C>),
    /// Wait a little and ask again.
    Wait,
    /// Give up waiting and play the emergency round.
    Emergency,
}

/// Number of half-second waits for the pool before the emergency round.
pub const MAX_POOL_WAITS: u32 = 20;

/// One step of waiting for a round: take one from the pool if there is one;
/// otherwise wait, unless `attempts` waits have already been made.
pub fn next_location_step<C>(pool: &mut crate::pool::LocationPool<C>, attempts: u32) -> (r: NextLocation<C>)
    ensures
        old(pool)@.len() > 0 ==> r == NextLocation::Ready(old(pool)@[0]) && final(pool)@ == old(pool)@.drop_first(),
        old(pool)@.len() == 0 ==> final(pool)@ == old(pool)@
            && r == if attempts >= MAX_POOL_WAITS { NextLocation::<C>::Emergency } else { NextLocation::<C>::Wait },
{
    match pool.pop() {
        Some(pr) => NextLocation::Ready(pr),
        None => if attempts >= MAX_POOL_WAITS { NextLocation::Emergency } else { NextLocation::Wait },
    }
}

/// The round played when the pool stays empty: item `Q_EMERGENCY` at the
/// given coordinate, with a full grid of fallback images.
pub fn emergency_round<C: Copy>(coordinate: C, images_per_round: usize, label: &str) -> (r: crate::pool::PreparedRound<C>)
    requires
        images_per_round * 97 <= usize::MAX,
    ensures
        r.location.item_id.0@ == "Q_EMERGENCY"@,
        r.location.coordinate == coordinate,
        padded(Seq::empty(), images_per_round as nat, label@, r.images@),
{
    let location = crate::coordinates::Location::new(
        crate::coordinates::ItemId::new(String::from_str("Q_EMERGENCY")),
        coordinate,
    );
    let images = pad_images(Vec::new(), images_per_round, label);
    crate::pool::PreparedRound { location, images }
}

/// Whether the pool should be refilled.
pub fn needs_refill(pool_len: usize, threshold: usize) -> (b: bool)
    ensures
        b == (pool_len < threshold),
{
    pool_len < threshold
}

/// The refill worker's next wait after a failed batch: double, at most 60 seconds.
pub fn next_refill_backoff(secs: u64) -> (r: u64)
    ensures
        r == if 2 * secs < 60 { 2 * secs } else { 60 },
{
    if secs >= 30 { 60 } else { 2 * secs }
}


/// The images of an item after asking Commons: the fetched images (none if
/// the request failed), padded to a full grid; a successful answer, even an
/// empty one, is cached, a failed request is not.
pub fn images_after_fetch(
    cache: &mut crate::cache::ImageCache,
    item_id: &crate::coordinates::ItemId,
    fetched: Option<Vec<Image>>,
    images_per_round: usize,
    label: &str,
) -> (r: Vec<Image>)
    requires
        old(cache).wf(),
        images_per_round * 97 <= usize::MAX,
    ensures
        final(cache).wf(),
        padded(match fetched { Some(v) => v@, None => Seq::empty() }, images_per_round as nat, label@, r@),
        fetched is None ==> final(cache).contents() == old(cache).contents(),
        fetched is Some ==> exists|now_ms: u128, offset: u64|
            crate::cache::offset_ok(old(cache).jitter(), offset) && final(cache).contents() == old(cache).contents().insert(
                item_id.0@,
                (r@, crate::cache::expiry(now_ms, old(cache).base_ttl(), old(cache).jitter(), offset) as u128),
            ),
{
    let cacheable = fetched.is_some();
    let images = match fetched {
        Some(v) => v,
        None => Vec::new(),
    };
    let padded_images = pad_images(images, images_per_round, label);
    if cacheable {
        cache.insert(item_id, crate::image::clone_images(&padded_images));
    }
    padded_images
}

/// Percent-encoding read from the front: the first byte's code, then the
/// rest's.
proof fn lemma_percent_front(bytes: Seq<u8>)
    requires
        bytes.len() > 0,
    ensures
        percent_encoded(bytes) == encode_byte(bytes[0]) + percent_encoded(bytes.drop_first()),
    decreases bytes.len(),
{
    if bytes.len() == 1 {
        assert(bytes.drop_last() =~= Seq::<u8>::empty());
        assert(bytes.drop_first() =~= Seq::<u8>::empty());
        assert(percent_encoded(bytes.drop_last()) =~= Seq::<char>::empty());
        assert(percent_encoded(bytes.drop_first()) =~= Seq::<char>::empty());
        assert(percent_encoded(bytes) =~= encode_byte(bytes[0]));
    } else {
        let init = bytes.drop_last();
        lemma_percent_front(init);
        assert(init.drop_first() =~= bytes.drop_first().drop_last());
        assert(bytes.drop_first().last() == bytes.last());
        assert(percent_encoded(bytes) =~= encode_byte(bytes[0]) + percent_encoded(bytes.drop_first()));
    }
}

/// Percent-encoding loses nothing: different byte strings have different
/// encodings.
proof fn lemma_percent_injective(x: Seq<u8>, y: Seq<u8>)
    requires
        percent_encoded(x) == percent_encoded(y),
    ensures
        x == y,
    decreases x.len(),
{
    if x.len() == 0 {
        if y.len() > 0 {
            lemma_percent_front(y);
            assert(percent_encoded(y).len() > 0);
        }
        assert(x =~= y);
    } else if y.len() == 0 {
        lemma_percent_front(x);
        assert(percent_encoded(x).len() > 0);
    } else {
        lemma_percent_front(x);
        lemma_percent_front(y);
        let ex = encode_byte(x[0]);
        let ey = encode_byte(y[0]);
        let p = percent_encoded(x);
        assert(p[0] == ex[0]);
        assert(p[0] == ey[0]);
        if is_ascii_alnum(x[0]) && is_ascii_alnum(y[0]) {
            assert(x[0] == y[0]);
        } else if !is_ascii_alnum(x[0]) && !is_ascii_alnum(y[0]) {
            assert(p[1] == ex[1] && p[1] == ey[1]);
            assert(p[2] == ex[2] && p[2] == ey[2]);
            assert(x[0] / 16 == y[0] / 16);
            assert(x[0] % 16 == y[0] % 16);
            assert(x[0] == y[0]);
        } else {
            assert(false);
        }
        assert(ex == ey);
        assert(percent_encoded(x.drop_first()) =~= p.skip(ex.len() as int));
        assert(percent_encoded(y.drop_first()) =~= p.skip(ey.len() as int));
        lemma_percent_injective(x.drop_first(), y.drop_first());
        assert(x =~= seq![x[0]] + x.drop_first());
        assert(y =~= seq![y[0]] + y.drop_first());
    }
}

/// The three digits of a number from 100 to 999.
proof fn lemma_three_digits(n: nat)
    requires
        100 <= n < 1000,
    ensures
        decimal(n) == seq![
            crate::text::digit_char(n / 100),
            crate::text::digit_char((n / 10) % 10),
            crate::text::digit_char(n % 10),
        ],
{
    reveal_with_fuel(decimal, 3);
    assert((n / 10) / 10 == n / 100);
    assert(decimal(n / 100) =~= seq![crate::text::digit_char(n / 100)]);
    assert(decimal(n) =~= seq![
        crate::text::digit_char(n / 100),
        crate::text::digit_char((n / 10) % 10),
        crate::text::digit_char(n % 10),
    ]);
}

/// Fallbacks whose numbers differ modulo 600 put their circles at
/// different places (97 is invertible modulo 600: 97 * 433 = 70 * 600 + 1).
proof fn lemma_circle_x_distinct(i: nat, j: nat)
    requires
        i % 600 != j % 600,
    ensures
        circle_x(i) != circle_x(j),
{
    let a = 97 * i;
    let b = 97 * j;
    if a % 600 == b % 600 {
        let m = a / 600 - b / 600;
        assert(a == 600 * (a / 600) + a % 600);
        assert(b == 600 * (b / 600) + b % 600);
        let d = i - j;
        assert(97 * d == 600 * m);
        let t = 433 * m - 70 * d;
        assert(d == 600 * t);
        assert(i == 600 * (i / 600) + i % 600);
        assert(j == 600 * (j / 600) + j % 600);
        assert(600 * (i / 600 - j / 600 - t) == j % 600 - i % 600);
        assert(false);
    }
}

/// Fallback numbers that differ modulo 600 give different drawings.
proof fn lemma_svg_distinct(label: Seq<char>, i: nat, j: nat)
    requires
        i % 600 != j % 600,
    ensures
        fallback_svg(label, i) != fallback_svg(label, j),
{
    lemma_circle_x_distinct(i, j);
    let ci = circle_x(i);
    let cj = circle_x(j);
    lemma_three_digits(ci);
    lemma_three_digits(cj);
    let di = decimal(ci);
    let dj = decimal(cj);
    let pre = "<svg xmlns='http://www.w3.org/2000/svg' width='800' height='600'><rect width='100%' height='100%' fill='#0f172a'/><rect x='20' y='20' width='760' height='560' rx='24' fill='#1e293b'/><circle cx='"@;
    let si = fallback_svg(label, i);
    let sj = fallback_svg(label, j);
    let k: int = if di[0] != dj[0] { 0 } else if di[1] != dj[1] { 1 } else { 2 };
    if di[0] == dj[0] && di[1] == dj[1] && di[2] == dj[2] {
        assert(ci / 100 == cj / 100);
        assert((ci / 10) % 10 == (cj / 10) % 10);
        assert(ci % 10 == cj % 10);
        assert(ci == 100 * (ci / 100) + 10 * ((ci / 10) % 10) + ci % 10);
        assert(cj == 100 * (cj / 100) + 10 * ((cj / 10) % 10) + cj % 10);
        assert(false);
    }
    assert(si[pre.len() + k] == di[k]);
    assert(sj[pre.len() + k] == dj[k]);
}

/// Fallback numbers that agree modulo 600 give the same drawing.
proof fn lemma_same_fallback(label: Seq<char>, i: nat, j: nat)
    requires
        i % 600 == j % 600,
    ensures
        fallback_url(label, i) == fallback_url(label, j),
{
    vstd::arithmetic::div_mod::lemma_mul_mod_noop_right(97, i as int, 600);
    vstd::arithmetic::div_mod::lemma_mul_mod_noop_right(97, j as int, 600);
    vstd::arithmetic::div_mod::lemma_mod_mod(i as int, 5, 120);
    vstd::arithmetic::div_mod::lemma_mod_mod(j as int, 5, 120);
    assert(circle_x(i) == circle_x(j));
    assert(i % 5 == j % 5);
    assert(hue(i) == hue(j));
    assert(fallback_svg(label, i) == fallback_svg(label, j));
}

/// The fallbacks of one grid are distinct: two fallbacks have the same
/// image exactly when their numbers agree modulo 600, so the fallbacks of
/// any grid of at most 600 tiles are pairwise distinct.
pub proof fn lemma_fallbacks_distinct(label: Seq<char>, i: nat, j: nat)
    ensures
        (fallback_url(label, i) == fallback_url(label, j)) <==> (i % 600 == j % 600),
{
    if i % 600 == j % 600 {
        lemma_same_fallback(label, i, j);
    } else {
        lemma_fallbacks_differ(label, i, j);
    }
}

/// Fallbacks whose numbers differ modulo 600 have different images.
proof fn lemma_fallbacks_differ(label: Seq<char>, i: nat, j: nat)
    requires
        i % 600 != j % 600,
    ensures
        fallback_url(label, i) != fallback_url(label, j),
{
    broadcast use vstd::utf8::encode_utf8_decode_utf8;
    lemma_svg_distinct(label, i, j);
    let head = "data:image/svg+xml;charset=UTF-8,"@;
    let ei = vstd::utf8::encode_utf8(fallback_svg(label, i));
    let ej = vstd::utf8::encode_utf8(fallback_svg(label, j));
    if fallback_url(label, i) == fallback_url(label, j) {
        assert(percent_encoded(ei) =~= fallback_url(label, i).skip(head.len() as int));
        assert(percent_encoded(ej) =~= fallback_url(label, j).skip(head.len() as int));
        lemma_percent_injective(ei, ej);
        assert(vstd::utf8::decode_utf8(ei) == fallback_svg(label, i));
        assert(vstd::utf8::decode_utf8(ej) == fallback_svg(label, j));
    }
}

} // verus!
