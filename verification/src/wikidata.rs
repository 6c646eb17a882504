//! The Wikidata side of the location pool: the SPARQL query for a random
//! batch of places, and reading the item ids and coordinate texts out of
//! the query's result rows.

use vstd::prelude::*;
use crate::coordinates::ItemId;
use crate::text::{append_str, chars_of, decimal, occurs_at, str_equal, string_from_chars, u64_to_decimal};

verus! {

/// Batches start at a random offset below this, so that pools differ.
pub const MAX_OFFSET: usize = 5000;

/// Curated Wikidata place classes (`wdt:P31`) eligible for the game.
pub open spec fn place_classes_spec() -> Seq<Seq<char>> {
    seq![
        "wd:Q486972"@, "wd:Q131681"@, "wd:Q515"@, "wd:Q3957"@, "wd:Q532"@, "wd:Q5084"@, "wd:Q15284"@,
        "wd:Q8502"@, "wd:Q47521"@, "wd:Q23397"@, "wd:Q4022"@, "wd:Q1287518"@, "wd:Q35509"@,
        "wd:Q16970"@, "wd:Q46831"@, "wd:Q233591"@, "wd:Q37893"@, "wd:Q1002697"@, "wd:Q47566"@,
        "wd:Q41253"@, "wd:Q47059"@, "wd:Q46169"@, "wd:Q23413"@, "wd:Q33506"@, "wd:Q39715"@,
    ]
}

/// Curated Wikidata place classes (`wdt:P31`) eligible for the game:
/// settlements, natural features and landmarks.
pub fn place_classes() -> (v: Vec<&'static str>)
    ensures
        v@.map_values(|t: &str| t@) == place_classes_spec(),
{
    let v = vec![
        "wd:Q486972", "wd:Q131681", "wd:Q515", "wd:Q3957", "wd:Q532", "wd:Q5084", "wd:Q15284",
        "wd:Q8502", "wd:Q47521", "wd:Q23397", "wd:Q4022", "wd:Q1287518", "wd:Q35509",
        "wd:Q16970", "wd:Q46831", "wd:Q233591", "wd:Q37893", "wd:Q1002697", "wd:Q47566",
        "wd:Q41253", "wd:Q47059", "wd:Q46169", "wd:Q23413", "wd:Q33506", "wd:Q39715",
    ];
    assert(v@.map_values(|t: &str| t@) =~= place_classes_spec());
    v
}

/// The texts joined with the separator between them.
pub open spec fn joined(parts: Seq<Seq<char>>, sep: Seq<char>) -> Seq<char>
    decreases parts.len(),
{
    if parts.len() == 0 {
        Seq::empty()
    } else if parts.len() == 1 {
        parts[0]
    } else {
        joined(parts.drop_last(), sep) + sep + parts.last()
    }
}

/// The SPARQL query for a batch: places of the curated classes with an
/// image (`P18`) and coordinates (`P625`), without DISTINCT (duplicates are
/// removed when reading the rows), at the given LIMIT and OFFSET.
pub open spec fn sparql_query_spec(batch_size: nat, offset: nat) -> Seq<char> {
    "\n            SELECT ?item ?location WHERE {\n                VALUES ?placeClass {\n                    "@
        + joined(place_classes_spec(), "\n                    "@)
        + "\n                }\n                ?item wdt:P31 ?placeClass.\n                ?item wdt:P625 ?location.\n                ?item wdt:P18 ?image.\n            }\n            LIMIT "@
        + decimal(batch_size)
        + "\n            OFFSET "@
        + decimal(offset)
        + "\n            "@
}

/// Where part `i` stands in the joined text: it starts at the returned
/// position, is preceded by the separator's last character (unless it is
/// the first part) and followed by the separator's first character (unless
/// it is the last part, which ends the text).
proof fn lemma_joined_part(parts: Seq<Seq<char>>, sep: Seq<char>, i: int) -> (p: int)
    requires
        0 <= i < parts.len(),
        sep.len() > 0,
    ensures
        0 <= p,
        p + parts[i].len() <= joined(parts, sep).len(),
        joined(parts, sep).subrange(p, p + parts[i].len()) == parts[i],
        i == 0 ==> p == 0,
        i > 0 ==> p >= 1 && joined(parts, sep)[p - 1] == sep.last(),
        i + 1 < parts.len() ==> joined(parts, sep)[p + parts[i].len()] == sep[0],
        i + 1 == parts.len() ==> p + parts[i].len() == joined(parts, sep).len(),
    decreases parts.len(),
{
    if parts.len() == 1 {
        assert(joined(parts, sep).subrange(0, parts[0].len() as int) =~= parts[0]);
        0
    } else {
        let init = parts.drop_last();
        let j0 = joined(init, sep);
        let whole = joined(parts, sep);
        assert(whole == j0 + sep + parts.last());
        if i == parts.len() - 1 {
            let p: int = (j0.len() + sep.len()) as int;
            assert(whole.subrange(p, p + parts[i].len()) =~= parts[i]);
            assert(whole[p - 1] == sep[sep.len() - 1]);
            p
        } else {
            let p = lemma_joined_part(init, sep, i);
            assert(init[i] == parts[i]);
            assert(whole.subrange(p, p + parts[i].len()) =~= j0.subrange(p, p + parts[i].len()));
            if i > 0 {
                assert(whole[p - 1] == j0[p - 1]);
            }
            if i + 1 < init.len() {
                assert(whole[p + parts[i].len()] == j0[p + parts[i].len()]);
            } else {
                assert(whole[p + parts[i].len()] == sep[0]);
            }
            p
        }
    }
}

/// Every place class stands in the query as a separate word: preceded by a
/// space and followed by a line break.
pub proof fn lemma_query_lists_each_class(batch_size: nat, offset: nat)
    ensures
        forall|i: int| #![trigger place_classes_spec()[i]] 0 <= i < place_classes_spec().len() ==> exists|p: int| {
            &&& 1 <= p
            &&& p + place_classes_spec()[i].len() < sparql_query_spec(batch_size, offset).len()
            &&& #[trigger] sparql_query_spec(batch_size, offset).subrange(p, p + place_classes_spec()[i].len()) == place_classes_spec()[i]
            &&& sparql_query_spec(batch_size, offset)[p - 1] == ' '
            &&& sparql_query_spec(batch_size, offset)[p + place_classes_spec()[i].len()] == '\n'
        },
{
    let head = "\n            SELECT ?item ?location WHERE {\n                VALUES ?placeClass {\n                    "@;
    let sep = "\n                    "@;
    let tail = "\n                }\n                ?item wdt:P31 ?placeClass.\n                ?item wdt:P625 ?location.\n                ?item wdt:P18 ?image.\n            }\n            LIMIT "@
        + decimal(batch_size)
        + "\n            OFFSET "@
        + decimal(offset)
        + "\n            "@;
    reveal_strlit("\n            SELECT ?item ?location WHERE {\n                VALUES ?placeClass {\n                    ");
    reveal_strlit("\n                    ");
    reveal_strlit("\n                }\n                ?item wdt:P31 ?placeClass.\n                ?item wdt:P625 ?location.\n                ?item wdt:P18 ?image.\n            }\n            LIMIT ");
    let classes = place_classes_spec();
    let body = joined(classes, sep);
    let q = sparql_query_spec(batch_size, offset);
    assert(q =~= head + body + tail);
    assert(sep.len() > 0 && sep[0] == '\n' && sep.last() == ' ');
    assert(head.last() == ' ');
    assert(tail[0] == '\n');
    assert forall|i: int| #![trigger classes[i]] 0 <= i < classes.len() implies exists|p: int| {
        &&& 1 <= p
        &&& p + classes[i].len() < q.len()
        &&& #[trigger] q.subrange(p, p + classes[i].len()) == classes[i]
        &&& q[p - 1] == ' '
        &&& q[p + classes[i].len()] == '\n'
    } by {
        let k = lemma_joined_part(classes, sep, i);
        let p: int = head.len() + k;
        assert(q.subrange(p, p + classes[i].len()) =~= body.subrange(k, k + classes[i].len()));
        if i == 0 {
            assert(q[p - 1] == head[head.len() - 1]);
        } else {
            assert(q[p - 1] == body[k - 1]);
        }
        if i + 1 < classes.len() {
            assert(q[p + classes[i].len()] == body[k + classes[i].len()]);
        } else {
            assert(q[p + classes[i].len()] == tail[0]);
        }
        assert(q.subrange(p, p + classes[i].len()) == classes[i]);
    }
}

/// Builds the SPARQL query for a random batch of place locations.
pub fn sparql_query(batch_size: usize, offset: usize) -> (q: String)
    ensures
        q@ == sparql_query_spec(batch_size as nat, offset as nat),
{
    let classes = place_classes();
    let ghost all = classes@.map_values(|t: &str| t@);
    let mut q = String::from_str(
        "\n            SELECT ?item ?location WHERE {\n                VALUES ?placeClass {\n                    ",
    );
    let ghost head = q@;
    let mut i: usize = 0;
    while i < classes.len()
        invariant
            all == classes@.map_values(|t: &str| t@),
            0 <= i <= classes@.len(),
            q@ == head + joined(all.take(i as int), "\n                    "@),
        decreases classes@.len() - i,
    {
        let ghost before = q@;
        if i > 0 {
            append_str(&mut q, "\n                    ");
        }
        append_str(&mut q, classes[i]);
        proof {
            let t = all.take(i + 1);
            assert(t.drop_last() =~= all.take(i as int));
            assert(t.last() == classes@[i as int]@);
            if i == 0 {
                assert(t.len() == 1);
                assert(joined(all.take(0), "\n                    "@) =~= Seq::<char>::empty());
                assert(q@ =~= head + joined(t, "\n                    "@));
            } else {
                assert(q@ =~= head + joined(t, "\n                    "@));
            }
        }
        i = i + 1;
    }
    assert(all.take(classes@.len() as int) =~= all);
    append_str(
        &mut q,
        "\n                }\n                ?item wdt:P31 ?placeClass.\n                ?item wdt:P625 ?location.\n                ?item wdt:P18 ?image.\n            }\n            LIMIT ",
    );
    let b = u64_to_decimal(batch_size as u64);
    append_str(&mut q, b.as_str());
    append_str(&mut q, "\n            OFFSET ");
    let o = u64_to_decimal(offset as u64);
    append_str(&mut q, o.as_str());
    append_str(&mut q, "\n            ");
    q
}

/// The query for a batch of `batch_size` places at a random offset below
/// `MAX_OFFSET`.
pub fn batch_query(batch_size: usize) -> (q: String)
    ensures
        exists|offset: nat| offset < MAX_OFFSET && q@ == sparql_query_spec(batch_size as nat, offset),
{
    let offset = crate::cache::random_below(MAX_OFFSET as u64);
    sparql_query(batch_size, offset as usize)
}


/// Unicode white space (what `char::is_whitespace` accepts).
pub open spec fn is_white(c: char) -> bool {
    c == '\t' || c == '\n' || c == '\u{b}' || c == '\u{c}' || c == '\r' || c == ' ' || c == '\u{85}'
        || c == '\u{a0}' || c == '\u{1680}' || ('\u{2000}' <= c && c <= '\u{200a}') || c == '\u{2028}'
        || c == '\u{2029}' || c == '\u{202f}' || c == '\u{205f}' || c == '\u{3000}'
}

fn is_white_char(c: char) -> (b: bool)
    ensures
        b == is_white(c),
{
    c == '\t' || c == '\n' || c == '\u{b}' || c == '\u{c}' || c == '\r' || c == ' ' || c == '\u{85}'
        || c == '\u{a0}' || c == '\u{1680}' || ('\u{2000}' <= c && c <= '\u{200a}') || c == '\u{2028}'
        || c == '\u{2029}' || c == '\u{202f}' || c == '\u{205f}' || c == '\u{3000}'
}

/// The text after the last `c` (all of it when there is none): the first
/// piece of `rsplit(c)`.
pub open spec fn after_last(s: Seq<char>, c: char) -> Seq<char>
    decreases s.len(),
{
    if s.len() == 0 {
        s
    } else if s.last() == c {
        Seq::empty()
    } else {
        after_last(s.drop_last(), c).push(s.last())
    }
}

/// The first position at or after `from` where `pat` occurs.
#[verifier::opaque]
pub open spec fn find_from(pat: Seq<char>, s: Seq<char>, from: int) -> Option<int> {
    if exists|i: int| from <= i && occurs_at(pat, s, i) {
        Some(choose|i: int| from <= i && occurs_at(pat, s, i) && forall|j: int| from <= j < i ==> !occurs_at(pat, s, j))
    } else {
        None
    }
}

/// The second piece of `s.split(pat)`: the text between the first and the
/// second occurrence of `pat` (or the end); `None` without an occurrence.
pub open spec fn second_piece(s: Seq<char>, pat: Seq<char>) -> Option<Seq<char>> {
    match find_from(pat, s, 0) {
        None => None,
        Some(p) => {
            let start = p + pat.len();
            match find_from(pat, s, start) {
                Some(q) => Some(s.subrange(start, q)),
                None => Some(s.skip(start)),
            }
        },
    }
}

/// The text without its trailing `)` characters.
pub open spec fn trim_closing(s: Seq<char>) -> Seq<char>
    decreases s.len(),
{
    if s.len() > 0 && s.last() == ')' {
        trim_closing(s.drop_last())
    } else {
        s
    }
}

/// The text without its leading white space.
pub open spec fn skip_white(s: Seq<char>) -> Seq<char>
    decreases s.len(),
{
    if s.len() > 0 && is_white(s[0]) {
        skip_white(s.drop_first())
    } else {
        s
    }
}

/// The length of the leading run of non-white characters.
pub open spec fn word_len(s: Seq<char>) -> nat
    decreases s.len(),
{
    if s.len() > 0 && !is_white(s[0]) {
        1 + word_len(s.drop_first())
    } else {
        0
    }
}

/// The first two white-space separated words, if there are two.
pub open spec fn first_two_words(s: Seq<char>) -> Option<(Seq<char>, Seq<char>)> {
    let t1 = skip_white(s);
    if t1.len() == 0 {
        None
    } else {
        let w1 = t1.take(word_len(t1) as int);
        let t2 = skip_white(t1.skip(word_len(t1) as int));
        if t2.len() == 0 {
            None
        } else {
            Some((w1, t2.take(word_len(t2) as int)))
        }
    }
}

/// What a result row yields: the item id (after the last `/` of the item
/// URI) and, from the WKT value `Point(longitude latitude)` (possibly after a
/// reference-system prefix), the texts of the longitude and the latitude.
pub open spec fn row_fields(item: Seq<char>, location: Seq<char>) -> Option<(Seq<char>, Seq<char>, Seq<char>)> {
    match second_piece(location, "Point("@) {
        None => None,
        Some(point) => match first_two_words(trim_closing(point)) {
            None => None,
            Some(words) => Some((after_last(item, '/'), words.0, words.1)),
        },
    }
}

/// Whether an earlier row has the same item id as row `k`.
pub open spec fn seen_before(rows: Seq<(Seq<char>, Seq<char>)>, k: int) -> bool {
    exists|j: int| 0 <= j < k && after_last(#[trigger] rows[j].0, '/') == after_last(rows[k].0, '/')
}

/// The fields of the rows, in order, keeping only the first row of each
/// item id (a row whose point cannot be read still counts as seen).
pub open spec fn rows_fields(rows: Seq<(Seq<char>, Seq<char>)>) -> Seq<(Seq<char>, Seq<char>, Seq<char>)>
    decreases rows.len(),
{
    if rows.len() == 0 {
        Seq::empty()
    } else {
        let rest = rows_fields(rows.drop_last());
        let k = rows.len() - 1;
        if seen_before(rows, k) {
            rest
        } else {
            match row_fields(rows[k].0, rows[k].1) {
                Some(f) => rest.push(f),
                None => rest,
            }
        }
    }
}

/// One result row of the SPARQL response: the item URI and the WKT point.
pub struct SparqlBinding {
    pub item: String,
    pub location: String,
}

/// A location read from a row, its coordinates still as text.
pub struct LocationFields {
    pub item_id: ItemId,
    pub longitude: String,
    pub latitude: String,
}

/// The texts of a row.
pub open spec fn binding_view(b: SparqlBinding) -> (Seq<char>, Seq<char>) {
    (b.item@, b.location@)
}

/// The texts of a location read from a row.
pub open spec fn fields_view(f: LocationFields) -> (Seq<char>, Seq<char>, Seq<char>) {
    (f.item_id.0@, f.longitude@, f.latitude@)
}

fn subrange_string(v: &Vec<char>, from: usize, to: usize) -> (s: String)
    requires
        from <= to <= v@.len(),
    ensures
        s@ == v@.subrange(from as int, to as int),
{
    let mut out: Vec<char> = Vec::new();
    let mut i: usize = from;
    while i < to
        invariant
            from <= i <= to <= v@.len(),
            out@ == v@.subrange(from as int, i as int),
        decreases to - i,
    {
        out.push(v[i]);
        assert(v@.subrange(from as int, i + 1) =~= v@.subrange(from as int, i as int).push(v@[i as int]));
        i = i + 1;
    }
    string_from_chars(&out)
}

proof fn lemma_after_last_found(s: Seq<char>, c: char, p: int)
    requires
        0 <= p < s.len(),
        s[p] == c,
        forall|k: int| p < k < s.len() ==> s[k] != c,
    ensures
        after_last(s, c) == s.skip(p + 1),
    decreases s.len(),
{
    if s.len() - 1 == p {
        assert(s.skip(p + 1) =~= Seq::<char>::empty());
    } else {
        lemma_after_last_found(s.drop_last(), c, p);
        assert(s.skip(p + 1) =~= s.drop_last().skip(p + 1).push(s.last()));
    }
}

proof fn lemma_after_last_none(s: Seq<char>, c: char)
    requires
        forall|k: int| 0 <= k < s.len() ==> s[k] != c,
    ensures
        after_last(s, c) == s,
    decreases s.len(),
{
    if s.len() > 0 {
        lemma_after_last_none(s.drop_last(), c);
        assert(s.drop_last().push(s.last()) =~= s);
    }
}

/// The text after the last `/`.
fn item_id_of(v: &Vec<char>) -> (s: String)
    ensures
        s@ == after_last(v@, '/'),
{
    let mut i: usize = v.len();
    while i > 0
        invariant
            0 <= i <= v@.len(),
            forall|k: int| i <= k < v@.len() ==> v@[k] != '/',
        decreases i,
    {
        if v[i - 1] == '/' {
            proof {
                lemma_after_last_found(v@, '/', i - 1);
            }
            assert(v@.skip(i as int) =~= v@.subrange(i as int, v@.len() as int));
            return subrange_string(v, i, v.len());
        }
        i = i - 1;
    }
    proof {
        lemma_after_last_none(v@, '/');
    }
    assert(v@.subrange(0, v@.len() as int) =~= v@);
    subrange_string(v, 0, v.len())
}

/// The first occurrence of `pat` at or after `from`.
fn find_from_exec(s: &Vec<char>, pat: &Vec<char>, from: usize) -> (r: Option<usize>)
    requires
        from <= s@.len(),
    ensures
        match r {
            Some(i) => find_from(pat@, s@, from as int) == Some(i as int) && from <= i && occurs_at(pat@, s@, i as int),
            None => find_from(pat@, s@, from as int) is None,
        },
{
    reveal(find_from);
    if pat.len() > s.len() - from {
        assert forall|i: int| from <= i implies !occurs_at(pat@, s@, i) by {}
        return None;
    }
    let last = s.len() - pat.len();
    let mut i: usize = from;
    loop
        invariant
            last == s@.len() - pat@.len(),
            from <= i <= last,
            forall|k: int| from <= k < i ==> !occurs_at(pat@, s@, k),
        ensures
            forall|k: int| from <= k <= last ==> !occurs_at(pat@, s@, k),
        decreases last - i,
    {
        if crate::text::matches_at(s, pat, i) {
            assert(from <= i && occurs_at(pat@, s@, i as int) && forall|k: int| from <= k < i ==> !occurs_at(pat@, s@, k));
            assert(exists|j: int| from <= j && occurs_at(pat@, s@, j));
            let ghost c = choose|j: int| from <= j && occurs_at(pat@, s@, j) && forall|k: int| from <= k < j ==> !occurs_at(pat@, s@, k);
            assert(from <= c && occurs_at(pat@, s@, c) && forall|k: int| from <= k < c ==> !occurs_at(pat@, s@, k));
            assert(c == i) by {
                if c < i {
                } else if c > i {
                    assert(!occurs_at(pat@, s@, i as int));
                }
            }
            assert(find_from(pat@, s@, from as int) == Some(i as int)) by {
                reveal(find_from);
            }
            return Some(i);
        }
        if i == last {
            break;
        }
        i = i + 1;
    }
    None
}


/// Where the second piece of `s.split(pat)` lies.
#[verifier::rlimit(40)]
fn second_piece_range(s: &Vec<char>, pat: &Vec<char>) -> (r: Option<(usize, usize)>)
    ensures
        match second_piece(s@, pat@) {
            Some(t) => r matches Some((a, b)) && a <= b <= s@.len() && s@.subrange(a as int, b as int) == t,
            None => r is None,
        },
{
    let p = match find_from_exec(s, pat, 0) {
        Some(p) => p,
        None => {
            return None;
        },
    };
    let n = s.len();
    assert(occurs_at(pat@, s@, p as int));
    assert(p + pat@.len() <= n);
    let start = p + pat.len();
    match find_from_exec(s, pat, start) {
        Some(q) => {
            assert(occurs_at(pat@, s@, q as int));
            Some((start, q))
        },
        None => {
            assert(s@.skip(start as int) =~= s@.subrange(start as int, s@.len() as int));
            Some((start, s.len()))
        },
    }
}

/// Where `trim_closing` of `s[a..b]` ends.
fn trim_closing_end(s: &Vec<char>, a: usize, b: usize) -> (e: usize)
    requires
        a <= b <= s@.len(),
    ensures
        a <= e <= b,
        trim_closing(s@.subrange(a as int, b as int)) == s@.subrange(a as int, e as int),
{
    let mut e = b;
    while e > a && s[e - 1] == ')'
        invariant
            a <= e <= b <= s@.len(),
            trim_closing(s@.subrange(a as int, b as int)) == trim_closing(s@.subrange(a as int, e as int)),
        decreases e,
    {
        assert(s@.subrange(a as int, e as int).drop_last() =~= s@.subrange(a as int, e - 1));
        e = e - 1;
    }
    e
}

/// Where `skip_white` of `s[a..b]` starts.
fn skip_white_from(s: &Vec<char>, a: usize, b: usize) -> (i: usize)
    requires
        a <= b <= s@.len(),
    ensures
        a <= i <= b,
        skip_white(s@.subrange(a as int, b as int)) == s@.subrange(i as int, b as int),
{
    let mut i = a;
    while i < b && is_white_char(s[i])
        invariant
            a <= i <= b <= s@.len(),
            skip_white(s@.subrange(a as int, b as int)) == skip_white(s@.subrange(i as int, b as int)),
        decreases b - i,
    {
        assert(s@.subrange(i as int, b as int).drop_first() =~= s@.subrange(i + 1, b as int));
        i = i + 1;
    }
    i
}

/// Where the word starting at `a` (within `s[a..b]`) ends.
fn word_end(s: &Vec<char>, a: usize, b: usize) -> (e: usize)
    requires
        a <= b <= s@.len(),
    ensures
        a <= e <= b,
        word_len(s@.subrange(a as int, b as int)) == e - a,
{
    let mut e = a;
    while e < b && !is_white_char(s[e])
        invariant
            a <= e <= b <= s@.len(),
            word_len(s@.subrange(a as int, b as int)) == (e - a) + word_len(s@.subrange(e as int, b as int)),
        decreases b - e,
    {
        assert(s@.subrange(e as int, b as int).drop_first() =~= s@.subrange(e + 1, b as int));
        e = e + 1;
    }
    e
}

/// The fields of one result row.
pub fn row_fields_exec(item: &str, location: &str) -> (r: Option<(String, String, String)>)
    ensures
        match row_fields(item@, location@) {
            Some(f) => r matches Some(t) && t.0@ == f.0 && t.1@ == f.1 && t.2@ == f.2,
            None => r is None,
        },
{
    let loc = chars_of(location);
    let pat = chars_of("Point(");
    let (a, b) = match second_piece_range(&loc, &pat) {
        Some(r) => r,
        None => {
            return None;
        },
    };
    let e = trim_closing_end(&loc, a, b);
    let ghost t = loc@.subrange(a as int, e as int);
    let i1 = skip_white_from(&loc, a, e);
    assert(loc@.subrange(a as int, e as int).subrange(i1 - a, e - a) =~= loc@.subrange(i1 as int, e as int));
    if i1 == e {
        return None;
    }
    let e1 = word_end(&loc, i1, e);
    assert(loc@.subrange(i1 as int, e as int).take(e1 - i1) =~= loc@.subrange(i1 as int, e1 as int));
    assert(loc@.subrange(i1 as int, e as int).skip(e1 - i1) =~= loc@.subrange(e1 as int, e as int));
    let i2 = skip_white_from(&loc, e1, e);
    if i2 == e {
        return None;
    }
    let e2 = word_end(&loc, i2, e);
    assert(loc@.subrange(i2 as int, e as int).take(e2 - i2) =~= loc@.subrange(i2 as int, e2 as int));
    let item_chars = chars_of(item);
    let id = item_id_of(&item_chars);
    Some((id, subrange_string(&loc, i1, e1), subrange_string(&loc, i2, e2)))
}

fn chars_equal(x: &Vec<char>, y: &Vec<char>) -> (r: bool)
    ensures
        r == (x@ == y@),
{
    if x.len() != y.len() {
        return false;
    }
    let mut i: usize = 0;
    while i < x.len()
        invariant
            x@.len() == y@.len(),
            0 <= i <= x@.len(),
            forall|k: int| 0 <= k < i ==> x@[k] == y@[k],
        decreases x@.len() - i,
    {
        if x[i] != y[i] {
            return false;
        }
        i = i + 1;
    }
    assert(x@ =~= y@);
    true
}

fn contains_chars(seen: &Vec<Vec<char>>, id: &Vec<char>) -> (r: bool)
    ensures
        r == exists|m: int| 0 <= m < seen@.len() && (#[trigger] seen@[m])@ == id@,
{
    let mut j: usize = 0;
    while j < seen.len()
        invariant
            0 <= j <= seen@.len(),
            forall|m: int| 0 <= m < j ==> (#[trigger] seen@[m])@ != id@,
        decreases seen@.len() - j,
    {
        if chars_equal(&seen[j], id) {
            return true;
        }
        j = j + 1;
    }
    false
}

proof fn lemma_take_step<T>(s: Seq<T>, k: int)
    requires
        0 <= k < s.len(),
    ensures
        s.take(k + 1).drop_last() == s.take(k),
        s.take(k + 1)[k] == s[k],
        s.take(k + 1).len() == k + 1,
{
    assert(s.take(k + 1).drop_last() =~= s.take(k));
}

proof fn lemma_dup_is_seen_before(seen: Seq<Vec<char>>, id: Seq<char>, views: Seq<(Seq<char>, Seq<char>)>, k: int)
    requires
        0 <= k < views.len(),
        seen.len() == k,
        forall|j: int| 0 <= j < k ==> (#[trigger] seen[j])@ == after_last(views[j].0, '/'),
        id == after_last(views[k].0, '/'),
    ensures
        (exists|m: int| 0 <= m < seen.len() && (#[trigger] seen[m])@ == id) == seen_before(views.take(k + 1), k),
{
    let cur = views.take(k + 1);
    if exists|m: int| 0 <= m < seen.len() && (#[trigger] seen[m])@ == id {
        let m = choose|m: int| 0 <= m < seen.len() && (#[trigger] seen[m])@ == id;
        assert(cur[m] == views[m]);
        assert(cur[k] == views[k]);
        assert(after_last(cur[m].0, '/') == after_last(cur[k].0, '/'));
    }
    if seen_before(cur, k) {
        let m = choose|m: int| 0 <= m < k && after_last(#[trigger] cur[m].0, '/') == after_last(cur[k].0, '/');
        assert(cur[m] == views[m]);
        assert(cur[k] == views[k]);
        assert(seen[m]@ == id);
    }
}

/// Reads the item ids and coordinate texts out of the result rows,
/// skipping malformed rows and keeping one row per item (an item can match
/// several place classes).
pub fn parse_bindings(rows: &Vec<SparqlBinding>) -> (r: Vec<LocationFields>)
    ensures
        r@.map_values(|f: LocationFields| fields_view(f)) == rows_fields(rows@.map_values(|b: SparqlBinding| binding_view(b))),
{
    let ghost views = rows@.map_values(|b: SparqlBinding| binding_view(b));
    let mut out: Vec<LocationFields> = Vec::new();
    let mut seen: Vec<Vec<char>> = Vec::new();
    let mut k: usize = 0;
    while k < rows.len()
        invariant
            views == rows@.map_values(|b: SparqlBinding| binding_view(b)),
            0 <= k <= rows@.len(),
            seen@.len() == k,
            forall|j: int| 0 <= j < k ==> (#[trigger] seen@[j])@ == after_last(views[j].0, '/'),
            out@.map_values(|f: LocationFields| fields_view(f)) == rows_fields(views.take(k as int)),
        decreases rows@.len() - k,
    {
        let item_chars = chars_of(rows[k].item.as_str());
        let id_string = item_id_of(&item_chars);
        let id = chars_of(id_string.as_str());
        let dup = contains_chars(&seen, &id);
        let ghost pre = views.take(k as int);
        let ghost cur = views.take(k + 1);
        proof {
            lemma_take_step(views, k as int);
            lemma_dup_is_seen_before(seen@, id@, views, k as int);
        }
        if !dup {
            match row_fields_exec(rows[k].item.as_str(), rows[k].location.as_str()) {
                Some((item_id, longitude, latitude)) => {
                    let f = LocationFields { item_id: ItemId(item_id), longitude, latitude };
                    let ghost fv = fields_view(f);
                    out.push(f);
                    assert(out@.map_values(|f: LocationFields| fields_view(f)) =~= rows_fields(pre).push(fv));
                },
                None => {},
            }
        }
        seen.push(id);
        k = k + 1;
    }
    assert(views.take(rows@.len() as int) =~= views);
    out
}

/// One row per item: the item ids of the rows read are pairwise distinct,
/// and each is the id of one of the result rows.
pub proof fn lemma_one_row_per_item(rows: Seq<(Seq<char>, Seq<char>)>)
    ensures
        forall|i: int, j: int| 0 <= i < j < rows_fields(rows).len() ==>
            (#[trigger] rows_fields(rows)[i]).0 != (#[trigger] rows_fields(rows)[j]).0,
        forall|i: int| 0 <= i < rows_fields(rows).len() ==> exists|k: int|
            0 <= k < rows.len() && (#[trigger] rows_fields(rows)[i]).0 == after_last(rows[k].0, '/'),
    decreases rows.len(),
{
    if rows.len() > 0 {
        let init = rows.drop_last();
        lemma_one_row_per_item(init);
        let rest = rows_fields(init);
        let k = rows.len() - 1;
        assert forall|i: int| 0 <= i < rest.len() implies exists|m: int|
            0 <= m < rows.len() && (#[trigger] rest[i]).0 == after_last(rows[m].0, '/') by {
            let m = choose|m: int| 0 <= m < init.len() && rest[i].0 == after_last(init[m].0, '/');
            assert(init[m] == rows[m]);
        }
        if !seen_before(rows, k) {
            match row_fields(rows[k].0, rows[k].1) {
                Some(f) => {
                    let out = rest.push(f);
                    assert(f.0 == after_last(rows[k].0, '/'));
                    assert forall|i: int| 0 <= i < rest.len() implies (#[trigger] out[i]).0 != f.0 by {
                        let m = choose|m: int| 0 <= m < init.len() && rest[i].0 == after_last(init[m].0, '/');
                        assert(init[m] == rows[m]);
                        if rest[i].0 == f.0 {
                            assert(after_last(rows[m].0, '/') == after_last(rows[k].0, '/'));
                            assert(seen_before(rows, k));
                        }
                    }
                    assert forall|i: int, j: int| 0 <= i < j < out.len() implies
                        (#[trigger] out[i]).0 != (#[trigger] out[j]).0 by {
                        if j == rest.len() {
                            assert(out[i] == rest[i]);
                        } else {
                            assert(out[i] == rest[i] && out[j] == rest[j]);
                        }
                    }
                    assert forall|i: int| 0 <= i < out.len() implies exists|m: int|
                        0 <= m < rows.len() && (#[trigger] out[i]).0 == after_last(rows[m].0, '/') by {
                        if i == rest.len() {
                            assert(out[i].0 == after_last(rows[k].0, '/'));
                        } else {
                            assert(out[i] == rest[i]);
                        }
                    }
                },
                None => {},
            }
        }
    }
}

} // verus!
