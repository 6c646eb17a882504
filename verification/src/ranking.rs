//! Stable ordering by a numeric key, highest key first (what sorting by
//! `Reverse(key)` with a stable sort does).

use vstd::prelude::*;

verus! {

/// Where an entry with key `k` goes in a list already ordered highest key
/// first: after every entry whose key is at least `k`.
pub open spec fn insert_pos<T>(s: Seq<(u64, T)>, k: u64) -> nat
    decreases s.len(),
{
    if s.len() == 0 {
        0
    } else if s[0].0 < k {
        0
    } else {
        1 + insert_pos(s.drop_first(), k)
    }
}

/// The stable highest-key-first order of `s`: each entry, taken in order,
/// goes after all earlier entries whose key is at least its own.
pub open spec fn sort_desc<T>(s: Seq<(u64, T)>) -> Seq<(u64, T)>
    decreases s.len(),
{
    if s.len() == 0 {
        s
    } else {
        let t = sort_desc(s.drop_last());
        t.insert(insert_pos(t, s.last().0) as int, s.last())
    }
}

/// Keys never increase along the sequence.
pub open spec fn is_desc<T>(s: Seq<(u64, T)>) -> bool {
    forall|i: int, j: int| 0 <= i < j < s.len() ==> s[i].0 >= s[j].0
}

proof fn lemma_insert_pos_le<T>(s: Seq<(u64, T)>, k: u64)
    ensures
        insert_pos(s, k) <= s.len(),
    decreases s.len(),
{
    if s.len() > 0 {
        lemma_insert_pos_le(s.drop_first(), k);
    }
}

proof fn lemma_insert_pos_bounds<T>(s: Seq<(u64, T)>, k: u64)
    requires
        is_desc(s),
    ensures
        insert_pos(s, k) <= s.len(),
        forall|i: int| 0 <= i < insert_pos(s, k) ==> s[i].0 >= k,
        forall|i: int| insert_pos(s, k) <= i < s.len() ==> s[i].0 < k,
    decreases s.len(),
{
    if s.len() > 0 && s[0].0 >= k {
        let r = s.drop_first();
        assert(is_desc(r));
        lemma_insert_pos_bounds(r, k);
        assert forall|i: int| 0 <= i < insert_pos(s, k) implies s[i].0 >= k by {
            if i > 0 {
                assert(s[i] == r[i - 1]);
            }
        }
        assert forall|i: int| insert_pos(s, k) <= i < s.len() implies s[i].0 < k by {
            assert(s[i] == r[i - 1]);
        }
    }
}

/// The stable order is ordered highest key first and holds the same entries.
pub proof fn lemma_sort_desc_props<T>(s: Seq<(u64, T)>)
    ensures
        is_desc(sort_desc(s)),
        sort_desc(s).len() == s.len(),
        sort_desc(s).to_multiset() == s.to_multiset(),
    decreases s.len(),
{
    broadcast use vstd::seq_lib::group_to_multiset_ensures;
    if s.len() > 0 {
        let t = sort_desc(s.drop_last());
        lemma_sort_desc_props(s.drop_last());
        let x = s.last();
        let p = insert_pos(t, x.0) as int;
        lemma_insert_pos_bounds(t, x.0);
        let u = t.insert(p, x);
        assert forall|i: int, j: int| 0 <= i < j < u.len() implies u[i].0 >= u[j].0 by {
            if j < p {
            } else if j == p {
            } else if i < p {
                assert(u[j] == t[j - 1]);
            } else if i == p {
                assert(u[j] == t[j - 1]);
            } else {
                assert(u[i] == t[i - 1]);
                assert(u[j] == t[j - 1]);
            }
        }
        t.to_multiset_ensures();
        assert(u.to_multiset() == t.to_multiset().insert(x)) by {
            vstd::seq_lib::to_multiset_insert(t, p, x);
        }
        assert(s =~= s.drop_last().push(x));
        s.drop_last().to_multiset_ensures();
    }
}

/// Finds where an entry with key `k` goes.
fn find_insert_pos<T>(v: &Vec<(u64, T)>, k: u64) -> (p: usize)
    ensures
        p as nat == insert_pos(v@, k),
{
    let mut i: usize = 0;
    assert(v@.skip(0) =~= v@);
    while i < v.len()
        invariant
            0 <= i <= v@.len(),
            forall|j: int| 0 <= j < i ==> v@[j].0 >= k,
            insert_pos(v@, k) == i + insert_pos(v@.skip(i as int), k),
        decreases v@.len() - i,
    {
        let ghost rest = v@.skip(i as int);
        assert(rest[0] == v@[i as int]);
        if v[i].0 < k {
            return i;
        }
        assert(rest.drop_first() =~= v@.skip(i + 1));
        i = i + 1;
    }
    assert(v@.skip(i as int).len() == 0);
    i
}

/// Orders entries highest key first, keeping the input order among equal keys.
pub fn stable_sort_desc<T>(v: Vec<(u64, T)>) -> (r: Vec<(u64, T)>)
    ensures
        r@ == sort_desc(v@),
{
    let ghost orig = v@;
    let mut input = v;
    let mut out: Vec<(u64, T)> = Vec::new();
    let n = input.len();
    let mut i: usize = 0;
    while i < n
        invariant
            n == orig.len(),
            0 <= i <= n,
            input@ == orig.skip(i as int),
            out@ == sort_desc(orig.take(i as int)),
        decreases n - i,
    {
        let x = input.remove(0);
        assert(orig.take(i + 1).drop_last() =~= orig.take(i as int));
        assert(orig.take(i + 1).last() == x);
        assert(input@ =~= orig.skip(i + 1));
        let p = find_insert_pos(&out, x.0);
        proof {
            lemma_insert_pos_le(out@, x.0);
        }
        out.insert(p, x);
        i = i + 1;
    }
    assert(orig.take(n as int) =~= orig);
    out
}

/// The entries without their keys.
pub fn strip_keys<T>(v: Vec<(u64, T)>) -> (r: Vec<T>)
    ensures
        r@ == v@.map_values(|x: (u64, T)| x.1),
{
    let ghost orig = v@;
    let mut input = v;
    let mut out: Vec<T> = Vec::new();
    let n = input.len();
    let mut i: usize = 0;
    while i < n
        invariant
            n == orig.len(),
            0 <= i <= n,
            input@ == orig.skip(i as int),
            out@ == orig.take(i as int).map_values(|x: (u64, T)| x.1),
        decreases n - i,
    {
        let x = input.remove(0);
        assert(input@ =~= orig.skip(i + 1));
        out.push(x.1);
        assert(orig.take(i + 1).map_values(|x: (u64, T)| x.1) =~= orig.take(i as int).map_values(|x: (u64, T)| x.1).push(x.1));
        i = i + 1;
    }
    assert(orig.take(n as int) =~= orig);
    out
}

} // verus!
