//! Listings of maps keyed by `u32`: the entries in increasing key order, and
//! a verified sort that produces them.

use vstd::prelude::*;

verus! {

/// A listing of a map: its entries in strictly increasing key order.
pub open spec fn is_sorted_listing<V>(s: Seq<(u32, V)>, m: Map<u32, V>) -> bool {
    &&& forall|i: int, j: int| 0 <= i < j < s.len() ==> s[i].0 < s[j].0
    &&& forall|i: int|
        0 <= i < s.len() ==> m.contains_key(#[trigger] s[i].0) && m[s[i].0] == s[i].1
    &&& forall|k: u32| #[trigger] m.contains_key(k) ==> exists|i: int| 0 <= i < s.len() && s[i].0 == k
}

/// The listing of a map (there is exactly one for a finite map).
pub open spec fn sorted_listing<V>(m: Map<u32, V>) -> Seq<(u32, V)> {
    choose|s: Seq<(u32, V)>| is_sorted_listing(s, m)
}

proof fn lemma_listing_prefix<V>(s1: Seq<(u32, V)>, s2: Seq<(u32, V)>, m: Map<u32, V>, i: int)
    requires
        is_sorted_listing(s1, m),
        is_sorted_listing(s2, m),
        0 <= i <= s1.len(),
        i <= s2.len(),
    ensures
        forall|j: int| 0 <= j < i ==> s1[j] == s2[j],
    decreases i,
{
    if i > 0 {
        let k = i - 1;
        lemma_listing_prefix(s1, s2, m, k);
        if s1[k].0 < s2[k].0 {
            let x = s1[k].0;
            assert(m.contains_key(x));
            let j2 = choose|j: int| 0 <= j < s2.len() && s2[j].0 == x;
            if j2 < k {
                assert(s1[j2] == s2[j2]);
                assert(s1[j2].0 < s1[k].0);
            } else if j2 > k {
                assert(s2[k].0 < s2[j2].0);
            }
        } else if s2[k].0 < s1[k].0 {
            let x = s2[k].0;
            assert(m.contains_key(x));
            let j1 = choose|j: int| 0 <= j < s1.len() && s1[j].0 == x;
            if j1 < k {
                assert(s1[j1] == s2[j1]);
                assert(s2[j1].0 < s2[k].0);
            } else if j1 > k {
                assert(s1[k].0 < s1[j1].0);
            }
        }
        assert(s1[k].0 == s2[k].0);
        assert(m[s1[k].0] == s1[k].1);
        assert(m[s2[k].0] == s2[k].1);
    }
}

/// A map has at most one listing.
pub proof fn lemma_sorted_listing_unique<V>(s1: Seq<(u32, V)>, s2: Seq<(u32, V)>, m: Map<u32, V>)
    requires
        is_sorted_listing(s1, m),
        is_sorted_listing(s2, m),
    ensures
        s1 == s2,
{
    if s1.len() < s2.len() {
        lemma_listing_prefix(s1, s2, m, s1.len() as int);
        let y = s2[s1.len() as int].0;
        assert(m.contains_key(y));
        let j1 = choose|j: int| 0 <= j < s1.len() && s1[j].0 == y;
        assert(s1[j1] == s2[j1]);
        assert(s2[j1].0 < s2[s1.len() as int].0);
    } else if s2.len() < s1.len() {
        lemma_listing_prefix(s1, s2, m, s2.len() as int);
        let y = s1[s2.len() as int].0;
        assert(m.contains_key(y));
        let j2 = choose|j: int| 0 <= j < s2.len() && s2[j].0 == y;
        assert(s1[j2] == s2[j2]);
        assert(s1[j2].0 < s1[s2.len() as int].0);
    } else {
        lemma_listing_prefix(s1, s2, m, s1.len() as int);
        assert(s1 =~= s2);
    }
}

/// The map built by inserting the first `k` entries of a listing in order.
pub open spec fn listing_map<V>(s: Seq<(u32, V)>, k: int) -> Map<u32, V>
    decreases k,
{
    if k <= 0 {
        Map::empty()
    } else {
        listing_map(s, k - 1).insert(s[k - 1].0, s[k - 1].1)
    }
}

pub proof fn lemma_listing_map<V>(s: Seq<(u32, V)>, k: int)
    requires
        0 <= k <= s.len(),
        forall|i: int, j: int| 0 <= i < j < s.len() ==> s[i].0 < s[j].0,
    ensures
        forall|x: u32|
            #[trigger] listing_map(s, k).contains_key(x) <==> exists|i: int| 0 <= i < k && s[i].0 == x,
        forall|i: int| 0 <= i < k ==> #[trigger] listing_map(s, k)[s[i].0] == s[i].1,
    decreases k,
{
    if k > 0 {
        lemma_listing_map(s, k - 1);
        let prev = listing_map(s, k - 1);
        assert(listing_map(s, k) == prev.insert(s[k - 1].0, s[k - 1].1));
        assert forall|x: u32| #[trigger] listing_map(s, k).contains_key(x) implies exists|i: int|
            0 <= i < k && s[i].0 == x by {
            if x != s[k - 1].0 {
                assert(prev.contains_key(x));
            }
        }
        assert forall|x: u32| (exists|i: int| 0 <= i < k && s[i].0 == x) implies #[trigger] listing_map(
            s,
            k,
        ).contains_key(x) by {
            let i = choose|i: int| 0 <= i < k && s[i].0 == x;
            if i < k - 1 {
                assert(prev.contains_key(x));
            }
        }
        assert forall|i: int| 0 <= i < k implies #[trigger] listing_map(s, k)[s[i].0] == s[i].1 by {
            if i < k - 1 {
                assert(s[i].0 < s[k - 1].0);
                assert(prev[s[i].0] == s[i].1);
            }
        }
    }
}

pub proof fn lemma_listing_map_full<V>(s: Seq<(u32, V)>, m: Map<u32, V>)
    requires
        is_sorted_listing(s, m),
    ensures
        listing_map(s, s.len() as int) == m,
{
    lemma_listing_map(s, s.len() as int);
    let lm = listing_map(s, s.len() as int);
    assert forall|x: u32| #[trigger] lm.contains_key(x) <==> m.contains_key(x) by {
        if m.contains_key(x) {
            let i = choose|i: int| 0 <= i < s.len() && s[i].0 == x;
        }
        if lm.contains_key(x) {
            let i = choose|i: int| 0 <= i < s.len() && s[i].0 == x;
        }
    }
    assert forall|x: u32| #[trigger] lm.contains_key(x) implies lm[x] == m[x] by {
        let i = choose|i: int| 0 <= i < s.len() && s[i].0 == x;
        assert(lm[s[i].0] == s[i].1);
    }
    assert(lm =~= m);
}

proof fn lemma_insert_keeps_sorted<T>(prev: Seq<(u32, T)>, pos: int, e: (u32, T))
    requires
        0 <= pos <= prev.len(),
        forall|a: int, b: int| 0 <= a < b < prev.len() ==> prev[a].0 < prev[b].0,
        forall|a: int| 0 <= a < pos ==> #[trigger] prev[a].0 < e.0,
        pos < prev.len() ==> prev[pos].0 >= e.0,
        forall|a: int| 0 <= a < prev.len() ==> #[trigger] prev[a].0 != e.0,
    ensures
        forall|a: int, b: int|
            0 <= a < b < prev.len() + 1 ==> prev.insert(pos, e)[a].0 < prev.insert(pos, e)[b].0,
{
    let out = prev.insert(pos, e);
    assert forall|a: int, b: int| 0 <= a < b < out.len() implies out[a].0 < out[b].0 by {
        if b < pos {
        } else if b == pos {
        } else if a < pos {
            assert(out[b] == prev[b - 1]);
            assert(prev[pos].0 != e.0);
            if b - 1 > pos {
                assert(prev[pos].0 < prev[b - 1].0);
            }
        } else if a == pos {
            assert(out[b] == prev[b - 1]);
            assert(prev[pos].0 != e.0);
            if b - 1 > pos {
                assert(prev[pos].0 < prev[b - 1].0);
            }
        } else {
            assert(out[a] == prev[a - 1]);
            assert(out[b] == prev[b - 1]);
        }
    }
}

/// The first index at or after `i` whose key is above `k`, or the length.
spec fn first_above<V>(s: Seq<(u32, V)>, k: u32, i: int) -> int
    decreases s.len() - i,
{
    if i < 0 || i >= s.len() || s[i].0 > k {
        i
    } else {
        first_above(s, k, i + 1)
    }
}

proof fn lemma_first_above<V>(s: Seq<(u32, V)>, k: u32, i: int)
    requires
        0 <= i <= s.len(),
    ensures
        i <= first_above(s, k, i) <= s.len(),
        forall|a: int| i <= a < first_above(s, k, i) ==> s[a].0 <= k,
        first_above(s, k, i) < s.len() ==> s[first_above(s, k, i)].0 > k,
    decreases s.len() - i,
{
    if i < s.len() && s[i].0 <= k {
        lemma_first_above(s, k, i + 1);
    }
}

/// Every map with finitely many `u32` keys has a listing.
pub proof fn lemma_sorted_listing_exists<V>(m: Map<u32, V>)
    requires
        m.dom().finite(),
    ensures
        is_sorted_listing(sorted_listing(m), m),
    decreases m.dom().len(),
{
    if m.dom().len() == 0 {
        m.dom().lemma_len0_is_empty();
        let e = Seq::<(u32, V)>::empty();
        assert forall|k: u32| #[trigger] m.contains_key(k) implies exists|i: int|
            0 <= i < e.len() && e[i].0 == k by {
            assert(m.dom().contains(k));
        }
        assert(is_sorted_listing(e, m));
    } else {
        let k = m.dom().choose();
        assert(m.dom().contains(k));
        let m2 = m.remove(k);
        assert(m2.dom() =~= m.dom().remove(k));
        lemma_sorted_listing_exists(m2);
        let s2 = sorted_listing(m2);
        lemma_first_above(s2, k, 0);
        let pos = first_above(s2, k, 0);
        let e = (k, m[k]);
        assert forall|a: int| 0 <= a < s2.len() implies #[trigger] s2[a].0 != e.0 by {
            assert(m2.contains_key(s2[a].0));
        }
        assert forall|a: int| 0 <= a < pos implies #[trigger] s2[a].0 < e.0 by {
            assert(s2[a].0 <= k);
            assert(m2.contains_key(s2[a].0));
        }
        lemma_insert_keeps_sorted(s2, pos, e);
        let s = s2.insert(pos, e);
        assert forall|i: int| 0 <= i < s.len() implies m.contains_key(#[trigger] s[i].0) && m[s[i].0]
            == s[i].1 by {
            if i < pos {
                assert(s[i] == s2[i]);
                assert(m2.contains_key(s2[i].0));
            } else if i > pos {
                assert(s[i] == s2[i - 1]);
                assert(m2.contains_key(s2[i - 1].0));
            }
        }
        assert forall|x: u32| #[trigger] m.contains_key(x) implies exists|i: int| 0 <= i < s.len() && s[i].0 == x by {
            if x == k {
                assert(s[pos].0 == x);
            } else {
                assert(m2.contains_key(x));
                let j = choose|j: int| 0 <= j < s2.len() && s2[j].0 == x;
                if j < pos {
                    assert(s[j] == s2[j]);
                } else {
                    assert(s[j + 1] == s2[j]);
                }
            }
        }
        assert(is_sorted_listing(s, m));
    }
}

/// Every element of `out` is one of the first `n` elements of `v`.
#[verifier::opaque]
pub open spec fn drawn_from<T>(out: Seq<(u32, T)>, v: Seq<(u32, T)>, n: int) -> bool {
    forall|a: int| 0 <= a < out.len() ==> exists|j: int| 0 <= j < n && #[trigger] out[a] == v[j]
}

/// Each of the first `n` elements of `v` occurs in `out`.
#[verifier::opaque]
pub open spec fn holds_all<T>(out: Seq<(u32, T)>, v: Seq<(u32, T)>, n: int) -> bool {
    forall|j: int| 0 <= j < n ==> exists|a: int| 0 <= a < out.len() && out[a] == #[trigger] v[j]
}

proof fn lemma_insert_keeps_sources<T>(prev: Seq<(u32, T)>, pos: int, v: Seq<(u32, T)>, i: int)
    requires
        0 <= pos <= prev.len(),
        0 <= i < v.len(),
        drawn_from(prev, v, i),
        holds_all(prev, v, i),
    ensures
        drawn_from(prev.insert(pos, v[i]), v, i + 1),
        holds_all(prev.insert(pos, v[i]), v, i + 1),
{
    reveal(drawn_from);
    reveal(holds_all);
    let out = prev.insert(pos, v[i]);
    assert forall|a: int| 0 <= a < out.len() implies exists|j: int|
        0 <= j < i + 1 && #[trigger] out[a] == v[j] by {
        if a < pos {
            let j = choose|j: int| 0 <= j < i && prev[a] == v[j];
            assert(out[a] == v[j]);
        } else if a == pos {
            assert(out[a] == v[i]);
        } else {
            let j = choose|j: int| 0 <= j < i && prev[a - 1] == v[j];
            assert(out[a] == v[j]);
        }
    }
    assert forall|j: int| 0 <= j < i + 1 implies exists|a: int|
        0 <= a < out.len() && out[a] == #[trigger] v[j] by {
        if j == i {
            assert(out[pos] == v[j]);
        } else {
            let a = choose|a: int| 0 <= a < prev.len() && prev[a] == v[j];
            if a < pos {
                assert(out[a] == v[j]);
            } else {
                assert(out[a + 1] == v[j]);
            }
        }
    }
}

/// Inserts `e` into strictly increasing `out` where its key belongs; returns
/// the position.
fn insert_by_id<T: Copy>(out: &mut Vec<(u32, T)>, e: (u32, T)) -> (pos: usize)
    requires
        forall|a: int, b: int| 0 <= a < b < old(out)@.len() ==> old(out)@[a].0 < old(out)@[b].0,
        forall|a: int| 0 <= a < old(out)@.len() ==> #[trigger] old(out)@[a].0 != e.0,
    ensures
        pos <= old(out)@.len(),
        final(out)@ == old(out)@.insert(pos as int, e),
        forall|a: int, b: int| 0 <= a < b < final(out)@.len() ==> final(out)@[a].0 < final(out)@[b].0,
{
    let mut pos: usize = 0;
    while pos < out.len() && out[pos].0 < e.0
        invariant
            pos <= out@.len(),
            forall|a: int| 0 <= a < pos ==> #[trigger] out@[a].0 < e.0,
        decreases out@.len() - pos,
    {
        pos = pos + 1;
    }
    proof {
        lemma_insert_keeps_sorted(out@, pos as int, e);
    }
    out.insert(pos, e);
    pos
}

/// Sorts entries with distinct IDs into increasing ID order.
pub fn sort_by_id<T: Copy>(v: Vec<(u32, T)>) -> (out: Vec<(u32, T)>)
    requires
        forall|i: int, j: int| 0 <= i < j < v@.len() ==> v@[i].0 != v@[j].0,
    ensures
        out@.len() == v@.len(),
        forall|i: int, j: int| 0 <= i < j < out@.len() ==> out@[i].0 < out@[j].0,
        drawn_from(out@, v@, v@.len() as int),
        holds_all(out@, v@, v@.len() as int),
{
    let mut out: Vec<(u32, T)> = Vec::new();
    let mut i: usize = 0;
    proof {
        reveal(drawn_from);
        reveal(holds_all);
    }
    while i < v.len()
        invariant
            i <= v@.len(),
            forall|a: int, b: int| 0 <= a < b < v@.len() ==> v@[a].0 != v@[b].0,
            out@.len() == i,
            forall|a: int, b: int| 0 <= a < b < out@.len() ==> out@[a].0 < out@[b].0,
            drawn_from(out@, v@, i as int),
            holds_all(out@, v@, i as int),
        decreases v@.len() - i,
    {
        let e = v[i];
        proof {
            reveal(drawn_from);
            assert forall|a: int| 0 <= a < out@.len() implies #[trigger] out@[a].0 != e.0 by {
                let j = choose|j: int| 0 <= j < i && out@[a] == v@[j];
                assert(v@[j].0 != v@[i as int].0);
            }
        }
        let ghost prev = out@;
        let pos = insert_by_id(&mut out, e);
        proof {
            lemma_insert_keeps_sources(prev, pos as int, v@, i as int);
        }
        i = i + 1;
    }
    out
}

/// Entries with each value taken by its view.
pub open spec fn viewed<T: View>(v: Seq<(u32, T)>) -> Seq<(u32, T::V)> {
    v.map_values(|p: (u32, T)| (p.0, p.1@))
}

/// Sorting the entries of a map (each key once, with its value) gives the
/// map's listing.
pub proof fn lemma_sorted_entries_listing<T: View>(v: Seq<(u32, T)>, sorted: Seq<(u32, T)>, m: Map<u32, T::V>)
    requires
        forall|i: int| 0 <= i < v.len() ==> m.contains_key(#[trigger] v[i].0) && m[v[i].0] == v[i].1@,
        forall|k: u32| #[trigger] m.contains_key(k) ==> exists|i: int| 0 <= i < v.len() && v[i].0 == k,
        sorted.len() == v.len(),
        forall|i: int, j: int| 0 <= i < j < sorted.len() ==> sorted[i].0 < sorted[j].0,
        drawn_from(sorted, v, v.len() as int),
        holds_all(sorted, v, v.len() as int),
    ensures
        is_sorted_listing(viewed(sorted), m),
        viewed(sorted) == sorted_listing(m),
{
    reveal(drawn_from);
    reveal(holds_all);
    let s = viewed(sorted);
    assert forall|k: u32| #[trigger] m.contains_key(k) implies exists|i: int|
        0 <= i < s.len() && s[i].0 == k by {
        let j = choose|j: int| 0 <= j < v.len() && v[j].0 == k;
        let a = choose|a: int| 0 <= a < sorted.len() && sorted[a] == v[j];
        assert(s[a].0 == k);
    }
    assert forall|i: int| 0 <= i < s.len() implies m.contains_key(#[trigger] s[i].0) && m[s[i].0]
        == s[i].1 by {
        let j = choose|j: int| 0 <= j < v.len() && sorted[i] == v[j];
    }
    assert(is_sorted_listing(s, m));
    lemma_sorted_listing_unique(s, sorted_listing(m), m);
}

} // verus!
