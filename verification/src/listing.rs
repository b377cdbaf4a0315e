//! The entries of a map in ascending order of their keys.

use vstd::prelude::*;

verus! {

/// Whether `s` holds the entries of `m`, each once, in strictly ascending
/// order of their keys.
pub open spec fn is_listing<V>(m: Map<u64, V>, s: Seq<(u64, V)>) -> bool {
    &&& forall|i: int| 0 <= i < s.len() ==> m.contains_key(#[trigger] s[i].0) && m[s[i].0] == s[i].1
    &&& forall|i: int, j: int| 0 <= i < j < s.len() ==> #[trigger] s[i].0 < #[trigger] s[j].0
    &&& forall|k: u64| #[trigger]
        m.contains_key(k) ==> exists|i: int| 0 <= i < s.len() && #[trigger] s[i].0 == k
}

/// The entries of `m` in ascending order of their keys.
pub open spec fn listing<V>(m: Map<u64, V>) -> Seq<(u64, V)> {
    choose|s: Seq<(u64, V)>| is_listing(m, s)
}

/// The keys of a sequence of entries.
pub open spec fn keys_of<V>(s: Seq<(u64, V)>) -> Seq<u64> {
    s.map_values(|e: (u64, V)| e.0)
}

/// The values of a sequence of entries.
pub open spec fn values_of<V>(s: Seq<(u64, V)>) -> Seq<V> {
    s.map_values(|e: (u64, V)| e.1)
}

proof fn lemma_agree_up_to<V>(m: Map<u64, V>, a: Seq<(u64, V)>, b: Seq<(u64, V)>, n: int)
    requires
        is_listing(m, a),
        is_listing(m, b),
        0 <= n <= a.len(),
    ensures
        n <= b.len(),
        forall|i: int| 0 <= i < n ==> a[i] == b[i],
    decreases n,
{
    if n > 0 {
        lemma_agree_up_to(m, a, b, n - 1);
        let k = a[n - 1].0;
        assert(m.contains_key(k));
        let j = choose|j: int| 0 <= j < b.len() && b[j].0 == k;
        if j < n - 1 {
            assert(a[j].0 < a[n - 1].0);
        } else if j > n - 1 {
            let k2 = b[n - 1].0;
            assert(m.contains_key(k2));
            let i = choose|i: int| 0 <= i < a.len() && a[i].0 == k2;
            assert(b[n - 1].0 < b[j].0);
            if i < n - 1 {
                assert(b[i].0 < b[n - 1].0);
            } else if i > n - 1 {
                assert(a[n - 1].0 < a[i].0);
            }
        }
        assert(j == n - 1);
        assert(a[n - 1] == b[n - 1]);
    }
}

/// A map has at most one listing.
pub proof fn lemma_listing_unique<V>(m: Map<u64, V>, a: Seq<(u64, V)>, b: Seq<(u64, V)>)
    requires
        is_listing(m, a),
        is_listing(m, b),
    ensures
        a == b,
{
    lemma_agree_up_to(m, a, b, a.len() as int);
    lemma_agree_up_to(m, b, a, b.len() as int);
    assert(a =~= b);
}

/// A sequence that lists a map is the listing of that map.
pub proof fn lemma_listing_is<V>(m: Map<u64, V>, s: Seq<(u64, V)>)
    requires
        is_listing(m, s),
    ensures
        listing(m) == s,
{
    lemma_listing_unique(m, s, listing(m));
}

/// A listing has as many entries as the map has keys, and the map is finite.
pub proof fn lemma_listing_len<V>(m: Map<u64, V>, s: Seq<(u64, V)>)
    requires
        is_listing(m, s),
    ensures
        m.dom().finite(),
        s.len() == m.dom().len(),
{
    let keys = keys_of(s);
    assert(keys.no_duplicates()) by {
        assert forall|i: int, j: int| 0 <= i < keys.len() && 0 <= j < keys.len() && i != j implies keys[i]
            != keys[j] by {
            if i < j {
                assert(s[i].0 < s[j].0);
            } else {
                assert(s[j].0 < s[i].0);
            }
        }
    }
    assert(keys.to_set() =~= m.dom()) by {
        assert forall|k: u64| keys.to_set().contains(k) <==> m.dom().contains(k) by {
            if keys.to_set().contains(k) {
                let i = choose|i: int| 0 <= i < keys.len() && keys[i] == k;
                assert(m.contains_key(s[i].0));
            }
            if m.contains_key(k) {
                let i = choose|i: int| 0 <= i < s.len() && s[i].0 == k;
                assert(keys[i] == k);
            }
        }
    }
    keys.unique_seq_to_set();
    vstd::seq_lib::seq_to_set_is_finite(keys);
}

/// Whether `k` is in `s` and no key of `s` is greater.
pub open spec fn is_greatest(s: Set<u64>, k: u64) -> bool {
    s.contains(k) && forall|j: u64| s.contains(j) ==> j <= k
}

proof fn lemma_greatest_exists(s: Set<u64>)
    requires
        s.finite(),
        s.len() > 0,
    ensures
        exists|k: u64| is_greatest(s, k),
    decreases s.len(),
{
    let x = s.choose();
    let rest = s.remove(x);
    if rest.len() == 0 {
        assert forall|j: u64| s.contains(j) implies j <= x by {
            if j != x {
                assert(rest.contains(j));
            }
        }
        assert(is_greatest(s, x));
    } else {
        lemma_greatest_exists(rest);
        let g = choose|k: u64| is_greatest(rest, k);
        let top = if x > g { x } else { g };
        assert forall|j: u64| s.contains(j) implies j <= top by {
            if j != x {
                assert(rest.contains(j));
            }
        }
        assert(is_greatest(s, top));
    }
}

/// Every finite map has a listing.
pub proof fn lemma_listing_exists<V>(m: Map<u64, V>)
    requires
        m.dom().finite(),
    ensures
        is_listing(m, listing(m)),
    decreases m.dom().len(),
{
    if m.dom().len() == 0 {
        let s = Seq::<(u64, V)>::empty();
        assert forall|k: u64| m.contains_key(k) implies false by {
            assert(m.dom().contains(k));
        }
        assert(is_listing(m, s));
    } else {
        lemma_greatest_exists(m.dom());
        let top = choose|k: u64| is_greatest(m.dom(), k);
        let rest = m.remove(top);
        lemma_listing_exists(rest);
        let below = listing(rest);
        let s = below.push((top, m[top]));
        assert forall|i: int, j: int| 0 <= i < j < s.len() implies s[i].0 < s[j].0 by {
            if j == below.len() {
                assert(rest.contains_key(below[i].0));
            }
        }
        assert forall|k: u64| m.contains_key(k) implies exists|i: int|
            0 <= i < s.len() && #[trigger] s[i].0 == k by {
            if k == top {
                assert(s[below.len() as int].0 == k);
            } else {
                assert(rest.contains_key(k));
                let i = choose|i: int| 0 <= i < below.len() && below[i].0 == k;
                assert(s[i].0 == k);
            }
        }
        assert forall|i: int| 0 <= i < s.len() implies m.contains_key(#[trigger] s[i].0) && m[s[i].0]
            == s[i].1 by {
            if i < below.len() {
                assert(rest.contains_key(below[i].0));
            }
        }
        assert(is_listing(m, s));
    }
}

/// The listing of a finite map is sorted, holds every entry once, and has as
/// many entries as the map has keys.
pub proof fn lemma_listing<V>(m: Map<u64, V>)
    requires
        m.dom().finite(),
    ensures
        is_listing(m, listing(m)),
        listing(m).len() == m.dom().len(),
{
    lemma_listing_exists(m);
    lemma_listing_len(m, listing(m));
}

/// Entering an entry under a key that is not in use makes the listing one
/// longer.
pub proof fn lemma_listing_grows<V>(m: Map<u64, V>, k: u64, v: V)
    requires
        m.dom().finite(),
        !m.contains_key(k),
    ensures
        listing(m.insert(k, v)).len() == listing(m).len() + 1,
{
    lemma_listing(m);
    lemma_listing(m.insert(k, v));
}

/// Taking out an entry makes the listing one shorter.
pub proof fn lemma_listing_shrinks<V>(m: Map<u64, V>, k: u64)
    requires
        m.dom().finite(),
        m.contains_key(k),
    ensures
        listing(m.remove(k)).len() == listing(m).len() - 1,
{
    lemma_listing(m);
    lemma_listing(m.remove(k));
}

/// Replacing the value of a key that is in use keeps the length of the
/// listing.
pub proof fn lemma_listing_keeps<V>(m: Map<u64, V>, k: u64, v: V)
    requires
        m.dom().finite(),
        m.contains_key(k),
    ensures
        listing(m.insert(k, v)).len() == listing(m).len(),
{
    lemma_listing(m);
    lemma_listing(m.insert(k, v));
    assert(m.insert(k, v).dom() =~= m.dom());
}

} // verus!
