//! Facts about walking a hash map entry by entry.
//!
//! A walk hands out every entry once, in an order that nothing fixes. The
//! loops that merge one map into another state their invariant over the
//! part of the map that the walk has already handed out.

use vstd::prelude::*;
use vstd::std_specs::hash::spec_hash_map_iter;
use vstd::std_specs::iter::IteratorSpec;
use std::collections::HashMap;

verus! {

/// Whether one of the first `n` entries of the walk `s` has the key `k`.
pub open spec fn seen<V>(s: Seq<(&u64, &V)>, n: int, k: u64) -> bool {
    exists|j: int| 0 <= j < n && *(#[trigger] s[j]).0 == k
}

/// The part of `m` that the first `n` entries of the walk `s` cover.
pub open spec fn visited<V>(m: Map<u64, V>, s: Seq<(&u64, &V)>, n: int) -> Map<u64, V> {
    Map::new(|k: u64| seen(s, n, k), |k: u64| m[k])
}

/// Before the walk starts, nothing is covered.
pub proof fn lemma_visited_none<V>(m: Map<u64, V>, s: Seq<(&u64, &V)>)
    ensures
        visited(m, s, 0) == Map::<u64, V>::empty(),
{
    assert(visited(m, s, 0) =~= Map::<u64, V>::empty());
}

/// One more step of a walk over `m` covers exactly one more entry, whose
/// key was not covered before.
pub proof fn lemma_visited_step<V>(m: &HashMap<u64, V>, s: Seq<(&u64, &V)>, n: int)
    requires
        s == spec_hash_map_iter(m).remaining(),
        s.no_duplicates(),
        0 <= n < s.len(),
    ensures
        m@.contains_key(*s[n].0),
        m@[*s[n].0] == *s[n].1,
        !visited(m@, s, n).contains_key(*s[n].0),
        visited(m@, s, n + 1) == visited(m@, s, n).insert(*s[n].0, *s[n].1),
{
    broadcast use vstd::std_specs::hash::group_hash_axioms;

    let k = *s[n].0;
    assert(m@.contains_key(*s[n].0) && m@[*s[n].0] == *s[n].1);
    if seen(s, n, k) {
        let j = choose|j: int| 0 <= j < n && *(#[trigger] s[j]).0 == k;
        assert(m@.contains_key(*s[j].0) && m@[*s[j].0] == *s[j].1);
        assert(s[j] == s[n]);
    }
    assert forall|x: u64| seen(s, n + 1, x) <==> (seen(s, n, x) || x == k) by {
        if seen(s, n + 1, x) {
            let j = choose|j: int| 0 <= j < n + 1 && *(#[trigger] s[j]).0 == x;
            if j < n {
                assert(seen(s, n, x));
            }
        }
        if seen(s, n, x) {
            let j = choose|j: int| 0 <= j < n && *(#[trigger] s[j]).0 == x;
            assert(0 <= j < n + 1 && *s[j].0 == x);
        }
        if x == k {
            assert(0 <= n < n + 1 && *s[n].0 == x);
        }
    }
    assert(visited(m@, s, n + 1) =~= visited(m@, s, n).insert(k, *s[n].1));
}

/// When the walk is over, all of `m` is covered.
pub proof fn lemma_visited_all<V>(m: &HashMap<u64, V>, s: Seq<(&u64, &V)>)
    requires
        s == spec_hash_map_iter(m).remaining(),
    ensures
        visited(m@, s, s.len() as int) == m@,
{
    broadcast use vstd::std_specs::hash::group_hash_axioms;

    assert forall|k: u64| m@.contains_key(k) <==> seen(s, s.len() as int, k) by {
        if m@.contains_key(k) {
            assert(s.contains((&k, &m@[k])));
            let j = choose|j: int| 0 <= j < s.len() && s[j] == (&k, &m@[k]);
            assert(*s[j].0 == k);
        }
        if seen(s, s.len() as int, k) {
            let j = choose|j: int| 0 <= j < s.len() && *(#[trigger] s[j]).0 == k;
            assert(m@.contains_key(*s[j].0));
        }
    }
    assert(visited(m@, s, s.len() as int) =~= m@);
}

} // verus!
