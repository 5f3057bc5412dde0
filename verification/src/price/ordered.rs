//! Ordered listings of price-keyed maps: the levels a price move crosses and
//! full listings in increasing price order.
use vstd::prelude::*;

use std::collections::BTreeMap;
use vstd::std_specs::cmp::OrdSpec;
use vstd::std_specs::iter::IteratorSpec;

use crate::price::key::{ManualPriceDirection, PriceKey};

verus! {

/// Whether a level at `k` lies in the span that a move from `previous` to
/// `current` crosses in `direction`: `(previous, current]` upward,
/// `[current, previous)` downward.
pub open spec fn crossed(direction: ManualPriceDirection, previous: i64, current: i64, k: i64) -> bool {
    match direction {
        ManualPriceDirection::Above => previous < k <= current,
        ManualPriceDirection::Below => current <= k < previous,
    }
}

/// `out` lists, in increasing price order, exactly the levels of `m` that a
/// move from `previous` to `current` crosses in `direction`.
pub open spec fn lists_crossed<V>(
    out: Seq<(PriceKey, V)>,
    m: Map<i64, V>,
    direction: ManualPriceDirection,
    previous: i64,
    current: i64,
) -> bool {
    &&& forall|i: int, j: int| 0 <= i < j < out.len() ==> out[i].0.0 < out[j].0.0
    &&& forall|i: int|
        0 <= i < out.len() ==> {
            &&& m.contains_key(#[trigger] out[i].0.0)
            &&& m[out[i].0.0] == out[i].1
            &&& crossed(direction, previous, current, out[i].0.0)
        }
    &&& forall|k: i64|
        m.contains_key(k) && crossed(direction, previous, current, k) ==> exists|i: int|
            0 <= i < out.len() && #[trigger] out[i].0.0 == k
}

/// `out` lists every level of `m`, in increasing price order.
pub open spec fn lists_all<V>(out: Seq<(PriceKey, V)>, m: Map<i64, V>) -> bool {
    &&& forall|i: int, j: int| 0 <= i < j < out.len() ==> out[i].0.0 < out[j].0.0
    &&& forall|i: int|
        0 <= i < out.len() ==> m.contains_key(#[trigger] out[i].0.0) && m[out[i].0.0] == out[i].1
    &&& forall|k: i64| m.contains_key(k) ==> exists|i: int| 0 <= i < out.len() && #[trigger] out[i].0.0 == k
}

/// Iterates a level map in increasing price order.
fn ordered_levels<V>(map: &BTreeMap<i64, V>) -> (iter: std::collections::btree_map::Iter<'_, i64, V>)
    ensures
        forall|a: int, b: int|
            0 <= a < b < iter.remaining().len() ==> *iter.remaining()[a].0 < *iter.remaining()[b].0,
        forall|j: int|
            0 <= j < iter.remaining().len() ==> map@.contains_key(*iter.remaining()[j].0)
                && map@[*iter.remaining()[j].0] == *iter.remaining()[j].1,
        forall|q: i64|
            map@.contains_key(q) ==> exists|j: int|
                0 <= j < iter.remaining().len() && *iter.remaining()[j].0 == q,
        IteratorSpec::decrease(&iter) is Some,
        IteratorSpec::initial_value_relation(&iter, &iter),
{
    let iter = map.iter();
    proof {
        let s = iter.remaining();
        let keys = s.map_values(|kv: (&i64, &V)| *kv.0);
        assert(vstd::laws_cmp::obeys_cmp::<i64>());
        assert(vstd::std_specs::btree::key_obeys_cmp_spec::<i64>());
        assert(vstd::std_specs::btree::increasing_seq(keys));
        assert forall|a: int, b: int| 0 <= a < b < s.len() implies *s[a].0 < *s[b].0 by {
            assert(keys[a] == *s[a].0);
            assert(keys[b] == *s[b].0);
            assert(keys[a].cmp_spec(&keys[b]) is Less);
        }
        assert forall|q: i64| map@.contains_key(q) implies exists|j: int|
            0 <= j < s.len() && *s[j].0 == q by {
            assert(s.contains((&q, &map@[q])));
        }
    }
    iter
}

/// Collects, in increasing price order, the levels of `map` crossed by a move
/// from `previous` to `current` in `direction`.
pub fn collect_crossed<V: Copy>(
    map: &BTreeMap<i64, V>,
    direction: ManualPriceDirection,
    previous: i64,
    current: i64,
) -> (out: Vec<(PriceKey, V)>)
    ensures
        lists_crossed(out@, map@, direction, previous, current),
{
    let iter = ordered_levels(map);
    let ghost s = iter.remaining();
    let mut out: Vec<(PriceKey, V)> = Vec::new();
    for (k, e) in it: iter
        invariant
            it.seq() == s,
            forall|a: int, b: int| 0 <= a < b < s.len() ==> *s[a].0 < *s[b].0,
            forall|j: int|
                0 <= j < s.len() ==> map@.contains_key(*s[j].0) && map@[*s[j].0] == *s[j].1,
            forall|q: i64| map@.contains_key(q) ==> exists|j: int| 0 <= j < s.len() && *s[j].0 == q,
            forall|i: int, j: int|
                0 <= i < out.len() && it.index() <= j < s.len() ==> out@[i].0.0 < *s[j].0,
            forall|i: int, j: int| 0 <= i < j < out.len() ==> out@[i].0.0 < out@[j].0.0,
            forall|i: int|
                0 <= i < out.len() ==> {
                    &&& map@.contains_key(#[trigger] out@[i].0.0)
                    &&& map@[out@[i].0.0] == out@[i].1
                    &&& crossed(direction, previous, current, out@[i].0.0)
                },
            forall|j: int|
                0 <= j < it.index() && crossed(direction, previous, current, *s[j].0) ==> exists|i: int|
                    0 <= i < out.len() && #[trigger] out@[i].0.0 == *s[j].0,
    {
        let hit = match direction {
            ManualPriceDirection::Above => previous < *k && *k <= current,
            ManualPriceDirection::Below => current <= *k && *k < previous,
        };
        let ghost before = out@;
        assert(k == s[it.index()].0 && e == s[it.index()].1);
        if hit {
            out.push((PriceKey(*k), *e));
            proof {
                assert(out@[before.len() as int].0.0 == *s[it.index()].0);
            }
        }
        proof {
            assert forall|j: int|
                0 <= j < it.index() + 1 && crossed(direction, previous, current, *s[j].0) implies exists|i: int|
                    0 <= i < out.len() && #[trigger] out@[i].0.0 == *s[j].0 by {
                if j < it.index() {
                    let i = choose|i: int| 0 <= i < before.len() && #[trigger] before[i].0.0 == *s[j].0;
                    assert(out@[i] == before[i]);
                } else {
                    assert(out@[before.len() as int].0.0 == *s[j].0);
                }
            }
        }
    }
    proof {
        assert forall|q: i64| map@.contains_key(q) && crossed(direction, previous, current, q)
            implies exists|i: int| 0 <= i < out@.len() && #[trigger] out@[i].0.0 == q by {
            let j = choose|j: int| 0 <= j < s.len() && *s[j].0 == q;
            assert(crossed(direction, previous, current, *s[j].0));
        }
    }
    out
}

/// Lists every level of `map` in increasing price order.
pub fn collect_all<V: Copy>(map: &BTreeMap<i64, V>) -> (out: Vec<(PriceKey, V)>)
    ensures
        lists_all(out@, map@),
{
    let iter = ordered_levels(map);
    let ghost s = iter.remaining();
    let mut out: Vec<(PriceKey, V)> = Vec::new();
    for (k, e) in it: iter
        invariant
            it.seq() == s,
            forall|a: int, b: int| 0 <= a < b < s.len() ==> *s[a].0 < *s[b].0,
            forall|j: int|
                0 <= j < s.len() ==> map@.contains_key(*s[j].0) && map@[*s[j].0] == *s[j].1,
            forall|q: i64| map@.contains_key(q) ==> exists|j: int| 0 <= j < s.len() && *s[j].0 == q,
            out@.len() == it.index(),
            forall|i: int| 0 <= i < out.len() ==> out@[i] == (PriceKey(*s[i].0), *s[i].1),
    {
        assert(k == s[it.index()].0 && e == s[it.index()].1);
        out.push((PriceKey(*k), *e));
    }
    proof {
        assert forall|q: i64| map@.contains_key(q) implies exists|i: int| 0 <= i < out@.len() && #[trigger] out@[i].0.0 == q by {
            let j = choose|j: int| 0 <= j < s.len() && *s[j].0 == q;
            assert(out@[j].0.0 == q);
        }
        assert forall|a: int, b: int| 0 <= a < b < out@.len() implies out@[a].0.0 < out@[b].0.0 by {
            assert(out@[a].0.0 == *s[a].0);
            assert(out@[b].0.0 == *s[b].0);
        }
        assert forall|a: int| 0 <= a < out@.len() implies map@.contains_key(#[trigger] out@[a].0.0) && map@[out@[a].0.0] == out@[a].1 by {
            assert(out@[a].0.0 == *s[a].0);
        }
    }
    out
}

/// A listing of every level of `m` has one entry per level.
pub proof fn lemma_listed_len<V>(out: Seq<(PriceKey, V)>, m: Map<i64, V>)
    requires
        lists_all(out, m),
        m.dom().finite(),
    ensures
        out.len() == m.dom().len(),
{
    let keys = out.map_values(|p: (PriceKey, V)| p.0.0);
    assert forall|i: int, j: int| 0 <= i < keys.len() && 0 <= j < keys.len() && i != j implies keys[i] != keys[j] by {
        if i < j {
            assert(out[i].0.0 < out[j].0.0);
        } else {
            assert(out[j].0.0 < out[i].0.0);
        }
    }
    assert(keys.no_duplicates());
    assert(keys.to_set() =~= m.dom()) by {
        assert forall|k: i64| keys.to_set().contains(k) <==> m.dom().contains(k) by {
            if m.dom().contains(k) {
                let i = choose|i: int| 0 <= i < out.len() && #[trigger] out[i].0.0 == k;
                assert(keys[i] == k);
            }
            if keys.to_set().contains(k) {
                let i = choose|i: int| 0 <= i < keys.len() && keys[i] == k;
                assert(out[i].0.0 == k);
            }
        }
    }
    keys.unique_seq_to_set();
}

} // verus!
