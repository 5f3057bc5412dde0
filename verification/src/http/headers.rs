//! Header lists: name/value pairs read as a map in which a later pair
//! replaces an earlier one of the same name.
use vstd::prelude::*;

verus! {

/// The map a list of header pairs stands for; a later pair wins.
pub open spec fn pairs_map(s: Seq<(String, String)>) -> Map<Seq<char>, Seq<char>>
    decreases s.len(),
{
    if s.len() == 0 {
        Map::empty()
    } else {
        pairs_map(s.drop_last()).insert(s.last().0@, s.last().1@)
    }
}

/// Whether no header name occurs twice in the list.
pub open spec fn distinct_names(s: Seq<(String, String)>) -> bool {
    forall|i: int, j: int| 0 <= i < j < s.len() ==> #[trigger] s[i].0@ != #[trigger] s[j].0@
}

/// Replacing the value of the one pair named `k` is inserting `k` into the map.
proof fn lemma_update_is_insert(s: Seq<(String, String)>, j: int, p: (String, String))
    requires
        distinct_names(s),
        0 <= j < s.len(),
        s[j].0@ == p.0@,
    ensures
        pairs_map(s.update(j, p)) == pairs_map(s).insert(p.0@, p.1@),
    decreases s.len(),
{
    let t = s.update(j, p);
    if j == s.len() - 1 {
        assert(t.drop_last() =~= s.drop_last());
        assert(pairs_map(t) =~= pairs_map(s).insert(p.0@, p.1@));
    } else {
        let d = s.drop_last();
        assert(t.drop_last() =~= d.update(j, p));
        assert(distinct_names(d));
        lemma_update_is_insert(d, j, p);
        assert(s.last().0@ != p.0@);
        assert(pairs_map(t) =~= pairs_map(s).insert(p.0@, p.1@));
    }
}

/// The map holds `k` at the value of the last pair named `k`, if any.
proof fn lemma_last_named(s: Seq<(String, String)>, k: Seq<char>, j: int)
    requires
        -1 <= j < s.len(),
        j >= 0 ==> s[j].0@ == k,
        forall|i: int| j < i < s.len() ==> #[trigger] s[i].0@ != k,
    ensures
        j >= 0 ==> pairs_map(s).contains_key(k) && pairs_map(s)[k] == s[j].1@,
        j < 0 ==> !pairs_map(s).contains_key(k),
    decreases s.len(),
{
    if s.len() > 0 && j < s.len() - 1 {
        let d = s.drop_last();
        assert forall|i: int| j < i < d.len() implies #[trigger] d[i].0@ != k by {
            assert(d[i] == s[i]);
        }
        lemma_last_named(d, k, j);
    }
}

/// Sets header `name` to `value`: replaces the value of the pair with that
/// name, or adds a pair at the end.
pub fn insert_header(headers: &mut Vec<(String, String)>, name: String, value: String)
    requires
        distinct_names(old(headers)@),
    ensures
        distinct_names(final(headers)@),
        pairs_map(final(headers)@) == pairs_map(old(headers)@).insert(name@, value@),
{
    let n = headers.len();
    let mut i: usize = 0;
    while i < n
        invariant
            n == headers@.len(),
            headers@ == old(headers)@,
            distinct_names(headers@),
            i <= n,
            forall|k: int| 0 <= k < i ==> #[trigger] headers@[k].0@ != name@,
        decreases n - i,
    {
        if crate::text::str_eq(headers[i].0.as_str(), name.as_str()) {
            let ghost before = headers@;
            let ghost p = (name, value);
            proof {
                lemma_update_is_insert(before, i as int, p);
            }
            headers.set(i, (name, value));
            proof {
                assert(headers@ == before.update(i as int, p));
                assert forall|a: int, b: int| 0 <= a < b < headers@.len() implies
                    #[trigger] headers@[a].0@ != #[trigger] headers@[b].0@ by {
                    assert(before[a].0@ != before[b].0@);
                }
            }
            return;
        }
        i += 1;
    }
    let ghost before = headers@;
    headers.push((name, value));
    proof {
        assert(headers@.drop_last() =~= before);
        assert forall|a: int, b: int| 0 <= a < b < headers@.len() implies
            #[trigger] headers@[a].0@ != #[trigger] headers@[b].0@ by {
            if b < before.len() {
                assert(before[a].0@ != before[b].0@);
            }
        }
    }
}

/// The value the header map holds for `name`: the value of the last pair
/// with that name.
pub fn header_value<'a>(headers: &'a Vec<(String, String)>, name: &str) -> (r: Option<&'a String>)
    ensures
        match r {
            Some(v) => pairs_map(headers@).contains_key(name@) && v@ == pairs_map(headers@)[name@],
            None => !pairs_map(headers@).contains_key(name@),
        },
{
    let n = headers.len();
    let mut i: usize = n;
    while i > 0
        invariant
            n == headers@.len(),
            i <= n,
            forall|k: int| i <= k < n ==> #[trigger] headers@[k].0@ != name@,
        decreases i,
    {
        i -= 1;
        if crate::text::str_eq(headers[i].0.as_str(), name) {
            proof {
                lemma_last_named(headers@, name@, i as int);
            }
            return Some(&headers[i].1);
        }
    }
    proof {
        lemma_last_named(headers@, name@, -1);
    }
    None
}

} // verus!
