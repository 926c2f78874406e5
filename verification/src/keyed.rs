//! Lists of entries keyed by text, with no key twice, read as maps.
use vstd::prelude::*;

verus! {

/// No key occurs twice.
pub open spec fn unique_keys<V>(s: Seq<(Seq<char>, V)>) -> bool {
    forall|i: int, j: int| 0 <= i < j < s.len() ==> #[trigger] s[i].0 != #[trigger] s[j].0
}

/// The map that the entries make up (a later entry wins, which with unique keys never matters).
pub open spec fn to_map<V>(s: Seq<(Seq<char>, V)>) -> Map<Seq<char>, V>
    decreases s.len(),
{
    if s.len() == 0 {
        Map::empty()
    } else {
        to_map(s.drop_last()).insert(s.last().0, s.last().1)
    }
}

/// A key is in the map exactly when some entry has it, and then maps to that entry's value.
pub proof fn lemma_to_map_lookup<V>(s: Seq<(Seq<char>, V)>)
    requires
        unique_keys(s),
    ensures
        forall|k: Seq<char>|
            #[trigger] to_map(s).dom().contains(k) <==> exists|i: int| 0 <= i < s.len() && s[i].0 == k,
        forall|i: int| 0 <= i < s.len() ==> #[trigger] to_map(s)[s[i].0] == s[i].1,
    decreases s.len(),
{
    if s.len() > 0 {
        let t = s.drop_last();
        assert(unique_keys(t)) by {
            assert forall|i: int, j: int| 0 <= i < j < t.len() implies #[trigger] t[i].0 != #[trigger] t[j].0 by {
                assert(t[i] == s[i] && t[j] == s[j]);
            }
        }
        lemma_to_map_lookup(t);
        assert forall|k: Seq<char>|
            #[trigger] to_map(s).dom().contains(k) <==> exists|i: int| 0 <= i < s.len() && s[i].0 == k by {
            if to_map(s).dom().contains(k) {
                if k == s.last().0 {
                    assert(s[s.len() - 1].0 == k);
                } else {
                    assert(to_map(t).dom().contains(k));
                    let i = choose|i: int| 0 <= i < t.len() && t[i].0 == k;
                    assert(s[i] == t[i]);
                    assert(0 <= i < s.len() && s[i].0 == k);
                }
            }
            if exists|i: int| 0 <= i < s.len() && s[i].0 == k {
                let i = choose|i: int| 0 <= i < s.len() && s[i].0 == k;
                if i < s.len() - 1 {
                    assert(t[i] == s[i]);
                    assert(0 <= i < t.len() && t[i].0 == k);
                    assert(to_map(t).dom().contains(k));
                }
            }
        }
        assert forall|i: int| 0 <= i < s.len() implies #[trigger] to_map(s)[s[i].0] == s[i].1 by {
            if i < s.len() - 1 {
                assert(t[i] == s[i]);
                assert(s[i].0 != s[s.len() - 1].0);
                assert(to_map(t)[t[i].0] == t[i].1);
                assert(0 <= i < t.len() && t[i].0 == t[i].0);
                assert(to_map(t).dom().contains(t[i].0));
            }
        }
    }
}

pub proof fn lemma_unique_drop_last<V>(s: Seq<(Seq<char>, V)>)
    requires
        unique_keys(s),
        s.len() > 0,
    ensures
        unique_keys(s.drop_last()),
{
    let t = s.drop_last();
    assert forall|i: int, j: int| 0 <= i < j < t.len() implies #[trigger] t[i].0 != #[trigger] t[j].0 by {
        assert(t[i] == s[i] && t[j] == s[j]);
    }
}

/// Replacing the value of the entry with key `k` replaces it in the map.
pub proof fn lemma_to_map_update<V>(s: Seq<(Seq<char>, V)>, i: int, v: V)
    requires
        unique_keys(s),
        0 <= i < s.len(),
    ensures
        to_map(s.update(i, (s[i].0, v))) == to_map(s).insert(s[i].0, v),
        unique_keys(s.update(i, (s[i].0, v))),
    decreases s.len(),
{
    let k = s[i].0;
    let u = s.update(i, (k, v));
    assert(unique_keys(u)) by {
        assert forall|a: int, b: int| 0 <= a < b < u.len() implies #[trigger] u[a].0 != #[trigger] u[b].0 by {
            assert(u[a].0 == s[a].0 && u[b].0 == s[b].0);
        }
    }
    let t = s.drop_last();
    lemma_unique_drop_last(s);
    if i == s.len() - 1 {
        assert(u.drop_last() =~= t);
        assert(to_map(u) =~= to_map(s).insert(k, v));
    } else {
        lemma_to_map_update(t, i, v);
        assert(u.drop_last() =~= t.update(i, (k, v)));
        assert(s.last().0 != k);
        assert(to_map(u) =~= to_map(s).insert(k, v));
    }
}

/// Removing the entry with key `k` removes `k` from the map.
pub proof fn lemma_to_map_remove<V>(s: Seq<(Seq<char>, V)>, i: int)
    requires
        unique_keys(s),
        0 <= i < s.len(),
    ensures
        to_map(s.remove(i)) == to_map(s).remove(s[i].0),
        unique_keys(s.remove(i)),
    decreases s.len(),
{
    let k = s[i].0;
    let r = s.remove(i);
    assert(unique_keys(r)) by {
        assert forall|a: int, b: int| 0 <= a < b < r.len() implies #[trigger] r[a].0 != #[trigger] r[b].0 by {
            let a2 = if a < i { a } else { a + 1 };
            let b2 = if b < i { b } else { b + 1 };
            assert(r[a] == s[a2] && r[b] == s[b2]);
        }
    }
    let t = s.drop_last();
    lemma_unique_drop_last(s);
    if i == s.len() - 1 {
        assert(r =~= t);
        lemma_to_map_lookup(t);
        assert(!to_map(t).dom().contains(k)) by {
            if to_map(t).dom().contains(k) {
                let j = choose|j: int| 0 <= j < t.len() && t[j].0 == k;
                assert(s[j].0 == s[s.len() - 1].0);
            }
        }
        assert(to_map(r) =~= to_map(s).remove(k));
    } else {
        lemma_to_map_remove(t, i);
        assert(r.drop_last() =~= t.remove(i));
        assert(r.last() == s.last());
        assert(s.last().0 != k);
        assert(to_map(r) =~= to_map(s).remove(k));
    }
}

/// Adding an entry whose key is not there yet adds it to the map.
pub proof fn lemma_to_map_push<V>(s: Seq<(Seq<char>, V)>, k: Seq<char>, v: V)
    requires
        unique_keys(s),
        !to_map(s).dom().contains(k),
    ensures
        to_map(s.push((k, v))) == to_map(s).insert(k, v),
        unique_keys(s.push((k, v))),
{
    let p = s.push((k, v));
    assert(p.drop_last() =~= s);
    lemma_to_map_lookup(s);
    assert(unique_keys(p)) by {
        assert forall|a: int, b: int| 0 <= a < b < p.len() implies #[trigger] p[a].0 != #[trigger] p[b].0 by {
            if b == s.len() {
                assert(p[a] == s[a]);
                assert(to_map(s).dom().contains(s[a].0));
            } else {
                assert(p[a] == s[a] && p[b] == s[b]);
            }
        }
    }
}

} // verus!
